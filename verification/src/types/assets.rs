//! Image asset records and the URL-building rules for them.
//!
//! Asset records carry relative folder and file fragments; full URLs are
//! built by concatenation against a fixed static-asset origin. The
//! optional logo fragment already includes its folder, while the mandatory
//! small image is joined as folder, slash, file.

use vstd::prelude::*;
use vstd::string::*;

verus! {

/// The fixed origin asset fragments are joined against.
pub open spec fn spec_asset_base() -> Seq<char> {
    "https://images-static.iracing.com"@
}

pub fn asset_base() -> (r: &'static str)
    ensures
        r@ == spec_asset_base(),
{
    "https://images-static.iracing.com"
}

/// The car asset catalogue, keyed by car identifier text, in body order.
pub type CarAssetsMap = Vec<(String, CarAssets)>;

/// The track asset catalogue, keyed by track identifier text, in body
/// order.
pub type TrackAssetsMap = Vec<(String, TrackAssets)>;

/// Spec view of a car's asset record.
pub ghost struct CarAssetsView {
    pub car_id: int,
    pub folder: Seq<char>,
    pub logo: Option<Seq<char>>,
    pub small_image: Seq<char>,
}

/// A car's image asset record.
#[derive(Debug, Clone, PartialEq, Eq)]
pub struct CarAssets {
    pub car_id: i64,
    folder: String,
    logo: Option<String>,
    small_image: String,
}

/// Spec view of a track's asset record.
pub ghost struct TrackAssetsView {
    pub track_id: int,
    pub folder: Seq<char>,
    pub logo: Option<Seq<char>>,
    pub small_image: Seq<char>,
}

/// A track's image asset record.
#[derive(Debug, Clone, PartialEq, Eq)]
pub struct TrackAssets {
    pub track_id: i64,
    folder: String,
    logo: Option<String>,
    small_image: String,
}

/// The spec form of an optional text field.
pub open spec fn view_opt_str(o: Option<String>) -> Option<Seq<char>> {
    match o {
        Some(s) => Some(s@),
        None => None,
    }
}

impl View for CarAssets {
    type V = CarAssetsView;

    closed spec fn view(&self) -> CarAssetsView {
        CarAssetsView {
            car_id: self.car_id as int,
            folder: self.folder@,
            logo: view_opt_str(self.logo),
            small_image: self.small_image@,
        }
    }
}

impl View for TrackAssets {
    type V = TrackAssetsView;

    closed spec fn view(&self) -> TrackAssetsView {
        TrackAssetsView {
            track_id: self.track_id as int,
            folder: self.folder@,
            logo: view_opt_str(self.logo),
            small_image: self.small_image@,
        }
    }
}

impl CarAssets {
    pub fn new(car_id: i64, folder: String, logo: Option<String>, small_image: String) -> (r: Self)
        ensures
            r@ == (CarAssetsView {
                car_id: car_id as int,
                folder: folder@,
                logo: view_opt_str(logo),
                small_image: small_image@,
            }),
    {
        CarAssets { car_id, folder, logo, small_image }
    }

    /// The full logo URL: the asset origin followed by the logo fragment,
    /// for the records that carry one.
    pub fn logo_url(&self) -> (r: Option<String>)
        ensures
            match self@.logo {
                None => r is None,
                Some(l) => r matches Some(u) && u@ == spec_asset_base() + l,
            },
    {
        match &self.logo {
            None => None,
            Some(l) => {
                let mut out = String::from_str(asset_base());
                out.append(l.as_str());
                Some(out)
            },
        }
    }

    /// The full small-image URL: the asset origin, the folder, a slash,
    /// and the file; always present.
    pub fn small_image_url(&self) -> (r: String)
        ensures
            r@ == spec_asset_base() + self@.folder + "/"@ + self@.small_image,
    {
        let mut out = String::from_str(asset_base());
        out.append(self.folder.as_str());
        out.append("/");
        out.append(self.small_image.as_str());
        proof {
            assert(out@ =~= spec_asset_base() + self@.folder + "/"@ + self@.small_image);
        }
        out
    }
}

impl TrackAssets {
    pub fn new(track_id: i64, folder: String, logo: Option<String>, small_image: String) -> (r:
        Self)
        ensures
            r@ == (TrackAssetsView {
                track_id: track_id as int,
                folder: folder@,
                logo: view_opt_str(logo),
                small_image: small_image@,
            }),
    {
        TrackAssets { track_id, folder, logo, small_image }
    }

    /// The full logo URL: the asset origin followed by the logo fragment,
    /// for the records that carry one.
    pub fn logo_url(&self) -> (r: Option<String>)
        ensures
            match self@.logo {
                None => r is None,
                Some(l) => r matches Some(u) && u@ == spec_asset_base() + l,
            },
    {
        match &self.logo {
            None => None,
            Some(l) => {
                let mut out = String::from_str(asset_base());
                out.append(l.as_str());
                Some(out)
            },
        }
    }

    /// The full small-image URL: the asset origin, the folder, a slash,
    /// and the file; always present.
    pub fn small_image_url(&self) -> (r: String)
        ensures
            r@ == spec_asset_base() + self@.folder + "/"@ + self@.small_image,
    {
        let mut out = String::from_str(asset_base());
        out.append(self.folder.as_str());
        out.append("/");
        out.append(self.small_image.as_str());
        proof {
            assert(out@ =~= spec_asset_base() + self@.folder + "/"@ + self@.small_image);
        }
        out
    }
}

} // verus!
