//! The protocol decisions of the client: endpoint addresses, login
//! response classification, and the two-hop redirect fetch.
//!
//! The transport is outside the library; every function here takes what
//! came back over the wire (an HTTP status and a body) and decides,
//! exactly, what the call's outcome is. Non-success statuses are transport
//! errors, never coerced into a body shape; bodies that match no expected
//! shape fail closed as malformed, named with the hop they were seen at.

use vstd::prelude::*;
use vstd::string::*;
use crate::json::{
    ShallowValue, SpecValue, spec_parse_flat, parse_flat_object, lookup_field, lookup_or_null,
    int_of, str_of, bool_of, view_fields, get_field, spec_parse_object_map, parse_object_map,
    view_map, spec_render_int, render_int,
};
use crate::{Error, TransportError, Hop, SuccessfulAuth, UnsuccessfulAuth, AuthResponse};
use crate::types::assets::{CarAssets, TrackAssets, CarAssetsView, TrackAssetsView};

verus! {

/// The fixed base origin all protocol requests are made under.
pub open spec fn spec_base_url() -> Seq<char> {
    "https://members-ng.iracing.com/"@
}

pub fn base_url() -> (r: &'static str)
    ensures
        r@ == spec_base_url(),
{
    "https://members-ng.iracing.com/"
}

/// The address the serialized credential is posted to.
pub fn auth_url() -> (r: String)
    ensures
        r@ == spec_base_url() + "auth"@,
{
    let mut u = String::from_str(base_url());
    u.append("auth");
    u
}

/// The typed resources the client can fetch, each a fixed path under the
/// base origin.
#[derive(Debug, Clone, Copy, PartialEq, Eq, Structural)]
pub enum Resource {
    MemberInfo,
    CarInfo,
    CarAssets,
    TrackInfo,
    TrackAssets,
    SeriesSeasons,
}

pub open spec fn spec_route(r: Resource) -> Seq<char> {
    match r {
        Resource::MemberInfo => "data/member/info"@,
        Resource::CarInfo => "data/car/get"@,
        Resource::CarAssets => "data/car/assets"@,
        Resource::TrackInfo => "data/track/get"@,
        Resource::TrackAssets => "data/track/assets"@,
        Resource::SeriesSeasons => "data/series/seasons"@,
    }
}

pub fn route(r: Resource) -> (s: &'static str)
    ensures
        s@ == spec_route(r),
{
    match r {
        Resource::MemberInfo => "data/member/info",
        Resource::CarInfo => "data/car/get",
        Resource::CarAssets => "data/car/assets",
        Resource::TrackInfo => "data/track/get",
        Resource::TrackAssets => "data/track/assets",
        Resource::SeriesSeasons => "data/series/seasons",
    }
}

/// The full address of a resource's first fetch hop: the base origin ends
/// in a slash and every route is relative, so joining is concatenation.
pub fn request_url(r: Resource) -> (u: String)
    ensures
        u@ == spec_base_url() + spec_route(r),
{
    let mut u = String::from_str(base_url());
    u.append(route(r));
    u
}

/// A 200-class HTTP status.
pub open spec fn is_success_status(status: u16) -> bool {
    200 <= status < 300
}

/// The success shape of a login body: an auth code (issued as text, or as
/// a number by some generations), a numeric customer identifier, and an
/// echoed email.
pub open spec fn success_shape(f: Seq<(Seq<char>, SpecValue)>) -> bool {
    &&& (lookup_field(f, "authcode"@) matches Some(a) && (a is Str || a is Int))
    &&& (lookup_field(f, "custId"@) matches Some(c) && c is Int)
    &&& (lookup_field(f, "email"@) matches Some(e) && e is Str)
}

/// The failure shape of a login body: a numeric failure code, the
/// inactive flag, a message, and the verification-required flag.
pub open spec fn failure_shape(f: Seq<(Seq<char>, SpecValue)>) -> bool {
    &&& (lookup_field(f, "authcode"@) matches Some(a) && a is Int)
    &&& (lookup_field(f, "inactive"@) matches Some(i) && i is Bool)
    &&& (lookup_field(f, "message"@) matches Some(m) && m is Str)
    &&& (lookup_field(f, "verificationRequired"@) matches Some(v) && v is Bool)
}

/// The auth code as text: a textual code verbatim, a numeric one in its
/// decimal rendering.
pub open spec fn spec_authcode_text(v: SpecValue) -> Seq<char> {
    match v {
        SpecValue::Str(s) => s,
        SpecValue::Int(n) => spec_render_int(n),
        _ => Seq::empty(),
    }
}

/// What a login exchange's outcome is, decided from the status and body.
pub ghost enum SpecLogin {
    Transport(u16),
    Malformed,
    Success { authcode: Seq<char>, cust_id: int, email: Seq<char> },
    Failure { authcode: int, inactive: bool, message: Seq<char>, verification_required: bool },
}

/// The login decision: a non-success status is a transport error; a
/// success-status body is tried against the success shape first, then the
/// failure shape; a body matching neither is malformed, never a success.
pub open spec fn spec_classify_login(status: u16, body: Seq<char>) -> SpecLogin {
    if !is_success_status(status) {
        SpecLogin::Transport(status)
    } else {
        match spec_parse_flat(body) {
            None => SpecLogin::Malformed,
            Some(f) => if success_shape(f) {
                SpecLogin::Success {
                    authcode: spec_authcode_text(lookup_or_null(f, "authcode"@)),
                    cust_id: int_of(lookup_or_null(f, "custId"@)),
                    email: str_of(lookup_or_null(f, "email"@)),
                }
            } else if failure_shape(f) {
                SpecLogin::Failure {
                    authcode: int_of(lookup_or_null(f, "authcode"@)),
                    inactive: bool_of(lookup_or_null(f, "inactive"@)),
                    message: str_of(lookup_or_null(f, "message"@)),
                    verification_required: bool_of(lookup_or_null(f, "verificationRequired"@)),
                }
            } else {
                SpecLogin::Malformed
            },
        }
    }
}

/// Classify the response of the login exchange, exactly as
/// [`spec_classify_login`] decides it.
pub fn classify_login_response(status: u16, body: &str) -> (r: Result<AuthResponse, Error>)
    ensures
        match spec_classify_login(status, body@) {
            SpecLogin::Transport(st) => r == Err::<AuthResponse, Error>(
                Error::RequestError(TransportError { status: Some(st) }),
            ),
            SpecLogin::Malformed => r == Err::<AuthResponse, Error>(
                Error::MalformedResponse(Hop::Login),
            ),
            SpecLogin::Success { authcode, cust_id, email } => r matches Ok(
                AuthResponse::Success(sa),
            ) && sa.authcode@ == authcode && sa.cust_id as int == cust_id && sa.email@ == email,
            SpecLogin::Failure { authcode, inactive, message, verification_required } => r matches Ok(
                AuthResponse::Failure(ua),
            ) && ua.authcode as int == authcode && ua.inactive == inactive && ua.message@ == message
                && ua.verification_required == verification_required,
        },
{
    if !(200 <= status && status < 300) {
        return Err(Error::RequestError(TransportError { status: Some(status) }));
    }
    let fields = match parse_flat_object(body) {
        None => { return Err(Error::MalformedResponse(Hop::Login)); },
        Some(f) => f,
    };
    // success shape first
    let authcode_txt: Option<String> = match get_field(&fields, "authcode") {
        Some(v) => match v {
            ShallowValue::Str(s) => Some(s.clone()),
            ShallowValue::Int(n) => Some(render_int(*n)),
            _ => None,
        },
        None => None,
    };
    let cust: Option<i64> = match get_field(&fields, "custId") {
        Some(v) => match v {
            ShallowValue::Int(n) => Some(*n),
            _ => None,
        },
        None => None,
    };
    let mail: Option<String> = match get_field(&fields, "email") {
        Some(v) => match v {
            ShallowValue::Str(s) => Some(s.clone()),
            _ => None,
        },
        None => None,
    };
    if authcode_txt.is_some() && cust.is_some() && mail.is_some() {
        return Ok(
            AuthResponse::Success(
                SuccessfulAuth {
                    authcode: authcode_txt.unwrap(),
                    cust_id: cust.unwrap(),
                    email: mail.unwrap(),
                },
            ),
        );
    }
    // then the failure shape
    let code: Option<i64> = match get_field(&fields, "authcode") {
        Some(v) => match v {
            ShallowValue::Int(n) => Some(*n),
            _ => None,
        },
        None => None,
    };
    let inactive: Option<bool> = match get_field(&fields, "inactive") {
        Some(v) => match v {
            ShallowValue::Bool(b) => Some(*b),
            _ => None,
        },
        None => None,
    };
    let message: Option<String> = match get_field(&fields, "message") {
        Some(v) => match v {
            ShallowValue::Str(s) => Some(s.clone()),
            _ => None,
        },
        None => None,
    };
    let verification: Option<bool> = match get_field(&fields, "verificationRequired") {
        Some(v) => match v {
            ShallowValue::Bool(b) => Some(*b),
            _ => None,
        },
        None => None,
    };
    if code.is_some() && inactive.is_some() && message.is_some() && verification.is_some() {
        return Ok(
            AuthResponse::Failure(
                UnsuccessfulAuth {
                    authcode: code.unwrap(),
                    inactive: inactive.unwrap(),
                    message: message.unwrap(),
                    verification_required: verification.unwrap(),
                },
            ),
        );
    }
    Err(Error::MalformedResponse(Hop::Login))
}

/// What `url::Url::parse` makes of a string: the normalized serialization
/// of a valid absolute URL, or nothing; a pure function of the text alone.
pub uninterp spec fn url_normalized(s: Seq<char>) -> Option<Seq<char>>;

/// Relies on `url::Url::parse`: a pure parser that accepts exactly the
/// valid absolute URLs, and on `Url::as_str`, the parsed URL's normalized
/// serialization.
#[verifier::external_body]
fn parse_url(s: &str) -> (r: Option<String>)
    ensures
        (r is Some <==> url_normalized(s@) is Some),
        r matches Some(u) ==> url_normalized(s@) matches Some(n) && u@ == n,
{
    match url::Url::parse(s) {
        Ok(u) => Some(String::from(u.as_str())),
        Err(_) => None,
    }
}

/// What the first fetch hop's outcome is, decided from status and body.
pub ghost enum SpecRedirect {
    Transport(u16),
    Malformed,
    Link(Seq<char>),
}

/// The redirect decision: a non-success status is a transport error; a
/// success-status body must be an object carrying a `link` field holding a
/// valid URL, and anything else is malformed at the redirect hop.
pub open spec fn spec_redirect(status: u16, body: Seq<char>) -> SpecRedirect {
    if !is_success_status(status) {
        SpecRedirect::Transport(status)
    } else {
        match spec_parse_flat(body) {
            None => SpecRedirect::Malformed,
            Some(f) => match lookup_field(f, "link"@) {
                Some(SpecValue::Str(l)) => match url_normalized(l) {
                    Some(u) => SpecRedirect::Link(u),
                    None => SpecRedirect::Malformed,
                },
                _ => SpecRedirect::Malformed,
            },
        }
    }
}

/// Decode the first hop of a fetch: the signed, self-authorizing URL the
/// second hop must follow, exactly as [`spec_redirect`] decides it. A
/// failure here means hop 2 is never attempted.
pub fn parse_redirect_response(status: u16, body: &str) -> (r: Result<String, Error>)
    ensures
        match spec_redirect(status, body@) {
            SpecRedirect::Transport(st) => r == Err::<String, Error>(
                Error::RequestError(TransportError { status: Some(st) }),
            ),
            SpecRedirect::Malformed => r == Err::<String, Error>(
                Error::MalformedResponse(Hop::Redirect),
            ),
            SpecRedirect::Link(u) => r matches Ok(l) && l@ == u,
        },
{
    if !(200 <= status && status < 300) {
        return Err(Error::RequestError(TransportError { status: Some(status) }));
    }
    let fields = match parse_flat_object(body) {
        None => { return Err(Error::MalformedResponse(Hop::Redirect)); },
        Some(f) => f,
    };
    match get_field(&fields, "link") {
        Some(v) => match v {
            ShallowValue::Str(l) => match parse_url(l.as_str()) {
                Some(u) => Ok(u),
                None => Err(Error::MalformedResponse(Hop::Redirect)),
            },
            _ => Err(Error::MalformedResponse(Hop::Redirect)),
        },
        None => Err(Error::MalformedResponse(Hop::Redirect)),
    }
}

/// Settle the second (payload) hop of a fetch around its decode step: a
/// non-success status is a transport error and the decode result is
/// discarded; on a success status, a failed decode is malformed at the
/// payload hop, and a decoded payload stands as the fetched value.
pub fn payload_outcome<T>(status: u16, decoded: Option<T>) -> (r: Result<T, Error>)
    ensures
        !is_success_status(status) ==> (r matches Err(e) && e == Error::RequestError(
            TransportError { status: Some(status) },
        )),
        is_success_status(status) && decoded is None ==> (r matches Err(e) && e
            == Error::MalformedResponse(Hop::Payload)),
        is_success_status(status) ==> (decoded matches Some(t) ==> (r matches Ok(v) && v == t)),
{
    if !(200 <= status && status < 300) {
        return Err(Error::RequestError(TransportError { status: Some(status) }));
    }
    match decoded {
        Some(t) => Ok(t),
        None => Err(Error::MalformedResponse(Hop::Payload)),
    }
}

/// Decode an object-shaped payload at the second hop into its shallow
/// fields: a non-success status is a transport error; a body that is not
/// a JSON object is malformed at the payload hop, distinguishable from a
/// redirect-hop failure.
pub fn parse_payload_object(status: u16, body: &str) -> (r: Result<
    Vec<(String, ShallowValue)>,
    Error,
>)
    ensures
        !is_success_status(status) ==> (r matches Err(e) && e == Error::RequestError(
            TransportError { status: Some(status) },
        )),
        is_success_status(status) ==> match spec_parse_flat(body@) {
            None => r matches Err(e) && e == Error::MalformedResponse(Hop::Payload),
            Some(f) => r matches Ok(v) && view_fields(v@) == f,
        },
{
    if !(200 <= status && status < 300) {
        return Err(Error::RequestError(TransportError { status: Some(status) }));
    }
    match parse_flat_object(body) {
        None => Err(Error::MalformedResponse(Hop::Payload)),
        Some(fields) => Ok(fields),
    }
}

/// What one car asset record must hold: a numeric identifier, a folder,
/// a small image, and optionally a logo (absent and null both mean none).
pub open spec fn spec_car_assets_entry(f: Seq<(Seq<char>, SpecValue)>) -> Option<CarAssetsView> {
    if (lookup_field(f, "car_id"@) matches Some(c) && c is Int) && (lookup_field(f, "folder"@)
        matches Some(d) && d is Str) && (lookup_field(f, "small_image"@) matches Some(s)
        && s is Str) && (match lookup_field(f, "logo"@) {
        None => true,
        Some(SpecValue::Null) => true,
        Some(SpecValue::Str(_)) => true,
        _ => false,
    }) {
        Some(
            CarAssetsView {
                car_id: int_of(lookup_or_null(f, "car_id"@)),
                folder: str_of(lookup_or_null(f, "folder"@)),
                logo: match lookup_field(f, "logo"@) {
                    Some(SpecValue::Str(l)) => Some(l),
                    _ => None,
                },
                small_image: str_of(lookup_or_null(f, "small_image"@)),
            },
        )
    } else {
        None
    }
}

/// The whole car asset catalogue, keyed as the body keys it: every entry
/// must decode, else the payload is malformed.
pub open spec fn spec_car_assets_map(
    entries: Seq<(Seq<char>, Seq<(Seq<char>, SpecValue)>)>,
) -> Option<Seq<(Seq<char>, CarAssetsView)>>
    decreases entries.len(),
{
    if entries.len() == 0 {
        Some(Seq::empty())
    } else {
        match spec_car_assets_entry(entries[0].1) {
            None => None,
            Some(a) => match spec_car_assets_map(entries.drop_first()) {
                None => None,
                Some(rest) => Some(seq![(entries[0].0, a)] + rest),
            },
        }
    }
}

/// The spec form of a decoded car asset catalogue.
pub open spec fn view_car_assets(v: Seq<(String, CarAssets)>) -> Seq<(Seq<char>, CarAssetsView)> {
    v.map_values(|p: (String, CarAssets)| (p.0@, p.1@))
}

fn decode_car_assets_entry(fields: &Vec<(String, ShallowValue)>) -> (r: Option<CarAssets>)
    ensures
        (r is Some <==> spec_car_assets_entry(view_fields(fields@)) is Some),
        r matches Some(a) ==> spec_car_assets_entry(view_fields(fields@)) matches Some(av) && a@
            == av,
{
    let car_id: Option<i64> = match get_field(fields, "car_id") {
        Some(v) => match v {
            ShallowValue::Int(n) => Some(*n),
            _ => None,
        },
        None => None,
    };
    let folder: Option<String> = match get_field(fields, "folder") {
        Some(v) => match v {
            ShallowValue::Str(s) => Some(s.clone()),
            _ => None,
        },
        None => None,
    };
    let small: Option<String> = match get_field(fields, "small_image") {
        Some(v) => match v {
            ShallowValue::Str(s) => Some(s.clone()),
            _ => None,
        },
        None => None,
    };
    let (logo_ok, logo): (bool, Option<String>) = match get_field(fields, "logo") {
        None => (true, None),
        Some(v) => match v {
            ShallowValue::Null => (true, None),
            ShallowValue::Str(s) => (true, Some(s.clone())),
            _ => (false, None),
        },
    };
    if car_id.is_some() && folder.is_some() && small.is_some() && logo_ok {
        Some(CarAssets::new(car_id.unwrap(), folder.unwrap(), logo, small.unwrap()))
    } else {
        None
    }
}

/// Decode the car asset catalogue at the second hop: a non-success status
/// is a transport error; a body that is not an object of well-shaped
/// asset records is malformed at the payload hop.
pub fn parse_car_assets_response(status: u16, body: &str) -> (r: Result<
    Vec<(String, CarAssets)>,
    Error,
>)
    ensures
        !is_success_status(status) ==> (r matches Err(e) && e == Error::RequestError(
            TransportError { status: Some(status) },
        )),
        is_success_status(status) ==> match spec_parse_object_map(body@) {
            None => r matches Err(e) && e == Error::MalformedResponse(Hop::Payload),
            Some(entries) => match spec_car_assets_map(entries) {
                None => r matches Err(e) && e == Error::MalformedResponse(Hop::Payload),
                Some(m) => r matches Ok(v) && view_car_assets(v@) == m,
            },
        },
{
    if !(200 <= status && status < 300) {
        return Err(Error::RequestError(TransportError { status: Some(status) }));
    }
    let entries = match parse_object_map(body) {
        None => { return Err(Error::MalformedResponse(Hop::Payload)); },
        Some(v) => v,
    };
    let ghost gentries = view_map(entries@);
    let mut out: Vec<(String, CarAssets)> = Vec::new();
    let mut idx: usize = 0;
    proof {
        assert(gentries.skip(0) =~= gentries);
        match spec_car_assets_map(gentries) {
            Some(rest) => {
                assert(view_car_assets(out@) + rest =~= rest);
            },
            None => {},
        }
    }
    while idx < entries.len()
        invariant
            idx <= entries@.len(),
            is_success_status(status),
            spec_parse_object_map(body@) == Some(gentries),
            gentries == view_map(entries@),
            spec_car_assets_map(gentries) == (match spec_car_assets_map(
                gentries.skip(idx as int),
            ) {
                None => None::<Seq<(Seq<char>, CarAssetsView)>>,
                Some(rest) => Some(view_car_assets(out@) + rest),
            }),
        decreases entries@.len() - idx,
    {
        let entry = &entries[idx];
        proof {
            assert(gentries.skip(idx as int)[0] == (entries@[idx as int].0@, view_fields(
                entries@[idx as int].1@,
            )));
        }
        match decode_car_assets_entry(&entry.1) {
            None => { return Err(Error::MalformedResponse(Hop::Payload)); },
            Some(asset) => {
                let ghost gout_before = view_car_assets(out@);
                let ghost gasset = asset@;
                let key = entry.0.clone();
                out.push((key, asset));
                proof {
                    assert(gentries.skip(idx as int).drop_first() =~= gentries.skip(idx + 1 as int));
                    assert(view_car_assets(out@) =~= gout_before + seq![
                        (entries@[idx as int].0@, gasset),
                    ]);
                    match spec_car_assets_map(gentries.skip(idx + 1 as int)) {
                        Some(rest) => {
                            assert((gout_before + seq![(entries@[idx as int].0@, gasset)]) + rest
                                =~= gout_before + (seq![(entries@[idx as int].0@, gasset)] + rest));
                        },
                        None => {},
                    }
                }
            },
        }
        idx = idx + 1;
    }
    proof {
        assert(gentries.skip(idx as int) =~= Seq::<(Seq<char>, Seq<(Seq<char>, SpecValue)>)>::empty());
        match spec_car_assets_map(gentries) {
            Some(rest) => {
                assert(view_car_assets(out@) + Seq::<(Seq<char>, CarAssetsView)>::empty() =~= view_car_assets(out@));
            },
            None => {},
        }
    }
    Ok(out)
}

/// What one track asset record must hold; the shape of a car record, with
/// the track identifier in place of the car identifier.
pub open spec fn spec_track_assets_entry(f: Seq<(Seq<char>, SpecValue)>) -> Option<
    TrackAssetsView,
> {
    if (lookup_field(f, "track_id"@) matches Some(c) && c is Int) && (lookup_field(f, "folder"@)
        matches Some(d) && d is Str) && (lookup_field(f, "small_image"@) matches Some(s)
        && s is Str) && (match lookup_field(f, "logo"@) {
        None => true,
        Some(SpecValue::Null) => true,
        Some(SpecValue::Str(_)) => true,
        _ => false,
    }) {
        Some(
            TrackAssetsView {
                track_id: int_of(lookup_or_null(f, "track_id"@)),
                folder: str_of(lookup_or_null(f, "folder"@)),
                logo: match lookup_field(f, "logo"@) {
                    Some(SpecValue::Str(l)) => Some(l),
                    _ => None,
                },
                small_image: str_of(lookup_or_null(f, "small_image"@)),
            },
        )
    } else {
        None
    }
}

/// The whole track asset catalogue, keyed as the body keys it.
pub open spec fn spec_track_assets_map(
    entries: Seq<(Seq<char>, Seq<(Seq<char>, SpecValue)>)>,
) -> Option<Seq<(Seq<char>, TrackAssetsView)>>
    decreases entries.len(),
{
    if entries.len() == 0 {
        Some(Seq::empty())
    } else {
        match spec_track_assets_entry(entries[0].1) {
            None => None,
            Some(a) => match spec_track_assets_map(entries.drop_first()) {
                None => None,
                Some(rest) => Some(seq![(entries[0].0, a)] + rest),
            },
        }
    }
}

/// The spec form of a decoded track asset catalogue.
pub open spec fn view_track_assets(v: Seq<(String, TrackAssets)>) -> Seq<
    (Seq<char>, TrackAssetsView),
> {
    v.map_values(|p: (String, TrackAssets)| (p.0@, p.1@))
}

fn decode_track_assets_entry(fields: &Vec<(String, ShallowValue)>) -> (r: Option<TrackAssets>)
    ensures
        (r is Some <==> spec_track_assets_entry(view_fields(fields@)) is Some),
        r matches Some(a) ==> spec_track_assets_entry(view_fields(fields@)) matches Some(av) && a@
            == av,
{
    let track_id: Option<i64> = match get_field(fields, "track_id") {
        Some(v) => match v {
            ShallowValue::Int(n) => Some(*n),
            _ => None,
        },
        None => None,
    };
    let folder: Option<String> = match get_field(fields, "folder") {
        Some(v) => match v {
            ShallowValue::Str(s) => Some(s.clone()),
            _ => None,
        },
        None => None,
    };
    let small: Option<String> = match get_field(fields, "small_image") {
        Some(v) => match v {
            ShallowValue::Str(s) => Some(s.clone()),
            _ => None,
        },
        None => None,
    };
    let (logo_ok, logo): (bool, Option<String>) = match get_field(fields, "logo") {
        None => (true, None),
        Some(v) => match v {
            ShallowValue::Null => (true, None),
            ShallowValue::Str(s) => (true, Some(s.clone())),
            _ => (false, None),
        },
    };
    if track_id.is_some() && folder.is_some() && small.is_some() && logo_ok {
        Some(TrackAssets::new(track_id.unwrap(), folder.unwrap(), logo, small.unwrap()))
    } else {
        None
    }
}

/// Decode the track asset catalogue at the second hop; the decision is
/// that of [`parse_car_assets_response`] over track records.
pub fn parse_track_assets_response(status: u16, body: &str) -> (r: Result<
    Vec<(String, TrackAssets)>,
    Error,
>)
    ensures
        !is_success_status(status) ==> (r matches Err(e) && e == Error::RequestError(
            TransportError { status: Some(status) },
        )),
        is_success_status(status) ==> match spec_parse_object_map(body@) {
            None => r matches Err(e) && e == Error::MalformedResponse(Hop::Payload),
            Some(entries) => match spec_track_assets_map(entries) {
                None => r matches Err(e) && e == Error::MalformedResponse(Hop::Payload),
                Some(m) => r matches Ok(v) && view_track_assets(v@) == m,
            },
        },
{
    if !(200 <= status && status < 300) {
        return Err(Error::RequestError(TransportError { status: Some(status) }));
    }
    let entries = match parse_object_map(body) {
        None => { return Err(Error::MalformedResponse(Hop::Payload)); },
        Some(v) => v,
    };
    let ghost gentries = view_map(entries@);
    let mut out: Vec<(String, TrackAssets)> = Vec::new();
    let mut idx: usize = 0;
    proof {
        assert(gentries.skip(0) =~= gentries);
        match spec_track_assets_map(gentries) {
            Some(rest) => {
                assert(view_track_assets(out@) + rest =~= rest);
            },
            None => {},
        }
    }
    while idx < entries.len()
        invariant
            idx <= entries@.len(),
            is_success_status(status),
            spec_parse_object_map(body@) == Some(gentries),
            gentries == view_map(entries@),
            spec_track_assets_map(gentries) == (match spec_track_assets_map(
                gentries.skip(idx as int),
            ) {
                None => None::<Seq<(Seq<char>, TrackAssetsView)>>,
                Some(rest) => Some(view_track_assets(out@) + rest),
            }),
        decreases entries@.len() - idx,
    {
        let entry = &entries[idx];
        proof {
            assert(gentries.skip(idx as int)[0] == (entries@[idx as int].0@, view_fields(
                entries@[idx as int].1@,
            )));
        }
        match decode_track_assets_entry(&entry.1) {
            None => { return Err(Error::MalformedResponse(Hop::Payload)); },
            Some(asset) => {
                let ghost gout_before = view_track_assets(out@);
                let ghost gasset = asset@;
                let key = entry.0.clone();
                out.push((key, asset));
                proof {
                    assert(gentries.skip(idx as int).drop_first() =~= gentries.skip(idx + 1 as int));
                    assert(view_track_assets(out@) =~= gout_before + seq![
                        (entries@[idx as int].0@, gasset),
                    ]);
                    match spec_track_assets_map(gentries.skip(idx + 1 as int)) {
                        Some(rest) => {
                            assert((gout_before + seq![(entries@[idx as int].0@, gasset)]) + rest
                                =~= gout_before + (seq![(entries@[idx as int].0@, gasset)] + rest));
                        },
                        None => {},
                    }
                }
            },
        }
        idx = idx + 1;
    }
    proof {
        assert(gentries.skip(idx as int) =~= Seq::<(Seq<char>, Seq<(Seq<char>, SpecValue)>)>::empty());
        match spec_track_assets_map(gentries) {
            Some(rest) => {
                assert(view_track_assets(out@) + Seq::<(Seq<char>, TrackAssetsView)>::empty() =~= view_track_assets(out@));
            },
            None => {},
        }
    }
    Ok(out)
}

/// Resolve a well-formed login response: a success stands, a failure is
/// surfaced as the structured authentication error, fields verbatim.
pub fn resolve_auth(r: AuthResponse) -> (out: Result<SuccessfulAuth, Error>)
    ensures
        match r {
            AuthResponse::Success(sa) => out == Ok::<SuccessfulAuth, Error>(sa),
            AuthResponse::Failure(ua) => out == Err::<SuccessfulAuth, Error>(
                Error::UnsuccessfulAuth(ua),
            ),
        },
{
    match r {
        AuthResponse::Success(sa) => Ok(sa),
        AuthResponse::Failure(ua) => Err(Error::UnsuccessfulAuth(ua)),
    }
}

} // verus!
