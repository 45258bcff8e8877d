use iracing_api::protocol::{parse_car_assets_response, parse_track_assets_response};
use iracing_api::types::assets::{asset_base, CarAssets, TrackAssets};
use iracing_api::{Error, Hop};

#[test]
fn car_asset_urls_are_built_by_concatenation() {
    let a = CarAssets::new(
        1,
        String::from("/img/cars/f1"),
        Some(String::from("/img/logos/f1.png")),
        String::from("small.jpg"),
    );
    assert_eq!(
        a.logo_url(),
        Some(String::from("https://images-static.iracing.com/img/logos/f1.png"))
    );
    assert_eq!(
        a.small_image_url(),
        "https://images-static.iracing.com/img/cars/f1/small.jpg"
    );
}

#[test]
fn car_asset_logo_is_optional() {
    let a = CarAssets::new(2, String::from("/f"), None, String::from("s.jpg"));
    assert_eq!(a.logo_url(), None);
    assert_eq!(a.small_image_url(), "https://images-static.iracing.com/f/s.jpg");
}

#[test]
fn track_asset_urls_are_built_by_concatenation() {
    let a = TrackAssets::new(
        3,
        String::from("/img/tracks/spa"),
        Some(String::from("/img/logos/spa.png")),
        String::from("small.jpg"),
    );
    assert_eq!(
        a.logo_url(),
        Some(String::from("https://images-static.iracing.com/img/logos/spa.png"))
    );
    assert_eq!(
        a.small_image_url(),
        "https://images-static.iracing.com/img/tracks/spa/small.jpg"
    );
    assert_eq!(asset_base(), "https://images-static.iracing.com");
}

#[test]
fn car_assets_catalogue_decodes() {
    let body = "{\"1\":{\"car_id\":1,\"folder\":\"/img/cars/f1\",\"logo\":\"/img/logos/f1.png\",\"small_image\":\"small.jpg\"},\
                 \"2\":{\"car_id\":2,\"folder\":\"/img/cars/gt3\",\"logo\":null,\"small_image\":\"s2.jpg\"},\
                 \"3\":{\"car_id\":3,\"folder\":\"/img/cars/lmp\",\"small_image\":\"s3.jpg\"}}";
    let entries = parse_car_assets_response(200, body).unwrap();
    assert_eq!(entries.len(), 3);
    assert_eq!(entries[0].0, "1");
    assert_eq!(entries[0].1.car_id, 1);
    assert_eq!(
        entries[0].1.logo_url(),
        Some(String::from("https://images-static.iracing.com/img/logos/f1.png"))
    );
    assert_eq!(entries[1].1.logo_url(), None);
    assert_eq!(entries[2].1.logo_url(), None);
    assert_eq!(
        entries[2].1.small_image_url(),
        "https://images-static.iracing.com/img/cars/lmp/s3.jpg"
    );
}

/// A catalogue entry missing a required field makes the whole payload
/// malformed at the payload hop.
#[test]
fn car_assets_missing_field_is_malformed_payload() {
    let body = "{\"1\":{\"car_id\":1,\"folder\":\"/f\"}}";
    let r = parse_car_assets_response(200, body);
    assert_eq!(r, Err(Error::MalformedResponse(Hop::Payload)));
    let r = parse_car_assets_response(404, body);
    assert!(matches!(r, Err(Error::RequestError(_))));
}

#[test]
fn track_assets_catalogue_decodes() {
    let body = "{\"101\":{\"track_id\":101,\"folder\":\"/img/tracks/spa\",\"logo\":null,\"small_image\":\"spa.jpg\"}}";
    let entries = parse_track_assets_response(200, body).unwrap();
    assert_eq!(entries.len(), 1);
    assert_eq!(entries[0].0, "101");
    assert_eq!(entries[0].1.track_id, 101);
    assert_eq!(
        entries[0].1.small_image_url(),
        "https://images-static.iracing.com/img/tracks/spa/spa.jpg"
    );
    let r = parse_track_assets_response(200, "{\"101\":{\"track_id\":\"x\",\"folder\":\"/f\",\"small_image\":\"s\"}}");
    assert_eq!(r, Err(Error::MalformedResponse(Hop::Payload)));
}
