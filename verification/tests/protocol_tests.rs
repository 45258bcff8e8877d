use iracing_api::json::{get_field, ShallowValue};
use iracing_api::protocol::{
    auth_url, classify_login_response, parse_payload_object, parse_redirect_response,
    payload_outcome, request_url, resolve_auth, route, Resource,
};
use iracing_api::{AuthResponse, Error, Hop, TransportError};

#[test]
fn endpoints_are_fixed() {
    assert_eq!(auth_url(), "https://members-ng.iracing.com/auth");
    assert_eq!(route(Resource::MemberInfo), "data/member/info");
    assert_eq!(route(Resource::CarInfo), "data/car/get");
    assert_eq!(route(Resource::CarAssets), "data/car/assets");
    assert_eq!(route(Resource::TrackInfo), "data/track/get");
    assert_eq!(route(Resource::TrackAssets), "data/track/assets");
    assert_eq!(route(Resource::SeriesSeasons), "data/series/seasons");
    assert_eq!(request_url(Resource::CarInfo), "https://members-ng.iracing.com/data/car/get");
}

/// A login body carrying neither the success-required nor the
/// failure-required fields is malformed, never a success.
#[test]
fn login_missing_both_shapes_is_malformed() {
    let r = classify_login_response(200, "{\"unexpected\":true}");
    assert_eq!(r, Err(Error::MalformedResponse(Hop::Login)));
    let r = classify_login_response(200, "{}");
    assert_eq!(r, Err(Error::MalformedResponse(Hop::Login)));
    let r = classify_login_response(200, "not json at all");
    assert_eq!(r, Err(Error::MalformedResponse(Hop::Login)));
}

/// A non-success login status is a transport error, not coerced into the
/// failure shape, even when a body is present.
#[test]
fn login_non_success_status_is_transport() {
    let r = classify_login_response(401, "{\"authcode\":0,\"inactive\":false,\"message\":\"no\",\"verificationRequired\":false}");
    assert_eq!(r, Err(Error::RequestError(TransportError { status: Some(401) })));
    assert!(r.unwrap_err().is_unauthorized());
}

/// The failure shape is surfaced as a structured authentication error
/// carrying the server's fields verbatim.
#[test]
fn login_failure_shape_is_structured() {
    let body = "{\"authcode\":0,\"inactive\":true,\"message\":\"Invalid email address or password.\",\"verificationRequired\":true}";
    let r = classify_login_response(200, body).unwrap();
    let ua = match r {
        AuthResponse::Failure(ua) => ua,
        AuthResponse::Success(_) => panic!("failure shape classified as success"),
    };
    assert_eq!(ua.authcode, 0);
    assert!(ua.inactive);
    assert_eq!(ua.message, "Invalid email address or password.");
    assert!(ua.verification_required);
    let resolved = resolve_auth(AuthResponse::Failure(ua.clone()));
    assert_eq!(resolved, Err(Error::UnsuccessfulAuth(ua)));
    assert!(!Error::UnsuccessfulAuth(
        match resolve_auth(classify_login_response(200, body).unwrap()) {
            Err(Error::UnsuccessfulAuth(u)) => u,
            _ => panic!("expected the structured authentication error"),
        }
    )
    .is_unauthorized());
}

/// A redirect hop answered with 401 is a transport error flagged
/// unauthorized, not a malformed-response error.
#[test]
fn redirect_unauthorized_is_transport_not_malformed() {
    let r = parse_redirect_response(401, "{\"link\":\"https://cdn/x\"}");
    assert_eq!(r, Err(Error::RequestError(TransportError { status: Some(401) })));
    let e = r.unwrap_err();
    assert!(e.is_unauthorized());
    assert!(!matches!(e, Error::MalformedResponse(_)));
}

/// The redirect envelope must be `{ link: URL }`; the link is validated
/// and normalized by URL parsing.
#[test]
fn redirect_link_is_validated_and_normalized() {
    let r = parse_redirect_response(200, "{\"link\":\"HTTPS://CDN.example/x\"}");
    assert_eq!(r, Ok(String::from("https://cdn.example/x")));
    let r = parse_redirect_response(200, "{\"link\":\"not a url\"}");
    assert_eq!(r, Err(Error::MalformedResponse(Hop::Redirect)));
    let r = parse_redirect_response(200, "{\"link\":17}");
    assert_eq!(r, Err(Error::MalformedResponse(Hop::Redirect)));
    let r = parse_redirect_response(200, "{\"nolink\":\"https://cdn/x\"}");
    assert_eq!(r, Err(Error::MalformedResponse(Hop::Redirect)));
    let r = parse_redirect_response(200, "broken");
    assert_eq!(r, Err(Error::MalformedResponse(Hop::Redirect)));
}

/// A payload that fails to decode at hop 2 is malformed at the payload
/// hop, distinguishable from a hop-1 failure.
#[test]
fn payload_failure_is_named_hop_two() {
    let r: Result<u32, Error> = payload_outcome(200, None);
    assert_eq!(r, Err(Error::MalformedResponse(Hop::Payload)));
    assert_ne!(
        Error::MalformedResponse(Hop::Payload),
        Error::MalformedResponse(Hop::Redirect)
    );
    let r: Result<u32, Error> = payload_outcome(503, Some(7));
    assert_eq!(r, Err(Error::RequestError(TransportError { status: Some(503) })));
    let r: Result<u32, Error> = payload_outcome(200, Some(7));
    assert_eq!(r, Ok(7));
    let r = parse_payload_object(200, "{\"cust_id\":");
    assert_eq!(r, Err(Error::MalformedResponse(Hop::Payload)));
}

/// End-to-end over the protocol decisions: a stub login success, then the
/// member fetch's two hops, yielding a member whose identity matches the
/// echoed login email.
#[test]
fn end_to_end_member_fetch() {
    // the login exchange
    let login = classify_login_response(200, "{\"authcode\":1,\"custId\":42,\"email\":\"a@b.com\"}");
    let sa = match resolve_auth(login.unwrap()) {
        Ok(sa) => sa,
        Err(_) => panic!("stub login must succeed"),
    };
    assert_eq!(sa.authcode, "1");
    assert_eq!(sa.cust_id, 42);
    assert_eq!(sa.email, "a@b.com");
    // hop 1: the redirect envelope for the member-info route
    assert_eq!(
        request_url(Resource::MemberInfo),
        "https://members-ng.iracing.com/data/member/info"
    );
    let link = parse_redirect_response(200, "{\"link\":\"https://cdn/x\"}").unwrap();
    assert_eq!(link, "https://cdn/x");
    // hop 2: the member body served at the link
    let member = parse_payload_object(
        200,
        "{\"cust_id\":42,\"email\":\"a@b.com\",\"display_name\":\"A B\",\"licenses\":{\"oval\":{}}}",
    )
    .unwrap();
    assert_eq!(get_field(&member, "cust_id"), Some(&ShallowValue::Int(42)));
    match get_field(&member, "email") {
        Some(ShallowValue::Str(email)) => assert_eq!(*email, sa.email),
        _ => panic!("member email must be present"),
    }
}

/// The success shape wins over the failure shape when both match.
#[test]
fn success_shape_tried_first() {
    let body = "{\"authcode\":7,\"custId\":9,\"email\":\"a@b.com\",\"inactive\":false,\"message\":\"m\",\"verificationRequired\":false}";
    let r = classify_login_response(200, body).unwrap();
    match r {
        AuthResponse::Success(sa) => {
            assert_eq!(sa.authcode, "7");
            assert_eq!(sa.cust_id, 9);
        },
        AuthResponse::Failure(_) => panic!("success shape must be tried first"),
    }
}
