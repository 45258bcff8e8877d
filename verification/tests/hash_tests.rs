use base64ct::{Base64, Encoding};
use iracing_api::auth::{generate_hash, AuthRequest};
use iracing_api::json::{get_field, parse_flat_object, ShallowValue};
use sha2::{Digest, Sha256};

/// Deriving twice from the same inputs gives the same hash.
#[test]
fn derive_is_deterministic() {
    let a = generate_hash("user@example.com", "secret");
    let b = generate_hash("user@example.com", "secret");
    assert_eq!(a, b);
}

/// Case folding applies to the email only: changing the password's case
/// changes the hash.
#[test]
fn password_case_changes_hash() {
    let a = generate_hash("user@example.com", "secret");
    let b = generate_hash("user@example.com", "SECRET");
    assert_ne!(a, b);
}

/// The email is lower-cased before hashing.
#[test]
fn email_case_is_folded() {
    let a = generate_hash("USER@Example.com", "secret");
    let b = generate_hash("user@example.com", "secret");
    assert_eq!(a, b);
}

/// The hash is exactly base64(sha256(password + lowercase(email))), checked
/// against a composition built directly from the primitives.
#[test]
fn derive_matches_direct_composition() {
    let derived = generate_hash("User@Example.COM", "hunter2");
    let digest = Sha256::digest("hunter2user@example.com".as_bytes());
    let expected = Base64::encode_string(&digest);
    assert_eq!(derived, expected);
}

/// A 32-byte digest encodes to 44 base64 characters, padding included.
#[test]
fn derive_length_is_forty_four() {
    let h = generate_hash("a@b.c", "pw");
    assert_eq!(h.len(), 44);
}

/// Building the payload from a precomputed hash and from the matching
/// plaintext serializes to identical wire bodies.
#[test]
fn precomputed_hash_is_interchangeable() {
    let from_plain = AuthRequest::new("user@example.com", "secret");
    let hash = generate_hash("user@example.com", "secret");
    let from_hash = AuthRequest::new_from_hash("user@example.com", hash);
    assert_eq!(from_plain.wire_json(), from_hash.wire_json());
}

/// The wire body is exactly the `{"email":...,"password":...}` object.
#[test]
fn wire_body_exact() {
    let req = AuthRequest::new_from_hash("a@b.com", String::from("HASH=="));
    assert_eq!(req.wire_json(), "{\"email\":\"a@b.com\",\"password\":\"HASH==\"}");
}

/// Quotes, backslashes and control characters in a field are escaped.
#[test]
fn wire_body_escapes() {
    let req = AuthRequest::new_from_hash("a\"b\\c\nd", String::from("h"));
    assert_eq!(req.wire_json(), "{\"email\":\"a\\\"b\\\\c\\u000ad\",\"password\":\"h\"}");
}

/// The framed wire body parses back through the library's own decoder to
/// the very fields that went in.
#[test]
fn wire_body_parses_back() {
    let req = AuthRequest::new_from_hash("a\"b\\c\nd", String::from("h=="));
    let body = req.wire_json();
    let fields = parse_flat_object(&body).unwrap();
    assert_eq!(
        get_field(&fields, "email"),
        Some(&ShallowValue::Str(String::from("a\"b\\c\nd")))
    );
    assert_eq!(
        get_field(&fields, "password"),
        Some(&ShallowValue::Str(String::from("h==")))
    );
}
