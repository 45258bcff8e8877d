use iracing_api::json::{get_field, parse_flat_object, parse_object_map, render_int, ShallowValue};

#[test]
fn parses_scalar_fields() {
    let fields = parse_flat_object(
        " { \"s\" : \"text\" , \"n\" : -42 , \"t\" : true , \"f\" : false , \"z\" : null } ",
    )
    .unwrap();
    assert_eq!(fields.len(), 5);
    assert_eq!(get_field(&fields, "s"), Some(&ShallowValue::Str(String::from("text"))));
    assert_eq!(get_field(&fields, "n"), Some(&ShallowValue::Int(-42)));
    assert_eq!(get_field(&fields, "t"), Some(&ShallowValue::Bool(true)));
    assert_eq!(get_field(&fields, "f"), Some(&ShallowValue::Bool(false)));
    assert_eq!(get_field(&fields, "z"), Some(&ShallowValue::Null));
    assert_eq!(get_field(&fields, "missing"), None);
}

#[test]
fn decodes_string_escapes() {
    let fields = parse_flat_object("{\"k\":\"a\\\"b\\\\c\\/d\\n\\t\\r\\b\\f\\u000ae\"}").unwrap();
    assert_eq!(
        get_field(&fields, "k"),
        Some(&ShallowValue::Str(String::from("a\"b\\c/d\n\t\r\u{8}\u{c}\ne")))
    );
}

#[test]
fn rejects_non_control_unicode_escape() {
    assert!(parse_flat_object("{\"k\":\"\\u0041\"}").is_none());
}

#[test]
fn rejects_unterminated_and_trailing() {
    assert!(parse_flat_object("{\"k\":\"v\"").is_none());
    assert!(parse_flat_object("{\"k\":\"v\"} x").is_none());
    assert!(parse_flat_object("[1,2]").is_none());
    assert!(parse_flat_object("").is_none());
}

#[test]
fn empty_object_is_empty_fields() {
    let fields = parse_flat_object(" { } ").unwrap();
    assert_eq!(fields.len(), 0);
}

#[test]
fn nested_values_are_composite() {
    let fields = parse_flat_object("{\"o\":{\"x\":[1,{\"y\":\"]\"}]},\"a\":[true,\"}\"],\"n\":7}")
        .unwrap();
    assert_eq!(get_field(&fields, "o"), Some(&ShallowValue::Composite));
    assert_eq!(get_field(&fields, "a"), Some(&ShallowValue::Composite));
    assert_eq!(get_field(&fields, "n"), Some(&ShallowValue::Int(7)));
}

#[test]
fn long_and_fractional_numbers_are_composite() {
    let fields =
        parse_flat_object("{\"big\":12345678901234567890123,\"pi\":3.25,\"e\":1e9}").unwrap();
    assert_eq!(get_field(&fields, "big"), Some(&ShallowValue::Composite));
    assert_eq!(get_field(&fields, "pi"), Some(&ShallowValue::Composite));
    assert_eq!(get_field(&fields, "e"), Some(&ShallowValue::Composite));
}

#[test]
fn duplicate_keys_first_binding_wins() {
    let fields = parse_flat_object("{\"k\":1,\"k\":2}").unwrap();
    assert_eq!(get_field(&fields, "k"), Some(&ShallowValue::Int(1)));
}

#[test]
fn object_map_decodes_inner_objects() {
    let entries = parse_object_map("{\"a\":{\"x\":1},\"b\":{\"y\":\"z\"}}").unwrap();
    assert_eq!(entries.len(), 2);
    assert_eq!(entries[0].0, "a");
    assert_eq!(get_field(&entries[0].1, "x"), Some(&ShallowValue::Int(1)));
    assert_eq!(entries[1].0, "b");
    assert_eq!(get_field(&entries[1].1, "y"), Some(&ShallowValue::Str(String::from("z"))));
}

#[test]
fn object_map_rejects_scalar_values() {
    assert!(parse_object_map("{\"a\":1}").is_none());
}

#[test]
fn renders_integers_exactly() {
    assert_eq!(render_int(0), "0");
    assert_eq!(render_int(7), "7");
    assert_eq!(render_int(1234567890), "1234567890");
    assert_eq!(render_int(-1), "-1");
    assert_eq!(render_int(i64::MAX), "9223372036854775807");
    assert_eq!(render_int(i64::MIN), "-9223372036854775808");
}
