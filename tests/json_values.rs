use orca_attention::json::{field_is, get_field, get_string, parse_json, JsonValue};

#[test]
fn json_values_convert_variant_by_variant() {
    let v = parse_json(r#"{"a": [1, 2.5, "x", null, true, {"k": []}], "b": -3}"#).unwrap();
    match get_field(&v, "a") {
        Some(JsonValue::Array(items)) => {
            assert_eq!(items.len(), 6);
            assert!(matches!(&items[0], JsonValue::Number(n) if n == "1"));
            assert!(matches!(&items[1], JsonValue::Number(n) if n == "2.5"));
            assert!(matches!(&items[2], JsonValue::Str(s) if s == "x"));
            assert!(matches!(&items[3], JsonValue::Null));
            assert!(matches!(&items[4], JsonValue::Bool(true)));
            assert!(matches!(&items[5], JsonValue::Object(fields) if fields.len() == 1));
        }
        other => panic!("unexpected {other:?}"),
    }
    assert!(matches!(get_field(&v, "b"), Some(JsonValue::Number(n)) if n == "-3"));
    assert!(get_field(&v, "c").is_none());
}

#[test]
fn malformed_json_is_none() {
    assert!(parse_json("").is_none());
    assert!(parse_json("{\"a\":").is_none());
    assert!(parse_json("   ").is_none());
}

#[test]
fn string_fields() {
    let v = parse_json(r#"{"type": "summary", "n": 3}"#).unwrap();
    assert_eq!(get_string(&v, "type").map(String::as_str), Some("summary"));
    assert_eq!(get_string(&v, "n"), None);
    assert!(field_is(&v, "type", "summary"));
    assert!(!field_is(&v, "type", "user"));
    assert!(get_field(&JsonValue::Null, "type").is_none());
}
