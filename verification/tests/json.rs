use agent::json::{is_well_formed, member_object, shape_of, JsonShape};

#[test]
fn shape_of_each_kind_of_value() {
    assert_eq!(shape_of("null"), JsonShape::Null);
    assert_eq!(shape_of("true"), JsonShape::Boolean);
    assert_eq!(shape_of(" false "), JsonShape::Boolean);
    assert_eq!(shape_of("12"), JsonShape::Number);
    assert_eq!(shape_of("-1.5e3"), JsonShape::Number);
    assert_eq!(shape_of("\"text\""), JsonShape::Text);
    assert_eq!(shape_of("[1, 2]"), JsonShape::Array);
    assert_eq!(shape_of("{\"a\":1}"), JsonShape::Object);
    assert_eq!(shape_of("{}"), JsonShape::Object);
}

#[test]
fn shape_of_text_that_is_not_json() {
    assert_eq!(shape_of(""), JsonShape::Malformed);
    assert_eq!(shape_of("{bad"), JsonShape::Malformed);
    assert_eq!(shape_of("{\"a\":"), JsonShape::Malformed);
    assert_eq!(shape_of("1 2"), JsonShape::Malformed);
    assert_eq!(shape_of("nul"), JsonShape::Malformed);
    assert_eq!(shape_of("{'a':1}"), JsonShape::Malformed);
}

#[test]
fn well_formed_follows_the_shape() {
    assert!(is_well_formed("[]"));
    assert!(is_well_formed("0"));
    assert!(is_well_formed("{\"a\":{\"b\":[]}}"));
    assert!(!is_well_formed("{bad"));
    assert!(!is_well_formed(""));
    assert!(!is_well_formed("{"));
}

#[test]
fn member_object_is_the_serialised_object() {
    assert_eq!(member_object("error", "boom"), "{\"error\":\"boom\"}");
    assert_eq!(member_object("k", ""), "{\"k\":\"\"}");
    assert_eq!(member_object("", "v"), "{\"\":\"v\"}");
}

#[test]
fn member_object_escapes_what_json_requires() {
    assert_eq!(
        member_object("error", "a \"quoted\" \\ line\nnext"),
        "{\"error\":\"a \\\"quoted\\\" \\\\ line\\nnext\"}"
    );
    let text = member_object("error", "tab\there");
    let parsed: serde_json::Value = serde_json::from_str(&text).unwrap();
    assert_eq!(parsed.get("error").and_then(|value| value.as_str()), Some("tab\there"));
    assert_eq!(shape_of(&text), JsonShape::Object);
}
