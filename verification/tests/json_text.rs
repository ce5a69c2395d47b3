use nnrp_conformance_suite::json_model::{json_value_contains, json_values_equal, JsonValue};
use nnrp_conformance_suite::json_text::json_texts_equal;

fn text_of(value: f64) -> String {
    serde_json::Value::from(value).to_string()
}

#[test]
fn negative_zero_equals_zero_as_serde_json_holds() {
    let zero = serde_json::Value::from(0.0f64);
    let negative_zero = serde_json::Value::from(-0.0f64);
    assert_eq!(zero, negative_zero);
    assert!(json_texts_equal(&zero.to_string(), &negative_zero.to_string()));
    assert!(json_texts_equal(&format!("[{}]", text_of(-0.0)), "[0.0]"));
    assert!(json_texts_equal(r#"{"a":-0.0,"b":1}"#, r#"{"a":0.0,"b":1}"#));
}

#[test]
fn other_texts_still_differ() {
    assert!(!json_texts_equal("-0.05", "0.05"));
    assert!(!json_texts_equal("-0.0e1", "0.0e1"));
    assert!(!json_texts_equal(r#""-0.0""#, r#""0.0""#));
    assert!(!json_texts_equal(r#"["a\"-0.0"]"#, r#"["a\"0.0"]"#));
    assert!(!json_texts_equal("1", "1.0"));
    assert!(json_texts_equal("[1,2]", "[1,2]"));
}

#[test]
fn json_values_compare_zero_numbers_alike() {
    let a = JsonValue::Number(text_of(-0.0));
    let b = JsonValue::Number(text_of(0.0));
    assert!(json_values_equal(&a, &b));
    let expected = JsonValue::Array(vec![JsonValue::Number("0.0".to_string())]);
    let actual = JsonValue::Array(vec![JsonValue::Number("-0.0".to_string()), JsonValue::Null]);
    assert!(json_value_contains(&actual, &expected));
    assert!(!json_values_equal(&JsonValue::Number("-0.5".to_string()), &JsonValue::Number("0.5".to_string())));
}
