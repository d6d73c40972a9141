use cooplan_definition_schema_validator::json::{JsonObject, JsonValue};
use cooplan_definition_schema_validator::validations::validate_integer;
use cooplan_definition_schema_validator::validations::validate_string;

#[test]
fn validations_test_detect_non_strings_correctly() {
    let null_value: JsonValue = JsonValue::Null;
    let numeric_array_value: JsonValue = JsonValue::Array(vec![
        JsonValue::Unsigned(2),
        JsonValue::Unsigned(25),
        JsonValue::Unsigned(6),
    ]);
    let number_value: JsonValue = JsonValue::Unsigned(10);
    let bool_value: JsonValue = JsonValue::Bool(false);
    let object_value: JsonValue = JsonValue::Object(JsonObject::new());

    assert!(validate_string(&null_value).is_err());
    assert!(validate_string(&numeric_array_value).is_err());
    assert!(validate_string(&number_value).is_err());
    assert!(validate_string(&bool_value).is_err());
    assert!(validate_string(&object_value).is_err());
}

#[test]
fn validations_test_detect_strings_correctly() {
    let string_value: JsonValue = JsonValue::Text(String::from("abcd"));
    let json_string_value: JsonValue = JsonValue::Text(String::from("{ '1': 100 }"));

    assert!(validate_string(&string_value).is_ok());
    assert!(validate_string(&json_string_value).is_ok());
}

#[test]
fn validations_test_detects_non_integer_correctly() {
    let null_value: JsonValue = JsonValue::Null;
    let numeric_array_value: JsonValue = JsonValue::Array(vec![
        JsonValue::Decimal(12.13f64.to_bits()),
        JsonValue::Decimal(43.12f64.to_bits()),
        JsonValue::Decimal(7.51f64.to_bits()),
    ]);
    let decimal_value: JsonValue = JsonValue::Decimal(128.1f64.to_bits());
    let bool_value: JsonValue = JsonValue::Bool(false);
    let object_value: JsonValue = JsonValue::Object(JsonObject::new());

    assert!(validate_integer(&null_value).is_err());
    assert!(validate_integer(&numeric_array_value).is_err());
    assert!(validate_integer(&decimal_value).is_err());
    assert!(validate_integer(&bool_value).is_err());
    assert!(validate_integer(&object_value).is_err());
}

#[test]
fn validations_test_detects_integer_correctly() {
    let positive_value: JsonValue = JsonValue::Unsigned(151531513);
    let negative_value: JsonValue = JsonValue::Signed(-1239);

    assert!(validate_integer(&positive_value).is_ok());
    assert!(validate_integer(&negative_value).is_ok());
}
