use cooplan_definition_schema_validator::json::{JsonObject, JsonValue};
use cooplan_definition_schema_validator::validations::validate_boolean;
use cooplan_definition_schema_validator::validations::validate_decimal;
use cooplan_definition_schema_validator::validations::validate_integer;
use cooplan_definition_schema_validator::validations::validate_string;

#[test]
fn detect_non_strings_correctly() {
    let null_value: JsonValue = JsonValue::Null;
    let numeric_array_value: JsonValue = JsonValue::Array(vec![
        JsonValue::Unsigned(2),
        JsonValue::Unsigned(25),
        JsonValue::Unsigned(6),
    ]);
    let number_value: JsonValue = JsonValue::Unsigned(10);
    let bool_value: JsonValue = JsonValue::Bool(false);
    let object_value: JsonValue = JsonValue::Object(JsonObject::new());

    assert!(validate_string(&null_value).is_err());
    assert!(validate_string(&numeric_array_value).is_err());
    assert!(validate_string(&number_value).is_err());
    assert!(validate_string(&bool_value).is_err());
    assert!(validate_string(&object_value).is_err());
}

#[test]
fn detect_strings_correctly() {
    let string_value: JsonValue = JsonValue::Text(String::from("abcd"));
    let json_string_value: JsonValue = JsonValue::Text(String::from("{ '1': 100 }"));

    assert!(validate_string(&string_value).is_ok());
    assert!(validate_string(&json_string_value).is_ok());
}

#[test]
fn detects_non_integer_correctly() {
    let null_value: JsonValue = JsonValue::Null;
    let numeric_array_value: JsonValue = JsonValue::Array(vec![
        JsonValue::Decimal(12.13f64.to_bits()),
        JsonValue::Decimal(43.12f64.to_bits()),
        JsonValue::Decimal(7.51f64.to_bits()),
    ]);
    let decimal_value: JsonValue = JsonValue::Decimal(128.1f64.to_bits());
    let bool_value: JsonValue = JsonValue::Bool(false);
    let object_value: JsonValue = JsonValue::Object(JsonObject::new());
    let string_value: JsonValue = JsonValue::Text("12".to_string());

    assert!(validate_integer(&null_value).is_err());
    assert!(validate_integer(&numeric_array_value).is_err());
    assert!(validate_integer(&decimal_value).is_err());
    assert!(validate_integer(&bool_value).is_err());
    assert!(validate_integer(&object_value).is_err());
    assert!(validate_integer(&string_value).is_err());
}

#[test]
fn detects_integer_correctly() {
    let positive_value: JsonValue = JsonValue::Unsigned(151531513);
    let negative_value: JsonValue = JsonValue::Signed(-1239);

    assert!(validate_integer(&positive_value).is_ok());
    assert!(validate_integer(&negative_value).is_ok());
}

#[test]
fn detects_non_decimal_correctly() {
    let null_value: JsonValue = JsonValue::Null;
    let numeric_array_value: JsonValue = JsonValue::Array(vec![
        JsonValue::Unsigned(2),
        JsonValue::Unsigned(25),
        JsonValue::Unsigned(6),
    ]);
    let bool_value: JsonValue = JsonValue::Bool(false);
    let object_value: JsonValue = JsonValue::Object(JsonObject::new());
    let string_value: JsonValue = JsonValue::Text("134.13".to_string());

    assert!(validate_decimal(&null_value).is_err());
    assert!(validate_decimal(&numeric_array_value).is_err());
    assert!(validate_decimal(&bool_value).is_err());
    assert!(validate_decimal(&object_value).is_err());
    assert!(validate_decimal(&string_value).is_err());
}

#[test]
fn detects_decimal_correctly() {
    let positive_value: JsonValue = JsonValue::Decimal(151531513.135f64.to_bits());
    let negative_value: JsonValue = JsonValue::Decimal((-1239.13f64).to_bits());

    assert!(validate_decimal(&positive_value).is_ok());
    assert!(validate_decimal(&negative_value).is_ok());
}

#[test]
fn decimal_contains_number_set() {
    let positive_value: JsonValue = JsonValue::Unsigned(0138);
    let negative_value: JsonValue = JsonValue::Signed(-674);

    assert!(validate_decimal(&positive_value).is_ok());
    assert!(validate_decimal(&negative_value).is_ok());
}

#[test]
fn detects_non_boolean_correctly() {
    let null_value: JsonValue = JsonValue::Null;
    let numeric_array_value: JsonValue = JsonValue::Array(vec![
        JsonValue::Decimal(12.13f64.to_bits()),
        JsonValue::Decimal(43.12f64.to_bits()),
        JsonValue::Decimal(7.51f64.to_bits()),
    ]);
    let decimal_value: JsonValue = JsonValue::Decimal(513.1f64.to_bits());
    let integer_value: JsonValue = JsonValue::Unsigned(913);
    let object_value: JsonValue = JsonValue::Object(JsonObject::new());
    let string_value: JsonValue = JsonValue::Text("1".to_string());

    assert!(validate_boolean(&null_value).is_err());
    assert!(validate_boolean(&numeric_array_value).is_err());
    assert!(validate_boolean(&decimal_value).is_err());
    assert!(validate_boolean(&integer_value).is_err());
    assert!(validate_boolean(&object_value).is_err());
    assert!(validate_boolean(&string_value).is_err());
}

#[test]
fn detects_boolean_correctly() {
    let one: JsonValue = JsonValue::Bool(true);
    let zero: JsonValue = JsonValue::Bool(false);

    assert!(validate_boolean(&one).is_ok());
    assert!(validate_boolean(&zero).is_ok());
}
