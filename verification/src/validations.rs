use crate::error::{Error, ErrorKind};
use crate::json::JsonValue;
use vstd::prelude::*;

verus! {

/// The value must be representable as a text scalar; anything else fails.
pub fn validate_string(attribute_value: &JsonValue) -> (r: Result<(), Error>)
    ensures
        r is Ok <==> attribute_value.is_text(),
        r matches Err(e) ==> e.kind == ErrorKind::InvalidValue,
{
    match attribute_value {
        JsonValue::Text(_) => Ok(()),
        _ => Err(
            Error::new(
                ErrorKind::InvalidValue,
                "failed to convert attribute value to string".to_owned(),
            ),
        ),
    }
}

/// The value must be representable as a signed 64-bit whole number; numbers
/// with fractional representations, text, booleans and the rest fail.
pub fn validate_integer(attribute_value: &JsonValue) -> (r: Result<(), Error>)
    ensures
        r is Ok <==> attribute_value.is_whole_number(),
        r matches Err(e) ==> e.kind == ErrorKind::InvalidValue,
{
    match attribute_value {
        JsonValue::Unsigned(n) => {
            if *n <= i64::MAX as u64 {
                Ok(())
            } else {
                Err(
                    Error::new(
                        ErrorKind::InvalidValue,
                        "failed to convert attribute value to integer".to_owned(),
                    ),
                )
            }
        },
        JsonValue::Signed(_) => Ok(()),
        _ => Err(
            Error::new(
                ErrorKind::InvalidValue,
                "failed to convert attribute value to integer".to_owned(),
            ),
        ),
    }
}

/// The value must be representable as a 64-bit floating point number; every
/// kind of number qualifies, so whole numbers pass this check too.
pub fn validate_decimal(attribute_value: &JsonValue) -> (r: Result<(), Error>)
    ensures
        r is Ok <==> attribute_value.is_decimal_number(),
        r matches Err(e) ==> e.kind == ErrorKind::InvalidValue,
{
    match attribute_value {
        JsonValue::Unsigned(_) => Ok(()),
        JsonValue::Signed(_) => Ok(()),
        JsonValue::Decimal(_) => Ok(()),
        _ => Err(
            Error::new(
                ErrorKind::InvalidValue,
                "failed to convert attribute value to decimal".to_owned(),
            ),
        ),
    }
}

/// The value must be exactly a boolean scalar; numbers and text that spell a
/// boolean are rejected.
pub fn validate_boolean(attribute_value: &JsonValue) -> (r: Result<(), Error>)
    ensures
        r is Ok <==> attribute_value.is_boolean(),
        r matches Err(e) ==> e.kind == ErrorKind::InvalidValue,
{
    match attribute_value {
        JsonValue::Bool(_) => Ok(()),
        _ => Err(
            Error::new(
                ErrorKind::InvalidValue,
                "failed to convert attribute value to boolean".to_owned(),
            ),
        ),
    }
}

/// A value-checking capability: one entry of the validation registry. A host
/// may implement it to register checks for its own data-type tags at startup.
/// `accepts` names the set of values the check passes; a failing check hands
/// back its own error, which is always of the invalid-value kind.
pub trait AttributeCheck: Sized {
    spec fn accepts(&self, value: JsonValue) -> bool;

    fn check(&self, value: &JsonValue) -> (r: Result<(), Error>)
        ensures
            r is Ok <==> self.accepts(*value),
            r matches Err(e) ==> e.kind == ErrorKind::InvalidValue,
    ;
}

/// The built-in value checks, one per built-in data-type tag.
#[derive(Debug)]
pub enum BuiltinCheck {
    Text,
    Integer,
    Decimal,
    Boolean,
}

impl AttributeCheck for BuiltinCheck {
    open spec fn accepts(&self, value: JsonValue) -> bool {
        match self {
            BuiltinCheck::Text => value.is_text(),
            BuiltinCheck::Integer => value.is_whole_number(),
            BuiltinCheck::Decimal => value.is_decimal_number(),
            BuiltinCheck::Boolean => value.is_boolean(),
        }
    }

    fn check(&self, value: &JsonValue) -> (r: Result<(), Error>) {
        match self {
            BuiltinCheck::Text => validate_string(value),
            BuiltinCheck::Integer => validate_integer(value),
            BuiltinCheck::Decimal => validate_decimal(value),
            BuiltinCheck::Boolean => validate_boolean(value),
        }
    }
}

/// Whole numbers are a subset of decimals: every value the integer check
/// accepts, the decimal check accepts as well. The converse fails: a number
/// with a fractional representation is a decimal but no whole number.
pub proof fn lemma_whole_numbers_are_decimal_numbers(value: JsonValue)
    ensures
        value.is_whole_number() ==> value.is_decimal_number(),
{
}

} // verus!
