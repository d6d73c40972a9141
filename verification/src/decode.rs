use crate::json::{JsonObject, JsonValue};
use vstd::prelude::*;

verus! {

#[verifier::external_type_specification]
#[verifier::external_body]
pub struct ExValue(serde_json::Value);

#[verifier::external_type_specification]
#[verifier::external_body]
pub struct ExNumber(serde_json::Number);

#[verifier::external_type_specification]
#[verifier::external_body]
#[verifier::reject_recursive_types(K)]
#[verifier::reject_recursive_types(V)]
pub struct ExMap<K, V>(serde_json::Map<K, V>);

/// What the decode step yields for a given text: the key-value object the
/// text denotes when it is well-formed, nothing otherwise. The grammar takes
/// pages to state, so the result only carries a name here; the trusted item
/// below ties the name to the real decoder.
pub uninterp spec fn json_decoded(s: Seq<char>) -> Option<JsonObject>;

/// Relies on serde_json::from_str: what a text decodes to is a function of
/// the text alone, and a decoded object carries each key once. On failure the
/// decoder's diagnostic is handed back as text.
#[verifier::external_body]
pub(crate) fn decode_object(text: &str) -> (r: Result<JsonObject, String>)
    ensures
        r is Ok <==> json_decoded(text@) is Some,
        r matches Ok(o) ==> json_decoded(text@) == Some(o) && o.wf(),
{
    match serde_json::from_str::<serde_json::Map<String, serde_json::Value>>(text) {
        Ok(m) => Ok(
            JsonObject::from_entries(
                m.into_iter().map(|p| (p.0, from_json_value(p.1))).collect(),
            ),
        ),
        Err(e) => Err(e.to_string()),
    }
}

/// Relies on serde_json::Value's variants: each decoded value moves, variant
/// by variant, into the library's value model.
#[verifier::external_body]
fn from_json_value(v: serde_json::Value) -> JsonValue {
    match v {
        serde_json::Value::Null => JsonValue::Null,
        serde_json::Value::Bool(b) => JsonValue::Bool(b),
        serde_json::Value::Number(n) => from_json_number(n),
        serde_json::Value::String(s) => JsonValue::Text(s),
        serde_json::Value::Array(a) => JsonValue::Array(
            a.into_iter().map(from_json_value).collect(),
        ),
        serde_json::Value::Object(m) => JsonValue::Object(
            JsonObject::from_entries(
                m.into_iter().map(|p| (p.0, from_json_value(p.1))).collect(),
            ),
        ),
    }
}

/// Relies on serde_json::Number's accessors: a decoded number reads as a
/// 64-bit unsigned whole number, as a signed one, or as the bits of a finite
/// 64-bit floating point value; with the default decoder one of the three
/// always applies, so the last arm never falls through.
#[verifier::external_body]
fn from_json_number(n: serde_json::Number) -> JsonValue {
    if let Some(u) = n.as_u64() {
        JsonValue::Unsigned(u)
    } else if let Some(i) = n.as_i64() {
        JsonValue::Signed(i)
    } else {
        match n.as_f64() {
            Some(d) => JsonValue::Decimal(d.to_bits()),
            None => JsonValue::Null,
        }
    }
}

} // verus!
