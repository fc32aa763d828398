//! The `uint64` codec: lenient on decode, a decimal string on encode.
use vstd::prelude::*;
use crate::json::{CodecError, Decode, HasConstructor, JsonText, JsonValue, SerializeMethod};
use crate::decimal::{decimal_text, format_integer};
use crate::text::string_from_chars;
use crate::numeric::{float_integer_value, integer_token, text_integer_value};

verus! {

pub open spec fn decoded_u64(j: JsonValue) -> Result<u64, CodecError> {
    match integer_token(j, 0int, u64::MAX as int, false) {
        Ok(v) => Ok(v as u64),
        Err(e) => Err(e),
    }
}

pub struct U64Visitor;

impl HasConstructor for U64Visitor {
    fn new() -> Self {
        U64Visitor
    }
}

impl U64Visitor {

    pub fn visit_u64(&self, value: u64) -> (r: Result<u64, CodecError>)
        ensures
            r == decoded_u64(JsonValue::U64(value)),
    {
        if value <= u64::MAX as u64 {
            Ok(value as u64)
        } else {
            Err(CodecError::RangeError)
        }
    }

    pub fn visit_f64(&self, bits: u64) -> (r: Result<u64, CodecError>)
        ensures
            r == decoded_u64(JsonValue::F64(bits)),
    {
        match float_integer_value(bits, 0 as i128, u64::MAX as i128) {
            Ok(v) => Ok(v as u64),
            Err(e) => Err(e),
        }
    }

    pub fn visit_str(&self, value: &JsonText) -> (r: Result<u64, CodecError>)
        ensures
            r == decoded_u64(JsonValue::Str(*value)),
    {
        match text_integer_value(value, 0 as i128, u64::MAX as i128) {
            Ok(v) => Ok(v as u64),
            Err(e) => Err(e),
        }
    }

    pub fn visit_unit(&self) -> (r: Result<u64, CodecError>)
        ensures
            r == decoded_u64(JsonValue::Null),
    {
        Ok(0)
    }
}

impl Decode for U64Visitor {
    type Value = u64;

    open spec fn decodes(j: JsonValue, r: Result<u64, CodecError>) -> bool {
        r == decoded_u64(j)
    }

    fn decode(j: &JsonValue) -> (r: Result<u64, CodecError>) {
        let visitor = U64Visitor::new();
        match j {
            JsonValue::Null => visitor.visit_unit(),
            JsonValue::U64(v) => visitor.visit_u64(*v),
            JsonValue::F64(b) => visitor.visit_f64(*b),
            JsonValue::Str(t) => visitor.visit_str(t),
            _ => Err(CodecError::TypeMismatch),
        }
    }
}

/// Decodes a `uint64` field: a JSON integer, a float or a string that stands
/// for an integer in range, or `null` for zero.
pub fn deserialize(j: &JsonValue) -> (r: Result<u64, CodecError>)
    ensures
        r == decoded_u64(*j),
{
    U64Visitor::decode(j)
}

/// Writes a `uint64` value as a JSON string of its decimal digits,
/// since a JSON number cannot hold every 64-bit integer exactly.
pub struct U64Serializer;

impl SerializeMethod for U64Serializer {
    type Value = u64;

    open spec fn encodes(v: u64, r: Result<JsonValue, CodecError>) -> bool {
        match r {
            Ok(JsonValue::Str(s)) => s.text@ == decimal_text(v as int) && s.float is None,
            _ => false,
        }
    }

    fn serialize(value: &u64) -> (r: Result<JsonValue, CodecError>) {
        let digits = format_integer(*value as i128);
        Ok(JsonValue::Str(JsonText::new(string_from_chars(&digits))))
    }
}

} // verus!
