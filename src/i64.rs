//! The `int64` codec: lenient on decode, a decimal string on encode.
use vstd::prelude::*;
use crate::json::{CodecError, Decode, HasConstructor, JsonText, JsonValue, SerializeMethod};
use crate::decimal::{decimal_text, format_integer};
use crate::text::string_from_chars;
use crate::numeric::{float_integer_value, integer_token, text_integer_value};

verus! {

pub open spec fn decoded_i64(j: JsonValue) -> Result<i64, CodecError> {
    match integer_token(j, i64::MIN as int, i64::MAX as int, true) {
        Ok(v) => Ok(v as i64),
        Err(e) => Err(e),
    }
}

pub struct I64Visitor;

impl HasConstructor for I64Visitor {
    fn new() -> Self {
        I64Visitor
    }
}

impl I64Visitor {
    pub fn visit_i64(&self, value: i64) -> (r: Result<i64, CodecError>)
        ensures
            r == decoded_i64(JsonValue::I64(value)),
    {
        Ok(value)
    }

    pub fn visit_u64(&self, value: u64) -> (r: Result<i64, CodecError>)
        ensures
            r == decoded_i64(JsonValue::U64(value)),
    {
        if value <= i64::MAX as u64 {
            Ok(value as i64)
        } else {
            Err(CodecError::RangeError)
        }
    }

    pub fn visit_f64(&self, bits: u64) -> (r: Result<i64, CodecError>)
        ensures
            r == decoded_i64(JsonValue::F64(bits)),
    {
        match float_integer_value(bits, i64::MIN as i128, i64::MAX as i128) {
            Ok(v) => Ok(v as i64),
            Err(e) => Err(e),
        }
    }

    pub fn visit_str(&self, value: &JsonText) -> (r: Result<i64, CodecError>)
        ensures
            r == decoded_i64(JsonValue::Str(*value)),
    {
        match text_integer_value(value, i64::MIN as i128, i64::MAX as i128) {
            Ok(v) => Ok(v as i64),
            Err(e) => Err(e),
        }
    }

    pub fn visit_unit(&self) -> (r: Result<i64, CodecError>)
        ensures
            r == decoded_i64(JsonValue::Null),
    {
        Ok(0)
    }
}

impl Decode for I64Visitor {
    type Value = i64;

    open spec fn decodes(j: JsonValue, r: Result<i64, CodecError>) -> bool {
        r == decoded_i64(j)
    }

    fn decode(j: &JsonValue) -> (r: Result<i64, CodecError>) {
        let visitor = I64Visitor::new();
        match j {
            JsonValue::Null => visitor.visit_unit(),
            JsonValue::I64(v) => visitor.visit_i64(*v),
            JsonValue::U64(v) => visitor.visit_u64(*v),
            JsonValue::F64(b) => visitor.visit_f64(*b),
            JsonValue::Str(t) => visitor.visit_str(t),
            _ => Err(CodecError::TypeMismatch),
        }
    }
}

/// Decodes an `int64` field: a JSON integer, a float or a string that stands
/// for an integer in range, or `null` for zero.
pub fn deserialize(j: &JsonValue) -> (r: Result<i64, CodecError>)
    ensures
        r == decoded_i64(*j),
{
    I64Visitor::decode(j)
}

/// Writes an `int64` value as a JSON string of its decimal digits,
/// since a JSON number cannot hold every 64-bit integer exactly.
pub struct I64Serializer;

impl SerializeMethod for I64Serializer {
    type Value = i64;

    open spec fn encodes(v: i64, r: Result<JsonValue, CodecError>) -> bool {
        match r {
            Ok(JsonValue::Str(s)) => s.text@ == decimal_text(v as int) && s.float is None,
            _ => false,
        }
    }

    fn serialize(value: &i64) -> (r: Result<JsonValue, CodecError>) {
        let digits = format_integer(*value as i128);
        Ok(JsonValue::Str(JsonText::new(string_from_chars(&digits))))
    }
}

} // verus!
