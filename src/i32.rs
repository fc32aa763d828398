//! The `int32` codec: lenient on decode, a JSON number on encode.
use vstd::prelude::*;
use crate::json::{CodecError, Decode, HasConstructor, JsonText, JsonValue};
use crate::numeric::{float_integer_value, integer_token, text_integer_value};

verus! {

pub open spec fn decoded_i32(j: JsonValue) -> Result<i32, CodecError> {
    match integer_token(j, i32::MIN as int, i32::MAX as int, true) {
        Ok(v) => Ok(v as i32),
        Err(e) => Err(e),
    }
}

pub struct I32Visitor;

impl HasConstructor for I32Visitor {
    fn new() -> Self {
        I32Visitor
    }
}

impl I32Visitor {
    pub fn visit_i64(&self, value: i64) -> (r: Result<i32, CodecError>)
        ensures
            r == decoded_i32(JsonValue::I64(value)),
    {
        if i32::MIN as i64 <= value && value <= i32::MAX as i64 {
            Ok(value as i32)
        } else {
            Err(CodecError::RangeError)
        }
    }

    pub fn visit_u64(&self, value: u64) -> (r: Result<i32, CodecError>)
        ensures
            r == decoded_i32(JsonValue::U64(value)),
    {
        if value <= i32::MAX as u64 {
            Ok(value as i32)
        } else {
            Err(CodecError::RangeError)
        }
    }

    pub fn visit_f64(&self, bits: u64) -> (r: Result<i32, CodecError>)
        ensures
            r == decoded_i32(JsonValue::F64(bits)),
    {
        match float_integer_value(bits, i32::MIN as i128, i32::MAX as i128) {
            Ok(v) => Ok(v as i32),
            Err(e) => Err(e),
        }
    }

    pub fn visit_str(&self, value: &JsonText) -> (r: Result<i32, CodecError>)
        ensures
            r == decoded_i32(JsonValue::Str(*value)),
    {
        match text_integer_value(value, i32::MIN as i128, i32::MAX as i128) {
            Ok(v) => Ok(v as i32),
            Err(e) => Err(e),
        }
    }

    pub fn visit_unit(&self) -> (r: Result<i32, CodecError>)
        ensures
            r == decoded_i32(JsonValue::Null),
    {
        Ok(0)
    }
}

impl Decode for I32Visitor {
    type Value = i32;

    open spec fn decodes(j: JsonValue, r: Result<i32, CodecError>) -> bool {
        r == decoded_i32(j)
    }

    fn decode(j: &JsonValue) -> (r: Result<i32, CodecError>) {
        let visitor = I32Visitor::new();
        match j {
            JsonValue::Null => visitor.visit_unit(),
            JsonValue::I64(v) => visitor.visit_i64(*v),
            JsonValue::U64(v) => visitor.visit_u64(*v),
            JsonValue::F64(b) => visitor.visit_f64(*b),
            JsonValue::Str(t) => visitor.visit_str(t),
            _ => Err(CodecError::TypeMismatch),
        }
    }
}

/// Decodes an `int32` field: a JSON integer, a float or a string that stands
/// for an integer in range, or `null` for zero.
pub fn deserialize(j: &JsonValue) -> (r: Result<i32, CodecError>)
    ensures
        r == decoded_i32(*j),
{
    I32Visitor::decode(j)
}

/// Encodes an `int32` field as a JSON number.
pub fn serialize(value: &i32) -> (r: JsonValue)
    ensures
        r == JsonValue::I64(*value as i64),
{
    JsonValue::I64(*value as i64)
}

} // verus!
