//! The `uint32` codec: lenient on decode, a JSON number on encode.
use vstd::prelude::*;
use crate::json::{CodecError, Decode, HasConstructor, JsonText, JsonValue};
use crate::numeric::{float_integer_value, integer_token, text_integer_value};

verus! {

pub open spec fn decoded_u32(j: JsonValue) -> Result<u32, CodecError> {
    match integer_token(j, 0int, u32::MAX as int, true) {
        Ok(v) => Ok(v as u32),
        Err(e) => Err(e),
    }
}

pub struct U32Visitor;

impl HasConstructor for U32Visitor {
    fn new() -> Self {
        U32Visitor
    }
}

impl U32Visitor {
    pub fn visit_i64(&self, value: i64) -> (r: Result<u32, CodecError>)
        ensures
            r == decoded_u32(JsonValue::I64(value)),
    {
        if 0 <= value && value <= u32::MAX as i64 {
            Ok(value as u32)
        } else {
            Err(CodecError::RangeError)
        }
    }

    pub fn visit_u64(&self, value: u64) -> (r: Result<u32, CodecError>)
        ensures
            r == decoded_u32(JsonValue::U64(value)),
    {
        if value <= u32::MAX as u64 {
            Ok(value as u32)
        } else {
            Err(CodecError::RangeError)
        }
    }

    pub fn visit_f64(&self, bits: u64) -> (r: Result<u32, CodecError>)
        ensures
            r == decoded_u32(JsonValue::F64(bits)),
    {
        match float_integer_value(bits, 0 as i128, u32::MAX as i128) {
            Ok(v) => Ok(v as u32),
            Err(e) => Err(e),
        }
    }

    pub fn visit_str(&self, value: &JsonText) -> (r: Result<u32, CodecError>)
        ensures
            r == decoded_u32(JsonValue::Str(*value)),
    {
        match text_integer_value(value, 0 as i128, u32::MAX as i128) {
            Ok(v) => Ok(v as u32),
            Err(e) => Err(e),
        }
    }

    pub fn visit_unit(&self) -> (r: Result<u32, CodecError>)
        ensures
            r == decoded_u32(JsonValue::Null),
    {
        Ok(0)
    }
}

impl Decode for U32Visitor {
    type Value = u32;

    open spec fn decodes(j: JsonValue, r: Result<u32, CodecError>) -> bool {
        r == decoded_u32(j)
    }

    fn decode(j: &JsonValue) -> (r: Result<u32, CodecError>) {
        let visitor = U32Visitor::new();
        match j {
            JsonValue::Null => visitor.visit_unit(),
            JsonValue::I64(v) => visitor.visit_i64(*v),
            JsonValue::U64(v) => visitor.visit_u64(*v),
            JsonValue::F64(b) => visitor.visit_f64(*b),
            JsonValue::Str(t) => visitor.visit_str(t),
            _ => Err(CodecError::TypeMismatch),
        }
    }
}

/// Decodes a `uint32` field: a JSON integer, a float or a string that stands
/// for an integer in range, or `null` for zero.
pub fn deserialize(j: &JsonValue) -> (r: Result<u32, CodecError>)
    ensures
        r == decoded_u32(*j),
{
    U32Visitor::decode(j)
}

/// Encodes a `uint32` field as a JSON number.
pub fn serialize(value: &u32) -> (r: JsonValue)
    ensures
        r == JsonValue::U64(*value as u64),
{
    JsonValue::U64(*value as u64)
}

} // verus!
