//! The `bool` codec: a JSON boolean, or `null` for `false`.
use vstd::prelude::*;
use crate::json::{CodecError, Decode, HasConstructor, JsonValue};

verus! {

pub open spec fn decoded_bool(j: JsonValue) -> Result<bool, CodecError> {
    match j {
        JsonValue::Bool(b) => Ok(b),
        JsonValue::Null => Ok(false),
        _ => Err(CodecError::TypeMismatch),
    }
}

pub struct BoolVisitor;

impl HasConstructor for BoolVisitor {
    fn new() -> Self {
        BoolVisitor
    }
}

impl BoolVisitor {
    pub fn visit_bool(&self, value: bool) -> (r: Result<bool, CodecError>)
        ensures
            r == decoded_bool(JsonValue::Bool(value)),
    {
        Ok(value)
    }

    pub fn visit_unit(&self) -> (r: Result<bool, CodecError>)
        ensures
            r == decoded_bool(JsonValue::Null),
    {
        Ok(false)
    }
}

impl Decode for BoolVisitor {
    type Value = bool;

    open spec fn decodes(j: JsonValue, r: Result<bool, CodecError>) -> bool {
        r == decoded_bool(j)
    }

    fn decode(j: &JsonValue) -> (r: Result<bool, CodecError>) {
        let visitor = BoolVisitor::new();
        match j {
            JsonValue::Bool(b) => visitor.visit_bool(*b),
            JsonValue::Null => visitor.visit_unit(),
            _ => Err(CodecError::TypeMismatch),
        }
    }
}

/// Decodes a `bool` field.
pub fn deserialize(j: &JsonValue) -> (r: Result<bool, CodecError>)
    ensures
        r == decoded_bool(*j),
{
    BoolVisitor::decode(j)
}

/// Encodes a `bool` field as a JSON boolean.
pub fn serialize(value: &bool) -> (r: JsonValue)
    ensures
        r == JsonValue::Bool(*value),
{
    JsonValue::Bool(*value)
}

} // verus!
