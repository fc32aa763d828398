//! The codec of a message with no fields: an empty JSON mapping.
use vstd::prelude::*;
use crate::json::{CodecError, JsonValue};

verus! {

/// What decoding an empty message gives.
pub open spec fn decoded_empty(j: JsonValue) -> Result<(), CodecError> {
    match j {
        JsonValue::Object(entries) => if entries@.len() == 0 {
            Ok(())
        } else {
            Err(CodecError::StructuralViolation)
        },
        _ => Err(CodecError::TypeMismatch),
    }
}

/// Decodes an empty message: a JSON mapping with no entries. An entry fails
/// with `StructuralViolation`: this is a message, not empty.
pub fn deserialize(j: &JsonValue) -> (r: Result<(), CodecError>)
    ensures
        r == decoded_empty(*j),
{
    match j {
        JsonValue::Object(entries) => if entries.len() == 0 {
            Ok(())
        } else {
            Err(CodecError::StructuralViolation)
        },
        _ => Err(CodecError::TypeMismatch),
    }
}

/// Encodes an empty message as an empty JSON mapping.
pub fn serialize(_value: &()) -> (r: JsonValue)
    ensures
        r matches JsonValue::Object(entries) && entries@.len() == 0,
{
    JsonValue::Object(Vec::new())
}

} // verus!
