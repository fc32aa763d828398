//! The optional `bool` codec: `null` is "not present".
use vstd::prelude::*;
use crate::json::{optional, CodecError, JsonValue};
use crate::bool::decoded_bool;

verus! {

/// Decodes an optional `bool` field: `null` gives `None`.
pub fn deserialize(j: &JsonValue) -> (r: Result<Option<bool>, CodecError>)
    ensures
        r == optional(*j, decoded_bool(*j)),
{
    match j {
        JsonValue::Bool(b) => Ok(Some(*b)),
        JsonValue::Null => Ok(None),
        _ => Err(CodecError::TypeMismatch),
    }
}

} // verus!
