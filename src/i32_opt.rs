//! The optional `int32` codec: `null` is "not present".
use vstd::prelude::*;
use crate::json::{optional, CodecError, JsonValue};
use crate::i32::decoded_i32;

verus! {

/// Decodes an optional `int32` field: `null` gives `None`, anything else
/// decodes as the plain codec does.
pub fn deserialize(j: &JsonValue) -> (r: Result<Option<i32>, CodecError>)
    ensures
        r == optional(*j, decoded_i32(*j)),
{
    match j {
        JsonValue::Null => Ok(None),
        _ => match crate::i32::deserialize(j) {
            Ok(v) => Ok(Some(v)),
            Err(e) => Err(e),
        },
    }
}

} // verus!
