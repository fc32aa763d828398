//! The optional `uint32` codec: `null` is "not present".
use vstd::prelude::*;
use crate::json::{optional, CodecError, JsonValue};
use crate::u32::decoded_u32;

verus! {

/// Decodes an optional `uint32` field: `null` gives `None`, anything else
/// decodes as the plain codec does.
pub fn deserialize(j: &JsonValue) -> (r: Result<Option<u32>, CodecError>)
    ensures
        r == optional(*j, decoded_u32(*j)),
{
    match j {
        JsonValue::Null => Ok(None),
        _ => match crate::u32::deserialize(j) {
            Ok(v) => Ok(Some(v)),
            Err(e) => Err(e),
        },
    }
}

} // verus!
