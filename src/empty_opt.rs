//! The optional codec of a message with no fields: `null` is "not present",
//! an empty JSON mapping is present.
use vstd::prelude::*;
use crate::json::{optional, CodecError, JsonValue};
use crate::empty::decoded_empty;

verus! {

/// Decodes an optional empty message: `null` gives `None`, an empty
/// mapping `Some(())`, a mapping with an entry `StructuralViolation`.
pub fn deserialize(j: &JsonValue) -> (r: Result<Option<()>, CodecError>)
    ensures
        r == optional(*j, decoded_empty(*j)),
{
    match j {
        JsonValue::Null => Ok(None),
        _ => match crate::empty::deserialize(j) {
            Ok(v) => Ok(Some(v)),
            Err(e) => Err(e),
        },
    }
}

/// Encodes an optional empty message: `None` as `null`, `Some` as an empty
/// mapping.
pub fn serialize(opt: &Option<()>) -> (r: JsonValue)
    ensures
        match opt {
            None => r == JsonValue::Null,
            Some(_) => r matches JsonValue::Object(entries) && entries@.len() == 0,
        },
{
    match opt {
        None => JsonValue::Null,
        Some(_) => JsonValue::Object(Vec::new()),
    }
}

} // verus!
