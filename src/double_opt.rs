//! The optional `double` codec: `null` is "not present".
use vstd::prelude::*;
use crate::json::{optional, CodecError, JsonValue, SerializeMethod};
use crate::double::{decoded_double, F64Serializer};

verus! {

/// Decodes an optional `double` field: `null` gives `None`.
pub fn deserialize(j: &JsonValue) -> (r: Result<Option<u64>, CodecError>)
    ensures
        r == optional(*j, decoded_double(*j)),
{
    match j {
        JsonValue::Null => Ok(None),
        _ => match crate::double::deserialize(j) {
            Ok(v) => Ok(Some(v)),
            Err(e) => Err(e),
        },
    }
}

/// Encodes an optional `double` field: `None` as `null`.
pub fn serialize(value: &Option<u64>) -> (r: Result<JsonValue, CodecError>)
    ensures
        match value {
            None => r == Ok::<JsonValue, CodecError>(JsonValue::Null),
            Some(v) => F64Serializer::encodes(*v, r),
        },
{
    match value {
        None => Ok(JsonValue::Null),
        Some(v) => F64Serializer::serialize(v),
    }
}

} // verus!
