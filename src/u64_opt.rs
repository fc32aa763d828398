//! The optional `uint64` codec: `null` is "not present".
use vstd::prelude::*;
use crate::json::{optional, CodecError, JsonValue, SerializeMethod};
use crate::u64::{decoded_u64, U64Serializer};

verus! {

/// Decodes an optional `uint64` field: `null` gives `None`, anything else
/// decodes as the plain codec does.
pub fn deserialize(j: &JsonValue) -> (r: Result<Option<u64>, CodecError>)
    ensures
        r == optional(*j, decoded_u64(*j)),
{
    match j {
        JsonValue::Null => Ok(None),
        _ => match crate::u64::deserialize(j) {
            Ok(v) => Ok(Some(v)),
            Err(e) => Err(e),
        },
    }
}

/// Encodes an optional `uint64` field: `None` as `null`, a value as its
/// decimal string.
pub fn serialize(value: &Option<u64>) -> (r: Result<JsonValue, CodecError>)
    ensures
        match value {
            None => r == Ok::<JsonValue, CodecError>(JsonValue::Null),
            Some(v) => U64Serializer::encodes(*v, r),
        },
{
    match value {
        None => Ok(JsonValue::Null),
        Some(v) => U64Serializer::serialize(v),
    }
}

} // verus!
