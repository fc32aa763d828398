//! The optional `int64` codec: `null` is "not present".
use vstd::prelude::*;
use crate::json::{optional, CodecError, JsonValue, SerializeMethod};
use crate::i64::{decoded_i64, I64Serializer};

verus! {

/// Decodes an optional `int64` field: `null` gives `None`, anything else
/// decodes as the plain codec does.
pub fn deserialize(j: &JsonValue) -> (r: Result<Option<i64>, CodecError>)
    ensures
        r == optional(*j, decoded_i64(*j)),
{
    match j {
        JsonValue::Null => Ok(None),
        _ => match crate::i64::deserialize(j) {
            Ok(v) => Ok(Some(v)),
            Err(e) => Err(e),
        },
    }
}

/// Encodes an optional `int64` field: `None` as `null`, a value as its
/// decimal string.
pub fn serialize(value: &Option<i64>) -> (r: Result<JsonValue, CodecError>)
    ensures
        match value {
            None => r == Ok::<JsonValue, CodecError>(JsonValue::Null),
            Some(v) => I64Serializer::encodes(*v, r),
        },
{
    match value {
        None => Ok(JsonValue::Null),
        Some(v) => I64Serializer::serialize(v),
    }
}

} // verus!
