//! The optional `bytes` codec: `null` is "not present".
use vstd::prelude::*;
use crate::json::{CodecError, JsonValue, SerializeMethod};
use crate::vec_u8::{decoded_bytes, VecU8Serializer};

verus! {

/// Decodes an optional `bytes` field: `null` gives `None`.
pub fn deserialize(j: &JsonValue) -> (r: Result<Option<Vec<u8>>, CodecError>)
    ensures
        match (r, decoded_bytes(*j)) {
            (Ok(None), _) => *j is Null,
            (Ok(Some(a)), Ok(b)) => !(*j is Null) && a@ == b,
            (Err(a), Err(b)) => !(*j is Null) && a == b,
            _ => false,
        },
{
    match j {
        JsonValue::Null => Ok(None),
        _ => match crate::vec_u8::deserialize(j) {
            Ok(v) => Ok(Some(v)),
            Err(e) => Err(e),
        },
    }
}

/// Encodes an optional `bytes` field: `None` as `null`, bytes as base64.
pub fn serialize(value: &Option<Vec<u8>>) -> (r: Result<JsonValue, CodecError>)
    ensures
        match value {
            None => r == Ok::<JsonValue, CodecError>(JsonValue::Null),
            Some(v) => VecU8Serializer::encodes(*v, r),
        },
{
    match value {
        None => Ok(JsonValue::Null),
        Some(v) => VecU8Serializer::serialize(v),
    }
}

} // verus!
