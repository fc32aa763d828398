//! The optional enum codec: `null` is "not present".
use vstd::prelude::*;
use crate::json::{optional, CodecError, JsonValue, SerializeMethod};
use crate::enum_serde::{decoded_enum, encodes_enum, EnumSerializer, ProtoEnum};

verus! {

/// Decodes an optional enum field of type `T`: `null` gives `None`.
pub fn deserialize<T: ProtoEnum>(j: &JsonValue) -> (r: Result<Option<i32>, CodecError>)
    ensures
        r == optional(*j, decoded_enum::<T>(*j)),
{
    match j {
        JsonValue::Null => Ok(None),
        _ => match crate::enum_serde::deserialize::<T>(j) {
            Ok(v) => Ok(Some(v)),
            Err(e) => Err(e),
        },
    }
}

/// Encodes an optional enum field: `None` as `null`, an ordinal as its name.
pub fn serialize<T: ProtoEnum>(value: &Option<i32>) -> (r: Result<JsonValue, CodecError>)
    ensures
        match value {
            None => r == Ok::<JsonValue, CodecError>(JsonValue::Null),
            Some(v) => encodes_enum::<T>(*v, r),
        },
{
    match value {
        None => Ok(JsonValue::Null),
        Some(v) => EnumSerializer::<T>::serialize(v),
    }
}

} // verus!
