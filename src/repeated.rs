//! Repeated fields whose elements go through a codec of this library.
use vstd::prelude::*;
use crate::json::{CodecError, Decode, HasConstructor, JsonValue, SerializeMethod};
use crate::entries::{decode_list, decodes_list, encode_list, encodes_all, seq_result};

verus! {

/// Decodes a repeated field with the codec `T` for each element: a JSON
/// sequence, or `null` for no elements.
pub fn deserialize<T: Decode + HasConstructor>(j: &JsonValue) -> (r: Result<Vec<T::Value>, CodecError>)
    ensures
        decodes_list::<T>(*j, seq_result(r)),
{
    decode_list::<T>(j)
}

/// Encodes a repeated field with the codec `F` for each element.
pub fn serialize<F: SerializeMethod>(value: &[F::Value]) -> (r: Result<JsonValue, CodecError>)
    ensures
        encodes_all::<F>(value@, r),
{
    encode_list::<F>(value)
}

} // verus!
