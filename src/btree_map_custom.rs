//! Map fields whose keys go through a codec of this library, read from
//! and written as JSON strings, with values that decode themselves, kept in ascending key order.
use vstd::prelude::*;
use crate::json::{CodecError, Decode, HasConstructor, JsonValue, SerializeMethod};
use crate::entries::{keys_ascending, decode_map, decodes_map, encode_map, encodes_entries, seq_result, MapKey};

verus! {

/// Decodes a map field with the codec `T` for the keys and plain values: a
/// JSON mapping, or `null` for no entries. The entries come in ascending
/// key order, and the last value of a repeated key wins.
pub fn deserialize<T: Decode + HasConstructor, V: Decode<Value = V>>(j: &JsonValue) -> (r: Result<Vec<(T::Value, V)>, CodecError>)
    where T::Value: MapKey
    ensures
        decodes_map::<T, V>(*j, seq_result(r), true),
        r matches Ok(m) ==> keys_ascending(m@),
{
    decode_map::<T, V>(j, true)
}

/// Encodes a map field with the codec `F` for the keys, which must write
/// JSON strings, and plain values.
pub fn serialize<F: SerializeMethod, V: SerializeMethod<Value = V>>(value: &[(F::Value, V)]) -> (r: Result<JsonValue, CodecError>)
    ensures
        encodes_entries::<F, V>(value@, r),
{
    encode_map::<F, V>(value)
}

} // verus!
