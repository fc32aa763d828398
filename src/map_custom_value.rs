//! Map fields with keys that decode themselves and values that go through
//! a codec of this library.
use vstd::prelude::*;
use crate::json::{CodecError, Decode, HasConstructor, JsonValue, SerializeMethod};
use crate::entries::{decode_map, decodes_map, encode_map, encodes_entries, seq_result, MapKey};

verus! {

/// Decodes a map field with plain keys and the codec `V` for the values: a
/// JSON mapping, or `null` for no entries.
pub fn deserialize<T: Decode<Value = T> + MapKey, V: Decode + HasConstructor>(j: &JsonValue) -> (r: Result<Vec<(T, V::Value)>, CodecError>)
    ensures
        decodes_map::<T, V>(*j, seq_result(r), false),
{
    decode_map::<T, V>(j, false)
}

/// Encodes a map field with plain keys, which must write JSON strings, and
/// the codec `F` for the values.
pub fn serialize<T: SerializeMethod<Value = T>, F: SerializeMethod>(value: &[(T, F::Value)]) -> (r: Result<JsonValue, CodecError>)
    ensures
        encodes_entries::<T, F>(value@, r),
{
    encode_map::<T, F>(value)
}

} // verus!
