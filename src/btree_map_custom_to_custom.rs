//! Map fields whose keys and values both go through codecs of this
//! library, keys read from and written as JSON strings, kept in ascending key order.
use vstd::prelude::*;
use crate::json::{CodecError, Decode, HasConstructor, JsonValue, SerializeMethod};
use crate::entries::{keys_ascending, decode_map, decodes_map, encode_map, encodes_entries, seq_result, MapKey};

verus! {

/// Decodes a map field with the codec `T` for the keys and `S` for the
/// values: a JSON mapping, or `null` for no entries.
pub fn deserialize<T: Decode + HasConstructor, S: Decode + HasConstructor>(j: &JsonValue) -> (r: Result<Vec<(T::Value, S::Value)>, CodecError>)
    where T::Value: MapKey
    ensures
        decodes_map::<T, S>(*j, seq_result(r), true),
        r matches Ok(m) ==> keys_ascending(m@),
{
    decode_map::<T, S>(j, true)
}

/// Encodes a map field with the codec `F` for the keys, which must write
/// JSON strings, and `G` for the values.
pub fn serialize<F: SerializeMethod, G: SerializeMethod>(value: &[(F::Value, G::Value)]) -> (r: Result<JsonValue, CodecError>)
    ensures
        encodes_entries::<F, G>(value@, r),
{
    encode_map::<F, G>(value)
}

} // verus!
