//! Map fields whose keys and values decode themselves.
use vstd::prelude::*;
use crate::json::{CodecError, Decode, JsonValue};
use crate::entries::{decode_map, decodes_map, seq_result, MapKey};

verus! {

/// Decodes a map field whose keys and values decode themselves: a JSON
/// mapping, or `null` for no entries. The entries keep the order in which
/// each key first came, and the last value of a repeated key wins.
pub fn deserialize<K: Decode<Value = K> + MapKey, V: Decode<Value = V>>(j: &JsonValue) -> (r: Result<Vec<(K, V)>, CodecError>)
    ensures
        decodes_map::<K, V>(*j, seq_result(r), false),
{
    decode_map::<K, V>(j, false)
}

} // verus!
