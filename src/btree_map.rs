//! Map fields whose keys and values decode themselves, kept in ascending key order.
use vstd::prelude::*;
use crate::json::{CodecError, Decode, JsonValue};
use crate::entries::{keys_ascending, decode_map, decodes_map, seq_result, MapKey};

verus! {

/// Decodes a map field whose keys and values decode themselves: a JSON
/// mapping, or `null` for no entries. The entries come in ascending key
/// order, and the last value of a repeated key wins.
pub fn deserialize<K: Decode<Value = K> + MapKey, V: Decode<Value = V>>(j: &JsonValue) -> (r: Result<Vec<(K, V)>, CodecError>)
    ensures
        decodes_map::<K, V>(*j, seq_result(r), true),
        r matches Ok(m) ==> keys_ascending(m@),
{
    decode_map::<K, V>(j, true)
}

} // verus!
