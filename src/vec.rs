//! Repeated fields of a type that decodes itself.
use vstd::prelude::*;
use crate::json::{CodecError, Decode, JsonValue};
use crate::entries::{decode_list, decodes_list, seq_result};

verus! {

/// Decodes a repeated field whose elements decode themselves: a JSON
/// sequence, or `null` for no elements.
pub fn deserialize<T: Decode<Value = T>>(j: &JsonValue) -> (r: Result<Vec<T>, CodecError>)
    ensures
        decodes_list::<T>(*j, seq_result(r)),
{
    decode_list::<T>(j)
}

} // verus!
