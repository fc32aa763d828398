//! The optional `string` codec: `null` is "not present".
use vstd::prelude::*;
use crate::json::{CodecError, JsonValue};

verus! {

/// Decodes an optional `string` field: `null` gives `None`.
pub fn deserialize(j: &JsonValue) -> (r: Result<Option<String>, CodecError>)
    ensures
        match (r, *j) {
            (Ok(Some(s)), JsonValue::Str(t)) => s@ == t.text@,
            (Ok(None), JsonValue::Null) => true,
            (Err(e), JsonValue::Str(_)) => false,
            (Err(e), JsonValue::Null) => false,
            (Err(e), _) => e == CodecError::TypeMismatch,
            _ => false,
        },
{
    match j {
        JsonValue::Str(t) => Ok(Some(t.text.clone())),
        JsonValue::Null => Ok(None),
        _ => Err(CodecError::TypeMismatch),
    }
}

} // verus!
