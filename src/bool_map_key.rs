//! The `bool` codec for map keys, which are always JSON strings: `"true"`
//! and `"false"`.
use vstd::prelude::*;
use crate::json::{CodecError, Decode, HasConstructor, JsonText, JsonValue, SerializeMethod};
use crate::text::{chars_equal, chars_of};

verus! {

pub open spec fn true_text() -> Seq<char> {
    seq!['t', 'r', 'u', 'e']
}

pub open spec fn false_text() -> Seq<char> {
    seq!['f', 'a', 'l', 's', 'e']
}

pub open spec fn decoded_bool_key(j: JsonValue) -> Result<bool, CodecError> {
    match j {
        JsonValue::Str(t) => if t.text@ == true_text() {
            Ok(true)
        } else if t.text@ == false_text() {
            Ok(false)
        } else {
            Err(CodecError::TypeMismatch)
        },
        _ => Err(CodecError::TypeMismatch),
    }
}

pub struct BoolVisitor;

impl HasConstructor for BoolVisitor {
    fn new() -> Self {
        BoolVisitor
    }
}

impl BoolVisitor {
    pub fn visit_str(&self, value: &JsonText) -> (r: Result<bool, CodecError>)
        ensures
            r == decoded_bool_key(JsonValue::Str(*value)),
    {
        let cs = chars_of(value.text.as_str());
        let t = chars_of("true");
        let f = chars_of("false");
        proof {
            reveal_strlit("true");
            reveal_strlit("false");
            assert(t@ =~= true_text());
            assert(f@ =~= false_text());
        }
        if chars_equal(&cs, &t) {
            Ok(true)
        } else if chars_equal(&cs, &f) {
            Ok(false)
        } else {
            Err(CodecError::TypeMismatch)
        }
    }
}

impl Decode for BoolVisitor {
    type Value = bool;

    open spec fn decodes(j: JsonValue, r: Result<bool, CodecError>) -> bool {
        r == decoded_bool_key(j)
    }

    fn decode(j: &JsonValue) -> (r: Result<bool, CodecError>) {
        match j {
            JsonValue::Str(t) => BoolVisitor::new().visit_str(t),
            _ => Err(CodecError::TypeMismatch),
        }
    }
}

/// Decodes a `bool` map key from its string.
pub fn deserialize(j: &JsonValue) -> (r: Result<bool, CodecError>)
    ensures
        r == decoded_bool_key(*j),
{
    BoolVisitor::decode(j)
}

/// Writes a `bool` map key as the string `"true"` or `"false"`.
pub struct BoolKeySerializer;

impl SerializeMethod for BoolKeySerializer {
    type Value = bool;

    open spec fn encodes(v: bool, r: Result<JsonValue, CodecError>) -> bool {
        match r {
            Ok(JsonValue::Str(t)) => t.text@ == (if v { true_text() } else { false_text() }) && t.float is None,
            _ => false,
        }
    }

    fn serialize(value: &bool) -> (r: Result<JsonValue, CodecError>) {
        proof {
            reveal_strlit("true");
            reveal_strlit("false");
        }
        let text = if *value { String::from_str("true") } else { String::from_str("false") };
        assert(text@ =~= (if *value { true_text() } else { false_text() }));
        Ok(JsonValue::Str(JsonText::new(text)))
    }
}

} // verus!
