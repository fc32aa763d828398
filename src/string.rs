//! The `string` codec: a JSON string, or `null` for the empty string.
use vstd::prelude::*;
use crate::json::{CodecError, Decode, HasConstructor, JsonText, JsonValue};

verus! {

/// What decoding a `string` field gives, over the characters.
pub open spec fn decoded_string(j: JsonValue) -> Result<Seq<char>, CodecError> {
    match j {
        JsonValue::Str(t) => Ok(t.text@),
        JsonValue::Null => Ok(Seq::empty()),
        _ => Err(CodecError::TypeMismatch),
    }
}

pub open spec fn same_text(r: Result<String, CodecError>, s: Result<Seq<char>, CodecError>) -> bool {
    match (r, s) {
        (Ok(a), Ok(b)) => a@ == b,
        (Err(a), Err(b)) => a == b,
        _ => false,
    }
}

pub struct StringVisitor;

impl HasConstructor for StringVisitor {
    fn new() -> Self {
        StringVisitor
    }
}

impl StringVisitor {
    pub fn visit_str(&self, value: &JsonText) -> (r: Result<String, CodecError>)
        ensures
            same_text(r, decoded_string(JsonValue::Str(*value))),
    {
        Ok(value.text.clone())
    }

    pub fn visit_unit(&self) -> (r: Result<String, CodecError>)
        ensures
            same_text(r, decoded_string(JsonValue::Null)),
    {
        Ok(String::new())
    }
}

impl Decode for StringVisitor {
    type Value = String;

    open spec fn decodes(j: JsonValue, r: Result<String, CodecError>) -> bool {
        same_text(r, decoded_string(j))
    }

    fn decode(j: &JsonValue) -> (r: Result<String, CodecError>) {
        let visitor = StringVisitor::new();
        match j {
            JsonValue::Str(t) => visitor.visit_str(t),
            JsonValue::Null => visitor.visit_unit(),
            _ => Err(CodecError::TypeMismatch),
        }
    }
}

/// Decodes a `string` field.
pub fn deserialize(j: &JsonValue) -> (r: Result<String, CodecError>)
    ensures
        same_text(r, decoded_string(*j)),
{
    StringVisitor::decode(j)
}

/// Encodes a `string` field as a JSON string.
pub fn serialize(value: &String) -> (r: JsonValue)
    ensures
        r matches JsonValue::Str(t) && t.text@ == value@ && t.float is None,
{
    JsonValue::Str(JsonText::new(value.clone()))
}

} // verus!
