//! The `bytes` codec: standard base64 text in a JSON string (written
//! padded, read with or without padding), or `null` for no bytes.
use vstd::prelude::*;
use crate::json::{CodecError, Decode, HasConstructor, JsonText, JsonValue, SerializeMethod};

verus! {

/// The standard, padded base64 text of the bytes `b`.
pub uninterp spec fn base64_text(b: Seq<u8>) -> Seq<char>;

/// The bytes that the standard-alphabet base64 text `s` spells, with or
/// without padding, or `None` where `s` is not such text.
pub uninterp spec fn base64_bytes(s: Seq<char>) -> Option<Seq<u8>>;

#[verifier::external_type_specification]
#[verifier::external_body]
pub struct ExBase64DecodeError(base64::DecodeError);

/// Relies on `base64::encode` (standard alphabet, padded), whose output
/// `base64::decode` reads back to the same bytes. It panics only where the
/// output length overflows `usize`, which no `Vec` in memory reaches.
#[verifier::external_body]
fn encode_base64(b: &[u8]) -> (r: String)
    ensures
        r@ == base64_text(b@),
        base64_bytes(r@) == Some(b@),
{
    base64::encode(b)
}

/// Relies on `base64::decode` (standard alphabet, padding optional): the
/// bytes that the text spells, or an error where it spells none. It panics
/// only on text within 7 bytes of `usize::MAX`, which no `str` reaches.
#[verifier::external_body]
fn decode_base64(s: &str) -> (r: Result<Vec<u8>, base64::DecodeError>)
    ensures
        match r {
            Ok(v) => base64_bytes(s@) == Some(v@),
            Err(_) => base64_bytes(s@) is None,
        },
{
    base64::decode(s)
}

/// What decoding a `bytes` field gives, over the byte sequence.
pub open spec fn decoded_bytes(j: JsonValue) -> Result<Seq<u8>, CodecError> {
    match j {
        JsonValue::Str(t) => match base64_bytes(t.text@) {
            Some(b) => Ok(b),
            None => Err(CodecError::InvalidEncoding),
        },
        JsonValue::Null => Ok(Seq::empty()),
        _ => Err(CodecError::TypeMismatch),
    }
}

pub open spec fn same_bytes(r: Result<Vec<u8>, CodecError>, s: Result<Seq<u8>, CodecError>) -> bool {
    match (r, s) {
        (Ok(a), Ok(b)) => a@ == b,
        (Err(a), Err(b)) => a == b,
        _ => false,
    }
}

pub struct VecU8Visitor;

impl HasConstructor for VecU8Visitor {
    fn new() -> Self {
        VecU8Visitor
    }
}

impl VecU8Visitor {
    pub fn visit_str(&self, value: &JsonText) -> (r: Result<Vec<u8>, CodecError>)
        ensures
            same_bytes(r, decoded_bytes(JsonValue::Str(*value))),
    {
        match decode_base64(value.text.as_str()) {
            Ok(b) => Ok(b),
            Err(_) => Err(CodecError::InvalidEncoding),
        }
    }

    pub fn visit_unit(&self) -> (r: Result<Vec<u8>, CodecError>)
        ensures
            same_bytes(r, decoded_bytes(JsonValue::Null)),
    {
        Ok(Vec::new())
    }
}

impl Decode for VecU8Visitor {
    type Value = Vec<u8>;

    open spec fn decodes(j: JsonValue, r: Result<Vec<u8>, CodecError>) -> bool {
        same_bytes(r, decoded_bytes(j))
    }

    fn decode(j: &JsonValue) -> (r: Result<Vec<u8>, CodecError>) {
        let visitor = VecU8Visitor::new();
        match j {
            JsonValue::Str(t) => visitor.visit_str(t),
            JsonValue::Null => visitor.visit_unit(),
            _ => Err(CodecError::TypeMismatch),
        }
    }
}

/// Decodes a `bytes` field from base64 text.
pub fn deserialize(j: &JsonValue) -> (r: Result<Vec<u8>, CodecError>)
    ensures
        same_bytes(r, decoded_bytes(*j)),
{
    VecU8Visitor::decode(j)
}

/// Writes a `bytes` value as its base64 text.
pub struct VecU8Serializer;

impl SerializeMethod for VecU8Serializer {
    type Value = Vec<u8>;

    open spec fn encodes(v: Vec<u8>, r: Result<JsonValue, CodecError>) -> bool {
        match r {
            Ok(JsonValue::Str(t)) => t.text@ == base64_text(v@) && base64_bytes(t.text@) == Some(v@)
                && t.float is None,
            _ => false,
        }
    }

    fn serialize(value: &Vec<u8>) -> (r: Result<JsonValue, CodecError>) {
        Ok(JsonValue::Str(JsonText::new(encode_base64(value.as_slice()))))
    }
}

} // verus!
