//! The JSON tokens that codecs read and write, the codec error kinds, and the
//! capabilities that the collection codecs are generic over.
use vstd::prelude::*;

verus! {

/// A JSON string as the reader presents it.
#[derive(Debug, PartialEq)]
pub struct JsonText {
    pub text: String,
    /// The IEEE-754 bit pattern of the double that the standard float
    /// grammar reads from `text`, or `None` where it reads none. The reader
    /// fills it in; codecs that write text leave it `None`, and the writer
    /// ignores it.
    pub float: Option<u64>,
}

/// One JSON token, with its nested tokens for a sequence or a mapping.
#[derive(Debug, PartialEq)]
pub enum JsonValue {
    /// JSON `null`: the unit token.
    Null,
    Bool(bool),
    /// An integer number; a reader hands a non-negative one over as `U64`.
    I64(i64),
    /// A non-negative integer number.
    U64(u64),
    /// A number with a fraction or an exponent, as the bit pattern of an
    /// IEEE-754 double.
    F64(u64),
    Str(JsonText),
    Array(Vec<JsonValue>),
    /// The entries of a mapping in document order, duplicates included.
    Object(Vec<(JsonText, JsonValue)>),
}

/// Why a decode or an encode failed.
#[derive(PartialEq, Eq, Structural, Clone, Copy, Debug)]
pub enum CodecError {
    /// The token kind is not one that this codec accepts.
    TypeMismatch,
    /// A number out of the target's range, or not integral where an integer
    /// is required.
    RangeError,
    /// Malformed text: base64, a number, a duration.
    InvalidEncoding,
    /// A string that names no variant of the enum.
    UnknownEnumName,
    /// An ordinal that no variant of the enum has, on encode.
    UnknownEnumValue,
    /// A dynamic value with no variant set, or with a non-finite number.
    InvalidUnion,
    /// A non-empty mapping where an empty message was expected.
    StructuralViolation,
}

impl JsonText {
    /// A copy of this text.
    pub fn duplicate(&self) -> (r: JsonText)
        ensures
            r == *self,
    {
        JsonText { text: self.text.clone(), float: self.float }
    }

    /// Text for output; the float reading is left out.
    pub fn new(text: String) -> (r: JsonText)
        ensures
            r.text@ == text@,
            r.float is None,
    {
        JsonText { text, float: None }
    }
}

/// The optional variant of a codec: `null` is "not present", anything
/// else decodes as the plain codec decodes it (`d`).
pub open spec fn optional<T>(j: JsonValue, d: Result<T, CodecError>) -> Result<Option<T>, CodecError> {
    if j is Null {
        Ok(None)
    } else {
        match d {
            Ok(v) => Ok(Some(v)),
            Err(e) => Err(e),
        }
    }
}

/// A codec's decoding side: reads one token and produces a value or fails.
pub trait Decode {
    type Value;

    /// `r` is what decoding `j` gives.
    spec fn decodes(j: JsonValue, r: Result<Self::Value, CodecError>) -> bool;

    fn decode(j: &JsonValue) -> (r: Result<Self::Value, CodecError>)
        ensures
            Self::decodes(*j, r),
    ;
}

/// A codec's encoding side: writes one value as a token or fails.
pub trait SerializeMethod {
    type Value;

    /// `r` is what encoding `v` gives.
    spec fn encodes(v: Self::Value, r: Result<JsonValue, CodecError>) -> bool;

    fn serialize(value: &Self::Value) -> (r: Result<JsonValue, CodecError>)
        ensures
            Self::encodes(*value, r),
    ;
}

/// A visitor that can be made without arguments.
pub trait HasConstructor: Sized {
    fn new() -> Self;
}

} // verus!
