//! The `double` codec, over the IEEE-754 bit pattern of the value: JSON
//! numbers for finite values, and the strings `"NaN"`, `"Infinity"` and
//! `"-Infinity"` for the others, which a JSON number cannot hold.
use vstd::prelude::*;
use crate::json::{CodecError, Decode, HasConstructor, JsonText, JsonValue, SerializeMethod};
use crate::ieee::{double_of_integer, i64_to_double, is_infinite, is_nan, is_sign_negative, u64_to_double, is_infinite_bits, is_nan_bits, is_sign_negative_bits, INFINITY_BITS, NAN_BITS, NEG_INFINITY_BITS};
use crate::text::{chars_equal, chars_of};

verus! {

pub open spec fn nan_text() -> Seq<char> {
    seq!['N', 'a', 'N']
}

pub open spec fn infinity_text() -> Seq<char> {
    seq!['I', 'n', 'f', 'i', 'n', 'i', 't', 'y']
}

pub open spec fn neg_infinity_text() -> Seq<char> {
    seq!['-', 'I', 'n', 'f', 'i', 'n', 'i', 't', 'y']
}

/// A double's reading of a JSON string: the three special names, else the
/// float that the text reads as.
pub open spec fn text_double(t: JsonText) -> Result<u64, CodecError> {
    if t.text@ == nan_text() {
        Ok(NAN_BITS)
    } else if t.text@ == infinity_text() {
        Ok(INFINITY_BITS)
    } else if t.text@ == neg_infinity_text() {
        Ok(NEG_INFINITY_BITS)
    } else {
        match t.float {
            Some(b) => Ok(b),
            None => Err(CodecError::InvalidEncoding),
        }
    }
}

/// What decoding a `double` field gives, as a bit pattern.
pub open spec fn decoded_double(j: JsonValue) -> Result<u64, CodecError> {
    match j {
        JsonValue::I64(v) => Ok(double_of_integer(v as int)),
        JsonValue::U64(v) => Ok(double_of_integer(v as int)),
        JsonValue::F64(b) => Ok(b),
        JsonValue::Str(t) => text_double(t),
        JsonValue::Null => Ok(0),
        _ => Err(CodecError::TypeMismatch),
    }
}

/// What encoding the double `b` gives.
pub open spec fn encodes_double(b: u64, r: Result<JsonValue, CodecError>) -> bool {
    if is_nan(b) {
        r matches Ok(JsonValue::Str(t)) && t.text@ == nan_text() && t.float is None
    } else if is_infinite(b) && is_sign_negative(b) {
        r matches Ok(JsonValue::Str(t)) && t.text@ == neg_infinity_text() && t.float is None
    } else if is_infinite(b) {
        r matches Ok(JsonValue::Str(t)) && t.text@ == infinity_text() && t.float is None
    } else {
        r == Ok::<JsonValue, CodecError>(JsonValue::F64(b))
    }
}

pub struct F64Visitor;

impl HasConstructor for F64Visitor {
    fn new() -> Self {
        F64Visitor
    }
}

impl F64Visitor {
    pub fn visit_i64(&self, value: i64) -> (r: Result<u64, CodecError>)
        ensures
            r == decoded_double(JsonValue::I64(value)),
    {
        Ok(i64_to_double(value))
    }

    pub fn visit_u64(&self, value: u64) -> (r: Result<u64, CodecError>)
        ensures
            r == decoded_double(JsonValue::U64(value)),
    {
        Ok(u64_to_double(value))
    }

    pub fn visit_f64(&self, bits: u64) -> (r: Result<u64, CodecError>)
        ensures
            r == decoded_double(JsonValue::F64(bits)),
    {
        Ok(bits)
    }

    pub fn visit_str(&self, value: &JsonText) -> (r: Result<u64, CodecError>)
        ensures
            r == decoded_double(JsonValue::Str(*value)),
    {
        let cs = chars_of(value.text.as_str());
        let nan = chars_of("NaN");
        let inf = chars_of("Infinity");
        let neg_inf = chars_of("-Infinity");
        proof {
            reveal_strlit("NaN");
            reveal_strlit("Infinity");
            reveal_strlit("-Infinity");
            assert(nan@ =~= nan_text());
            assert(inf@ =~= infinity_text());
            assert(neg_inf@ =~= neg_infinity_text());
        }
        if chars_equal(&cs, &nan) {
            Ok(NAN_BITS)
        } else if chars_equal(&cs, &inf) {
            Ok(INFINITY_BITS)
        } else if chars_equal(&cs, &neg_inf) {
            Ok(NEG_INFINITY_BITS)
        } else {
            match value.float {
                Some(b) => Ok(b),
                None => Err(CodecError::InvalidEncoding),
            }
        }
    }

    pub fn visit_unit(&self) -> (r: Result<u64, CodecError>)
        ensures
            r == decoded_double(JsonValue::Null),
    {
        Ok(0)
    }
}

impl Decode for F64Visitor {
    type Value = u64;

    open spec fn decodes(j: JsonValue, r: Result<u64, CodecError>) -> bool {
        r == decoded_double(j)
    }

    fn decode(j: &JsonValue) -> (r: Result<u64, CodecError>) {
        let visitor = F64Visitor::new();
        match j {
            JsonValue::I64(v) => visitor.visit_i64(*v),
            JsonValue::U64(v) => visitor.visit_u64(*v),
            JsonValue::F64(b) => visitor.visit_f64(*b),
            JsonValue::Str(t) => visitor.visit_str(t),
            JsonValue::Null => visitor.visit_unit(),
            _ => Err(CodecError::TypeMismatch),
        }
    }
}

/// Decodes a `double` field into its bit pattern.
pub fn deserialize(j: &JsonValue) -> (r: Result<u64, CodecError>)
    ensures
        r == decoded_double(*j),
{
    F64Visitor::decode(j)
}

/// Writes a `double`, given as its bit pattern.
pub struct F64Serializer;

impl SerializeMethod for F64Serializer {
    type Value = u64;

    open spec fn encodes(v: u64, r: Result<JsonValue, CodecError>) -> bool {
        encodes_double(v, r)
    }

    fn serialize(value: &u64) -> (r: Result<JsonValue, CodecError>) {
        proof {
            reveal_strlit("NaN");
            reveal_strlit("Infinity");
            reveal_strlit("-Infinity");
        }
        let b = *value;
        if is_nan_bits(b) {
            let t = String::from_str("NaN");
            assert(t@ =~= nan_text());
            Ok(JsonValue::Str(JsonText::new(t)))
        } else if is_infinite_bits(b) && is_sign_negative_bits(b) {
            let t = String::from_str("-Infinity");
            assert(t@ =~= neg_infinity_text());
            Ok(JsonValue::Str(JsonText::new(t)))
        } else if is_infinite_bits(b) {
            let t = String::from_str("Infinity");
            assert(t@ =~= infinity_text());
            Ok(JsonValue::Str(JsonText::new(t)))
        } else {
            Ok(JsonValue::F64(b))
        }
    }
}

} // verus!
