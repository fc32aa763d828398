//! The reading shared by the integer codecs: a JSON integer, a float that
//! stands for an integer, or decimal text.
use vstd::prelude::*;
use crate::json::{CodecError, JsonText, JsonValue};
use crate::decimal::{parse_integer, parsed_integer};
use crate::ieee::{double_to_integer, integer_of_double};
use crate::text::{chars_of, contains_char};

verus! {

/// Text that the integer codecs read as a float first: it holds an exponent
/// mark or ends in `.0`.
pub open spec fn looks_like_float(s: Seq<char>) -> bool {
    s.contains('e') || s.contains('E') || (s.len() >= 2 && s[s.len() - 2] == '.' && s[s.len() - 1] == '0')
}


/// An integer type's reading of a JSON string: through its float reading
/// where the text looks like a float, else as decimal integer text. Text
/// that is a number but no integer of the type's form fails with
/// `RangeError`.
pub open spec fn text_integer(t: JsonText, lo: int, hi: int) -> Result<int, CodecError> {
    if looks_like_float(t.text@) {
        match t.float {
            Some(b) => integer_of_double(b, lo, hi),
            None => Err(CodecError::InvalidEncoding),
        }
    } else {
        let p = parsed_integer(t.text@, lo < 0, lo, hi);
        if p == Err::<int, CodecError>(CodecError::InvalidEncoding) && t.float is Some {
            Err(CodecError::RangeError)
        } else {
            p
        }
    }
}

/// An integer type's reading of a token. `negative_tokens` says whether the
/// type takes the token of a signed integer at all.
pub open spec fn integer_token(j: JsonValue, lo: int, hi: int, negative_tokens: bool) -> Result<int, CodecError> {
    match j {
        JsonValue::Null => Ok(0),
        JsonValue::I64(v) => if !negative_tokens {
            Err(CodecError::TypeMismatch)
        } else if lo <= v <= hi {
            Ok(v as int)
        } else {
            Err(CodecError::RangeError)
        },
        JsonValue::U64(v) => if v <= hi {
            Ok(v as int)
        } else {
            Err(CodecError::RangeError)
        },
        JsonValue::F64(b) => integer_of_double(b, lo, hi),
        JsonValue::Str(t) => text_integer(t, lo, hi),
        _ => Err(CodecError::TypeMismatch),
    }
}

/// The bounds of an integer type of at most 64 bits.
pub open spec fn bounds_ok(lo: i128, hi: i128) -> bool {
    -0x8000_0000_0000_0000 <= lo <= 0 < hi < 0x1_0000_0000_0000_0000
}

pub open spec fn same_result(r: Result<i128, CodecError>, s: Result<int, CodecError>) -> bool {
    match s {
        Ok(v) => r == Ok::<i128, CodecError>(v as i128),
        Err(e) => r == Err::<i128, CodecError>(e),
    }
}

pub fn looks_like_float_text(s: &[char]) -> (r: bool)
    ensures
        r == looks_like_float(s@),
{
    contains_char(s, 'e') || contains_char(s, 'E') || (s.len() >= 2 && s[s.len() - 2] == '.' && s[s.len() - 1] == '0')
}

pub fn float_integer_value(b: u64, lo: i128, hi: i128) -> (r: Result<i128, CodecError>)
    requires
        bounds_ok(lo, hi),
    ensures
        same_result(r, integer_of_double(b, lo as int, hi as int)),
        r matches Ok(v) ==> lo <= v <= hi,
{
    double_to_integer(b, lo, hi)
}

pub fn text_integer_value(t: &JsonText, lo: i128, hi: i128) -> (r: Result<i128, CodecError>)
    requires
        bounds_ok(lo, hi),
    ensures
        same_result(r, text_integer(*t, lo as int, hi as int)),
{
    let cs = chars_of(t.text.as_str());
    if looks_like_float_text(&cs) {
        match t.float {
            Some(b) => float_integer_value(b, lo, hi),
            None => Err(CodecError::InvalidEncoding),
        }
    } else {
        let max_neg: u64 = (-lo) as u64;
        match parse_integer(&cs, lo < 0, max_neg, hi as u64) {
            Err(CodecError::InvalidEncoding) => if t.float.is_some() {
                Err(CodecError::RangeError)
            } else {
                Err(CodecError::InvalidEncoding)
            },
            other => other,
        }
    }
}

} // verus!
