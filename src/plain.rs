//! The plain codecs of the library's basic types, as their own
//! serialization gives them: exact token kinds, no leniency, except that
//! an integer or a boolean also reads from the string it stands as when it
//! is a map key.
use vstd::prelude::*;
use crate::json::{CodecError, Decode, JsonText, JsonValue, SerializeMethod};
use crate::string::same_text;
use crate::decimal::{parse_integer, parsed_integer};
use crate::bool_map_key::decoded_bool_key;
use crate::text::chars_of;

verus! {

/// A plain string: a JSON string only.
pub open spec fn plain_string(j: JsonValue) -> Result<Seq<char>, CodecError> {
    match j {
        JsonValue::Str(t) => Ok(t.text@),
        _ => Err(CodecError::TypeMismatch),
    }
}

impl Decode for String {
    type Value = String;

    open spec fn decodes(j: JsonValue, r: Result<String, CodecError>) -> bool {
        same_text(r, plain_string(j))
    }

    fn decode(j: &JsonValue) -> (r: Result<String, CodecError>) {
        match j {
            JsonValue::Str(t) => Ok(t.text.clone()),
            _ => Err(CodecError::TypeMismatch),
        }
    }
}

impl SerializeMethod for String {
    type Value = String;

    open spec fn encodes(v: String, r: Result<JsonValue, CodecError>) -> bool {
        r matches Ok(JsonValue::Str(t)) && t.text@ == v@ && t.float is None
    }

    fn serialize(value: &String) -> (r: Result<JsonValue, CodecError>) {
        Ok(JsonValue::Str(JsonText::new(value.clone())))
    }
}

impl Decode for bool {
    type Value = bool;

    open spec fn decodes(j: JsonValue, r: Result<bool, CodecError>) -> bool {
        match j {
            JsonValue::Bool(b) => r == Ok::<bool, CodecError>(b),
            JsonValue::Str(_) => r == decoded_bool_key(j),
            _ => r == Err::<bool, CodecError>(CodecError::TypeMismatch),
        }
    }

    fn decode(j: &JsonValue) -> (r: Result<bool, CodecError>) {
        match j {
            JsonValue::Bool(b) => Ok(*b),
            JsonValue::Str(_) => crate::bool_map_key::deserialize(j),
            _ => Err(CodecError::TypeMismatch),
        }
    }
}

impl SerializeMethod for bool {
    type Value = bool;

    open spec fn encodes(v: bool, r: Result<JsonValue, CodecError>) -> bool {
        r == Ok::<JsonValue, CodecError>(JsonValue::Bool(v))
    }

    fn serialize(value: &bool) -> (r: Result<JsonValue, CodecError>) {
        Ok(JsonValue::Bool(*value))
    }
}

/// A plain integer in `lo..=hi`: a JSON integer, or the decimal text that
/// std's integer parsing reads, as a map key holds it.
pub open spec fn plain_integer(j: JsonValue, lo: int, hi: int) -> Result<int, CodecError> {
    match j {
        JsonValue::Str(t) => parsed_integer(t.text@, lo < 0, lo, hi),
        JsonValue::I64(v) => if lo <= v <= hi {
            Ok(v as int)
        } else {
            Err(CodecError::RangeError)
        },
        JsonValue::U64(v) => if v <= hi {
            Ok(v as int)
        } else {
            Err(CodecError::RangeError)
        },
        _ => Err(CodecError::TypeMismatch),
    }
}

fn plain_integer_text(t: &JsonText, lo: i128, hi: i128) -> (r: Result<i128, CodecError>)
    requires
        -0x8000_0000_0000_0000 <= lo <= 0 < hi < 0x1_0000_0000_0000_0000,
    ensures
        match parsed_integer(t.text@, lo < 0, lo as int, hi as int) {
            Ok(v) => r == Ok::<i128, CodecError>(v as i128),
            Err(e) => r == Err::<i128, CodecError>(e),
        },
{
    let cs = chars_of(t.text.as_str());
    parse_integer(&cs, lo < 0, (-lo) as u64, hi as u64)
}

impl Decode for i32 {
    type Value = i32;

    open spec fn decodes(j: JsonValue, r: Result<i32, CodecError>) -> bool {
        match plain_integer(j, i32::MIN as int, i32::MAX as int) {
            Ok(v) => r == Ok::<i32, CodecError>(v as i32),
            Err(e) => r == Err::<i32, CodecError>(e),
        }
    }

    fn decode(j: &JsonValue) -> (r: Result<i32, CodecError>) {
        match j {
            JsonValue::I64(v) => if i32::MIN as i64 <= *v && *v <= i32::MAX as i64 {
                Ok(*v as i32)
            } else {
                Err(CodecError::RangeError)
            },
            JsonValue::U64(v) => if *v <= i32::MAX as u64 {
                Ok(*v as i32)
            } else {
                Err(CodecError::RangeError)
            },
            JsonValue::Str(t) => match plain_integer_text(t, i32::MIN as i128, i32::MAX as i128) {
                Ok(v) => Ok(v as i32),
                Err(e) => Err(e),
            },
            _ => Err(CodecError::TypeMismatch),
        }
    }
}

impl SerializeMethod for i32 {
    type Value = i32;

    open spec fn encodes(v: i32, r: Result<JsonValue, CodecError>) -> bool {
        r == Ok::<JsonValue, CodecError>(JsonValue::I64(v as i64))
    }

    fn serialize(value: &i32) -> (r: Result<JsonValue, CodecError>) {
        Ok(JsonValue::I64(*value as i64))
    }
}

impl Decode for u32 {
    type Value = u32;

    open spec fn decodes(j: JsonValue, r: Result<u32, CodecError>) -> bool {
        match plain_integer(j, 0int, u32::MAX as int) {
            Ok(v) => r == Ok::<u32, CodecError>(v as u32),
            Err(e) => r == Err::<u32, CodecError>(e),
        }
    }

    fn decode(j: &JsonValue) -> (r: Result<u32, CodecError>) {
        match j {
            JsonValue::I64(v) => if 0i64 <= *v && *v <= u32::MAX as i64 {
                Ok(*v as u32)
            } else {
                Err(CodecError::RangeError)
            },
            JsonValue::U64(v) => if *v <= u32::MAX as u64 {
                Ok(*v as u32)
            } else {
                Err(CodecError::RangeError)
            },
            JsonValue::Str(t) => match plain_integer_text(t, 0i128, u32::MAX as i128) {
                Ok(v) => Ok(v as u32),
                Err(e) => Err(e),
            },
            _ => Err(CodecError::TypeMismatch),
        }
    }
}

impl SerializeMethod for u32 {
    type Value = u32;

    open spec fn encodes(v: u32, r: Result<JsonValue, CodecError>) -> bool {
        r == Ok::<JsonValue, CodecError>(JsonValue::U64(v as u64))
    }

    fn serialize(value: &u32) -> (r: Result<JsonValue, CodecError>) {
        Ok(JsonValue::U64(*value as u64))
    }
}

impl Decode for i64 {
    type Value = i64;

    open spec fn decodes(j: JsonValue, r: Result<i64, CodecError>) -> bool {
        match plain_integer(j, i64::MIN as int, i64::MAX as int) {
            Ok(v) => r == Ok::<i64, CodecError>(v as i64),
            Err(e) => r == Err::<i64, CodecError>(e),
        }
    }

    fn decode(j: &JsonValue) -> (r: Result<i64, CodecError>) {
        match j {
            JsonValue::I64(v) => if i64::MIN as i64 <= *v && *v <= i64::MAX {
                Ok(*v as i64)
            } else {
                Err(CodecError::RangeError)
            },
            JsonValue::U64(v) => if *v <= i64::MAX as u64 {
                Ok(*v as i64)
            } else {
                Err(CodecError::RangeError)
            },
            JsonValue::Str(t) => match plain_integer_text(t, i64::MIN as i128, i64::MAX as i128) {
                Ok(v) => Ok(v as i64),
                Err(e) => Err(e),
            },
            _ => Err(CodecError::TypeMismatch),
        }
    }
}

impl SerializeMethod for i64 {
    type Value = i64;

    open spec fn encodes(v: i64, r: Result<JsonValue, CodecError>) -> bool {
        r == Ok::<JsonValue, CodecError>(JsonValue::I64(v as i64))
    }

    fn serialize(value: &i64) -> (r: Result<JsonValue, CodecError>) {
        Ok(JsonValue::I64(*value as i64))
    }
}

impl Decode for u64 {
    type Value = u64;

    open spec fn decodes(j: JsonValue, r: Result<u64, CodecError>) -> bool {
        match plain_integer(j, 0int, u64::MAX as int) {
            Ok(v) => r == Ok::<u64, CodecError>(v as u64),
            Err(e) => r == Err::<u64, CodecError>(e),
        }
    }

    fn decode(j: &JsonValue) -> (r: Result<u64, CodecError>) {
        match j {
            JsonValue::I64(v) => if 0i64 <= *v && *v <= i64::MAX {
                Ok(*v as u64)
            } else {
                Err(CodecError::RangeError)
            },
            JsonValue::U64(v) => if *v <= u64::MAX as u64 {
                Ok(*v as u64)
            } else {
                Err(CodecError::RangeError)
            },
            JsonValue::Str(t) => match plain_integer_text(t, 0i128, u64::MAX as i128) {
                Ok(v) => Ok(v as u64),
                Err(e) => Err(e),
            },
            _ => Err(CodecError::TypeMismatch),
        }
    }
}

impl SerializeMethod for u64 {
    type Value = u64;

    open spec fn encodes(v: u64, r: Result<JsonValue, CodecError>) -> bool {
        r == Ok::<JsonValue, CodecError>(JsonValue::U64(v as u64))
    }

    fn serialize(value: &u64) -> (r: Result<JsonValue, CodecError>) {
        Ok(JsonValue::U64(*value as u64))
    }
}

} // verus!
