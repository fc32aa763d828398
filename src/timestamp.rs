//! The `Timestamp` well-known type: RFC 3339 text in a JSON string. The
//! date-time converter between that text and the seconds and nanoseconds
//! stands outside; this module checks what it hands over.
use vstd::prelude::*;
use crate::json::{CodecError, JsonValue};

verus! {

/// Seconds since the epoch, and non-negative nanoseconds under a second.
#[derive(Debug, Clone, Copy, PartialEq, Eq, Structural)]
pub struct Timestamp {
    pub seconds: i64,
    pub nanos: i32,
}

impl Timestamp {
    /// The nanoseconds are in `0..1_000_000_000`, whatever the sign of the
    /// seconds.
    pub open spec fn wf(self) -> bool {
        0 <= self.nanos < 1_000_000_000
    }
}

/// The text of a timestamp token, for the RFC 3339 reader; a token that is
/// no JSON string fails with `TypeMismatch`.
pub fn rfc3339_text(j: &JsonValue) -> (r: Result<String, CodecError>)
    ensures
        match *j {
            JsonValue::Str(t) => r matches Ok(s) && s@ == t.text@,
            _ => r == Err::<String, CodecError>(CodecError::TypeMismatch),
        },
{
    match j {
        JsonValue::Str(t) => Ok(t.text.clone()),
        _ => Err(CodecError::TypeMismatch),
    }
}

/// The timestamp that the RFC 3339 reader made of the text: its seconds
/// and nanoseconds, or `None` where the text is not a valid RFC 3339
/// timestamp, which fails with `InvalidEncoding` (as do nanoseconds out of
/// range).
pub fn from_parsed(parsed: Option<(i64, i32)>) -> (r: Result<Timestamp, CodecError>)
    ensures
        match parsed {
            Some((s, n)) => if 0 <= n < 1_000_000_000 {
                r == Ok::<Timestamp, CodecError>(Timestamp { seconds: s, nanos: n })
            } else {
                r == Err::<Timestamp, CodecError>(CodecError::InvalidEncoding)
            },
            None => r == Err::<Timestamp, CodecError>(CodecError::InvalidEncoding),
        },
        r matches Ok(t) ==> t.wf(),
{
    match parsed {
        Some((s, n)) => if 0 <= n && n < 1_000_000_000 {
            Ok(Timestamp { seconds: s, nanos: n })
        } else {
            Err(CodecError::InvalidEncoding)
        },
        None => Err(CodecError::InvalidEncoding),
    }
}

} // verus!
