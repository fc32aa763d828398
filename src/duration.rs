//! The `Duration` well-known type and its codec: decimal seconds with an `s`
//! suffix, the sign on the whole number.
use vstd::prelude::*;
use crate::json::{CodecError, JsonText, JsonValue};
use crate::decimal::{decimal_digits, digit_char, format_integer, decimal_text};
use crate::text::{chars_of, string_from_chars};

verus! {

/// Signed elapsed time: seconds and nanoseconds of one sign.
#[derive(Debug, Clone, Copy, PartialEq, Eq, Structural)]
pub struct Duration {
    pub seconds: i64,
    pub nanos: i32,
}

impl Duration {
    /// The fields share a sign (or are zero), and the nanoseconds are under
    /// a second.
    pub open spec fn wf(self) -> bool {
        -1_000_000_000 < self.nanos < 1_000_000_000 && ((self.seconds >= 0 && self.nanos >= 0) || (
        self.seconds <= 0 && self.nanos <= 0))
    }
}

/// The `width` decimal digits of `x`, zero-padded on the left.
pub open spec fn padded_digits(x: nat, width: nat) -> Seq<char>
    decreases width,
{
    if width == 0 {
        Seq::empty()
    } else {
        padded_digits(x / 10, (width - 1) as nat).push(digit_char(x as int % 10))
    }
}

/// The fraction of a second in the text of a duration: nothing, or a dot
/// and three, six or nine digits, the fewest that hold the nanoseconds.
pub open spec fn fraction_text(nanos: nat) -> Seq<char> {
    if nanos == 0 {
        Seq::empty()
    } else if nanos % 1_000_000 == 0 {
        seq!['.'] + padded_digits(nanos / 1_000_000, 3)
    } else if nanos % 1_000 == 0 {
        seq!['.'] + padded_digits(nanos / 1_000, 6)
    } else {
        seq!['.'] + padded_digits(nanos, 9)
    }
}

/// The text of a valid duration.
pub open spec fn duration_text(d: Duration) -> Seq<char> {
    let sign = if d.seconds < 0 || d.nanos < 0 { seq!['-'] } else { Seq::empty() };
    let secs = if d.seconds < 0 { -d.seconds } else { d.seconds as int };
    let nanos = if d.nanos < 0 { -d.nanos } else { d.nanos as int };
    sign + decimal_digits(secs as nat) + fraction_text(nanos as nat) + seq!['s']
}

fn push_padded(x: u32, width: u32, out: &mut Vec<char>)
    ensures
        final(out)@ == old(out)@ + padded_digits(x as nat, width as nat),
    decreases width,
{
    if width > 0 {
        push_padded(x / 10, width - 1, out);
        let d: u8 = (x % 10) as u8;
        out.push((d + 48) as char);
        assert(old(out)@ + padded_digits(x as nat, width as nat) =~= final(out)@);
    } else {
        assert(old(out)@ + padded_digits(x as nat, width as nat) =~= final(out)@);
    }
}

/// Writes a valid duration as decimal seconds with an `s` suffix.
pub fn serialize(d: &Duration) -> (r: JsonValue)
    requires
        d.wf(),
    ensures
        r matches JsonValue::Str(t) && t.text@ == duration_text(*d) && t.float is None,
{
    let mut out: Vec<char> = Vec::new();
    if d.seconds < 0 || d.nanos < 0 {
        out.push('-');
    }
    let secs: i128 = if d.seconds < 0 { -(d.seconds as i128) } else { d.seconds as i128 };
    let digits = format_integer(secs);
    let mut i: usize = 0;
    let ghost start = out@;
    while i < digits.len()
        invariant
            i <= digits@.len(),
            out@ == start + digits@.subrange(0, i as int),
        decreases digits@.len() - i,
    {
        out.push(digits[i]);
        assert(out@ =~= start + digits@.subrange(0, i + 1));
        i = i + 1;
    }
    assert(digits@.subrange(0, digits@.len() as int) =~= digits@);
    let nanos: u32 = if d.nanos < 0 { (-(d.nanos as i64)) as u32 } else { d.nanos as u32 };
    let ghost before = out@;
    if nanos == 0 {
    } else if nanos % 1_000_000 == 0 {
        out.push('.');
        push_padded(nanos / 1_000_000, 3, &mut out);
    } else if nanos % 1_000 == 0 {
        out.push('.');
        push_padded(nanos / 1_000, 6, &mut out);
    } else {
        out.push('.');
        push_padded(nanos, 9, &mut out);
    }
    assert(out@ =~= before + fraction_text(nanos as nat));
    out.push('s');
    assert(decimal_text(secs as int) == decimal_digits(secs as nat));
    assert(out@ =~= duration_text(*d));
    JsonValue::Str(JsonText::new(string_from_chars(&out)))
}

/// The text before the `s` suffix of a JSON string, or the failure of a
/// token that is no duration.
pub open spec fn seconds_text_of(j: JsonValue) -> Result<Seq<char>, CodecError> {
    match j {
        JsonValue::Str(t) => if t.text@.len() > 0 && t.text@.last() == 's' {
            Ok(t.text@.drop_last())
        } else {
            Err(CodecError::InvalidEncoding)
        },
        _ => Err(CodecError::TypeMismatch),
    }
}

/// The decimal seconds of a duration's text, its `s` suffix removed; the
/// caller reads them as a float.
pub fn seconds_text(j: &JsonValue) -> (r: Result<String, CodecError>)
    ensures
        match (r, seconds_text_of(*j)) {
            (Ok(s), Ok(t)) => s@ == t,
            (Err(a), Err(b)) => a == b,
            _ => false,
        },
{
    match j {
        JsonValue::Str(t) => {
            let cs = chars_of(t.text.as_str());
            if cs.len() > 0 && cs[cs.len() - 1] == 's' {
                let head = string_from_chars(&cs.as_slice()[0..cs.len() - 1]);
                assert(cs@.subrange(0, cs@.len() - 1) =~= cs@.drop_last());
                Ok(head)
            } else {
                Err(CodecError::InvalidEncoding)
            }
        },
        _ => Err(CodecError::TypeMismatch),
    }
}

/// The duration of a sign and a magnitude of whole seconds and nanoseconds:
/// both fields negated where the sign is negative, so that they share it.
/// Seconds beyond `i64` fail with `RangeError`.
pub fn from_magnitude(negative: bool, seconds: u64, nanos: u32) -> (r: Result<Duration, CodecError>)
    requires
        nanos < 1_000_000_000,
    ensures
        seconds > i64::MAX ==> r == Err::<Duration, CodecError>(CodecError::RangeError),
        seconds <= i64::MAX ==> (r matches Ok(d) && d.wf() && (if negative {
            d.seconds == -(seconds as int) && d.nanos == -(nanos as int)
        } else {
            d.seconds == seconds && d.nanos == nanos
        })),
{
    if seconds > i64::MAX as u64 {
        return Err(CodecError::RangeError);
    }
    let s = seconds as i64;
    let n = nanos as i32;
    if negative {
        Ok(Duration { seconds: -s, nanos: -n })
    } else {
        Ok(Duration { seconds: s, nanos: n })
    }
}

} // verus!
