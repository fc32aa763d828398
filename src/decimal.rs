//! Decimal integer text: reading it as std's integer parsing does, and
//! writing it as `to_string` does.
use vstd::prelude::*;
use crate::json::CodecError;

verus! {

pub open spec fn is_digit(c: char) -> bool {
    48 <= c as u32 <= 57
}

pub open spec fn digit_value(c: char) -> int {
    c as u32 - 48
}

/// The number that a run of ASCII digits spells.
pub open spec fn digits_value(s: Seq<char>) -> int
    decreases s.len(),
{
    if s.len() == 0 {
        0
    } else {
        digits_value(s.drop_last()) * 10 + digit_value(s.last())
    }
}

pub open spec fn all_digits(s: Seq<char>) -> bool {
    s.len() > 0 && forall|i: int| 0 <= i < s.len() ==> is_digit(#[trigger] s[i])
}

/// What std's integer parsing reads from `s` before its range check: an
/// optional `+` (or, for a signed type, `-`) followed by one or more ASCII
/// digits, and nothing else.
pub open spec fn integer_text_value(s: Seq<char>, signed: bool) -> Option<int> {
    if s.len() > 0 && s[0] == '-' {
        if signed && all_digits(s.skip(1)) {
            Some(-digits_value(s.skip(1)))
        } else {
            None
        }
    } else if s.len() > 0 && s[0] == '+' {
        if all_digits(s.skip(1)) {
            Some(digits_value(s.skip(1)))
        } else {
            None
        }
    } else if all_digits(s) {
        Some(digits_value(s))
    } else {
        None
    }
}

/// std's integer parsing into a type with bounds `lo..=hi`.
pub open spec fn parsed_integer(s: Seq<char>, signed: bool, lo: int, hi: int) -> Result<int, CodecError> {
    match integer_text_value(s, signed) {
        None => Err(CodecError::InvalidEncoding),
        Some(v) => if lo <= v <= hi {
            Ok(v)
        } else {
            Err(CodecError::RangeError)
        },
    }
}

pub open spec fn digit_char(d: int) -> char {
    ((d + 48) as u8) as char
}

/// The decimal digits of `n`, most significant first, without leading zeros.
pub open spec fn decimal_digits(n: nat) -> Seq<char>
    decreases n,
{
    if n < 10 {
        seq![digit_char(n as int)]
    } else {
        decimal_digits(n / 10).push(digit_char(n as int % 10))
    }
}

/// The decimal text of `v`, with a `-` before a negative number.
pub open spec fn decimal_text(v: int) -> Seq<char> {
    if v < 0 {
        seq!['-'] + decimal_digits((-v) as nat)
    } else {
        decimal_digits(v as nat)
    }
}

/// The decimal text of a number is a run of digits with an optional leading
/// `-`.
pub open spec fn is_decimal_integer_text(s: Seq<char>) -> bool {
    all_digits(s) || (s.len() > 0 && s[0] == '-' && all_digits(s.skip(1)))
}

proof fn lemma_digits_prefix_grows(s: Seq<char>, i: int, j: int)
    requires
        0 <= i <= j <= s.len(),
        forall|k: int| 0 <= k < s.len() ==> is_digit(#[trigger] s[k]),
    ensures
        digits_value(s.subrange(0, i)) <= digits_value(s.subrange(0, j)),
        0 <= digits_value(s.subrange(0, i)),
    decreases j,
{
    if j > 0 {
        assert(s.subrange(0, j).drop_last() =~= s.subrange(0, j - 1));
        if i < j {
            lemma_digits_prefix_grows(s, i, j - 1);
        }
        lemma_digits_prefix_grows(s, j - 1, j - 1);
    }
    if i > 0 {
        assert(s.subrange(0, i).drop_last() =~= s.subrange(0, i - 1));
        lemma_digits_prefix_grows(s, i - 1, i - 1);
    }
}

/// The value of the digits `s`, or `None` where it exceeds `limit`.
fn digits_up_to(s: &[char], start: usize, limit: u64) -> (r: Option<u64>)
    requires
        start <= s@.len(),
        all_digits(s@.skip(start as int)),
    ensures
        digits_value(s@.skip(start as int)) >= 0,
        r == (if digits_value(s@.skip(start as int)) <= limit {
            Some(digits_value(s@.skip(start as int)) as u64)
        } else {
            None
        }),
{
    let ghost d = s@.skip(start as int);
    let mut acc: u64 = 0;
    let mut i: usize = start;
    while i < s.len()
        invariant
            start <= i <= s@.len(),
            d == s@.skip(start as int),
            all_digits(d),
            acc as int == digits_value(d.subrange(0, i - start)),
            acc <= limit,
        decreases s@.len() - i,
    {
        let c = s[i];
        assert(c == d[i - start]);
        assert(is_digit(d[i - start]));
        let v: u64 = (c as u32 - 48) as u64;
        assert(d.subrange(0, i + 1 - start).drop_last() =~= d.subrange(0, i - start));
        if v > limit || acc > (limit - v) / 10 {
            assert(acc * 10 + v > limit) by (nonlinear_arith)
                requires
                    v > limit || acc > (limit - v) / 10,
                    v <= 9,
            ;
            proof {
                lemma_digits_prefix_grows(d, i + 1 - start, d.len() as int);
                assert(d.subrange(0, d.len() as int) =~= d);
            }
            return None;
        }
        assert(acc * 10 + v <= limit) by (nonlinear_arith)
            requires
                acc <= (limit - v) / 10,
                v <= limit,
        ;
        acc = acc * 10 + v;
        i = i + 1;
    }
    assert(d.subrange(0, d.len() as int) =~= d);
    Some(acc)
}

fn all_digits_from(s: &[char], start: usize) -> (r: bool)
    requires
        start <= s@.len(),
    ensures
        r == all_digits(s@.skip(start as int)),
{
    if start >= s.len() {
        return false;
    }
    let mut i: usize = start;
    while i < s.len()
        invariant
            start <= i <= s@.len(),
            forall|k: int| start <= k < i ==> is_digit(#[trigger] s@[k]),
        decreases s@.len() - i,
    {
        let c = s[i];
        if !((c as u32) >= 48 && (c as u32) <= 57) {
            assert(s@.skip(start as int)[i - start] == c);
            return false;
        }
        i = i + 1;
    }
    assert forall|k: int| 0 <= k < s@.skip(start as int).len() implies is_digit(
        #[trigger] s@.skip(start as int)[k],
    ) by {
        assert(s@.skip(start as int)[k] == s@[start + k]);
    }
    true
}

/// std's integer parsing into the range `-max_neg..=max_pos` (`max_neg` is
/// ignored where `signed` is false).
pub fn parse_integer(s: &[char], signed: bool, max_neg: u64, max_pos: u64) -> (r: Result<i128, CodecError>)
    ensures
        match parsed_integer(s@, signed, if signed { -(max_neg as int) } else { 0int }, max_pos as int) {
            Ok(v) => r == Ok::<i128, CodecError>(v as i128),
            Err(e) => r == Err::<i128, CodecError>(e),
        },
{
    if s.len() > 0 && s[0] == '-' {
        if signed && all_digits_from(s, 1) {
            match digits_up_to(s, 1, max_neg) {
                Some(m) => Ok(-(m as i128)),
                None => Err(CodecError::RangeError),
            }
        } else {
            Err(CodecError::InvalidEncoding)
        }
    } else if s.len() > 0 && s[0] == '+' {
        if all_digits_from(s, 1) {
            match digits_up_to(s, 1, max_pos) {
                Some(m) => Ok(m as i128),
                None => Err(CodecError::RangeError),
            }
        } else {
            Err(CodecError::InvalidEncoding)
        }
    } else if all_digits_from(s, 0) {
        assert(s@.skip(0) =~= s@);
        match digits_up_to(s, 0, max_pos) {
            Some(m) => Ok(m as i128),
            None => Err(CodecError::RangeError),
        }
    } else {
        assert(s@.skip(0) =~= s@);
        Err(CodecError::InvalidEncoding)
    }
}

fn push_digits(n: u64, out: &mut Vec<char>)
    ensures
        final(out)@ == old(out)@ + decimal_digits(n as nat),
    decreases n,
{
    if n >= 10 {
        push_digits(n / 10, out);
    }
    let d: u8 = (n % 10) as u8;
    out.push((d + 48) as char);
    assert(old(out)@ + decimal_digits(n as nat) =~= final(out)@) by {
        if n >= 10 {
            assert(decimal_digits(n as nat) == decimal_digits((n / 10) as nat).push(digit_char(n as int % 10)));
        }
    }
}

/// The decimal text of `v`, as `to_string` writes it.
pub fn format_integer(v: i128) -> (r: Vec<char>)
    requires
        -0x1_0000_0000_0000_0000 < v < 0x1_0000_0000_0000_0000,
    ensures
        r@ == decimal_text(v as int),
{
    let mut out: Vec<char> = Vec::new();
    if v < 0 {
        out.push('-');
        push_digits((-v) as u64, &mut out);
    } else {
        push_digits(v as u64, &mut out);
    }
    out
}

pub proof fn lemma_decimal_digits_read_back(n: nat)
    ensures
        all_digits(decimal_digits(n)),
        digits_value(decimal_digits(n)) == n,
    decreases n,
{
    let c = digit_char(n as int % 10);
    assert(c as u32 == n % 10 + 48);
    assert(n == (n / 10) * 10 + n % 10);
    if n >= 10 {
        lemma_decimal_digits_read_back(n / 10);
        assert(decimal_digits(n).drop_last() =~= decimal_digits(n / 10));
        assert(decimal_digits(n).last() == c);
        let s = decimal_digits(n);
        assert(digits_value(s) == digits_value(s.drop_last()) * 10 + digit_value(s.last()));
        assert(digits_value(s.drop_last()) == n / 10);
    } else {
        assert(decimal_digits(n).drop_last() =~= Seq::<char>::empty());
        assert(decimal_digits(n).last() == c);
        assert(n % 10 == n);
        let s = decimal_digits(n);
        assert(digits_value(s) == digits_value(s.drop_last()) * 10 + digit_value(s.last()));
        assert(digits_value(Seq::<char>::empty()) == 0);
    }
    let s = decimal_digits(n);
    assert forall|i: int| 0 <= i < s.len() implies is_digit(#[trigger] s[i]) by {
        if n >= 10 && i < s.len() - 1 {
            assert(s[i] == decimal_digits(n / 10)[i]);
        }
    }
}

/// Reading back the decimal text of a number gives the number.
pub proof fn lemma_decimal_text_read_back(v: int)
    ensures
        integer_text_value(decimal_text(v), true) == Some(v),
        v >= 0 ==> integer_text_value(decimal_text(v), false) == Some(v),
        is_decimal_integer_text(decimal_text(v)),
{
    if v < 0 {
        lemma_decimal_digits_read_back((-v) as nat);
        assert(decimal_text(v).skip(1) =~= decimal_digits((-v) as nat));
    } else {
        lemma_decimal_digits_read_back(v as nat);
        assert(decimal_text(v)[0] != '-' && decimal_text(v)[0] != '+');
    }
}

} // verus!
