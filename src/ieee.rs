//! IEEE-754 doubles held as their 64-bit patterns: the fields, the classes,
//! the integer a double stands for, and the double nearest an integer.
use vstd::prelude::*;
use vstd::arithmetic::power2::{pow2, lemma_pow2_pos, lemma_pow2_adds, lemma_pow2_strictly_increases, lemma2_to64, lemma2_to64_rest};
use vstd::arithmetic::div_mod::{lemma_fundamental_div_mod_converse, lemma_mod_multiples_basic, lemma_div_is_ordered, lemma_div_by_multiple, lemma_multiply_divide_lt, lemma_small_mod, lemma_basic_div_specific_divisor, lemma_mod_division_less_than_divisor};
use vstd::arithmetic::power2::lemma_pow2_unfold;
use vstd::bits::{lemma_u64_shl_is_mul, lemma_u64_pow2_no_overflow};
use crate::json::CodecError;

verus! {

/// The bit pattern of a quiet NaN.
pub const NAN_BITS: u64 = 0x7ff8_0000_0000_0000;

/// The bit pattern of positive infinity.
pub const INFINITY_BITS: u64 = 0x7ff0_0000_0000_0000;

/// The bit pattern of negative infinity.
pub const NEG_INFINITY_BITS: u64 = 0xfff0_0000_0000_0000;

pub open spec fn sign_field(b: u64) -> int {
    b as int / pow2(63) as int
}

pub open spec fn exponent_field(b: u64) -> int {
    (b as int / pow2(52) as int) % 2048
}

pub open spec fn fraction_field(b: u64) -> int {
    b as int % pow2(52) as int
}

pub open spec fn is_nan(b: u64) -> bool {
    exponent_field(b) == 2047 && fraction_field(b) != 0
}

pub open spec fn is_infinite(b: u64) -> bool {
    exponent_field(b) == 2047 && fraction_field(b) == 0
}

pub open spec fn is_finite(b: u64) -> bool {
    exponent_field(b) != 2047
}

pub open spec fn is_sign_negative(b: u64) -> bool {
    sign_field(b) == 1
}

/// The significand of a finite double, with its hidden bit.
pub open spec fn significand(b: u64) -> nat {
    if exponent_field(b) == 0 {
        fraction_field(b) as nat
    } else {
        (fraction_field(b) + pow2(52)) as nat
    }
}

/// The power of two that the significand of a finite double is scaled by.
pub open spec fn scale(b: u64) -> int {
    if exponent_field(b) == 0 {
        -1074
    } else {
        exponent_field(b) - 1075
    }
}

/// The magnitude of a finite double truncated towards zero.
pub open spec fn whole_part(b: u64) -> nat {
    if scale(b) >= 0 {
        significand(b) * pow2(scale(b) as nat)
    } else {
        significand(b) / pow2((-scale(b)) as nat)
    }
}

/// The fraction of a finite double's magnitude, in units of
/// `2^scale(b)`.
pub open spec fn fraction_units(b: u64) -> nat {
    if scale(b) >= 0 {
        0
    } else {
        significand(b) % pow2((-scale(b)) as nat)
    }
}

/// The fraction of a finite double is at most the double epsilon, `2^-52`.
pub open spec fn fraction_within_epsilon(b: u64) -> bool {
    scale(b) >= 0 || fraction_units(b) * pow2(52) <= pow2((-scale(b)) as nat)
}

/// The double exceeds `hi` (with `hi >= 0`).
pub open spec fn exceeds(b: u64, hi: int) -> bool {
    !is_sign_negative(b) && (whole_part(b) > hi || (whole_part(b) == hi && fraction_units(b) > 0))
}

/// The double is below `lo` (with `lo <= 0`).
pub open spec fn below(b: u64, lo: int) -> bool {
    is_sign_negative(b) && (whole_part(b) > -lo || (whole_part(b) == -lo && fraction_units(b) > 0))
}

/// Reading a double as an integer in `lo..=hi`: a NaN, an infinity, a
/// value outside `lo..=hi`, or a value whose fraction exceeds the double
/// epsilon fails; any other reads as its truncation towards zero.
pub open spec fn integer_of_double(b: u64, lo: int, hi: int) -> Result<int, CodecError> {
    if is_nan(b) || is_infinite(b) || !fraction_within_epsilon(b) || exceeds(b, hi) || below(b, lo) {
        Err(CodecError::RangeError)
    } else if is_sign_negative(b) {
        Ok(-whole_part(b))
    } else {
        Ok(whole_part(b) as int)
    }
}

proof fn lemma_fields(b: u64)
    ensures
        sign_field(b) == (b >> 63u64) as int,
        exponent_field(b) == ((b >> 52u64) & 0x7ffu64) as int,
        fraction_field(b) == (b & 0xf_ffff_ffff_ffffu64) as int,
        0 <= sign_field(b) <= 1,
        pow2(52) == 0x10_0000_0000_0000,
        pow2(63) == 0x8000_0000_0000_0000,
{
    lemma2_to64();
    lemma2_to64_rest();
    assert(b >> 63u64 == b / 0x8000_0000_0000_0000u64) by (bit_vector);
    assert((b >> 52u64) & 0x7ffu64 == (b / 0x10_0000_0000_0000u64) % 2048u64) by (bit_vector);
    assert(b & 0xf_ffff_ffff_ffffu64 == b % 0x10_0000_0000_0000u64) by (bit_vector);
}

pub fn is_nan_bits(b: u64) -> (r: bool)
    ensures
        r == is_nan(b),
{
    proof { lemma_fields(b); }
    (b >> 52u64) & 0x7ffu64 == 0x7ffu64 && b & 0xf_ffff_ffff_ffffu64 != 0
}

pub fn is_infinite_bits(b: u64) -> (r: bool)
    ensures
        r == is_infinite(b),
{
    proof { lemma_fields(b); }
    (b >> 52u64) & 0x7ffu64 == 0x7ffu64 && b & 0xf_ffff_ffff_ffffu64 == 0
}

pub fn is_finite_bits(b: u64) -> (r: bool)
    ensures
        r == is_finite(b),
{
    proof { lemma_fields(b); }
    (b >> 52u64) & 0x7ffu64 != 0x7ffu64
}

pub fn is_sign_negative_bits(b: u64) -> (r: bool)
    ensures
        r == is_sign_negative(b),
{
    proof { lemma_fields(b); }
    b >> 63u64 == 1
}

proof fn lemma_shl_one(k: u64)
    requires
        k < 64,
    ensures
        1u64 << k == pow2(k as nat),
        0 < pow2(k as nat) <= u64::MAX,
{
    lemma_u64_pow2_no_overflow(k as nat);
    lemma_u64_shl_is_mul(1u64, k);
}

/// Reads the double `b` as an integer in `lo..=hi`, as the integer codecs
/// read a float.
pub fn double_to_integer(b: u64, lo: i128, hi: i128) -> (r: Result<i128, CodecError>)
    requires
        -0x1_0000_0000_0000_0000 <= lo <= 0 <= hi <= 0x1_0000_0000_0000_0000,
    ensures
        match integer_of_double(b, lo as int, hi as int) {
            Ok(v) => r == Ok::<i128, CodecError>(v as i128),
            Err(e) => r == Err::<i128, CodecError>(e),
        },
        r matches Ok(v) ==> lo <= v <= hi,
{
    proof {
        lemma_fields(b);
        lemma2_to64();
        lemma2_to64_rest();
    }
    let e: u64 = (b >> 52u64) & 0x7ffu64;
    let f: u64 = b & 0xf_ffff_ffff_ffffu64;
    let neg = b >> 63u64 == 1;
    if e == 0x7ff {
        return Err(CodecError::RangeError);
    }
    assert(f < 0x10_0000_0000_0000) by (bit_vector)
        requires f == b & 0xf_ffff_ffff_ffffu64;
    let sig: u64 = if e == 0 { f } else { f + 0x10_0000_0000_0000 };
    assert(sig == significand(b));
    let whole: u128;
    let rem: u64;
    if e >= 1075 {
        let sc: u64 = e - 1075;
        assert(scale(b) == sc);
        if sc > 12 {
            proof {
                if sc > 13 {
                    lemma_pow2_strictly_increases(13, sc as nat);
                }
                assert(pow2(13) == 0x2000);
                assert(sig * pow2(sc as nat) >= 0x10_0000_0000_0000 * 0x2000) by (nonlinear_arith)
                    requires
                        sig >= 0x10_0000_0000_0000,
                        pow2(sc as nat) >= 0x2000,
                ;
            }
            return Err(CodecError::RangeError);
        }
        proof { lemma_shl_one(sc); }
        let p: u64 = 1u64 << sc;
        assert(sig * p <= 0x20_0000_0000_0000 * 0x1000) by (nonlinear_arith)
            requires
                sig < 0x20_0000_0000_0000,
                p <= 0x1000,
                pow2(12) == 0x1000,
        {
        }
        whole = (sig as u128) * (p as u128);
        rem = 0;
    } else {
        let k: u64 = if e == 0 { 1074 } else { 1075 - e };
        assert(-scale(b) == k);
        if k >= 64 {
            proof {
                lemma_pow2_strictly_increases(53, k as nat);
                lemma_basic_div_specific_divisor(pow2(k as nat) as int);
                lemma_small_mod(sig as nat, pow2(k as nat));
            }
            whole = 0;
            rem = sig;
        } else {
            proof { lemma_shl_one(k); }
            let p: u64 = 1u64 << k;
            whole = (sig / p) as u128;
            rem = sig % p;
        }
        assert(rem == fraction_units(b));
        let tiny: bool = if rem == 0 {
            true
        } else if k < 52 {
            proof {
                lemma_pow2_strictly_increases(k as nat, 52);
                assert(rem * pow2(52) >= pow2(52)) by (nonlinear_arith)
                    requires
                        rem >= 1,
                ;
            }
            false
        } else if k >= 105 {
            proof {
                if k > 105 {
                    lemma_pow2_strictly_increases(105, k as nat);
                }
                lemma_pow2_adds(53, 52);
                assert(rem <= sig) by {
                    if k < 64 {
                        lemma_mod_division_less_than_divisor(sig as int, pow2(k as nat) as int);
                    }
                }
                assert(rem * pow2(52) < pow2(53) * pow2(52)) by (nonlinear_arith)
                    requires
                        rem < pow2(53),
                        pow2(52) > 0,
                ;
            }
            true
        } else {
            proof {
                lemma_shl_one((k - 52) as u64);
                lemma_pow2_adds((k - 52) as nat, 52);
                assert((k - 52) as nat + 52 == k as nat);
                assert(rem * pow2(52) <= pow2((k - 52) as nat) * pow2(52) <==> rem <= pow2((k - 52) as nat)) by (nonlinear_arith)
                    requires
                        pow2(52) > 0,
                ;
            }
            rem <= (1u64 << (k - 52))
        };
        assert(tiny == fraction_within_epsilon(b));
        if !tiny {
            return Err(CodecError::RangeError);
        }
    }
    assert(whole == whole_part(b));
    assert(rem == fraction_units(b));
    if neg {
        let bound: u128 = (-lo) as u128;
        if whole > bound || (whole == bound && rem > 0) {
            return Err(CodecError::RangeError);
        }
        Ok(-(whole as i128))
    } else {
        let bound: u128 = hi as u128;
        if whole > bound || (whole == bound && rem > 0) {
            return Err(CodecError::RangeError);
        }
        Ok(whole as i128)
    }
}

/// The double `b` cast to `i64` as Rust's `as` does: truncated towards
/// zero and saturated at the bounds, with NaN giving zero.
pub open spec fn truncated_i64(b: u64) -> i64 {
    if is_nan(b) {
        0
    } else if is_infinite(b) {
        if is_sign_negative(b) { i64::MIN } else { i64::MAX }
    } else if is_sign_negative(b) {
        if whole_part(b) > 0x8000_0000_0000_0000 { i64::MIN } else { (-whole_part(b)) as i64 }
    } else {
        if whole_part(b) > i64::MAX { i64::MAX } else { whole_part(b) as i64 }
    }
}

/// The double `b` as `b as i64` gives it.
pub fn double_to_i64(b: u64) -> (r: i64)
    ensures
        r == truncated_i64(b),
{
    proof {
        lemma_fields(b);
        lemma2_to64();
        lemma2_to64_rest();
    }
    let e: u64 = (b >> 52u64) & 0x7ffu64;
    let f: u64 = b & 0xf_ffff_ffff_ffffu64;
    let neg = b >> 63u64 == 1;
    if e == 0x7ff {
        if f != 0 {
            return 0;
        } else if neg {
            return i64::MIN;
        } else {
            return i64::MAX;
        }
    }
    assert(f < 0x10_0000_0000_0000) by (bit_vector)
        requires f == b & 0xf_ffff_ffff_ffffu64;
    let sig: u64 = if e == 0 { f } else { f + 0x10_0000_0000_0000 };
    assert(sig == significand(b));
    let whole: u128;
    if e >= 1075 {
        let sc: u64 = e - 1075;
        assert(scale(b) == sc);
        if sc > 12 {
            proof {
                if sc > 13 {
                    lemma_pow2_strictly_increases(13, sc as nat);
                }
                assert(pow2(13) == 0x2000);
                assert(sig * pow2(sc as nat) >= 0x10_0000_0000_0000 * 0x2000) by (nonlinear_arith)
                    requires
                        sig >= 0x10_0000_0000_0000,
                        pow2(sc as nat) >= 0x2000,
                ;
            }
            return if neg { i64::MIN } else { i64::MAX };
        }
        proof { lemma_shl_one(sc); }
        let p: u64 = 1u64 << sc;
        assert(sig * p <= 0x20_0000_0000_0000 * 0x1000) by (nonlinear_arith)
            requires
                sig < 0x20_0000_0000_0000,
                p <= 0x1000,
        {
        }
        whole = (sig as u128) * (p as u128);
    } else {
        let k: u64 = if e == 0 { 1074 } else { 1075 - e };
        assert(-scale(b) == k);
        if k >= 64 {
            proof {
                lemma_pow2_strictly_increases(53, k as nat);
                lemma_basic_div_specific_divisor(pow2(k as nat) as int);
            }
            whole = 0;
        } else {
            proof { lemma_shl_one(k); }
            let p: u64 = 1u64 << k;
            whole = (sig / p) as u128;
        }
    }
    assert(whole == whole_part(b));
    if neg {
        if whole > 0x8000_0000_0000_0000u128 { i64::MIN } else { (-(whole as i128)) as i64 }
    } else {
        if whole > i64::MAX as u128 { i64::MAX } else { whole as i64 }
    }
}

/// The position of the highest set bit of `m` (for `m >= 1`).
pub open spec fn top_bit(m: nat) -> nat
    decreases m,
{
    if m <= 1 {
        0
    } else {
        1 + top_bit(m / 2)
    }
}

/// The 53-bit significand that rounding `m` (at least 1) to the nearest
/// double gives, ties to even; it may round up to `2^53`.
pub open spec fn rounded_significand(m: nat) -> nat {
    let p = top_bit(m);
    if p <= 52 {
        m * pow2((52 - p) as nat)
    } else {
        let s = (p - 52) as nat;
        let q = m / pow2(s);
        let r = m % pow2(s);
        let half = pow2((s - 1) as nat);
        if r > half || (r == half && q % 2 == 1) {
            q + 1
        } else {
            q
        }
    }
}

/// The bit pattern of the positive double nearest the magnitude `m`.
pub open spec fn double_of_magnitude(m: nat) -> nat {
    if m == 0 {
        0
    } else {
        let p = top_bit(m);
        let q = rounded_significand(m);
        if q == pow2(53) {
            (p + 1 + 1023) * pow2(52)
        } else {
            ((p + 1023) * pow2(52) + (q - pow2(52))) as nat
        }
    }
}

/// The bit pattern of the double nearest the integer `v`, ties to even, as
/// Rust's `as` conversion gives it.
pub open spec fn double_of_integer(v: int) -> u64 {
    if v < 0 {
        (pow2(63) + double_of_magnitude((-v) as nat)) as u64
    } else {
        double_of_magnitude(v as nat) as u64
    }
}

proof fn lemma_top_bit_bounds(m: nat)
    requires
        m >= 1,
    ensures
        pow2(top_bit(m)) <= m < pow2(top_bit(m) + 1),
    decreases m,
{
    if m <= 1 {
        lemma2_to64();
    } else {
        lemma_top_bit_bounds(m / 2);
        let t = top_bit(m / 2);
        lemma_pow2_unfold(t + 1);
        lemma_pow2_unfold(t + 2);
    }
}

proof fn lemma_split_fields(b: int, e: int, f: int)
    requires
        0 <= e < 4096,
        0 <= f < pow2(52),
        b == e * pow2(52) + f,
        pow2(52) == 0x10_0000_0000_0000,
    ensures
        b / pow2(52) as int == e,
        b % pow2(52) as int == f,
{
    lemma_fundamental_div_mod_converse(b, pow2(52) as int, e, f);
}

/// The double nearest an integer of at most 53 bits is that integer
/// exactly, so reading it back as an integer in bounds that hold it gives
/// the integer.
pub proof fn lemma_integer_double_round_trip(v: int, lo: int, hi: int)
    requires
        -0x20_0000_0000_0000 < v < 0x20_0000_0000_0000,
        lo <= v <= hi,
    ensures
        integer_of_double(double_of_integer(v), lo, hi) == Ok::<int, CodecError>(v),
{
    lemma2_to64();
    lemma2_to64_rest();
    let m: nat = if v < 0 { (-v) as nat } else { v as nat };
    let b = double_of_integer(v);
    if m == 0 {
        assert(b == 0);
        assert(sign_field(b) == 0 && exponent_field(b) == 0 && fraction_field(b) == 0);
        assert(significand(b) == 0);
        assert(0nat / pow2(1074) == 0) by {
            lemma_pow2_pos(1074);
            lemma_basic_div_specific_divisor(pow2(1074) as int);
        }
        assert(0nat % pow2(1074) == 0) by {
            lemma_pow2_pos(1074);
            lemma_small_mod(0, pow2(1074));
        }
        return;
    }
    lemma_top_bit_bounds(m);
    let p = top_bit(m);
    if p >= 53 {
        lemma_pow2_strictly_increases(53, p);
        assert(false);
    }
    let k: nat = (52 - p) as nat;
    lemma_pow2_adds(p, k);
    lemma_pow2_adds(p + 1, k);
    assert(p + k == 52 && p + 1 + k == 53);
    let q = rounded_significand(m);
    assert(q == m * pow2(k));
    lemma_pow2_pos(k);
    assert(pow2(52) <= q < pow2(53)) by (nonlinear_arith)
        requires
            q == m * pow2(k),
            pow2(p) <= m < pow2(p + 1),
            pow2(52) == pow2(p) * pow2(k),
            pow2(53) == pow2(p + 1) * pow2(k),
            pow2(k) > 0,
    ;
    let e: int = p as int + 1023;
    let f: int = q - pow2(52);
    let mag = double_of_magnitude(m);
    assert(mag == e * pow2(52) + f);
    assert(mag < pow2(63)) by (nonlinear_arith)
        requires
            mag == e * pow2(52) + f,
            e <= 1075,
            f < 0x10_0000_0000_0000,
            pow2(52) == 0x10_0000_0000_0000,
            pow2(63) == 0x8000_0000_0000_0000,
    ;
    if v < 0 {
        assert(b as int == (2048 + e) * pow2(52) + f);
        lemma_split_fields(b as int, 2048 + e, f);
        lemma_fundamental_div_mod_converse(b as int, pow2(63) as int, 1, mag as int);
    } else {
        assert(b as int == e * pow2(52) + f);
        lemma_split_fields(b as int, e, f);
        lemma_fundamental_div_mod_converse(b as int, pow2(63) as int, 0, mag as int);
    }
    assert(exponent_field(b) == e);
    assert(fraction_field(b) == f);
    assert(significand(b) == q);
    assert(scale(b) == p - 52);
    if k == 0 {
        assert(scale(b) == 0);
        assert(pow2(0) == 1);
        assert(k == 0nat);
        assert(pow2(k) == 1);
        assert(q == m * 1);
        assert(q == m);
        assert(significand(b) * pow2(0) == m);
        assert(whole_part(b) == m);
    } else {
        lemma_div_by_multiple(m as int, pow2(k) as int);
        lemma_mod_multiples_basic(m as int, pow2(k) as int);
        assert(whole_part(b) == m);
        assert(fraction_units(b) == 0);
    }
    assert(fraction_within_epsilon(b));
}

fn magnitude_to_double(m: u64) -> (r: u64)
    ensures
        r == double_of_magnitude(m as nat),
        r < pow2(63),
{
    proof {
        lemma2_to64();
        lemma2_to64_rest();
    }
    if m == 0 {
        return 0;
    }
    let mut p: u64 = 0;
    let mut t: u64 = m;
    while t > 1
        invariant
            1 <= t <= m,
            p + top_bit(t as nat) == top_bit(m as nat),
            p <= 63,
            t as nat * pow2(p as nat) <= m,
        decreases t,
    {
        proof {
            lemma_pow2_unfold((p + 1) as nat);
            assert((t / 2) as nat * pow2((p + 1) as nat) <= t as nat * pow2(p as nat)) by (nonlinear_arith)
                requires
                    pow2((p + 1) as nat) == 2 * pow2(p as nat),
                    t >= 2,
            ;
            assert((t / 2) as nat * pow2((p + 1) as nat) >= pow2((p + 1) as nat)) by (nonlinear_arith)
                requires
                    t >= 2,
            ;
            lemma2_to64();
            if p + 1 > 64 {
                lemma_pow2_strictly_increases(64, (p + 1) as nat);
            }
            assert(pow2((p + 1) as nat) <= m);
        }
        t = t / 2;
        p = p + 1;
    }
    proof {
        lemma_top_bit_bounds(m as nat);
    }
    assert(p == top_bit(m as nat));
    if p <= 52 {
        proof {
            lemma_shl_one((52 - p) as u64);
            lemma_pow2_adds((p + 1) as nat, (52 - p) as nat);
            lemma_pow2_adds(p as nat, (52 - p) as nat);
            assert(m * pow2((52 - p) as nat) < pow2((p + 1) as nat) * pow2((52 - p) as nat)) by (nonlinear_arith)
                requires
                    m < pow2((p + 1) as nat),
                    pow2((52 - p) as nat) > 0,
            ;
            assert(m * pow2((52 - p) as nat) >= pow2(p as nat) * pow2((52 - p) as nat)) by (nonlinear_arith)
                requires
                    m >= pow2(p as nat),
            ;
            assert((p + 1) as nat + (52 - p) as nat == 53);
            assert(p as nat + (52 - p) as nat == 52);
        }
        let q: u64 = m * (1u64 << (52 - p));
        assert(q == rounded_significand(m as nat));
        (p + 1023) * 0x10_0000_0000_0000 + (q - 0x10_0000_0000_0000)
    } else {
        let s: u64 = p - 52;
        proof {
            lemma_shl_one(s);
            lemma_shl_one((s - 1) as u64);
            lemma_pow2_unfold(s as nat);
            lemma_pow2_adds(52, s as nat);
            lemma_pow2_adds(53, s as nat);
            assert(52 + s as nat == p as nat);
            assert(53 + s as nat == (p + 1) as nat);
            lemma_div_is_ordered((pow2(52) * pow2(s as nat)) as int, m as int, pow2(s as nat) as int);
            lemma_div_by_multiple(pow2(52) as int, pow2(s as nat) as int);
            lemma_multiply_divide_lt(m as int, pow2(s as nat) as int, pow2(53) as int);
        }
        let d: u64 = 1u64 << s;
        let q: u64 = m / d;
        let r: u64 = m % d;
        let half: u64 = 1u64 << (s - 1);
        let q2: u64 = if r > half || (r == half && q % 2 == 1) { q + 1 } else { q };
        assert(q2 == rounded_significand(m as nat));
        if q2 == 0x20_0000_0000_0000 {
            (p + 1 + 1023) * 0x10_0000_0000_0000
        } else {
            (p + 1023) * 0x10_0000_0000_0000 + (q2 - 0x10_0000_0000_0000)
        }
    }
}

/// The bit pattern of the double nearest `v`, as `v as f64` gives it.
pub fn i64_to_double(v: i64) -> (r: u64)
    ensures
        r == double_of_integer(v as int),
{
    proof {
        lemma2_to64_rest();
    }
    if v < 0 {
        let m: u64 = if v == i64::MIN { 0x8000_0000_0000_0000u64 } else { (-v) as u64 };
        0x8000_0000_0000_0000u64 + magnitude_to_double(m)
    } else {
        magnitude_to_double(v as u64)
    }
}

/// The bit pattern of the double nearest `v`, as `v as f64` gives it.
pub fn u64_to_double(v: u64) -> (r: u64)
    ensures
        r == double_of_integer(v as int),
{
    magnitude_to_double(v)
}

} // verus!
