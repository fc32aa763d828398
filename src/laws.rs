//! Laws that tie the encoders to the decoders.
use vstd::prelude::*;
use crate::json::{CodecError, JsonText, JsonValue};
use crate::decimal::{decimal_text, is_decimal_integer_text, is_digit, lemma_decimal_text_read_back, decimal_digits, lemma_decimal_digits_read_back};
use crate::numeric::looks_like_float;
use crate::ieee::{double_of_integer, lemma_integer_double_round_trip, is_nan, is_infinite, is_sign_negative, NAN_BITS, INFINITY_BITS, NEG_INFINITY_BITS, exponent_field, fraction_field, sign_field};
use crate::double::{decoded_double, encodes_double};
use crate::enum_serde::{decoded_enum, encodes_enum, ProtoEnum};
use crate::bool_map_key::{decoded_bool_key, false_text, true_text, BoolKeySerializer, BoolVisitor};
use crate::value::{value_encodes, decoded_as, Kind, Value};
use crate::vec_u8::{base64_bytes, base64_text, decoded_bytes};
use vstd::arithmetic::power2::{pow2, lemma2_to64, lemma2_to64_rest};
use crate::json::{Decode, SerializeMethod};
use crate::entries::{decodes_all, decodes_entries, encodes_all, encodes_entries, entry_decodes, entry_encodes, key_written, lemma_upsert_all_distinct, MapKey};

verus! {

proof fn lemma_decimal_text_is_not_float(v: int)
    ensures
        !looks_like_float(decimal_text(v)),
        is_decimal_integer_text(decimal_text(v)),
{
    lemma_decimal_text_read_back(v);
    let s = decimal_text(v);
    let n: nat = if v < 0 { (-v) as nat } else { v as nat };
    lemma_decimal_digits_read_back(n);
    assert forall|i: int| 0 <= i < s.len() implies is_digit(#[trigger] s[i]) || s[i] == '-' by {
        if v < 0 && i > 0 {
            assert(s[i] == decimal_digits(n)[i - 1]);
        }
    }
    assert(!s.contains('e'));
    assert(!s.contains('E'));
    if s.len() >= 2 {
        assert(is_digit(s[s.len() - 2]) || s[s.len() - 2] == '-');
    }
}

/// An `int32` decodes from the JSON number that encodes it, also where a
/// reader hands that number over as the double nearest it.
pub proof fn int32_round_trip(v: i32)
    ensures
        crate::i32::decoded_i32(JsonValue::I64(v as i64)) == Ok::<i32, CodecError>(v),
        crate::i32::decoded_i32(JsonValue::F64(double_of_integer(v as int))) == Ok::<i32, CodecError>(v),
{
    lemma_integer_double_round_trip(v as int, i32::MIN as int, i32::MAX as int);
}

/// A `uint32` decodes from the JSON number that encodes it, also where a
/// reader hands that number over as the double nearest it.
pub proof fn uint32_round_trip(v: u32)
    ensures
        crate::u32::decoded_u32(JsonValue::U64(v as u64)) == Ok::<u32, CodecError>(v),
        crate::u32::decoded_u32(JsonValue::F64(double_of_integer(v as int))) == Ok::<u32, CodecError>(v),
{
    lemma_integer_double_round_trip(v as int, 0, u32::MAX as int);
}

/// An `int64` is written as a run of decimal digits with an optional `-`,
/// and decodes back from it; and its string form decodes as its number
/// form does.
pub proof fn int64_canonical_round_trip(v: i64, t: JsonText)
    requires
        t.text@ == decimal_text(v as int),
    ensures
        is_decimal_integer_text(t.text@),
        crate::i64::decoded_i64(JsonValue::Str(t)) == Ok::<i64, CodecError>(v),
        crate::i64::decoded_i64(JsonValue::Str(t)) == crate::i64::decoded_i64(JsonValue::I64(v)),
{
    lemma_decimal_text_is_not_float(v as int);
    lemma_decimal_text_read_back(v as int);
    assert(crate::decimal::parsed_integer(t.text@, true, i64::MIN as int, i64::MAX as int) == Ok::<int, CodecError>(v as int));
    assert(crate::numeric::text_integer(t, i64::MIN as int, i64::MAX as int)
        == Ok::<int, CodecError>(v as int));
}

/// A `uint64` is written as a run of decimal digits and decodes back from
/// it; and its string form decodes as its number form does.
pub proof fn uint64_canonical_round_trip(v: u64, t: JsonText)
    requires
        t.text@ == decimal_text(v as int),
    ensures
        is_decimal_integer_text(t.text@),
        crate::u64::decoded_u64(JsonValue::Str(t)) == Ok::<u64, CodecError>(v),
        crate::u64::decoded_u64(JsonValue::Str(t)) == crate::u64::decoded_u64(JsonValue::U64(v)),
{
    lemma_decimal_text_is_not_float(v as int);
    lemma_decimal_text_read_back(v as int);
    assert(crate::decimal::parsed_integer(t.text@, false, 0, u64::MAX as int) == Ok::<int, CodecError>(v as int));
    assert(crate::numeric::text_integer(t, 0, u64::MAX as int)
        == Ok::<int, CodecError>(v as int));
}

/// A `bool` decodes from the JSON boolean that encodes it.
pub proof fn bool_round_trip(v: bool)
    ensures
        crate::bool::decoded_bool(JsonValue::Bool(v)) == Ok::<bool, CodecError>(v),
{
}

/// A `bool` map key decodes from the string that encodes it.
pub proof fn bool_key_round_trip(v: bool, t: JsonText)
    requires
        t.text@ == (if v { true_text() } else { false_text() }),
    ensures
        decoded_bool_key(JsonValue::Str(t)) == Ok::<bool, CodecError>(v),
{
    assert(true_text() != false_text()) by {
        assert(true_text().len() != false_text().len());
    }
}

/// A `string` decodes from the JSON string that encodes it.
pub proof fn string_round_trip(s: Seq<char>, t: JsonText)
    requires
        t.text@ == s,
    ensures
        crate::string::decoded_string(JsonValue::Str(t)) == Ok::<Seq<char>, CodecError>(s),
{
}

/// Bytes decode from the base64 text that encodes them.
pub proof fn bytes_round_trip(b: Seq<u8>, t: JsonText)
    requires
        t.text@ == base64_text(b),
        base64_bytes(t.text@) == Some(b),
    ensures
        decoded_bytes(JsonValue::Str(t)) == Ok::<Seq<u8>, CodecError>(b),
{
}

proof fn lemma_special_bits()
    ensures
        is_nan(NAN_BITS),
        is_infinite(INFINITY_BITS) && !is_sign_negative(INFINITY_BITS),
        is_infinite(NEG_INFINITY_BITS) && is_sign_negative(NEG_INFINITY_BITS),
        forall|b: u64| is_infinite(b) && !is_sign_negative(b) ==> b == INFINITY_BITS,
        forall|b: u64| is_infinite(b) && is_sign_negative(b) ==> b == NEG_INFINITY_BITS,
{
    lemma2_to64();
    lemma2_to64_rest();
    assert forall|b: u64| is_infinite(b) && !is_sign_negative(b) implies b == INFINITY_BITS by {
        assert(b as int == sign_field(b) * pow2(63) + exponent_field(b) * pow2(52) + fraction_field(b)) by (nonlinear_arith)
            requires
                pow2(63) == 0x8000_0000_0000_0000,
                pow2(52) == 0x10_0000_0000_0000,
                b <= u64::MAX,
        {
        }
    }
    assert forall|b: u64| is_infinite(b) && is_sign_negative(b) implies b == NEG_INFINITY_BITS by {
        assert(b as int == sign_field(b) * pow2(63) + exponent_field(b) * pow2(52) + fraction_field(b)) by (nonlinear_arith)
            requires
                pow2(63) == 0x8000_0000_0000_0000,
                pow2(52) == 0x10_0000_0000_0000,
                b <= u64::MAX,
        {
        }
    }
}

/// A `double` decodes from the token that encodes it: to the same bits,
/// and a NaN to a NaN.
pub proof fn double_round_trip(b: u64, r: Result<JsonValue, CodecError>)
    requires
        encodes_double(b, r),
    ensures
        r matches Ok(j) && (is_nan(b) ==> (decoded_double(j) matches Ok(c) && is_nan(c))) && (!is_nan(b)
            ==> decoded_double(j) == Ok::<u64, CodecError>(b)),
{
    lemma_special_bits();
    if is_nan(b) {
        let t = r->Ok_0->Str_0;
        assert(t.text@ == crate::double::nan_text());
    } else if is_infinite(b) {
        assert(crate::double::nan_text() != crate::double::infinity_text()) by {
            assert(crate::double::nan_text().len() != crate::double::infinity_text().len());
        }
        assert(crate::double::nan_text() != crate::double::neg_infinity_text()) by {
            assert(crate::double::nan_text().len() != crate::double::neg_infinity_text().len());
        }
        assert(crate::double::infinity_text() != crate::double::neg_infinity_text()) by {
            assert(crate::double::infinity_text().len() != crate::double::neg_infinity_text().len());
        }
    }
}

/// An enum ordinal with a name decodes from the name that encodes it, where
/// the name leads back to that ordinal.
pub proof fn enum_round_trip<T: ProtoEnum>(v: i32, r: Result<JsonValue, CodecError>)
    requires
        encodes_enum::<T>(v, r),
        T::name_of_ordinal(v) matches Some(name) && T::ordinal_of_name(name) == Some(v),
    ensures
        r matches Ok(j) && decoded_enum::<T>(j) == Ok::<i32, CodecError>(v),
{
}

/// An unknown name fails to decode, while a number that is no known
/// ordinal, inside `i32` or not, decodes to the default ordinal.
pub proof fn enum_leniency<T: ProtoEnum>(t: JsonText, n: i64)
    requires
        T::ordinal_of_name(t.text@) is None,
        n < i32::MIN || n > i32::MAX || T::name_of_ordinal(n as i32) is None,
    ensures
        decoded_enum::<T>(JsonValue::Str(t)) == Err::<i32, CodecError>(CodecError::UnknownEnumName),
        decoded_enum::<T>(JsonValue::I64(n)) == Ok::<i32, CodecError>(T::default_ordinal()),
{
}

/// A dynamic value with no variant set, or with a number that is not
/// finite, fails to encode with `InvalidUnion`; `null` decodes to the null
/// variant.
pub proof fn value_union(v: Value, r: Result<JsonValue, CodecError>, n: Value)
    requires
        value_encodes(v, r),
        decoded_as(JsonValue::Null, n),
    ensures
        v.kind is None ==> r == Err::<JsonValue, CodecError>(CodecError::InvalidUnion),
        (v.kind matches Some(Kind::NumberValue(b)) && (is_nan(b) || is_infinite(b))) ==> r == Err::<JsonValue, CodecError>(
            CodecError::InvalidUnion,
        ),
        n.kind == Some(Kind::NullValue(0)),
{
}

/// A repeated field decodes from the sequence that encodes it, where each
/// element decodes from the token that encodes it.
pub proof fn repeated_round_trip<S: SerializeMethod, D: Decode<Value = S::Value>>(
    vs: Seq<S::Value>,
    items: Vec<JsonValue>,
)
    requires
        encodes_all::<S>(vs, Ok(JsonValue::Array(items))),
        forall|v: S::Value, j: JsonValue| S::encodes(v, Ok(j)) ==> #[trigger] D::decodes(j, Ok(v)),
    ensures
        decodes_all::<D>(items@, Ok(vs)),
{
    assert forall|i: int| 0 <= i < items@.len() implies D::decodes(#[trigger] items@[i], Ok(vs[i])) by {
        assert(S::encodes(vs[i], Ok(items@[i])));
    }
}

/// A map with distinct keys decodes from the mapping that encodes it, where
/// each key decodes from the string that it is written as and each value
/// from the token that encodes it.
pub proof fn map_round_trip<KS: SerializeMethod, VS: SerializeMethod, KD: Decode<Value = KS::Value>, VD: Decode<Value = VS::Value>>(
    m: Seq<(KS::Value, VS::Value)>,
    es: Vec<(JsonText, JsonValue)>,
)
    where KS::Value: MapKey
    requires
        encodes_entries::<KS, VS>(m, Ok(JsonValue::Object(es))),
        forall|i: int, j: int| 0 <= i < j < m.len() ==> !KS::Value::key_eq(#[trigger] m[i].0, #[trigger] m[j].0),
        forall|k: KS::Value, j: JsonValue, t: JsonText|
            KS::encodes(k, Ok(j)) && #[trigger] key_written(j, t) ==> #[trigger] KD::decodes(JsonValue::Str(t), Ok(k)),
        forall|v: VS::Value, j: JsonValue| VS::encodes(v, Ok(j)) ==> #[trigger] VD::decodes(j, Ok(v)),
    ensures
        decodes_entries::<KD, VD>(es@, Ok(m), false),
{
    assert forall|i: int| 0 <= i < es@.len() implies entry_decodes::<KD, VD>(#[trigger] es@[i], m[i]) by {
        assert(entry_encodes::<KS, VS>(m[i], es@[i]));
        let j = choose|j: JsonValue| KS::encodes(m[i].0, Ok(j)) && key_written(j, es@[i].0);
        assert(KD::decodes(JsonValue::Str(es@[i].0), Ok(m[i].0)));
        assert(VS::encodes(m[i].1, Ok(es@[i].1)));
    }
    lemma_upsert_all_distinct(m);
}

/// A `bool`-keyed map of `int32` values is written with the keys as the
/// strings `"true"` and `"false"`, and decodes back from that mapping.
pub proof fn bool_keyed_map_round_trip(m: Seq<(bool, i32)>, es: Vec<(JsonText, JsonValue)>)
    requires
        encodes_entries::<BoolKeySerializer, i32>(m, Ok(JsonValue::Object(es))),
        forall|i: int, j: int| 0 <= i < j < m.len() ==> #[trigger] m[i].0 != #[trigger] m[j].0,
    ensures
        forall|i: int| 0 <= i < m.len() ==> (#[trigger] es@[i]).0.text@ == (if m[i].0 { true_text() } else { false_text() }),
        decodes_entries::<BoolVisitor, i32>(es@, Ok(m), false),
{
    assert forall|i: int| 0 <= i < m.len() implies (#[trigger] es@[i]).0.text@ == (if m[i].0 { true_text() } else { false_text() }) by {
        assert(entry_encodes::<BoolKeySerializer, i32>(m[i], es@[i]));
        let j = choose|j: JsonValue| BoolKeySerializer::encodes(m[i].0, Ok(j)) && key_written(j, es@[i].0);
        assert(BoolKeySerializer::encodes(m[i].0, Ok(j)));
    }
    assert forall|k: bool, j: JsonValue, t: JsonText|
        BoolKeySerializer::encodes(k, Ok(j)) && #[trigger] key_written(j, t) implies #[trigger] BoolVisitor::decodes(JsonValue::Str(t), Ok(k)) by {
        bool_key_round_trip(k, t);
    }
    map_round_trip::<BoolKeySerializer, i32, BoolVisitor, i32>(m, es);
}

/// An `int32`-keyed map of `int32` values is written with each key as its
/// decimal text, and decodes back from that mapping.
pub proof fn int32_keyed_map_round_trip(m: Seq<(i32, i32)>, es: Vec<(JsonText, JsonValue)>)
    requires
        encodes_entries::<i32, i32>(m, Ok(JsonValue::Object(es))),
        forall|i: int, j: int| 0 <= i < j < m.len() ==> #[trigger] m[i].0 != #[trigger] m[j].0,
    ensures
        forall|i: int| 0 <= i < m.len() ==> (#[trigger] es@[i]).0.text@ == decimal_text(m[i].0 as int),
        decodes_entries::<i32, i32>(es@, Ok(m), false),
{
    assert forall|i: int| 0 <= i < m.len() implies (#[trigger] es@[i]).0.text@ == decimal_text(m[i].0 as int) by {
        assert(entry_encodes::<i32, i32>(m[i], es@[i]));
        let j = choose|j: JsonValue| <i32 as SerializeMethod>::encodes(m[i].0, Ok(j)) && key_written(j, es@[i].0);
        assert(j == JsonValue::I64(m[i].0 as i64));
    }
    assert forall|k: i32, j: JsonValue, t: JsonText|
        <i32 as SerializeMethod>::encodes(k, Ok(j)) && #[trigger] key_written(j, t) implies #[trigger] <i32 as Decode>::decodes(JsonValue::Str(t), Ok(k)) by {
        lemma_decimal_text_read_back(k as int);
    }
    map_round_trip::<i32, i32, i32, i32>(m, es);
}

} // verus!
