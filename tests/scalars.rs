use prost_types::json::{CodecError, JsonText, JsonValue, SerializeMethod};
use prost_types::i64::I64Serializer;
use prost_types::u64::U64Serializer;
use prost_types::double::F64Serializer;
use prost_types::vec_u8::VecU8Serializer;

fn text(s: &str) -> JsonText {
    JsonText { text: s.to_string(), float: s.parse::<f64>().ok().map(f64::to_bits) }
}

fn string_token(s: &str) -> JsonValue {
    JsonValue::Str(text(s))
}

fn text_of(j: &JsonValue) -> String {
    match j {
        JsonValue::Str(t) => t.text.clone(),
        _ => panic!("expected a JSON string"),
    }
}

#[test]
fn int32_from_decimal_string_with_zero_fraction() {
    assert_eq!(prost_types::i32::deserialize(&string_token("3.0")), Ok(3));
}

#[test]
fn int32_from_fractional_string_is_range_error() {
    assert_eq!(prost_types::i32::deserialize(&string_token("3.5")), Err(CodecError::RangeError));
}

#[test]
fn int32_from_scientific_string() {
    assert_eq!(prost_types::i32::deserialize(&string_token("1e3")), Ok(1000));
    assert_eq!(prost_types::i32::deserialize(&string_token("-2E2")), Ok(-200));
}

#[test]
fn int32_from_numbers() {
    assert_eq!(prost_types::i32::deserialize(&JsonValue::I64(-7)), Ok(-7));
    assert_eq!(prost_types::i32::deserialize(&JsonValue::U64(7)), Ok(7));
    assert_eq!(prost_types::i32::deserialize(&JsonValue::F64(3.0f64.to_bits())), Ok(3));
    assert_eq!(prost_types::i32::deserialize(&JsonValue::F64(3.5f64.to_bits())), Err(CodecError::RangeError));
    assert_eq!(prost_types::i32::deserialize(&JsonValue::U64(1 << 31)), Err(CodecError::RangeError));
    assert_eq!(prost_types::i32::deserialize(&JsonValue::I64(-(1 << 31) - 1)), Err(CodecError::RangeError));
}

#[test]
fn int32_float_edges() {
    assert_eq!(prost_types::i32::deserialize(&JsonValue::F64(2147483647.0f64.to_bits())), Ok(i32::MAX));
    assert_eq!(prost_types::i32::deserialize(&JsonValue::F64(2147483648.0f64.to_bits())), Err(CodecError::RangeError));
    assert_eq!(prost_types::i32::deserialize(&JsonValue::F64(f64::INFINITY.to_bits())), Err(CodecError::RangeError));
    assert_eq!(prost_types::i32::deserialize(&JsonValue::F64(f64::NAN.to_bits())), Err(CodecError::RangeError));
    assert_eq!(prost_types::i32::deserialize(&JsonValue::F64(1e-300f64.to_bits())), Ok(0));
    assert_eq!(prost_types::i32::deserialize(&JsonValue::F64((-12.0f64).to_bits())), Ok(-12));
}

#[test]
fn int32_null_and_mismatch() {
    assert_eq!(prost_types::i32::deserialize(&JsonValue::Null), Ok(0));
    assert_eq!(prost_types::i32::deserialize(&JsonValue::Bool(true)), Err(CodecError::TypeMismatch));
    assert_eq!(prost_types::i32::deserialize(&string_token("abc")), Err(CodecError::InvalidEncoding));
    assert_eq!(prost_types::i32::deserialize(&string_token("99999999999")), Err(CodecError::RangeError));
    assert_eq!(prost_types::i32::deserialize(&string_token("+12")), Ok(12));
}

#[test]
fn int32_optional() {
    assert_eq!(prost_types::i32_opt::deserialize(&JsonValue::Null), Ok(None));
    assert_eq!(prost_types::i32_opt::deserialize(&string_token("5")), Ok(Some(5)));
}

#[test]
fn int32_round_trip() {
    for v in [0, 1, -1, i32::MAX, i32::MIN] {
        assert_eq!(prost_types::i32::deserialize(&prost_types::i32::serialize(&v)), Ok(v));
        assert_eq!(prost_types::i32::deserialize(&JsonValue::F64((v as f64).to_bits())), Ok(v));
    }
}

#[test]
fn uint32_decoding() {
    assert_eq!(prost_types::u32::deserialize(&JsonValue::I64(-1)), Err(CodecError::RangeError));
    assert_eq!(prost_types::u32::deserialize(&string_token("-1")), Err(CodecError::RangeError));
    assert_eq!(prost_types::u32::deserialize(&string_token("4294967295")), Ok(u32::MAX));
    assert_eq!(prost_types::u32::deserialize(&JsonValue::F64((-0.0f64).to_bits())), Ok(0));
    assert_eq!(prost_types::u32_opt::deserialize(&JsonValue::Null), Ok(None));
    for v in [0, 7, u32::MAX] {
        assert_eq!(prost_types::u32::deserialize(&prost_types::u32::serialize(&v)), Ok(v));
    }
}

#[test]
fn int64_encodes_as_decimal_string() {
    let r = I64Serializer::serialize(&-1234567890123i64).unwrap();
    assert_eq!(text_of(&r), "-1234567890123");
    let r = I64Serializer::serialize(&i64::MIN).unwrap();
    assert_eq!(text_of(&r), "-9223372036854775808");
    let r = I64Serializer::serialize(&0).unwrap();
    assert_eq!(text_of(&r), "0");
}

#[test]
fn int64_round_trip_and_forms_agree() {
    for v in [0i64, 1, -1, 42, i64::MAX, i64::MIN, 9007199254740993] {
        let enc = I64Serializer::serialize(&v).unwrap();
        let s = text_of(&enc);
        assert!(s.chars().enumerate().all(|(i, c)| c.is_ascii_digit() || (i == 0 && c == '-')));
        assert_eq!(prost_types::i64::deserialize(&enc), Ok(v));
        assert_eq!(prost_types::i64::deserialize(&JsonValue::I64(v)), Ok(v));
    }
}

#[test]
fn int64_float_rejects_two_to_the_63() {
    assert_eq!(prost_types::i64::deserialize(&JsonValue::F64(9223372036854775808.0f64.to_bits())), Err(CodecError::RangeError));
    assert_eq!(prost_types::i64::deserialize(&JsonValue::F64((-9223372036854775808.0f64).to_bits())), Ok(i64::MIN));
    assert_eq!(prost_types::i64::deserialize(&JsonValue::F64(1.8446744073709552e19f64.to_bits())), Err(CodecError::RangeError));
    assert_eq!(prost_types::i64::deserialize(&JsonValue::U64(u64::MAX)), Err(CodecError::RangeError));
}

#[test]
fn int64_optional() {
    assert_eq!(prost_types::i64_opt::deserialize(&JsonValue::Null), Ok(None));
    assert_eq!(prost_types::i64_opt::serialize(&None), Ok(JsonValue::Null));
    let r = prost_types::i64_opt::serialize(&Some(-5)).unwrap();
    assert_eq!(text_of(&r), "-5");
}

#[test]
fn uint64_codec() {
    let r = U64Serializer::serialize(&u64::MAX).unwrap();
    assert_eq!(text_of(&r), "18446744073709551615");
    assert_eq!(prost_types::u64::deserialize(&r), Ok(u64::MAX));
    assert_eq!(prost_types::u64::deserialize(&JsonValue::I64(-3)), Err(CodecError::TypeMismatch));
    assert_eq!(prost_types::u64::deserialize(&JsonValue::F64(1.8446744073709552e19f64.to_bits())), Err(CodecError::RangeError));
    assert_eq!(prost_types::u64::deserialize(&JsonValue::F64(1.8446744073709550e19f64.to_bits())), Ok(18446744073709549568));
    assert_eq!(prost_types::u64_opt::serialize(&Some(10)).map(|j| text_of(&j)), Ok("10".to_string()));
    assert_eq!(prost_types::u64_opt::deserialize(&string_token("12")), Ok(Some(12)));
}

#[test]
fn bool_codecs() {
    assert_eq!(prost_types::bool::deserialize(&JsonValue::Bool(true)), Ok(true));
    assert_eq!(prost_types::bool::deserialize(&JsonValue::Null), Ok(false));
    assert_eq!(prost_types::bool::deserialize(&string_token("true")), Err(CodecError::TypeMismatch));
    assert_eq!(prost_types::bool_opt::deserialize(&JsonValue::Null), Ok(None));
    assert_eq!(prost_types::bool_opt::deserialize(&JsonValue::Bool(false)), Ok(Some(false)));
    assert_eq!(prost_types::bool::deserialize(&prost_types::bool::serialize(&true)), Ok(true));
}

#[test]
fn bool_map_key_codec() {
    assert_eq!(prost_types::bool_map_key::deserialize(&string_token("true")), Ok(true));
    assert_eq!(prost_types::bool_map_key::deserialize(&string_token("false")), Ok(false));
    assert_eq!(prost_types::bool_map_key::deserialize(&string_token("maybe")), Err(CodecError::TypeMismatch));
    assert_eq!(prost_types::bool_map_key::deserialize(&JsonValue::Bool(true)), Err(CodecError::TypeMismatch));
}

#[test]
fn string_codecs() {
    assert_eq!(prost_types::string::deserialize(&string_token("héllo")), Ok("héllo".to_string()));
    assert_eq!(prost_types::string::deserialize(&JsonValue::Null), Ok(String::new()));
    assert_eq!(prost_types::string::deserialize(&JsonValue::I64(1)), Err(CodecError::TypeMismatch));
    assert_eq!(prost_types::string_opt::deserialize(&JsonValue::Null), Ok(None));
    assert_eq!(prost_types::string_opt::deserialize(&string_token("x")), Ok(Some("x".to_string())));
    let s = "round trip".to_string();
    assert_eq!(prost_types::string::deserialize(&prost_types::string::serialize(&s)), Ok(s));
}

#[test]
fn bytes_codec() {
    let enc = VecU8Serializer::serialize(&b"hello".to_vec()).unwrap();
    assert_eq!(text_of(&enc), "aGVsbG8=");
    assert_eq!(prost_types::vec_u8::deserialize(&enc), Ok(b"hello".to_vec()));
    assert_eq!(prost_types::vec_u8::deserialize(&string_token("aGVsbG8=")), Ok(b"hello".to_vec()));
    assert_eq!(prost_types::vec_u8::deserialize(&string_token("not base64!")), Err(CodecError::InvalidEncoding));
    assert_eq!(prost_types::vec_u8::deserialize(&JsonValue::Null), Ok(Vec::new()));
    assert_eq!(prost_types::vec_u8_opt::deserialize(&JsonValue::Null), Ok(None));
    assert_eq!(prost_types::vec_u8_opt::serialize(&None), Ok(JsonValue::Null));
    let empty = VecU8Serializer::serialize(&Vec::new()).unwrap();
    assert_eq!(prost_types::vec_u8::deserialize(&empty), Ok(Vec::new()));
}

#[test]
fn double_specials_encode_as_strings() {
    assert_eq!(text_of(&F64Serializer::serialize(&f64::NAN.to_bits()).unwrap()), "NaN");
    assert_eq!(text_of(&F64Serializer::serialize(&f64::INFINITY.to_bits()).unwrap()), "Infinity");
    assert_eq!(text_of(&F64Serializer::serialize(&f64::NEG_INFINITY.to_bits()).unwrap()), "-Infinity");
    assert_eq!(F64Serializer::serialize(&1.5f64.to_bits()), Ok(JsonValue::F64(1.5f64.to_bits())));
}

#[test]
fn double_specials_decode() {
    let neg = prost_types::double::deserialize(&string_token("-Infinity")).unwrap();
    assert_eq!(f64::from_bits(neg), f64::NEG_INFINITY);
    let nan = prost_types::double::deserialize(&string_token("NaN")).unwrap();
    assert!(f64::from_bits(nan).is_nan());
    let inf = prost_types::double::deserialize(&string_token("Infinity")).unwrap();
    assert_eq!(f64::from_bits(inf), f64::INFINITY);
    assert_eq!(prost_types::double::deserialize(&string_token("2.5")), Ok(2.5f64.to_bits()));
    assert_eq!(prost_types::double::deserialize(&string_token("x")), Err(CodecError::InvalidEncoding));
}

#[test]
fn double_from_integers_rounds_to_nearest() {
    for v in [0i64, 1, -1, 3, -1024, i64::MAX, i64::MIN, 9007199254740993, -9007199254740995, 123456789012345678] {
        assert_eq!(prost_types::double::deserialize(&JsonValue::I64(v)), Ok((v as f64).to_bits()));
    }
    for v in [0u64, 5, u64::MAX, 9007199254740993, 18446744073709550591] {
        assert_eq!(prost_types::double::deserialize(&JsonValue::U64(v)), Ok((v as f64).to_bits()));
    }
}

#[test]
fn double_round_trip_and_optional() {
    for v in [0.0f64, -0.0, 1.25, -3.5e300, f64::MIN_POSITIVE, f64::INFINITY, f64::NEG_INFINITY] {
        let enc = F64Serializer::serialize(&v.to_bits()).unwrap();
        assert_eq!(prost_types::double::deserialize(&enc), Ok(v.to_bits()));
    }
    assert_eq!(prost_types::double_opt::deserialize(&JsonValue::Null), Ok(None));
    assert_eq!(prost_types::double_opt::serialize(&None), Ok(JsonValue::Null));
    assert_eq!(prost_types::double::deserialize(&JsonValue::Null), Ok(0));
}
