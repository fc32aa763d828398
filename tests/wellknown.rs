use prost_types::json::{CodecError, JsonText, JsonValue, SerializeMethod};
use prost_types::duration::Duration;
use prost_types::timestamp::{from_parsed, rfc3339_text, Timestamp};
use prost_types::enum_serde::{EnumSerializer, EnumVisitor};
use prost_types::json::Decode;
use prost_types::value::{decode_value, encode_value, Kind, ListValue, NullValue, Struct, Value};

fn text(s: &str) -> JsonText {
    JsonText { text: s.to_string(), float: s.parse::<f64>().ok().map(f64::to_bits) }
}

fn decode_duration(s: &str) -> Result<Duration, CodecError> {
    let secs = prost_types::duration::seconds_text(&JsonValue::Str(text(s)))?;
    let x: f64 = secs.parse().map_err(|_| CodecError::InvalidEncoding)?;
    let d = std::time::Duration::try_from_secs_f64(x.abs()).map_err(|_| CodecError::InvalidEncoding)?;
    prost_types::duration::from_magnitude(x.is_sign_negative(), d.as_secs(), d.subsec_nanos())
}

fn duration_text(d: Duration) -> String {
    match prost_types::duration::serialize(&d) {
        JsonValue::Str(t) => t.text,
        _ => panic!("expected a JSON string"),
    }
}

#[test]
fn enum_unknown_name_fails() {
    let r = prost_types::enum_serde::deserialize::<NullValue>(&JsonValue::Str(text("bogus")));
    assert_eq!(r, Err(CodecError::UnknownEnumName));
}

#[test]
fn enum_unknown_ordinal_defaults() {
    assert_eq!(prost_types::enum_serde::deserialize::<NullValue>(&JsonValue::U64(99999)), Ok(0));
    assert_eq!(prost_types::enum_serde::deserialize::<NullValue>(&JsonValue::I64(-5)), Ok(0));
    assert_eq!(prost_types::enum_serde::deserialize::<NullValue>(&JsonValue::F64(2.7f64.to_bits())), Ok(0));
    assert_eq!(prost_types::enum_serde::deserialize::<NullValue>(&JsonValue::Null), Ok(0));
    assert_eq!(prost_types::enum_serde::deserialize::<NullValue>(&JsonValue::U64(4294967296)), Ok(0));
    assert_eq!(prost_types::enum_serde::deserialize::<NullValue>(&JsonValue::F64(f64::NAN.to_bits())), Ok(0));
    assert_eq!(prost_types::enum_serde::deserialize::<NullValue>(&JsonValue::Bool(true)), Err(CodecError::TypeMismatch));
}

#[test]
fn enum_names_round_trip() {
    let enc = prost_types::enum_serde::serialize::<NullValue>(&0).unwrap();
    assert!(matches!(&enc, JsonValue::Str(t) if t.text == "NULL_VALUE"));
    assert_eq!(EnumVisitor::<NullValue>::decode(&enc), Ok(0));
    assert_eq!(prost_types::enum_serde::serialize::<NullValue>(&1), Err(CodecError::UnknownEnumValue));
    assert_eq!(EnumSerializer::<NullValue>::serialize(&1), Err(CodecError::UnknownEnumValue));
    assert_eq!(prost_types::enum_opt::deserialize::<NullValue>(&JsonValue::Null), Ok(None));
    assert_eq!(prost_types::enum_opt::deserialize::<NullValue>(&JsonValue::U64(0)), Ok(Some(0)));
    assert_eq!(prost_types::enum_opt::serialize::<NullValue>(&None), Ok(JsonValue::Null));
}

#[test]
fn value_without_variant_fails() {
    assert_eq!(encode_value(&Value { kind: None }), Err(CodecError::InvalidUnion));
}

#[test]
fn value_non_finite_number_fails() {
    let nan = Value { kind: Some(Kind::NumberValue(f64::NAN.to_bits())) };
    assert_eq!(encode_value(&nan), Err(CodecError::InvalidUnion));
    let inf = Value { kind: Some(Kind::NumberValue(f64::INFINITY.to_bits())) };
    assert_eq!(encode_value(&inf), Err(CodecError::InvalidUnion));
    let nested = Value { kind: Some(Kind::ListValue(ListValue { values: vec![nan] })) };
    assert_eq!(encode_value(&nested), Err(CodecError::InvalidUnion));
}

#[test]
fn value_null_decodes_to_null_variant() {
    assert_eq!(decode_value(&JsonValue::Null), Value { kind: Some(Kind::NullValue(0)) });
}

#[test]
fn value_struct_with_list() {
    let j = JsonValue::Object(vec![
        (text("a"), JsonValue::U64(1)),
        (text("b"), JsonValue::Array(vec![JsonValue::Bool(true), JsonValue::Null])),
    ]);
    let expected = Value {
        kind: Some(Kind::StructValue(Struct {
            fields: vec![
                ("a".to_string(), Value { kind: Some(Kind::NumberValue(1.0f64.to_bits())) }),
                (
                    "b".to_string(),
                    Value {
                        kind: Some(Kind::ListValue(ListValue {
                            values: vec![
                                Value { kind: Some(Kind::BoolValue(true)) },
                                Value { kind: Some(Kind::NullValue(0)) },
                            ],
                        })),
                    },
                ),
            ],
        })),
    };
    let v = decode_value(&j);
    assert_eq!(v, expected);
    let back = encode_value(&v).unwrap();
    assert_eq!(decode_value(&back), expected);
}

#[test]
fn value_scalars() {
    assert_eq!(decode_value(&JsonValue::I64(-3)), Value { kind: Some(Kind::NumberValue((-3.0f64).to_bits())) });
    assert_eq!(decode_value(&JsonValue::Str(text("s"))), Value { kind: Some(Kind::StringValue("s".to_string())) });
    let enc = encode_value(&Value { kind: Some(Kind::StringValue("s".to_string())) }).unwrap();
    assert!(matches!(enc, JsonValue::Str(ref t) if t.text == "s"));
    assert_eq!(encode_value(&Value { kind: Some(Kind::NullValue(0)) }), Ok(JsonValue::Null));
    assert_eq!(Value::decode(&JsonValue::Bool(false)), Ok(Value { kind: Some(Kind::BoolValue(false)) }));
    assert_eq!(Value::serialize(&Value { kind: Some(Kind::BoolValue(true)) }), Ok(JsonValue::Bool(true)));
}

#[test]
fn duration_negative_fraction() {
    assert_eq!(decode_duration("-1.5s"), Ok(Duration { seconds: -1, nanos: -500000000 }));
}

#[test]
fn duration_signs_agree() {
    for s in ["0s", "1s", "-0.25s", "3.000001s", "-100.5s"] {
        let d = decode_duration(s).unwrap();
        assert!((d.seconds >= 0 && d.nanos >= 0) || (d.seconds <= 0 && d.nanos <= 0));
    }
}

#[test]
fn duration_text_forms() {
    assert_eq!(duration_text(Duration { seconds: 1, nanos: 0 }), "1s");
    assert_eq!(duration_text(Duration { seconds: -1, nanos: -500000000 }), "-1.500s");
    assert_eq!(duration_text(Duration { seconds: 0, nanos: -1000 }), "-0.000001s");
    assert_eq!(duration_text(Duration { seconds: 2, nanos: 5 }), "2.000000005s");
    assert_eq!(duration_text(Duration { seconds: 0, nanos: 0 }), "0s");
}

#[test]
fn duration_rejects_bad_text() {
    assert_eq!(prost_types::duration::seconds_text(&JsonValue::Str(text("1.5"))), Err(CodecError::InvalidEncoding));
    assert_eq!(prost_types::duration::seconds_text(&JsonValue::U64(1)), Err(CodecError::TypeMismatch));
    assert_eq!(decode_duration("abcs"), Err(CodecError::InvalidEncoding));
    assert_eq!(prost_types::duration::from_magnitude(false, u64::MAX, 0), Err(CodecError::RangeError));
}

#[test]
fn default_detection() {
    assert!(prost_types::is_default(&0i32));
    assert!(!prost_types::is_default(&5u64));
    assert!(prost_types::is_default(&String::new()));
    assert!(!prost_types::is_default(&true));
}

#[test]
fn timestamp_from_reader_result() {
    assert_eq!(rfc3339_text(&JsonValue::Str(text("1970-01-01T00:00:01Z"))), Ok("1970-01-01T00:00:01Z".to_string()));
    assert_eq!(rfc3339_text(&JsonValue::U64(1)), Err(CodecError::TypeMismatch));
    assert_eq!(from_parsed(Some((-1, 500))), Ok(Timestamp { seconds: -1, nanos: 500 }));
    assert_eq!(from_parsed(None), Err(CodecError::InvalidEncoding));
    assert_eq!(from_parsed(Some((0, -1))), Err(CodecError::InvalidEncoding));
}

#[test]
fn value_struct_names_stay_distinct() {
    let j = JsonValue::Object(vec![
        (text("a"), JsonValue::U64(1)),
        (text("a"), JsonValue::Bool(true)),
    ]);
    let v = decode_value(&j);
    assert_eq!(
        v,
        Value { kind: Some(Kind::StructValue(Struct { fields: vec![("a".to_string(), Value { kind: Some(Kind::BoolValue(true)) })] })) }
    );
}
