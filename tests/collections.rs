use prost_types::json::{CodecError, JsonText, JsonValue};
use prost_types::bool::BoolVisitor as PlainBoolVisitor;
use prost_types::bool_map_key::{BoolKeySerializer, BoolVisitor};
use prost_types::enum_serde::{EnumSerializer, EnumVisitor};
use prost_types::i32::I32Visitor;
use prost_types::i64::{I64Serializer, I64Visitor};
use prost_types::value::NullValue;

fn text(s: &str) -> JsonText {
    JsonText { text: s.to_string(), float: s.parse::<f64>().ok().map(f64::to_bits) }
}

fn object(entries: Vec<(&str, JsonValue)>) -> JsonValue {
    JsonValue::Object(entries.into_iter().map(|(k, v)| (text(k), v)).collect())
}

#[test]
fn bool_keyed_map_encodes_keys_as_strings() {
    let r = prost_types::map_custom::serialize::<BoolKeySerializer, i32>(&[(true, 1)]).unwrap();
    match r {
        JsonValue::Object(es) => {
            assert_eq!(es.len(), 1);
            assert_eq!(es[0].0.text, "true");
            assert_eq!(es[0].1, JsonValue::I64(1));
        },
        _ => panic!("expected a mapping"),
    }
}

#[test]
fn bool_keyed_map_decodes_string_keys() {
    let ok = prost_types::map_custom::deserialize::<BoolVisitor, i32>(&object(vec![("false", JsonValue::U64(2))]));
    assert_eq!(ok, Ok(vec![(false, 2)]));
    let bad = prost_types::map_custom::deserialize::<BoolVisitor, i32>(&object(vec![("maybe", JsonValue::U64(2))]));
    assert_eq!(bad, Err(CodecError::TypeMismatch));
}

#[test]
fn map_keeps_last_value_of_repeated_key() {
    let j = object(vec![
        ("a", JsonValue::U64(1)),
        ("b", JsonValue::U64(2)),
        ("a", JsonValue::U64(3)),
    ]);
    let r = prost_types::map::deserialize::<String, i32>(&j);
    assert_eq!(r, Ok(vec![("a".to_string(), 3), ("b".to_string(), 2)]));
    let r = prost_types::btree_map::deserialize::<String, i32>(&j);
    assert_eq!(r, Ok(vec![("a".to_string(), 3), ("b".to_string(), 2)]));
}

#[test]
fn map_null_and_mismatch() {
    assert_eq!(prost_types::map::deserialize::<String, i32>(&JsonValue::Null), Ok(vec![]));
    assert_eq!(prost_types::map::deserialize::<String, i32>(&JsonValue::Bool(true)), Err(CodecError::TypeMismatch));
    let j = object(vec![("a", JsonValue::Bool(true))]);
    assert_eq!(prost_types::map::deserialize::<String, i32>(&j), Err(CodecError::TypeMismatch));
}

#[test]
fn integer_keyed_maps_read_keys_from_strings() {
    let j = object(vec![("12", JsonValue::Str(text("34"))), ("-1", JsonValue::Null)]);
    let r = prost_types::map_custom_to_custom::deserialize::<I32Visitor, I64Visitor>(&j);
    assert_eq!(r, Ok(vec![(12, 34), (-1, 0)]));
    let r = prost_types::btree_map_custom_to_custom::deserialize::<I32Visitor, I64Visitor>(&j);
    assert_eq!(r, Ok(vec![(-1, 0), (12, 34)]));
    let bad = object(vec![("x", JsonValue::Null)]);
    assert_eq!(
        prost_types::map_custom_to_custom::deserialize::<I32Visitor, I64Visitor>(&bad),
        Err(CodecError::InvalidEncoding)
    );
}

#[test]
fn custom_value_maps() {
    let j = object(vec![("k", JsonValue::Str(text("NULL_VALUE")))]);
    let r = prost_types::map_custom_value::deserialize::<String, EnumVisitor<NullValue>>(&j);
    assert_eq!(r, Ok(vec![("k".to_string(), 0)]));
    let r = prost_types::btree_map_custom_value::deserialize::<String, EnumVisitor<NullValue>>(&j);
    assert_eq!(r, Ok(vec![("k".to_string(), 0)]));
    let enc = prost_types::btree_map_custom_value::serialize::<String, I64Serializer>(&[("n".to_string(), 5)]).unwrap();
    match enc {
        JsonValue::Object(es) => {
            assert_eq!(es[0].0.text, "n");
            assert!(matches!(&es[0].1, JsonValue::Str(t) if t.text == "5"));
        },
        _ => panic!("expected a mapping"),
    }
    let bad = prost_types::map_custom_value::serialize::<String, EnumSerializer<NullValue>>(&[("n".to_string(), 3)]);
    assert_eq!(bad, Err(CodecError::UnknownEnumValue));
}

#[test]
fn custom_key_map_encoding() {
    let enc = prost_types::btree_map_custom::serialize::<I64Serializer, bool>(&[(7, true)]).unwrap();
    match enc {
        JsonValue::Object(es) => {
            assert_eq!(es[0].0.text, "7");
            assert_eq!(es[0].1, JsonValue::Bool(true));
        },
        _ => panic!("expected a mapping"),
    }
    let r = prost_types::btree_map_custom::deserialize::<BoolVisitor, bool>(&object(vec![("true", JsonValue::Bool(false))]));
    assert_eq!(r, Ok(vec![(true, false)]));
    let enc = prost_types::map_custom_to_custom::serialize::<BoolKeySerializer, I64Serializer>(&[(false, -2)]).unwrap();
    assert!(matches!(enc, JsonValue::Object(ref es) if es[0].0.text == "false"));
    let plain_key = prost_types::map_custom_value::serialize::<i32, I64Serializer>(&[(1, 2)]).unwrap();
    assert!(matches!(&plain_key, JsonValue::Object(es) if es[0].0.text == "1"));
    let bad_key = prost_types::map_custom_value::serialize::<String, I64Serializer>(&[]);
    assert_eq!(bad_key, Ok(JsonValue::Object(vec![])));
}

#[test]
fn repeated_fields() {
    let j = JsonValue::Array(vec![JsonValue::Str(text("1")), JsonValue::U64(2), JsonValue::Null]);
    assert_eq!(prost_types::repeated::deserialize::<I64Visitor>(&j), Ok(vec![1, 2, 0]));
    assert_eq!(prost_types::repeated::deserialize::<I64Visitor>(&JsonValue::Null), Ok(vec![]));
    let bad = JsonValue::Array(vec![JsonValue::U64(1), JsonValue::Bool(true), JsonValue::Str(text("x"))]);
    assert_eq!(prost_types::repeated::deserialize::<I64Visitor>(&bad), Err(CodecError::TypeMismatch));
    assert_eq!(prost_types::repeated::deserialize::<PlainBoolVisitor>(&JsonValue::Bool(true)), Err(CodecError::TypeMismatch));
    let enc = prost_types::repeated::serialize::<I64Serializer>(&[3, -4]).unwrap();
    match enc {
        JsonValue::Array(items) => {
            assert_eq!(items.len(), 2);
            assert!(matches!(&items[1], JsonValue::Str(t) if t.text == "-4"));
        },
        _ => panic!("expected a sequence"),
    }
    let bad = prost_types::repeated::serialize::<EnumSerializer<NullValue>>(&[0, 9]);
    assert_eq!(bad, Err(CodecError::UnknownEnumValue));
}

#[test]
fn plain_vec() {
    let j = JsonValue::Array(vec![JsonValue::Str(text("a")), JsonValue::Str(text("b"))]);
    assert_eq!(prost_types::vec::deserialize::<String>(&j), Ok(vec!["a".to_string(), "b".to_string()]));
    assert_eq!(prost_types::vec::deserialize::<String>(&JsonValue::Null), Ok(vec![]));
    let j = JsonValue::Array(vec![JsonValue::Null]);
    assert_eq!(prost_types::vec::deserialize::<String>(&j), Err(CodecError::TypeMismatch));
}

#[test]
fn empty_message_strictness() {
    assert_eq!(prost_types::empty::deserialize(&object(vec![])), Ok(()));
    assert_eq!(prost_types::empty::deserialize(&object(vec![("x", JsonValue::U64(1))])), Err(CodecError::StructuralViolation));
    assert_eq!(prost_types::empty::deserialize(&JsonValue::Null), Err(CodecError::TypeMismatch));
    assert_eq!(prost_types::empty::serialize(&()), JsonValue::Object(vec![]));
}

#[test]
fn optional_empty_message() {
    assert_eq!(prost_types::empty_opt::deserialize(&JsonValue::Null), Ok(None));
    assert_eq!(prost_types::empty_opt::deserialize(&object(vec![])), Ok(Some(())));
    assert_eq!(prost_types::empty_opt::deserialize(&object(vec![("x", JsonValue::U64(1))])), Err(CodecError::StructuralViolation));
    assert_eq!(prost_types::empty_opt::serialize(&None), JsonValue::Null);
    assert_eq!(prost_types::empty_opt::serialize(&Some(())), JsonValue::Object(vec![]));
}

#[test]
fn bool_keyed_map_round_trip() {
    let m = vec![(true, 1), (false, -2)];
    let enc = prost_types::map_custom::serialize::<BoolKeySerializer, i32>(&m).unwrap();
    assert_eq!(prost_types::map_custom::deserialize::<BoolVisitor, i32>(&enc), Ok(m));
}

#[test]
fn repeated_round_trip() {
    let vs = vec![i64::MIN, -1, 0, 5, i64::MAX];
    let enc = prost_types::repeated::serialize::<I64Serializer>(&vs).unwrap();
    assert_eq!(prost_types::repeated::deserialize::<I64Visitor>(&enc), Ok(vs));
}

#[test]
fn btree_maps_sort_keys() {
    let j = object(vec![("b", JsonValue::U64(1)), ("a", JsonValue::U64(2)), ("ab", JsonValue::U64(3)), ("b", JsonValue::U64(4))]);
    let sorted = prost_types::btree_map::deserialize::<String, i32>(&j);
    assert_eq!(sorted, Ok(vec![("a".to_string(), 2), ("ab".to_string(), 3), ("b".to_string(), 4)]));
    let arrival = prost_types::map::deserialize::<String, i32>(&j);
    assert_eq!(arrival, Ok(vec![("b".to_string(), 4), ("a".to_string(), 2), ("ab".to_string(), 3)]));
    let keys = object(vec![("true", JsonValue::U64(1)), ("false", JsonValue::U64(0))]);
    let r = prost_types::btree_map_custom::deserialize::<BoolVisitor, i32>(&keys);
    assert_eq!(r, Ok(vec![(false, 0), (true, 1)]));
    let j = object(vec![("z", JsonValue::Str(text("NULL_VALUE"))), ("é", JsonValue::Null), ("Z", JsonValue::U64(0))]);
    let r = prost_types::btree_map_custom_value::deserialize::<String, EnumVisitor<NullValue>>(&j);
    assert_eq!(r, Ok(vec![("Z".to_string(), 0), ("z".to_string(), 0), ("é".to_string(), 0)]));
}

#[test]
fn int32_keyed_map_round_trip() {
    let enc = prost_types::map_custom_value::serialize::<i32, i32>(&[(1, 2), (-30, 4)]).unwrap();
    match &enc {
        JsonValue::Object(es) => {
            assert_eq!(es[0].0.text, "1");
            assert_eq!(es[0].1, JsonValue::I64(2));
            assert_eq!(es[1].0.text, "-30");
        },
        _ => panic!("expected a mapping"),
    }
    assert_eq!(prost_types::map::deserialize::<i32, i32>(&enc), Ok(vec![(1, 2), (-30, 4)]));
    assert_eq!(prost_types::btree_map::deserialize::<i32, i32>(&enc), Ok(vec![(-30, 4), (1, 2)]));
}

#[test]
fn plain_integer_and_bool_keys_read_from_strings() {
    assert_eq!(prost_types::map::deserialize::<i32, i32>(&object(vec![("1", JsonValue::U64(2))])), Ok(vec![(1, 2)]));
    assert_eq!(prost_types::map::deserialize::<u32, bool>(&object(vec![("7", JsonValue::Bool(true))])), Ok(vec![(7, true)]));
    assert_eq!(prost_types::map::deserialize::<u32, bool>(&object(vec![("-7", JsonValue::Bool(true))])), Err(CodecError::InvalidEncoding));
    assert_eq!(prost_types::map::deserialize::<i64, i32>(&object(vec![("-9223372036854775808", JsonValue::U64(0))])), Ok(vec![(i64::MIN, 0)]));
    assert_eq!(prost_types::map::deserialize::<u64, i32>(&object(vec![("18446744073709551616", JsonValue::U64(0))])), Err(CodecError::RangeError));
    assert_eq!(prost_types::map::deserialize::<bool, i32>(&object(vec![("false", JsonValue::U64(0))])), Ok(vec![(false, 0)]));
    assert_eq!(prost_types::map::deserialize::<i32, i32>(&object(vec![("x", JsonValue::U64(0))])), Err(CodecError::InvalidEncoding));
    let enc = prost_types::map_custom_value::serialize::<u64, bool>(&[(u64::MAX, true)]).unwrap();
    assert!(matches!(&enc, JsonValue::Object(es) if es[0].0.text == "18446744073709551615"));
    let enc = prost_types::map_custom_value::serialize::<bool, i32>(&[(true, 1)]).unwrap();
    assert!(matches!(&enc, JsonValue::Object(es) if es[0].0.text == "true"));
}
