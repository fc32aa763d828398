//! The dynamic `Value` well-known type and its codec: any JSON token maps to
//! the variant of its kind, and back.
use vstd::prelude::*;
use crate::json::{CodecError, Decode, JsonText, JsonValue, SerializeMethod};
use crate::entries::{insert_entry, lemma_upsert_all_distinct_keys, upsert_all};
use crate::ieee::{double_of_integer, i64_to_double, is_finite, is_finite_bits, u64_to_double};
use crate::enum_serde::ProtoEnum;
use crate::text::{chars_equal, chars_of};

verus! {

/// A dynamic value: at most one variant set; none set is invalid to encode.
#[derive(Debug, PartialEq)]
pub struct Value {
    pub kind: Option<Kind>,
}

/// The variants of a dynamic value. A number is held as the bit pattern of
/// its double.
#[derive(Debug, PartialEq)]
pub enum Kind {
    NullValue(i32),
    NumberValue(u64),
    StringValue(String),
    BoolValue(bool),
    StructValue(Struct),
    ListValue(ListValue),
}

/// A mapping from field names to values, in the order in which each name
/// first came; well-formed where the names are distinct.
#[derive(Debug, PartialEq)]
pub struct Struct {
    pub fields: Vec<(String, Value)>,
}

/// A sequence of values.
#[derive(Debug, PartialEq)]
pub struct ListValue {
    pub values: Vec<Value>,
}

impl Struct {
    /// The field names are distinct.
    pub open spec fn wf(self) -> bool {
        forall|i: int, j: int| 0 <= i < j < self.fields@.len() ==> (#[trigger] self.fields@[i]).0@ != (#[trigger] self.fields@[j]).0@
    }
}

/// Every struct within the value is well-formed.
pub open spec fn value_wf(v: Value) -> bool
    decreases v,
{
    match v.kind {
        Some(Kind::StructValue(st)) => st.wf() && forall|i: int| 0 <= i < st.fields@.len() ==> value_wf((#[trigger] st.fields@[i]).1),
        Some(Kind::ListValue(l)) => forall|i: int| 0 <= i < l.values@.len() ==> value_wf(#[trigger] l.values@[i]),
        _ => true,
    }
}

/// The enum of the null variant, whose only variant `NULL_VALUE` has
/// ordinal zero.
pub struct NullValue;

pub open spec fn null_value_name() -> Seq<char> {
    seq!['N', 'U', 'L', 'L', '_', 'V', 'A', 'L', 'U', 'E']
}

impl ProtoEnum for NullValue {
    open spec fn ordinal_of_name(name: Seq<char>) -> Option<i32> {
        if name == null_value_name() {
            Some(0)
        } else {
            None
        }
    }

    open spec fn name_of_ordinal(ordinal: i32) -> Option<Seq<char>> {
        if ordinal == 0 {
            Some(null_value_name())
        } else {
            None
        }
    }

    open spec fn default_ordinal() -> i32 {
        0
    }

    fn from_name(name: &str) -> (r: Option<i32>) {
        let cs = chars_of(name);
        let n = chars_of("NULL_VALUE");
        proof {
            reveal_strlit("NULL_VALUE");
            assert(n@ =~= null_value_name());
        }
        if chars_equal(&cs, &n) {
            Some(0)
        } else {
            None
        }
    }

    fn to_name(ordinal: i32) -> (r: Option<String>) {
        if ordinal == 0 {
            proof {
                reveal_strlit("NULL_VALUE");
            }
            let s = String::from_str("NULL_VALUE");
            assert(s@ =~= null_value_name());
            Some(s)
        } else {
            None
        }
    }

    fn default_value() -> (r: i32) {
        0
    }
}

/// The value that decoding `j` gives: the variant of the token's kind, an
/// integer widened to the nearest double, `null` as the null variant, a
/// sequence element by element, and a mapping entry by entry with the last
/// value of a repeated name winning.
pub open spec fn decoded_as(j: JsonValue, v: Value) -> bool
    decreases j,
{
    match j {
        JsonValue::Null => v.kind == Some(Kind::NullValue(0)),
        JsonValue::Bool(b) => v.kind == Some(Kind::BoolValue(b)),
        JsonValue::I64(n) => v.kind == Some(Kind::NumberValue(double_of_integer(n as int))),
        JsonValue::U64(n) => v.kind == Some(Kind::NumberValue(double_of_integer(n as int))),
        JsonValue::F64(b) => v.kind == Some(Kind::NumberValue(b)),
        JsonValue::Str(t) => v.kind matches Some(Kind::StringValue(s)) && s@ == t.text@,
        JsonValue::Array(items) => v.kind matches Some(Kind::ListValue(l)) && l.values@.len() == items@.len()
            && forall|i: int| 0 <= i < items@.len() ==> decoded_as(#[trigger] items@[i], l.values@[i]),
        JsonValue::Object(entries) => v.kind matches Some(Kind::StructValue(st)) && exists|kvs: Seq<(String, Value)>|
            kvs.len() == entries@.len() && (forall|i: int| 0 <= i < entries@.len() ==> (#[trigger] kvs[i]).0 == entries@[i].0.text
                && decoded_as(entries@[i].1, kvs[i].1)) && st.fields@ == upsert_all(kvs),
    }
}

/// What encoding `v` gives: the token of its variant, a struct as a
/// mapping and a list as a sequence; no variant set, or a number that is
/// not finite, fails with `InvalidUnion`, and so does a struct or list
/// that holds such a value.
pub open spec fn value_encodes(v: Value, r: Result<JsonValue, CodecError>) -> bool
    decreases v,
{
    match v.kind {
        None => r == Err::<JsonValue, CodecError>(CodecError::InvalidUnion),
        Some(Kind::NullValue(_)) => r == Ok::<JsonValue, CodecError>(JsonValue::Null),
        Some(Kind::NumberValue(b)) => if is_finite(b) {
            r == Ok::<JsonValue, CodecError>(JsonValue::F64(b))
        } else {
            r == Err::<JsonValue, CodecError>(CodecError::InvalidUnion)
        },
        Some(Kind::StringValue(s)) => r matches Ok(JsonValue::Str(t)) && t.text@ == s@ && t.float is None,
        Some(Kind::BoolValue(b)) => r == Ok::<JsonValue, CodecError>(JsonValue::Bool(b)),
        Some(Kind::StructValue(st)) => match r {
            Ok(JsonValue::Object(es)) => es@.len() == st.fields@.len() && forall|i: int|
                0 <= i < st.fields@.len() ==> (#[trigger] es@[i]).0.text@ == st.fields@[i].0@ && es@[i].0.float is None
                    && value_encodes(st.fields@[i].1, Ok(es@[i].1)),
            Ok(_) => false,
            Err(e) => exists|k: int| 0 <= k < st.fields@.len() && value_encodes((#[trigger] st.fields@[k]).1, Err(e)),
        },
        Some(Kind::ListValue(l)) => match r {
            Ok(JsonValue::Array(items)) => items@.len() == l.values@.len() && forall|i: int|
                0 <= i < l.values@.len() ==> value_encodes(#[trigger] l.values@[i], Ok(items@[i])),
            Ok(_) => false,
            Err(e) => exists|k: int| 0 <= k < l.values@.len() && value_encodes(#[trigger] l.values@[k], Err(e)),
        },
    }
}

/// Decodes a dynamic value; every token decodes.
pub fn decode_value(j: &JsonValue) -> (v: Value)
    ensures
        decoded_as(*j, v),
        value_wf(v),
    decreases j,
{
    match j {
        JsonValue::Null => Value { kind: Some(Kind::NullValue(0)) },
        JsonValue::Bool(b) => Value { kind: Some(Kind::BoolValue(*b)) },
        JsonValue::I64(n) => Value { kind: Some(Kind::NumberValue(i64_to_double(*n))) },
        JsonValue::U64(n) => Value { kind: Some(Kind::NumberValue(u64_to_double(*n))) },
        JsonValue::F64(b) => Value { kind: Some(Kind::NumberValue(*b)) },
        JsonValue::Str(t) => Value { kind: Some(Kind::StringValue(t.text.clone())) },
        JsonValue::Array(items) => {
            let mut values: Vec<Value> = Vec::new();
            let mut i: usize = 0;
            while i < items.len()
                invariant
                    *j == JsonValue::Array(*items),
                    i <= items@.len(),
                    values@.len() == i,
                    forall|k: int| 0 <= k < i ==> decoded_as(#[trigger] items@[k], values@[k]) && value_wf(values@[k]),
                decreases items@.len() - i,
            {
                assert(decreases_to!(*j => (*j)->Array_0));
                assert(decreases_to!(*items => items[i as int]));
                let v = decode_value(&items[i]);
                values.push(v);
                i = i + 1;
            }
            assert forall|k: int| 0 <= k < values@.len() implies value_wf(#[trigger] values@[k]) by {
                assert(decoded_as(items@[k], values@[k]));
            }
            let l = ListValue { values };
            Value { kind: Some(Kind::ListValue(l)) }
        },
        JsonValue::Object(entries) => {
            let mut fields: Vec<(String, Value)> = Vec::new();
            let ghost mut kvs: Seq<(String, Value)> = Seq::empty();
            let mut i: usize = 0;
            while i < entries.len()
                invariant
                    *j == JsonValue::Object(*entries),
                    i <= entries@.len(),
                    kvs.len() == i,
                    forall|k: int| 0 <= k < i ==> (#[trigger] kvs[k]).0 == entries@[k].0.text
                        && decoded_as(entries@[k].1, kvs[k].1) && value_wf(kvs[k].1),
                    fields@ == upsert_all(kvs),
                decreases entries@.len() - i,
            {
                assert(decreases_to!(*j => (*j)->Object_0));
                assert(decreases_to!(*entries => entries[i as int]));
                assert(decreases_to!(entries[i as int] => entries[i as int].1));
                let v = decode_value(&entries[i].1);
                let key = entries[i].0.text.clone();
                let ghost kv = (key, v);
                proof {
                    assert(kvs.push(kv).drop_last() =~= kvs);
                    kvs = kvs.push(kv);
                }
                insert_entry(&mut fields, key, v);
                i = i + 1;
            }
            proof {
                lemma_upsert_all_distinct_keys(kvs, |x: Value| value_wf(x));
            }
            let st = Struct { fields };
            assert(st.wf());
            assert(forall|i: int| 0 <= i < st.fields@.len() ==> value_wf((#[trigger] st.fields@[i]).1));
            Value { kind: Some(Kind::StructValue(st)) }
        },
    }
}

/// Encodes a dynamic value.
pub fn encode_value(v: &Value) -> (r: Result<JsonValue, CodecError>)
    ensures
        value_encodes(*v, r),
    decreases v,
{
    match &v.kind {
        None => Err(CodecError::InvalidUnion),
        Some(Kind::NullValue(_)) => Ok(JsonValue::Null),
        Some(Kind::NumberValue(b)) => if is_finite_bits(*b) {
            Ok(JsonValue::F64(*b))
        } else {
            Err(CodecError::InvalidUnion)
        },
        Some(Kind::StringValue(s)) => Ok(JsonValue::Str(JsonText::new(s.clone()))),
        Some(Kind::BoolValue(b)) => Ok(JsonValue::Bool(*b)),
        Some(Kind::StructValue(st)) => {
            let mut es: Vec<(JsonText, JsonValue)> = Vec::new();
            let mut i: usize = 0;
            while i < st.fields.len()
                invariant
                    v.kind == Some(Kind::StructValue(*st)),
                    i <= st.fields@.len(),
                    es@.len() == i,
                    forall|k: int| 0 <= k < i ==> (#[trigger] es@[k]).0.text@ == st.fields@[k].0@ && es@[k].0.float is None
                        && value_encodes(st.fields@[k].1, Ok(es@[k].1)),
                decreases st.fields@.len() - i,
            {
                assert(decreases_to!(*v => v.kind));
                assert(decreases_to!(v.kind => v.kind->0));
                assert(decreases_to!(v.kind->0 => v.kind->0->StructValue_0));
                assert(decreases_to!(*st => st.fields));
                assert(decreases_to!(st.fields => st.fields[i as int]));
                assert(decreases_to!(st.fields[i as int] => st.fields[i as int].1));
                match encode_value(&st.fields[i].1) {
                    Ok(t) => es.push((JsonText::new(st.fields[i].0.clone()), t)),
                    Err(e) => {
                        assert(value_encodes(st.fields@[i as int].1, Err(e)));
                        assert(exists|k: int| 0 <= k < st.fields@.len() && value_encodes((#[trigger] st.fields@[k]).1, Err(e)));
                        assert(value_encodes(*v, Err(e)));
                        return Err(e);
                    },
                }
                i = i + 1;
            }
            Ok(JsonValue::Object(es))
        },
        Some(Kind::ListValue(l)) => {
            let mut items: Vec<JsonValue> = Vec::new();
            let mut i: usize = 0;
            while i < l.values.len()
                invariant
                    v.kind == Some(Kind::ListValue(*l)),
                    i <= l.values@.len(),
                    items@.len() == i,
                    forall|k: int| 0 <= k < i ==> value_encodes(#[trigger] l.values@[k], Ok(items@[k])),
                decreases l.values@.len() - i,
            {
                assert(decreases_to!(*v => v.kind));
                assert(decreases_to!(v.kind => v.kind->0));
                assert(decreases_to!(v.kind->0 => v.kind->0->ListValue_0));
                assert(decreases_to!(*l => l.values));
                assert(decreases_to!(l.values => l.values[i as int]));
                match encode_value(&l.values[i]) {
                    Ok(t) => items.push(t),
                    Err(e) => {
                        assert(value_encodes(l.values@[i as int], Err(e)));
                        assert(exists|k: int| 0 <= k < l.values@.len() && value_encodes(#[trigger] l.values@[k], Err(e)));
                        assert(value_encodes(*v, Err(e)));
                        return Err(e);
                    },
                }
                i = i + 1;
            }
            Ok(JsonValue::Array(items))
        },
    }
}

impl Decode for Value {
    type Value = Value;

    open spec fn decodes(j: JsonValue, r: Result<Value, CodecError>) -> bool {
        r matches Ok(v) && decoded_as(j, v)
    }

    fn decode(j: &JsonValue) -> (r: Result<Value, CodecError>) {
        Ok(decode_value(j))
    }
}

impl SerializeMethod for Value {
    type Value = Value;

    open spec fn encodes(v: Value, r: Result<JsonValue, CodecError>) -> bool {
        value_encodes(v, r)
    }

    fn serialize(value: &Value) -> (r: Result<JsonValue, CodecError>) {
        encode_value(value)
    }
}

} // verus!
