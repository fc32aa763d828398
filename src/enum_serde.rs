//! The enum codec: a JSON string holding a variant's name, or a JSON number
//! holding its ordinal. An unknown name fails; a number that is no known
//! ordinal (one outside `i32` included) decodes as the enum's default, so that a value from a newer schema does not break
//! decoding.
use vstd::prelude::*;
use std::marker::PhantomData;
use crate::json::{CodecError, Decode, HasConstructor, JsonText, JsonValue, SerializeMethod};
use crate::ieee::{double_to_i64, truncated_i64};

verus! {

/// The name and ordinal lookups of an enum of the schema.
pub trait ProtoEnum {
    /// The ordinal of the variant named `name`, if any.
    spec fn ordinal_of_name(name: Seq<char>) -> Option<i32>;

    /// The name of the variant with ordinal `ordinal`, if any.
    spec fn name_of_ordinal(ordinal: i32) -> Option<Seq<char>>;

    /// The ordinal of the enum's default variant.
    spec fn default_ordinal() -> i32;

    fn from_name(name: &str) -> (r: Option<i32>)
        ensures
            r == Self::ordinal_of_name(name@),
    ;

    fn to_name(ordinal: i32) -> (r: Option<String>)
        ensures
            match r {
                Some(s) => Self::name_of_ordinal(ordinal) == Some(s@),
                None => Self::name_of_ordinal(ordinal) is None,
            },
    ;

    fn default_value() -> (r: i32)
        ensures
            r == Self::default_ordinal(),
    ;
}

/// The ordinal that a number decodes to: the number where it is a known
/// ordinal, else the enum's default.
pub open spec fn ordinal_or_default<T: ProtoEnum>(n: int) -> i32 {
    if i32::MIN <= n <= i32::MAX && T::name_of_ordinal(n as i32) is Some {
        n as i32
    } else {
        T::default_ordinal()
    }
}

/// What decoding an enum field gives, as an ordinal.
pub open spec fn decoded_enum<T: ProtoEnum>(j: JsonValue) -> Result<i32, CodecError> {
    match j {
        JsonValue::Str(t) => match T::ordinal_of_name(t.text@) {
            Some(o) => Ok(o),
            None => Err(CodecError::UnknownEnumName),
        },
        JsonValue::I64(v) => Ok(ordinal_or_default::<T>(v as int)),
        JsonValue::U64(v) => Ok(ordinal_or_default::<T>(v as int)),
        JsonValue::F64(b) => Ok(ordinal_or_default::<T>(truncated_i64(b) as int)),
        JsonValue::Null => Ok(T::default_ordinal()),
        _ => Err(CodecError::TypeMismatch),
    }
}

/// What encoding the ordinal `v` gives: its name as a JSON string.
pub open spec fn encodes_enum<T: ProtoEnum>(v: i32, r: Result<JsonValue, CodecError>) -> bool {
    match T::name_of_ordinal(v) {
        Some(name) => r matches Ok(JsonValue::Str(t)) && t.text@ == name && t.float is None,
        None => r == Err::<JsonValue, CodecError>(CodecError::UnknownEnumValue),
    }
}

fn known_or_default<T: ProtoEnum>(n: i128) -> (r: i32)
    ensures
        r == ordinal_or_default::<T>(n as int),
{
    if n < i32::MIN as i128 || n > i32::MAX as i128 {
        return T::default_value();
    }
    match T::to_name(n as i32) {
        Some(_) => n as i32,
        None => T::default_value(),
    }
}

pub struct EnumVisitor<T> {
    _type: PhantomData<T>,
}

impl<T> HasConstructor for EnumVisitor<T> {
    fn new() -> Self {
        EnumVisitor { _type: PhantomData }
    }
}

impl<T: ProtoEnum> EnumVisitor<T> {
    pub fn visit_str(&self, value: &JsonText) -> (r: Result<i32, CodecError>)
        ensures
            r == decoded_enum::<T>(JsonValue::Str(*value)),
    {
        match T::from_name(value.text.as_str()) {
            Some(o) => Ok(o),
            None => Err(CodecError::UnknownEnumName),
        }
    }

    pub fn visit_i64(&self, value: i64) -> (r: Result<i32, CodecError>)
        ensures
            r == decoded_enum::<T>(JsonValue::I64(value)),
    {
        Ok(known_or_default::<T>(value as i128))
    }

    pub fn visit_u64(&self, value: u64) -> (r: Result<i32, CodecError>)
        ensures
            r == decoded_enum::<T>(JsonValue::U64(value)),
    {
        Ok(known_or_default::<T>(value as i128))
    }

    pub fn visit_f64(&self, bits: u64) -> (r: Result<i32, CodecError>)
        ensures
            r == decoded_enum::<T>(JsonValue::F64(bits)),
    {
        self.visit_i64(double_to_i64(bits))
    }

    pub fn visit_unit(&self) -> (r: Result<i32, CodecError>)
        ensures
            r == decoded_enum::<T>(JsonValue::Null),
    {
        Ok(T::default_value())
    }
}

impl<T: ProtoEnum> Decode for EnumVisitor<T> {
    type Value = i32;

    open spec fn decodes(j: JsonValue, r: Result<i32, CodecError>) -> bool {
        r == decoded_enum::<T>(j)
    }

    fn decode(j: &JsonValue) -> (r: Result<i32, CodecError>) {
        let visitor = EnumVisitor::<T>::new();
        match j {
            JsonValue::Str(t) => visitor.visit_str(t),
            JsonValue::I64(v) => visitor.visit_i64(*v),
            JsonValue::U64(v) => visitor.visit_u64(*v),
            JsonValue::F64(b) => visitor.visit_f64(*b),
            JsonValue::Null => visitor.visit_unit(),
            _ => Err(CodecError::TypeMismatch),
        }
    }
}

/// Decodes an enum field of type `T` into its ordinal.
pub fn deserialize<T: ProtoEnum>(j: &JsonValue) -> (r: Result<i32, CodecError>)
    ensures
        r == decoded_enum::<T>(*j),
{
    EnumVisitor::<T>::decode(j)
}

/// Encodes the ordinal of an enum field of type `T` as its name.
pub fn serialize<T: ProtoEnum>(value: &i32) -> (r: Result<JsonValue, CodecError>)
    ensures
        encodes_enum::<T>(*value, r),
{
    EnumSerializer::<T>::serialize(value)
}

/// Writes an ordinal of the enum `T` as its name.
pub struct EnumSerializer<T> {
    _type: PhantomData<T>,
}

impl<T: ProtoEnum> SerializeMethod for EnumSerializer<T> {
    type Value = i32;

    open spec fn encodes(v: i32, r: Result<JsonValue, CodecError>) -> bool {
        encodes_enum::<T>(v, r)
    }

    fn serialize(value: &i32) -> (r: Result<JsonValue, CodecError>) {
        match T::to_name(*value) {
            Some(name) => Ok(JsonValue::Str(JsonText::new(name))),
            None => Err(CodecError::UnknownEnumValue),
        }
    }
}

} // verus!
