//! A canonical JSON codec for the scalar, enum, collection and well-known
//! types of a schema: lenient decoding of many surface forms, and one
//! canonical form on encode. Codecs read and write trees of JSON tokens
//! (`json::JsonValue`); a JSON reader and writer stand outside.
use vstd::prelude::*;
use vstd::std_specs::cmp::PartialEqSpec;

pub mod json;
pub mod decimal;
pub mod ieee;
pub mod numeric;
pub mod text;
pub mod i32;
pub mod i64;
pub mod u32;
pub mod u64;
pub mod i32_opt;
pub mod i64_opt;
pub mod u32_opt;
pub mod u64_opt;
pub mod bool;
pub mod bool_opt;
pub mod bool_map_key;
pub mod string;
pub mod string_opt;
pub mod vec_u8;
pub mod vec_u8_opt;
pub mod double;
pub mod double_opt;
pub mod enum_serde;
pub mod enum_opt;
pub mod entries;
pub mod plain;
pub mod value;
pub mod vec;
pub mod repeated;
pub mod map;
pub mod btree_map;
pub mod map_custom;
pub mod map_custom_value;
pub mod map_custom_to_custom;
pub mod btree_map_custom;
pub mod btree_map_custom_value;
pub mod btree_map_custom_to_custom;
pub mod empty;
pub mod empty_opt;
pub mod duration;
pub mod timestamp;
pub mod laws;

verus! {

/// The value equals its type's default, the test by which a caller elides a
/// field.
pub fn is_default<T: Default + PartialEq>(t: &T) -> (r: bool)
    ensures
        exists|d: T| #[trigger] call_ensures(T::default, (), d) && (T::obeys_eq_spec() ==> r == t.eq_spec(&d)),
{
    let d = T::default();
    let r = t.eq(&d);
    assert(call_ensures(T::default, (), d) && (T::obeys_eq_spec() ==> r == t.eq_spec(&d)));
    r
}

} // verus!
