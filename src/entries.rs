//! The generic machinery of the collection codecs: decoding and encoding a
//! sequence element by element, and a mapping entry by entry into a map
//! whose keys stay distinct, in arrival or in ascending key order.
use vstd::prelude::*;
use crate::json::{CodecError, Decode, JsonText, JsonValue, SerializeMethod};
use crate::decimal::{decimal_text, format_integer};
use crate::bool_map_key::{false_text, true_text};
use crate::text::string_from_chars;

verus! {

/// Keys of a decoded map: `same_key` says when two keys name one entry,
/// and `less` orders keys for the maps that keep them sorted.
pub trait MapKey: Sized {
    spec fn key_eq(a: Self, b: Self) -> bool;

    spec fn key_lt(a: Self, b: Self) -> bool;

    fn same_key(&self, other: &Self) -> (r: bool)
        ensures
            r == Self::key_eq(*self, *other),
    ;

    fn less(&self, other: &Self) -> (r: bool)
        ensures
            r == Self::key_lt(*self, *other),
    ;

    /// `key_lt` is a strict total order whose equal keys are those of
    /// `key_eq`.
    proof fn lemma_key_order(a: Self, b: Self, c: Self)
        ensures
            Self::key_lt(a, b) && Self::key_lt(b, c) ==> Self::key_lt(a, c),
            !Self::key_eq(a, b) && !Self::key_lt(a, b) ==> Self::key_lt(b, a),
            Self::key_eq(a, b) ==> !Self::key_lt(a, b),
    ;
}

impl MapKey for String {
    open spec fn key_eq(a: String, b: String) -> bool {
        a@ == b@
    }

    open spec fn key_lt(a: String, b: String) -> bool {
        crate::text::chars_lt(a@, b@)
    }

    fn same_key(&self, other: &String) -> (r: bool) {
        let a = crate::text::chars_of(self.as_str());
        let b = crate::text::chars_of(other.as_str());
        crate::text::chars_equal(&a, &b)
    }

    fn less(&self, other: &String) -> (r: bool) {
        let a = crate::text::chars_of(self.as_str());
        let b = crate::text::chars_of(other.as_str());
        crate::text::chars_less(&a, &b)
    }

    proof fn lemma_key_order(a: String, b: String, c: String) {
        crate::text::lemma_chars_order(a@, b@, c@);
    }
}

impl MapKey for bool {
    open spec fn key_eq(a: bool, b: bool) -> bool {
        a == b
    }

    open spec fn key_lt(a: bool, b: bool) -> bool {
        !a && b
    }

    fn same_key(&self, other: &bool) -> (r: bool) {
        *self == *other
    }

    fn less(&self, other: &bool) -> (r: bool) {
        !*self && *other
    }

    proof fn lemma_key_order(a: bool, b: bool, c: bool) {
    }
}

impl MapKey for i32 {
    open spec fn key_eq(a: i32, b: i32) -> bool {
        a == b
    }

    open spec fn key_lt(a: i32, b: i32) -> bool {
        a < b
    }

    fn same_key(&self, other: &i32) -> (r: bool) {
        *self == *other
    }

    fn less(&self, other: &i32) -> (r: bool) {
        *self < *other
    }

    proof fn lemma_key_order(a: i32, b: i32, c: i32) {
    }
}

impl MapKey for i64 {
    open spec fn key_eq(a: i64, b: i64) -> bool {
        a == b
    }

    open spec fn key_lt(a: i64, b: i64) -> bool {
        a < b
    }

    fn same_key(&self, other: &i64) -> (r: bool) {
        *self == *other
    }

    fn less(&self, other: &i64) -> (r: bool) {
        *self < *other
    }

    proof fn lemma_key_order(a: i64, b: i64, c: i64) {
    }
}

impl MapKey for u32 {
    open spec fn key_eq(a: u32, b: u32) -> bool {
        a == b
    }

    open spec fn key_lt(a: u32, b: u32) -> bool {
        a < b
    }

    fn same_key(&self, other: &u32) -> (r: bool) {
        *self == *other
    }

    fn less(&self, other: &u32) -> (r: bool) {
        *self < *other
    }

    proof fn lemma_key_order(a: u32, b: u32, c: u32) {
    }
}

impl MapKey for u64 {
    open spec fn key_eq(a: u64, b: u64) -> bool {
        a == b
    }

    open spec fn key_lt(a: u64, b: u64) -> bool {
        a < b
    }

    fn same_key(&self, other: &u64) -> (r: bool) {
        *self == *other
    }

    fn less(&self, other: &u64) -> (r: bool) {
        *self < *other
    }

    proof fn lemma_key_order(a: u64, b: u64, c: u64) {
    }
}

/// The index of the first entry of `m` whose key is `k`, or -1.
pub open spec fn key_index<K: MapKey, V>(m: Seq<(K, V)>, k: K) -> int
    decreases m.len(),
{
    if m.len() == 0 {
        -1
    } else if key_index(m.drop_last(), k) >= 0 {
        key_index(m.drop_last(), k)
    } else if K::key_eq(m.last().0, k) {
        m.len() - 1
    } else {
        -1
    }
}

/// `m` with `v` stored under `k`: in place of the value of the entry with
/// that key, else in a new entry at the end.
pub open spec fn upsert<K: MapKey, V>(m: Seq<(K, V)>, k: K, v: V) -> Seq<(K, V)> {
    let i = key_index(m, k);
    if i >= 0 {
        m.update(i, (m[i].0, v))
    } else {
        m.push((k, v))
    }
}

/// The map that storing each of `kvs` in order builds from nothing.
pub open spec fn upsert_all<K: MapKey, V>(kvs: Seq<(K, V)>) -> Seq<(K, V)>
    decreases kvs.len(),
{
    if kvs.len() == 0 {
        Seq::empty()
    } else {
        upsert(upsert_all(kvs.drop_last()), kvs.last().0, kvs.last().1)
    }
}

/// `j` decodes with `D` to some value.
pub open spec fn decodes_some<D: Decode>(j: JsonValue) -> bool {
    exists|v: D::Value| D::decodes(j, Ok(v))
}

/// `m` with `v` stored under `k`, in a map kept in ascending key order: in
/// place of the value of the entry with that key, else in a new entry
/// before the first greater key.
pub open spec fn sorted_insert<K: MapKey, V>(m: Seq<(K, V)>, k: K, v: V) -> Seq<(K, V)>
    decreases m.len(),
{
    if m.len() == 0 {
        seq![(k, v)]
    } else if K::key_eq(m[0].0, k) {
        m.update(0, (m[0].0, v))
    } else if K::key_lt(m[0].0, k) {
        seq![m[0]] + sorted_insert(m.skip(1), k, v)
    } else {
        seq![(k, v)] + m
    }
}

/// The sorted map that storing each of `kvs` in order builds from nothing.
pub open spec fn sorted_upsert_all<K: MapKey, V>(kvs: Seq<(K, V)>) -> Seq<(K, V)>
    decreases kvs.len(),
{
    if kvs.len() == 0 {
        Seq::empty()
    } else {
        sorted_insert(sorted_upsert_all(kvs.drop_last()), kvs.last().0, kvs.last().1)
    }
}

/// The map that storing each of `kvs` builds: in ascending key order where
/// `sorted`, else in the order in which each key first came.
pub open spec fn build_map<K: MapKey, V>(kvs: Seq<(K, V)>, sorted: bool) -> Seq<(K, V)> {
    if sorted {
        sorted_upsert_all(kvs)
    } else {
        upsert_all(kvs)
    }
}

/// The keys of `m` are strictly ascending.
pub open spec fn keys_ascending<K: MapKey, V>(m: Seq<(K, V)>) -> bool {
    forall|i: int, j: int| 0 <= i < j < m.len() ==> K::key_lt(#[trigger] m[i].0, #[trigger] m[j].0)
}

/// Decoding each of `items` in order with `D`: the values, or the failure
/// of the first item that fails.
pub open spec fn decodes_all<D: Decode>(items: Seq<JsonValue>, r: Result<Seq<D::Value>, CodecError>) -> bool {
    match r {
        Ok(vs) => vs.len() == items.len() && forall|i: int|
            0 <= i < items.len() ==> D::decodes(#[trigger] items[i], Ok(vs[i])),
        Err(e) => exists|k: int|
            0 <= k < items.len() && D::decodes(#[trigger] items[k], Err(e)) && forall|i: int|
                0 <= i < k ==> decodes_some::<D>(#[trigger] items[i]),
    }
}

/// The entry decodes: its key through `K` (as a JSON string), its value
/// through `V`.
pub open spec fn entry_decodes<K: Decode, V: Decode>(e: (JsonText, JsonValue), kv: (K::Value, V::Value)) -> bool {
    K::decodes(JsonValue::Str(e.0), Ok(kv.0)) && V::decodes(e.1, Ok(kv.1))
}

/// The entry decodes to some key and value.
pub open spec fn entry_decodes_some<K: Decode, V: Decode>(e: (JsonText, JsonValue)) -> bool {
    exists|kv: (K::Value, V::Value)| entry_decodes::<K, V>(e, kv)
}

/// The entry fails with `err`: its key, or else its value.
pub open spec fn entry_fails<K: Decode, V: Decode>(e: (JsonText, JsonValue), err: CodecError) -> bool {
    K::decodes(JsonValue::Str(e.0), Err(err)) || exists|k: K::Value|
        K::decodes(JsonValue::Str(e.0), Ok(k)) && V::decodes(e.1, Err(err))
}

/// Decoding the entries of a mapping in order: the map they build, keys
/// kept distinct with the last value of a key winning and in ascending
/// order where `sorted`, or the failure of the first entry that fails.
pub open spec fn decodes_entries<K: Decode, V: Decode>(
    entries: Seq<(JsonText, JsonValue)>,
    r: Result<Seq<(K::Value, V::Value)>, CodecError>,
    sorted: bool,
) -> bool where K::Value: MapKey {
    match r {
        Ok(m) => exists|kvs: Seq<(K::Value, V::Value)>|
            kvs.len() == entries.len() && (forall|i: int|
                0 <= i < entries.len() ==> entry_decodes::<K, V>(#[trigger] entries[i], kvs[i])) && m
                == build_map(kvs, sorted),
        Err(err) => exists|k: int|
            0 <= k < entries.len() && entry_fails::<K, V>(#[trigger] entries[k], err) && forall|i: int|
                0 <= i < k ==> entry_decodes_some::<K, V>(#[trigger] entries[i]),
    }
}

/// `v` encodes with `S` to some token.
pub open spec fn encodes_some<S: SerializeMethod>(v: S::Value) -> bool {
    exists|j: JsonValue| S::encodes(v, Ok(j))
}

/// Encoding each of `vs` in order with `S`: a JSON sequence of the
/// results, or the failure of the first value that fails.
pub open spec fn encodes_all<S: SerializeMethod>(vs: Seq<S::Value>, r: Result<JsonValue, CodecError>) -> bool {
    match r {
        Ok(JsonValue::Array(items)) => items@.len() == vs.len() && forall|i: int|
            0 <= i < vs.len() ==> S::encodes(#[trigger] vs[i], Ok(items@[i])),
        Ok(_) => false,
        Err(e) => exists|k: int|
            0 <= k < vs.len() && S::encodes(#[trigger] vs[k], Err(e)) && forall|i: int|
                0 <= i < k ==> encodes_some::<S>(#[trigger] vs[i]),
    }
}

/// A map key written as the token `j` stands in the mapping as the string
/// `t`: a string as itself, an integer as its decimal text, a boolean as
/// `"true"` or `"false"`, since map keys are always JSON strings.
pub open spec fn key_written(j: JsonValue, t: JsonText) -> bool {
    match j {
        JsonValue::Str(s) => t == s,
        JsonValue::I64(v) => t.text@ == decimal_text(v as int) && t.float is None,
        JsonValue::U64(v) => t.text@ == decimal_text(v as int) && t.float is None,
        JsonValue::Bool(b) => t.text@ == (if b { true_text() } else { false_text() }) && t.float is None,
        _ => false,
    }
}

/// The token can stand as a map key.
pub open spec fn key_writable(j: JsonValue) -> bool {
    j is Str || j is I64 || j is U64 || j is Bool
}

/// The entry encodes: its key through `K` to a token written as the
/// string of the entry, its value through `V`.
pub open spec fn entry_encodes<K: SerializeMethod, V: SerializeMethod>(kv: (K::Value, V::Value), e: (JsonText, JsonValue)) -> bool {
    (exists|j: JsonValue| K::encodes(kv.0, Ok(j)) && key_written(j, e.0)) && V::encodes(kv.1, Ok(e.1))
}

/// The entry encodes to some key and value.
pub open spec fn entry_encodes_some<K: SerializeMethod, V: SerializeMethod>(kv: (K::Value, V::Value)) -> bool {
    exists|e: (JsonText, JsonValue)| entry_encodes::<K, V>(kv, e)
}

/// The entry fails with `err`: its key fails, or gives a token that cannot
/// stand as a key (`TypeMismatch`), or else its value fails.
pub open spec fn entry_encode_fails<K: SerializeMethod, V: SerializeMethod>(kv: (K::Value, V::Value), err: CodecError) -> bool {
    K::encodes(kv.0, Err(err))
        || (err == CodecError::TypeMismatch && exists|j: JsonValue| !key_writable(j) && K::encodes(kv.0, Ok(j)))
        || exists|j: JsonValue| key_writable(j) && K::encodes(kv.0, Ok(j)) && V::encodes(kv.1, Err(err))
}

/// Encoding the entries of a map in order: a JSON mapping with a string key
/// per entry, or the failure of the first entry that fails.
pub open spec fn encodes_entries<K: SerializeMethod, V: SerializeMethod>(
    m: Seq<(K::Value, V::Value)>,
    r: Result<JsonValue, CodecError>,
) -> bool {
    match r {
        Ok(JsonValue::Object(es)) => es@.len() == m.len() && forall|i: int|
            0 <= i < m.len() ==> entry_encodes::<K, V>(#[trigger] m[i], es@[i]),
        Ok(_) => false,
        Err(err) => exists|k: int|
            0 <= k < m.len() && entry_encode_fails::<K, V>(#[trigger] m[k], err) && forall|i: int|
                0 <= i < k ==> entry_encodes_some::<K, V>(#[trigger] m[i]),
    }
}

/// What a decode into a `Vec` gives, over its view.
pub open spec fn seq_result<T>(r: Result<Vec<T>, CodecError>) -> Result<Seq<T>, CodecError> {
    match r {
        Ok(v) => Ok(v@),
        Err(e) => Err(e),
    }
}

/// Decoding a repeated field: a JSON sequence element by element, or `null`
/// for no elements.
pub open spec fn decodes_list<D: Decode>(j: JsonValue, r: Result<Seq<D::Value>, CodecError>) -> bool {
    match j {
        JsonValue::Array(items) => decodes_all::<D>(items@, r),
        JsonValue::Null => r == Ok::<Seq<D::Value>, CodecError>(Seq::empty()),
        _ => r == Err::<Seq<D::Value>, CodecError>(CodecError::TypeMismatch),
    }
}

/// Decoding a map field: a JSON mapping entry by entry, or `null` for no
/// entries.
pub open spec fn decodes_map<K: Decode, V: Decode>(
    j: JsonValue,
    r: Result<Seq<(K::Value, V::Value)>, CodecError>,
    sorted: bool,
) -> bool
    where K::Value: MapKey
{
    match j {
        JsonValue::Object(entries) => decodes_entries::<K, V>(entries@, r, sorted),
        JsonValue::Null => r == Ok::<Seq<(K::Value, V::Value)>, CodecError>(Seq::empty()),
        _ => r == Err::<Seq<(K::Value, V::Value)>, CodecError>(CodecError::TypeMismatch),
    }
}

/// Decodes a repeated field with `D`.
pub fn decode_list<D: Decode>(j: &JsonValue) -> (r: Result<Vec<D::Value>, CodecError>)
    ensures
        decodes_list::<D>(*j, seq_result(r)),
{
    match j {
        JsonValue::Array(items) => {
            let mut res: Vec<D::Value> = Vec::new();
            let mut i: usize = 0;
            while i < items.len()
                invariant
                    *j == JsonValue::Array(*items),
                    i <= items@.len(),
                    res@.len() == i,
                    forall|k: int| 0 <= k < i ==> D::decodes(#[trigger] items@[k], Ok(res@[k])),
                decreases items@.len() - i,
            {
                match D::decode(&items[i]) {
                    Ok(v) => res.push(v),
                    Err(e) => {
                        assert forall|k: int| 0 <= k < i implies decodes_some::<D>(#[trigger] items@[k]) by {
                            assert(D::decodes(items@[k], Ok(res@[k])));
                        }
                        assert(D::decodes(items@[i as int], Err(e)));
                        assert(decodes_all::<D>(items@, Err(e)));
                        let r: Result<Vec<D::Value>, CodecError> = Err(e);
                        assert(seq_result(r) == Err::<Seq<D::Value>, CodecError>(e));

                        return r;
                    },
                }
                i = i + 1;
            }
            Ok(res)
        },
        JsonValue::Null => {
            let res: Vec<D::Value> = Vec::new();
            assert(res@ =~= Seq::<D::Value>::empty());
            Ok(res)
        },
        _ => Err(CodecError::TypeMismatch),
    }
}

pub proof fn lemma_key_index_none<K: MapKey, V>(m: Seq<(K, V)>, k: K)
    requires
        forall|j: int| 0 <= j < m.len() ==> !K::key_eq(#[trigger] m[j].0, k),
    ensures
        key_index(m, k) == -1,
    decreases m.len(),
{
    if m.len() > 0 {
        assert forall|j: int| 0 <= j < m.drop_last().len() implies !K::key_eq(#[trigger] m.drop_last()[j].0, k) by {
            assert(m.drop_last()[j] == m[j]);
        }
        lemma_key_index_none(m.drop_last(), k);
    }
}

proof fn lemma_key_index_first<K: MapKey, V>(m: Seq<(K, V)>, k: K, i: int)
    requires
        0 <= i < m.len(),
        K::key_eq(m[i].0, k),
        forall|j: int| 0 <= j < i ==> !K::key_eq(#[trigger] m[j].0, k),
    ensures
        key_index(m, k) == i,
    decreases m.len(),
{
    let d = m.drop_last();
    if i == m.len() - 1 {
        assert forall|j: int| 0 <= j < d.len() implies !K::key_eq(#[trigger] d[j].0, k) by {
            assert(d[j] == m[j]);
        }
        lemma_key_index_none(d, k);
    } else {
        assert(d[i] == m[i]);
        assert forall|j: int| 0 <= j < i implies !K::key_eq(#[trigger] d[j].0, k) by {
            assert(d[j] == m[j]);
        }
        lemma_key_index_first(d, k, i);
    }
}

/// Storing entries with distinct keys in order builds exactly those
/// entries.
pub proof fn lemma_upsert_all_distinct<K: MapKey, V>(kvs: Seq<(K, V)>)
    requires
        forall|i: int, j: int| 0 <= i < j < kvs.len() ==> !K::key_eq(#[trigger] kvs[i].0, #[trigger] kvs[j].0),
    ensures
        upsert_all(kvs) == kvs,
    decreases kvs.len(),
{
    if kvs.len() > 0 {
        let d = kvs.drop_last();
        assert forall|i: int, j: int| 0 <= i < j < d.len() implies !K::key_eq(#[trigger] d[i].0, #[trigger] d[j].0) by {
            assert(d[i] == kvs[i] && d[j] == kvs[j]);
        }
        lemma_upsert_all_distinct(d);
        assert forall|i: int| 0 <= i < d.len() implies !K::key_eq(#[trigger] d[i].0, kvs.last().0) by {
            assert(d[i] == kvs[i]);
            assert(kvs.last() == kvs[kvs.len() - 1]);
        }
        lemma_key_index_none(d, kvs.last().0);
        assert(d.push(kvs.last()) =~= kvs);
    }
}

proof fn lemma_sorted_insert_prefix<K: MapKey, V>(m: Seq<(K, V)>, k: K, v: V, i: int)
    requires
        0 <= i <= m.len(),
        forall|j: int| 0 <= j < i ==> !K::key_eq(#[trigger] m[j].0, k) && K::key_lt(m[j].0, k),
    ensures
        sorted_insert(m, k, v) == m.subrange(0, i) + sorted_insert(m.subrange(i, m.len() as int), k, v),
    decreases i,
{
    if i == 0 {
        assert(m.subrange(0, m.len() as int) =~= m);
        assert(m.subrange(0, 0) + sorted_insert(m, k, v) =~= sorted_insert(m, k, v));
    } else {
        let t = m.skip(1);
        assert forall|j: int| 0 <= j < i - 1 implies !K::key_eq(#[trigger] t[j].0, k) && K::key_lt(t[j].0, k) by {
            assert(t[j] == m[j + 1]);
        }
        lemma_sorted_insert_prefix(t, k, v, i - 1);
        assert(t.subrange(i - 1, t.len() as int) =~= m.subrange(i, m.len() as int));
        assert(seq![m[0]] + t.subrange(0, i - 1) =~= m.subrange(0, i));
        assert(!K::key_eq(m[0].0, k) && K::key_lt(m[0].0, k));
    }
}

proof fn lemma_sorted_insert_lower_bound<K: MapKey, V>(m: Seq<(K, V)>, k: K, v: V, a: K)
    requires
        K::key_lt(a, k),
        forall|j: int| 0 <= j < m.len() ==> K::key_lt(a, #[trigger] m[j].0),
    ensures
        forall|j: int| 0 <= j < sorted_insert(m, k, v).len() ==> K::key_lt(a, #[trigger] sorted_insert(m, k, v)[j].0),
    decreases m.len(),
{
    let r = sorted_insert(m, k, v);
    if m.len() > 0 && !K::key_eq(m[0].0, k) && K::key_lt(m[0].0, k) {
        let t = m.skip(1);
        assert forall|j: int| 0 <= j < t.len() implies K::key_lt(a, #[trigger] t[j].0) by {
            assert(t[j] == m[j + 1]);
        }
        lemma_sorted_insert_lower_bound(t, k, v, a);
        assert forall|j: int| 0 <= j < r.len() implies K::key_lt(a, #[trigger] r[j].0) by {
            if j > 0 {
                assert(r[j] == sorted_insert(t, k, v)[j - 1]);
            }
        }
    } else if m.len() > 0 && K::key_eq(m[0].0, k) {
        assert forall|j: int| 0 <= j < r.len() implies K::key_lt(a, #[trigger] r[j].0) by {
            assert(r[j].0 == m[j].0);
        }
    } else if m.len() > 0 {
        assert forall|j: int| 0 <= j < r.len() implies K::key_lt(a, #[trigger] r[j].0) by {
            if j > 0 {
                assert(r[j] == m[j - 1]);
            }
        }
    }
}

/// Storing an entry keeps the keys of a sorted map ascending.
pub proof fn lemma_sorted_insert_ascending<K: MapKey, V>(m: Seq<(K, V)>, k: K, v: V)
    requires
        keys_ascending(m),
    ensures
        keys_ascending(sorted_insert(m, k, v)),
    decreases m.len(),
{
    let r = sorted_insert(m, k, v);
    if m.len() == 0 {
    } else if K::key_eq(m[0].0, k) {
        assert forall|i: int, j: int| 0 <= i < j < r.len() implies K::key_lt(#[trigger] r[i].0, #[trigger] r[j].0) by {
            assert(r[i].0 == m[i].0 && r[j].0 == m[j].0);
        }
    } else if K::key_lt(m[0].0, k) {
        let t = m.skip(1);
        assert forall|i: int, j: int| 0 <= i < j < t.len() implies K::key_lt(#[trigger] t[i].0, #[trigger] t[j].0) by {
            assert(t[i] == m[i + 1] && t[j] == m[j + 1]);
        }
        assert forall|j: int| 0 <= j < t.len() implies K::key_lt(m[0].0, #[trigger] t[j].0) by {
            assert(t[j] == m[j + 1]);
        }
        lemma_sorted_insert_ascending(t, k, v);
        lemma_sorted_insert_lower_bound(t, k, v, m[0].0);
        let rt = sorted_insert(t, k, v);
        assert forall|i: int, j: int| 0 <= i < j < r.len() implies K::key_lt(#[trigger] r[i].0, #[trigger] r[j].0) by {
            assert(r[j] == rt[j - 1]);
            if i > 0 {
                assert(r[i] == rt[i - 1]);
            }
        }
    } else {
        K::lemma_key_order(m[0].0, k, m[0].0);
        assert forall|i: int, j: int| 0 <= i < j < r.len() implies K::key_lt(#[trigger] r[i].0, #[trigger] r[j].0) by {
            assert(r[j] == m[j - 1]);
            if i > 0 {
                assert(r[i] == m[i - 1]);
            } else if j > 1 {
                K::lemma_key_order(k, m[0].0, m[j - 1].0);
            }
        }
    }
}

/// Stores `v` under `k` in the map `m`, kept in ascending key order.
pub fn insert_sorted<K: MapKey, V>(m: &mut Vec<(K, V)>, k: K, v: V)
    ensures
        final(m)@ == sorted_insert(old(m)@, k, v),
{
    let mut i: usize = 0;
    while i < m.len()
        invariant
            i <= m@.len(),
            m@ == old(m)@,
            forall|j: int| 0 <= j < i ==> !K::key_eq(#[trigger] m@[j].0, k) && K::key_lt(m@[j].0, k),
        decreases m@.len() - i,
    {
        let same = m[i].0.same_key(&k);
        let below = m[i].0.less(&k);
        if same || !below {
            proof {
                lemma_sorted_insert_prefix(m@, k, v, i as int);
                let rest = m@.subrange(i as int, m@.len() as int);
                assert(rest[0] == m@[i as int]);
            }
            if same {
                let (old_key, _old_value) = m.remove(i);
                m.insert(i, (old_key, v));
                proof {
                    let rest = old(m)@.subrange(i as int, old(m)@.len() as int);
                    assert(m@ =~= old(m)@.subrange(0, i as int) + rest.update(0, (rest[0].0, v)));
                }
            } else {
                m.insert(i, (k, v));
                proof {
                    let rest = old(m)@.subrange(i as int, old(m)@.len() as int);
                    assert(m@ =~= old(m)@.subrange(0, i as int) + (seq![(k, v)] + rest));
                }
            }
            return;
        }
        i = i + 1;
    }
    proof {
        lemma_sorted_insert_prefix(m@, k, v, i as int);
        assert(m@.subrange(i as int, m@.len() as int) =~= Seq::<(K, V)>::empty());
        assert(m@.subrange(0, i as int) =~= m@);
    }
    m.push((k, v));
    assert(m@ =~= old(m)@ + seq![(k, v)]);
}

proof fn lemma_key_index_range<K: MapKey, V>(m: Seq<(K, V)>, k: K)
    ensures
        -1 <= key_index(m, k) < m.len(),
        key_index(m, k) == -1 ==> forall|j: int| 0 <= j < m.len() ==> !K::key_eq(#[trigger] m[j].0, k),
    decreases m.len(),
{
    if m.len() > 0 {
        let d = m.drop_last();
        lemma_key_index_range(d, k);
        if key_index(m, k) == -1 {
            assert forall|j: int| 0 <= j < m.len() implies !K::key_eq(#[trigger] m[j].0, k) by {
                if j < m.len() - 1 {
                    assert(m[j] == d[j]);
                }
            }
        }
    }
}

/// A map built by storing entries has distinct keys, and each of its values
/// is one of the values stored, so a property of them all holds of it.
pub proof fn lemma_upsert_all_distinct_keys<K: MapKey, V>(kvs: Seq<(K, V)>, p: spec_fn(V) -> bool)
    requires
        forall|i: int| 0 <= i < kvs.len() ==> p(#[trigger] kvs[i].1),
    ensures
        forall|i: int, j: int| 0 <= i < j < upsert_all(kvs).len() ==> !K::key_eq(#[trigger] upsert_all(kvs)[i].0, #[trigger] upsert_all(kvs)[j].0),
        forall|i: int| 0 <= i < upsert_all(kvs).len() ==> p(#[trigger] upsert_all(kvs)[i].1),
    decreases kvs.len(),
{
    if kvs.len() > 0 {
        let d = kvs.drop_last();
        assert forall|i: int| 0 <= i < d.len() implies p(#[trigger] d[i].1) by {
            assert(d[i] == kvs[i]);
        }
        lemma_upsert_all_distinct_keys(d, p);
        let m = upsert_all(d);
        let (k, v) = (kvs.last().0, kvs.last().1);
        assert(p(kvs[kvs.len() - 1].1));
        lemma_key_index_range(m, k);
        let r = upsert_all(kvs);
        assert(r == upsert(m, k, v));
        let idx = key_index(m, k);
        if idx >= 0 {
            assert forall|i: int, j: int| 0 <= i < j < r.len() implies !K::key_eq(#[trigger] r[i].0, #[trigger] r[j].0) by {
                assert(r[i].0 == m[i].0 && r[j].0 == m[j].0);
            }
            assert forall|i: int| 0 <= i < r.len() implies p(#[trigger] r[i].1) by {
                if i != idx {
                    assert(r[i] == m[i]);
                }
            }
        } else {
            assert forall|i: int, j: int| 0 <= i < j < r.len() implies !K::key_eq(#[trigger] r[i].0, #[trigger] r[j].0) by {
                assert(r[i] == m[i]);
                if j < m.len() {
                    assert(r[j] == m[j]);
                }
            }
            assert forall|i: int| 0 <= i < r.len() implies p(#[trigger] r[i].1) by {
                if i < m.len() {
                    assert(r[i] == m[i]);
                }
            }
        }
    }
}

/// Stores `v` under `k` in the map `m`.
pub fn insert_entry<K: MapKey, V>(m: &mut Vec<(K, V)>, k: K, v: V)
    ensures
        final(m)@ == upsert(old(m)@, k, v),
{
    let mut i: usize = 0;
    while i < m.len()
        invariant
            i <= m@.len(),
            m@ == old(m)@,
            forall|j: int| 0 <= j < i ==> !K::key_eq(#[trigger] m@[j].0, k),
        decreases m@.len() - i,
    {
        if m[i].0.same_key(&k) {
            proof {
                lemma_key_index_first(m@, k, i as int);
            }
            let (old_key, _old_value) = m.remove(i);
            m.insert(i, (old_key, v));
            assert(m@ =~= old(m)@.update(i as int, (old(m)@[i as int].0, v)));
            return;
        }
        i = i + 1;
    }
    proof {
        lemma_key_index_none(m@, k);
    }
    m.push((k, v));
}

/// Decodes a map field with `K` for the keys and `V` for the values.
pub fn decode_map<K: Decode, V: Decode>(j: &JsonValue, sorted: bool) -> (r: Result<Vec<(K::Value, V::Value)>, CodecError>)
    where K::Value: MapKey
    ensures
        decodes_map::<K, V>(*j, seq_result(r), sorted),
        sorted ==> (r matches Ok(m) ==> keys_ascending(m@)),
{
    match j {
        JsonValue::Object(entries) => {
            let mut res: Vec<(K::Value, V::Value)> = Vec::new();
            let ghost mut kvs: Seq<(K::Value, V::Value)> = Seq::empty();
            let mut i: usize = 0;
            while i < entries.len()
                invariant
                    *j == JsonValue::Object(*entries),
                    i <= entries@.len(),
                    kvs.len() == i,
                    forall|k: int| 0 <= k < i ==> entry_decodes::<K, V>(#[trigger] entries@[k], kvs[k]),
                    res@ == build_map(kvs, sorted),
                    sorted ==> keys_ascending(res@),
                decreases entries@.len() - i,
            {
                assert forall|k: int| 0 <= k < i implies entry_decodes_some::<K, V>(#[trigger] entries@[k]) by {
                    assert(entry_decodes::<K, V>(entries@[k], kvs[k]));
                }
                let key_token = JsonValue::Str(entries[i].0.duplicate());
                match K::decode(&key_token) {
                    Err(e) => {
                        assert(entry_fails::<K, V>(entries@[i as int], e));
                        assert(decodes_entries::<K, V>(entries@, Err(e), sorted));
                        return Err(e);
                    },
                    Ok(key) => match V::decode(&entries[i].1) {
                        Err(e) => {
                            assert(entry_fails::<K, V>(entries@[i as int], e));
                            assert(decodes_entries::<K, V>(entries@, Err(e), sorted));
                            return Err(e);
                        },
                        Ok(val) => {
                            let ghost kv = (key, val);
                            proof {
                                assert(kvs.push(kv).drop_last() =~= kvs);
                                kvs = kvs.push(kv);
                            }
                            if sorted {
                                proof {
                                    lemma_sorted_insert_ascending(res@, key, val);
                                }
                                insert_sorted(&mut res, key, val);
                            } else {
                                insert_entry(&mut res, key, val);
                            }
                        },
                    },
                }
                i = i + 1;
            }
            assert(decodes_entries::<K, V>(entries@, Ok(res@), sorted));
            Ok(res)
        },
        JsonValue::Null => {
            let res: Vec<(K::Value, V::Value)> = Vec::new();
            assert(res@ =~= Seq::<(K::Value, V::Value)>::empty());
            Ok(res)
        },
        _ => Err(CodecError::TypeMismatch),
    }
}

/// Encodes a repeated field with `S`.
pub fn encode_list<S: SerializeMethod>(vs: &[S::Value]) -> (r: Result<JsonValue, CodecError>)
    ensures
        encodes_all::<S>(vs@, r),
{
    let mut items: Vec<JsonValue> = Vec::new();
    let mut i: usize = 0;
    while i < vs.len()
        invariant
            i <= vs@.len(),
            items@.len() == i,
            forall|k: int| 0 <= k < i ==> S::encodes(#[trigger] vs@[k], Ok(items@[k])),
        decreases vs@.len() - i,
    {
        assert forall|k: int| 0 <= k < i implies encodes_some::<S>(#[trigger] vs@[k]) by {
            assert(S::encodes(vs@[k], Ok(items@[k])));
        }
        match S::serialize(&vs[i]) {
            Ok(t) => items.push(t),
            Err(e) => {
                assert(S::encodes(vs@[i as int], Err(e)));
                return Err(e);
            },
        }
        i = i + 1;
    }
    Ok(JsonValue::Array(items))
}

/// Encodes a map field with `K` for the keys, which must give strings, and
/// `V` for the values.
/// The string that the key token `j` stands as in a mapping, or `None`
/// where no key can be written so.
pub fn write_key(j: JsonValue) -> (r: Option<JsonText>)
    ensures
        match r {
            Some(t) => key_writable(j) && key_written(j, t),
            None => !key_writable(j),
        },
{
    match j {
        JsonValue::Str(t) => Some(t),
        JsonValue::I64(v) => {
            let digits = format_integer(v as i128);
            Some(JsonText::new(string_from_chars(&digits)))
        },
        JsonValue::U64(v) => {
            let digits = format_integer(v as i128);
            Some(JsonText::new(string_from_chars(&digits)))
        },
        JsonValue::Bool(b) => {
            proof {
                reveal_strlit("true");
                reveal_strlit("false");
            }
            let text = if b { String::from_str("true") } else { String::from_str("false") };
            assert(text@ =~= (if b { true_text() } else { false_text() }));
            Some(JsonText::new(text))
        },
        _ => None,
    }
}

/// Encodes a map field with `K` for the keys, each written as a JSON
/// string, and `V` for the values.
pub fn encode_map<K: SerializeMethod, V: SerializeMethod>(m: &[(K::Value, V::Value)]) -> (r: Result<JsonValue, CodecError>)
    ensures
        encodes_entries::<K, V>(m@, r),
{
    let mut es: Vec<(JsonText, JsonValue)> = Vec::new();
    let mut i: usize = 0;
    while i < m.len()
        invariant
            i <= m@.len(),
            es@.len() == i,
            forall|k: int| 0 <= k < i ==> entry_encodes::<K, V>(#[trigger] m@[k], es@[k]),
        decreases m@.len() - i,
    {
        assert forall|k: int| 0 <= k < i implies entry_encodes_some::<K, V>(#[trigger] m@[k]) by {
            assert(entry_encodes::<K, V>(m@[k], es@[k]));
        }
        match K::serialize(&m[i].0) {
            Err(e) => {
                assert(entry_encode_fails::<K, V>(m@[i as int], e));
                return Err(e);
            },
            Ok(kj) => {
                let ghost key_token = kj;
                match write_key(kj) {
                    None => {
                        assert(!key_writable(key_token) && K::encodes(m@[i as int].0, Ok(key_token)));
                        assert(entry_encode_fails::<K, V>(m@[i as int], CodecError::TypeMismatch));
                        return Err(CodecError::TypeMismatch);
                    },
                    Some(t) => match V::serialize(&m[i].1) {
                        Err(e) => {
                            assert(key_writable(key_token) && K::encodes(m@[i as int].0, Ok(key_token)));
                            assert(entry_encode_fails::<K, V>(m@[i as int], e));
                            return Err(e);
                        },
                        Ok(val) => {
                            let ghost kt = t;
                            let ghost vt = val;
                            assert(K::encodes(m@[i as int].0, Ok(key_token)) && key_written(key_token, kt));
                            assert(V::encodes(m@[i as int].1, Ok(vt)));
                            es.push((t, val));
                            assert(es@[i as int] == (kt, vt));
                            assert(K::encodes(m@[i as int].0, Ok(key_token)) && key_written(key_token, es@[i as int].0));
                            assert(exists|j: JsonValue| K::encodes(m@[i as int].0, Ok(j)) && key_written(j, es@[i as int].0));
                            assert(entry_encodes::<K, V>(m@[i as int], es@[i as int]));
                        },
                    },
                }
            },
        }
        i = i + 1;
    }
    Ok(JsonValue::Object(es))
}

} // verus!
