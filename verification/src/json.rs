//! A JSON value of the library's own, with its mathematical view.
use vstd::prelude::*;
#[allow(unused_imports)]
use crate::text::{chars_of, string_of};

verus! {

/// The mathematical model of a JSON value.
pub enum JsonV {
    Null,
    Bool(bool),
    Number(Seq<char>),
    Str(Seq<char>),
    Array(Seq<JsonV>),
    Object(Seq<(Seq<char>, JsonV)>),
}

/// A JSON value. Numbers are kept as the decimal text that JSON gives them;
/// an object keeps its entries in order.
#[derive(Debug, PartialEq)]
pub enum Json {
    Null,
    Bool(bool),
    Number(String),
    Str(String),
    Array(Vec<Json>),
    Object(Vec<(String, Json)>),
}

pub open spec fn json_view(j: Json) -> JsonV
    decreases j,
{
    match j {
        Json::Null => JsonV::Null,
        Json::Bool(b) => JsonV::Bool(b),
        Json::Number(n) => JsonV::Number(n@),
        Json::Str(s) => JsonV::Str(s@),
        Json::Array(v) => JsonV::Array(Seq::new(v@.len(), |i: int|
            if 0 <= i < v@.len() {
                proof {
                    assert(decreases_to!(v => v@));
                    assert(decreases_to!(v@ => v@[i]));
                }
                json_view(v@[i])
            } else {
                JsonV::Null
            })),
        Json::Object(v) => JsonV::Object(Seq::new(v@.len(), |i: int|
            if 0 <= i < v@.len() {
                proof {
                    assert(decreases_to!(v => v@));
                    assert(decreases_to!(v@ => v@[i]));
                    assert(decreases_to!(v@[i] => v@[i].1));
                }
                (v@[i].0@, json_view(v@[i].1))
            } else {
                (Seq::empty(), JsonV::Null)
            })),
    }
}

impl View for Json {
    type V = JsonV;

    open spec fn view(&self) -> JsonV {
        json_view(*self)
    }
}

/// Where `key` first stands among the keys.
pub open spec fn key_index(keys: Seq<Seq<char>>, key: Seq<char>) -> Option<int>
    decreases keys.len(),
{
    if keys.len() == 0 {
        None
    } else if keys[0] == key {
        Some(0)
    } else {
        match key_index(keys.drop_first(), key) {
            Some(i) => Some(i + 1),
            None => None,
        }
    }
}

/// The keys of a sequence of entries.
pub open spec fn keys_of<V>(es: Seq<(Seq<char>, V)>) -> Seq<Seq<char>> {
    es.map_values(|e: (Seq<char>, V)| e.0)
}

/// The value held under `key` (its first entry with that key).
pub open spec fn lookup<V>(es: Seq<(Seq<char>, V)>, key: Seq<char>) -> Option<V> {
    match key_index(keys_of(es), key) {
        Some(i) => Some(es[i].1),
        None => None,
    }
}

/// The entries after setting `key` to `v`: an existing entry is replaced in place,
/// a new key is appended.
pub open spec fn obj_insert<V>(es: Seq<(Seq<char>, V)>, key: Seq<char>, v: V) -> Seq<(Seq<char>, V)> {
    match key_index(keys_of(es), key) {
        Some(i) => es.update(i, (key, v)),
        None => es.push((key, v)),
    }
}

/// The entries without the entry for `key`.
pub open spec fn obj_remove<V>(es: Seq<(Seq<char>, V)>, key: Seq<char>) -> Seq<(Seq<char>, V)> {
    match key_index(keys_of(es), key) {
        Some(i) => es.remove(i),
        None => es,
    }
}

pub proof fn lemma_key_index_bounds(keys: Seq<Seq<char>>, key: Seq<char>)
    ensures
        key_index(keys, key) matches Some(i) ==> 0 <= i < keys.len() && keys[i] == key
            && forall|j: int| 0 <= j < i ==> keys[j] != key,
        key_index(keys, key) is None ==> forall|j: int| 0 <= j < keys.len() ==> keys[j] != key,
    decreases keys.len(),
{
    if keys.len() > 0 {
        lemma_key_index_bounds(keys.drop_first(), key);
        if keys[0] != key {
            assert forall|j: int| 1 <= j < keys.len() implies keys[j] == keys.drop_first()[j - 1] by {}
        }
    }
}

pub proof fn lemma_key_index_char(keys: Seq<Seq<char>>, key: Seq<char>, i: int)
    requires
        0 <= i < keys.len(),
        keys[i] == key,
        forall|j: int| 0 <= j < i ==> keys[j] != key,
    ensures
        key_index(keys, key) == Some(i),
{
    lemma_key_index_bounds(keys, key);
}

pub proof fn lemma_key_index_none(keys: Seq<Seq<char>>, key: Seq<char>)
    requires
        forall|j: int| 0 <= j < keys.len() ==> keys[j] != key,
    ensures
        key_index(keys, key) is None,
{
    lemma_key_index_bounds(keys, key);
}

/// The value under a key that first stands at `i`.
pub proof fn lemma_lookup_at<V>(es: Seq<(Seq<char>, V)>, key: Seq<char>, i: int)
    requires
        0 <= i < es.len(),
        es[i].0 == key,
        forall|j: int| 0 <= j < i ==> es[j].0 != key,
    ensures
        lookup(es, key) == Some(es[i].1),
{
    let ks = keys_of(es);
    lemma_key_index_char(ks, key, i);
}

/// Setting a key makes it hold the value set.
pub proof fn lemma_lookup_insert_same<V>(es: Seq<(Seq<char>, V)>, key: Seq<char>, v: V)
    ensures
        lookup(obj_insert(es, key, v), key) == Some(v),
{
    let ks = keys_of(es);
    lemma_key_index_bounds(ks, key);
    let es2 = obj_insert(es, key, v);
    match key_index(ks, key) {
        Some(i) => {
            assert forall|j: int| 0 <= j < i implies es2[j].0 != key by {
                assert(es2[j] == es[j]);
                assert(ks[j] == es[j].0);
            }
            lemma_lookup_at(es2, key, i);
        },
        None => {
            assert forall|j: int| 0 <= j < es.len() implies es2[j].0 != key by {
                assert(es2[j] == es[j]);
                assert(ks[j] == es[j].0);
            }
            lemma_lookup_at(es2, key, es.len() as int);
        },
    }
}

/// Setting a key leaves what the other keys hold.
pub proof fn lemma_lookup_insert_other<V>(es: Seq<(Seq<char>, V)>, key: Seq<char>, v: V, other: Seq<char>)
    requires
        other != key,
    ensures
        lookup(obj_insert(es, key, v), other) == lookup(es, other),
{
    let ks = keys_of(es);
    let es2 = obj_insert(es, key, v);
    let ks2 = keys_of(es2);
    lemma_key_index_bounds(ks, key);
    lemma_key_index_bounds(ks, other);
    assert forall|j: int| 0 <= j < es.len() implies (#[trigger] ks2[j] == other) == (ks[j] == other) by {
        assert(ks2[j] == es2[j].0 && ks[j] == es[j].0);
    }
    if es2.len() > es.len() {
        assert(ks2[es.len() as int] == key);
    }
    match key_index(ks, other) {
        Some(m) => {
            lemma_key_index_char(ks2, other, m);
            assert(es2[m] == es[m]);
        },
        None => {
            lemma_key_index_none(ks2, other);
        },
    }
}

/// Removing a key leaves what the other keys hold.
pub proof fn lemma_lookup_remove_other<V>(es: Seq<(Seq<char>, V)>, key: Seq<char>, other: Seq<char>)
    requires
        other != key,
    ensures
        lookup(obj_remove(es, key), other) == lookup(es, other),
{
    let ks = keys_of(es);
    lemma_key_index_bounds(ks, key);
    lemma_key_index_bounds(ks, other);
    match key_index(ks, key) {
        Some(i) => {
            let es2 = es.remove(i);
            let ks2 = keys_of(es2);
            assert forall|j: int| 0 <= j < es2.len() implies
                #[trigger] es2[j] == (if j < i { es[j] } else { es[j + 1] }) by {}
            assert forall|j: int| 0 <= j < es.len() implies #[trigger] ks[j] == es[j].0 by {}
            assert forall|j: int| 0 <= j < es2.len() implies #[trigger] ks2[j] == es2[j].0 by {}
            match key_index(ks, other) {
                Some(m) => {
                    assert(m != i);
                    let m2 = if m < i { m } else { m - 1 };
                    assert forall|j: int| 0 <= j < m2 implies ks2[j] != other by {
                        if j < i { assert(ks2[j] == ks[j]); } else { assert(ks2[j] == ks[j + 1]); }
                    }
                    lemma_key_index_char(ks2, other, m2);
                },
                None => {
                    assert forall|j: int| 0 <= j < ks2.len() implies ks2[j] != other by {
                        if j < i { assert(ks2[j] == ks[j]); } else { assert(ks2[j] == ks[j + 1]); }
                    }
                    lemma_key_index_none(ks2, other);
                },
            }
        },
        None => {},
    }
}

/// No key stands twice among the entries.
pub open spec fn keys_distinct<V>(es: Seq<(Seq<char>, V)>) -> bool {
    forall|i: int, j: int| 0 <= i < j < es.len() ==> es[i].0 != es[j].0
}

/// Setting a key keeps the keys distinct.
pub proof fn lemma_insert_distinct<V>(es: Seq<(Seq<char>, V)>, key: Seq<char>, v: V)
    requires
        keys_distinct(es),
    ensures
        keys_distinct(obj_insert(es, key, v)),
{
    let ks = keys_of(es);
    lemma_key_index_bounds(ks, key);
    let es2 = obj_insert(es, key, v);
    assert forall|j: int| 0 <= j < es.len() implies #[trigger] ks[j] == es[j].0 by {}
    match key_index(ks, key) {
        Some(m) => {
            assert(ks[m] == es[m].0);
            assert(ks[m] == key);
            assert(0 <= m < es.len());
            assert(es2 == es.update(m, (key, v)));
            assert forall|i: int, j: int| 0 <= i < j < es2.len() implies es2[i].0 != es2[j].0 by {
                assert(es2[i].0 == es[i].0);
                assert(es2[j].0 == es[j].0);
                assert(es[i].0 != es[j].0);
            }
        },
        None => {
            assert forall|i: int, j: int| 0 <= i < j < es2.len() implies es2[i].0 != es2[j].0 by {
                if j < es.len() {
                    assert(es2[i] == es[i] && es2[j] == es[j]);
                } else {
                    assert(es2[i] == es[i]);
                    assert(es2[j].0 == key);
                    assert(ks[i] != key);
                }
            }
        },
    }
}

/// Removing a key from distinct keys leaves nothing under it.
pub proof fn lemma_remove_gone<V>(es: Seq<(Seq<char>, V)>, key: Seq<char>)
    requires
        keys_distinct(es),
    ensures
        lookup(obj_remove(es, key), key) is None,
{
    let ks = keys_of(es);
    lemma_key_index_bounds(ks, key);
    assert forall|j: int| 0 <= j < es.len() implies #[trigger] ks[j] == es[j].0 by {}
    match key_index(ks, key) {
        Some(m) => {
            let es2 = es.remove(m);
            let ks2 = keys_of(es2);
            assert forall|j: int| 0 <= j < ks2.len() implies ks2[j] != key by {
                if j < m {
                    assert(ks2[j] == es[j].0);
                } else {
                    assert(ks2[j] == es[j + 1].0);
                    assert(es[m].0 != es[j + 1].0);
                }
            }
            lemma_key_index_none(ks2, key);
        },
        None => {
            lemma_key_index_none(ks, key);
        },
    }
}

/// Removing a key that is not there changes nothing.
pub proof fn lemma_remove_absent<V>(es: Seq<(Seq<char>, V)>, key: Seq<char>)
    requires
        lookup(es, key) is None,
    ensures
        obj_remove(es, key) == es,
{
}

/// A value found under a key is part of the object it was found in.
pub proof fn lemma_lookup_decreases(es: Seq<(Seq<char>, JsonV)>, key: Seq<char>)
    ensures
        lookup(es, key) matches Some(x) ==> decreases_to!(JsonV::Object(es) => x),
{
    lemma_key_index_bounds(keys_of(es), key);
    match key_index(keys_of(es), key) {
        Some(i) => {
            let v = JsonV::Object(es);
            assert(decreases_to!(v => v->Object_0));
            assert(decreases_to!(v->Object_0 => v->Object_0[i]));
            assert(decreases_to!(v->Object_0[i] => v->Object_0[i].1));
        },
        None => {},
    }
}

/// An element of an array is part of it.
pub proof fn lemma_at_decreases(a: Seq<JsonV>, i: int)
    requires
        0 <= i < a.len(),
    ensures
        decreases_to!(JsonV::Array(a) => a[i]),
{
    let v = JsonV::Array(a);
    assert(decreases_to!(v => v->Array_0));
    assert(decreases_to!(v->Array_0 => v->Array_0[i]));
}

/// The keys of exec entries, as text.
pub open spec fn exec_keys<T>(entries: Seq<(String, T)>) -> Seq<Seq<char>> {
    entries.map_values(|e: (String, T)| e.0@)
}

pub proof fn lemma_object_keys(v: Vec<(String, Json)>)
    ensures
        keys_of(Json::Object(v)@->Object_0) == exec_keys(v@),
{
    assert(keys_of(Json::Object(v)@->Object_0) =~= exec_keys(v@));
}

/// The model of exec entries.
pub open spec fn entries_view(v: Seq<(String, Json)>) -> Seq<(Seq<char>, JsonV)> {
    v.map_values(|e: (String, Json)| (e.0@, e.1@))
}

/// The model of exec items.
pub open spec fn items_view(v: Seq<Json>) -> Seq<JsonV> {
    v.map_values(|x: Json| x@)
}

pub proof fn lemma_object_view(v: Vec<(String, Json)>)
    ensures
        Json::Object(v)@ == JsonV::Object(entries_view(v@)),
{
    assert(Json::Object(v)@->Object_0 =~= entries_view(v@));
}

pub proof fn lemma_array_view(v: Vec<Json>)
    ensures
        Json::Array(v)@ == JsonV::Array(items_view(v@)),
{
    assert(Json::Array(v)@->Array_0 =~= items_view(v@));
}

/// Appends an entry to entries under construction.
pub fn push_entry(es: &mut Vec<(String, Json)>, key: &str, value: Json)
    ensures
        entries_view(final(es)@) == entries_view(old(es)@).push((key@, value@)),
{
    let ghost before = es@;
    es.push((key.to_owned(), value));
    assert(entries_view(es@) =~= entries_view(before).push((key@, value@)));
}

/// Appends an item to items under construction.
pub fn push_item(items: &mut Vec<Json>, value: Json)
    ensures
        items_view(final(items)@) == items_view(old(items)@).push(value@),
{
    let ghost before = items@;
    items.push(value);
    assert(items_view(items@) =~= items_view(before).push(value@));
}

/// An object of the given entries.
pub fn object_of(es: Vec<(String, Json)>) -> (r: Json)
    ensures
        r@ == JsonV::Object(entries_view(es@)),
{
    proof { lemma_object_view(es); }
    Json::Object(es)
}

/// An array of the given items.
pub fn array_of(items: Vec<Json>) -> (r: Json)
    ensures
        r@ == JsonV::Array(items_view(items@)),
{
    proof { lemma_array_view(items); }
    Json::Array(items)
}

/// The value, or null where there is none.
pub open spec fn or_null(v: Option<JsonV>) -> JsonV {
    match v {
        Some(x) => x,
        None => JsonV::Null,
    }
}

impl JsonV {
    /// The value under `key` when this is an object holding it.
    pub open spec fn get(self, key: Seq<char>) -> Option<JsonV> {
        match self {
            JsonV::Object(es) => lookup(es, key),
            _ => None,
        }
    }

    pub open spec fn as_str(self) -> Option<Seq<char>> {
        match self {
            JsonV::Str(s) => Some(s),
            _ => None,
        }
    }

    pub open spec fn as_array(self) -> Option<Seq<JsonV>> {
        match self {
            JsonV::Array(a) => Some(a),
            _ => None,
        }
    }

    pub open spec fn as_object(self) -> Option<Seq<(Seq<char>, JsonV)>> {
        match self {
            JsonV::Object(es) => Some(es),
            _ => None,
        }
    }

    /// The string under `key`, when there is one.
    pub open spec fn get_str(self, key: Seq<char>) -> Option<Seq<char>> {
        match self.get(key) {
            Some(v) => v.as_str(),
            None => None,
        }
    }

    /// The array under `key`, when there is one.
    pub open spec fn get_array(self, key: Seq<char>) -> Option<Seq<JsonV>> {
        match self.get(key) {
            Some(v) => v.as_array(),
            None => None,
        }
    }

    /// The object entries under `key`, when there is an object there.
    pub open spec fn get_object(self, key: Seq<char>) -> Option<Seq<(Seq<char>, JsonV)>> {
        match self.get(key) {
            Some(v) => v.as_object(),
            None => None,
        }
    }

    pub open spec fn is_null(self) -> bool {
        self is Null
    }

    pub open spec fn as_bool(self) -> Option<bool> {
        match self {
            JsonV::Bool(b) => Some(b),
            _ => None,
        }
    }

    /// The number as an unsigned 64-bit integer: digits only, within range.
    pub open spec fn as_u64(self) -> Option<nat> {
        match self {
            JsonV::Number(t) => crate::text::parse_u64(t),
            _ => None,
        }
    }

    /// The unsigned integer under `key`, when there is one.
    pub open spec fn get_u64(self, key: Seq<char>) -> Option<nat> {
        match self.get(key) {
            Some(v) => v.as_u64(),
            None => None,
        }
    }

    /// The element at `i` when this is an array that long.
    pub open spec fn at(self, i: int) -> Option<JsonV> {
        match self {
            JsonV::Array(a) => if 0 <= i < a.len() { Some(a[i]) } else { None },
            _ => None,
        }
    }
}

/// Equality of two string slices, character by character.
pub fn str_eq(a: &str, b: &str) -> (r: bool)
    ensures
        r == (a@ == b@),
{
    let x = chars_of(a);
    let y = chars_of(b);
    crate::text::chars_eq(x.as_slice(), y.as_slice())
}

/// A copy of a string slice as an owned string.
pub fn owned(s: &str) -> (r: String)
    ensures
        r@ == s@,
{
    s.to_owned()
}

/// Where `key` first stands among the entries.
pub fn find_key<T>(entries: &Vec<(String, T)>, key: &str) -> (r: Option<usize>)
    ensures
        r matches Some(i) ==> i < entries.len() && key_index(exec_keys(entries@), key@) == Some(i as int),
        r is None ==> key_index(exec_keys(entries@), key@) is None,
{
    let ghost ks = exec_keys(entries@);
    let mut i: usize = 0;
    while i < entries.len()
        invariant
            i <= entries.len(),
            ks == exec_keys(entries@),
            forall|j: int| 0 <= j < i ==> ks[j] != key@,
        decreases entries.len() - i,
    {
        if str_eq(entries[i].0.as_str(), key) {
            proof {
                assert(ks[i as int] == entries@[i as int].0@);
                lemma_key_index_char(ks, key@, i as int);
            }
            return Some(i);
        }
        i = i + 1;
    }
    proof { lemma_key_index_none(ks, key@); }
    None
}

impl Json {
    /// A JSON string.
    pub fn str(s: &str) -> (r: Json)
        ensures
            r@ == JsonV::Str(s@),
    {
        Json::Str(owned(s))
    }

    /// A JSON string holding the given characters.
    pub fn str_of(s: &[char]) -> (r: Json)
        ensures
            r@ == JsonV::Str(s@),
    {
        Json::Str(string_of(s))
    }

    /// An empty JSON object.
    pub fn empty_object() -> (r: Json)
        ensures
            r@ == JsonV::Object(Seq::empty()),
    {
        let r = Json::Object(Vec::new());
        assert(r@->Object_0 =~= Seq::empty());
        r
    }

    /// The value under `key` when this is an object holding it.
    pub fn get(&self, key: &str) -> (r: Option<&Json>)
        ensures
            r matches Some(x) ==> self@.get(key@) == Some(x@),
            r is None ==> self@.get(key@) is None,
    {
        match self {
            Json::Object(entries) => {
                match find_key(entries, key) {
                    Some(i) => {
                        proof { lemma_object_keys(*entries); }
                        Some(&entries[i].1)
                    },
                    None => {
                        proof { lemma_object_keys(*entries); }
                        None
                    },
                }
            },
            _ => None,
        }
    }

    pub fn as_str(&self) -> (r: Option<&str>)
        ensures
            r matches Some(s) ==> self@.as_str() == Some(s@),
            r is None ==> self@.as_str() is None,
    {
        match self {
            Json::Str(s) => Some(s.as_str()),
            _ => None,
        }
    }

    pub fn as_array(&self) -> (r: Option<&Vec<Json>>)
        ensures
            r matches Some(v) ==> self@.as_array() == Some(items_view(v@)),
            r is None ==> self@.as_array() is None,
    {
        match self {
            Json::Array(v) => {
                proof { lemma_array_view(*v); }
                Some(v)
            },
            _ => None,
        }
    }

    /// The number as an unsigned 64-bit integer, when it is written as one.
    pub fn as_u64(&self) -> (r: Option<u64>)
        ensures
            r matches Some(n) ==> self@.as_u64() == Some(n as nat),
            r is None ==> self@.as_u64() is None,
    {
        match self {
            Json::Number(t) => {
                let c = chars_of(t.as_str());
                crate::text::parse_u64_exec(c.as_slice())
            },
            _ => None,
        }
    }

    pub fn as_object(&self) -> (r: Option<&Vec<(String, Json)>>)
        ensures
            r matches Some(v) ==> self@.as_object() == Some(Json::Object(*v)@->Object_0),
            r is None ==> self@.as_object() is None,
    {
        match self {
            Json::Object(v) => Some(v),
            _ => None,
        }
    }

    /// The string under `key`, when there is one.
    pub fn get_str(&self, key: &str) -> (r: Option<&str>)
        ensures
            r matches Some(s) ==> self@.get_str(key@) == Some(s@),
            r is None ==> self@.get_str(key@) is None,
    {
        match self.get(key) {
            Some(v) => v.as_str(),
            None => None,
        }
    }

    /// The array under `key`, when there is one.
    pub fn get_array(&self, key: &str) -> (r: Option<&Vec<Json>>)
        ensures
            r matches Some(v) ==> self@.get_array(key@) == Some(items_view(v@)),
            r is None ==> self@.get_array(key@) is None,
    {
        match self.get(key) {
            Some(v) => v.as_array(),
            None => None,
        }
    }

    /// The object entries under `key`, when there is an object there.
    pub fn get_object(&self, key: &str) -> (r: Option<&Vec<(String, Json)>>)
        ensures
            r matches Some(v) ==> self@.get_object(key@) == Some(Json::Object(*v)@->Object_0),
            r is None ==> self@.get_object(key@) is None,
    {
        match self.get(key) {
            Some(v) => v.as_object(),
            None => None,
        }
    }

    pub fn as_bool(&self) -> (r: Option<bool>)
        ensures
            r == self@.as_bool(),
    {
        match self {
            Json::Bool(b) => Some(*b),
            _ => None,
        }
    }

    pub fn is_null(&self) -> (r: bool)
        ensures
            r == self@.is_null(),
    {
        match self {
            Json::Null => true,
            _ => false,
        }
    }

    /// The unsigned integer under `key`, when there is one.
    pub fn get_u64(&self, key: &str) -> (r: Option<u64>)
        ensures
            r matches Some(n) ==> self@.get_u64(key@) == Some(n as nat),
            r is None ==> self@.get_u64(key@) is None,
    {
        match self.get(key) {
            Some(v) => v.as_u64(),
            None => None,
        }
    }

    /// A copy of the value under `key`, or null where there is none.
    pub fn get_or_null(&self, key: &str) -> (r: Json)
        ensures
            r@ == or_null(self@.get(key@)),
    {
        match self.get(key) {
            Some(v) => v.duplicate(),
            None => Json::Null,
        }
    }

    /// A JSON number holding the decimal text of `n`.
    pub fn number(n: u64) -> (r: Json)
        ensures
            r@ == JsonV::Number(crate::text::decimal(n as nat)),
    {
        Json::Number(crate::text::decimal_string(n))
    }

    /// The element at `i` when this is an array that long.
    pub fn at(&self, i: usize) -> (r: Option<&Json>)
        ensures
            r matches Some(x) ==> self@.at(i as int) == Some(x@),
            r is None ==> self@.at(i as int) is None,
    {
        match self {
            Json::Array(v) => {
                if i < v.len() {
                    Some(&v[i])
                } else {
                    None
                }
            },
            _ => None,
        }
    }
}

impl Json {
    /// A copy of this value, equal to it in every respect.
    #[verifier::loop_isolation(false)]
    pub fn duplicate(&self) -> (r: Json)
        ensures
            r@ == self@,
        decreases self,
    {
        match self {
            Json::Null => Json::Null,
            Json::Bool(b) => Json::Bool(*b),
            Json::Number(n) => Json::Number(n.clone()),
            Json::Str(s) => Json::Str(s.clone()),
            Json::Array(v) => {
                let mut out: Vec<Json> = Vec::new();
                let mut i: usize = 0;
                while i < v.len()
                    invariant
                        i <= v.len(),
                        out.len() == i,
                        forall|j: int| 0 <= j < i ==> (#[trigger] out@[j])@ == v@[j]@,
                    decreases v.len() - i,
                {
                    proof {
                        assert(decreases_to!(*self => *v));
                        assert(decreases_to!(*v => v@));
                        assert(decreases_to!(v@ => v@[i as int]));
                    }
                    let x = v[i].duplicate();
                    out.push(x);
                    i = i + 1;
                }
                let r = Json::Array(out);
                assert(r@->Array_0 =~= self@->Array_0);
                r
            },
            Json::Object(v) => {
                let mut out: Vec<(String, Json)> = Vec::new();
                let mut i: usize = 0;
                while i < v.len()
                    invariant
                        i <= v.len(),
                        out.len() == i,
                        forall|j: int| 0 <= j < i ==> (#[trigger] out@[j]).0@ == v@[j].0@ && out@[j].1@ == v@[j].1@,
                    decreases v.len() - i,
                {
                    proof {
                        assert(decreases_to!(*self => *v));
                        assert(decreases_to!(*v => v@));
                        assert(decreases_to!(v@ => v@[i as int]));
                        assert(decreases_to!(v@[i as int] => v@[i as int].1));
                    }
                    let x = v[i].1.duplicate();
                    let k = v[i].0.clone();
                    out.push((k, x));
                    i = i + 1;
                }
                let r = Json::Object(out);
                assert(r@->Object_0 =~= self@->Object_0);
                r
            },
        }
    }

    /// Sets `key` to `value` in this object: an existing entry is replaced in
    /// place, a new key is appended.
    pub fn insert(&mut self, key: &str, value: Json)
        requires
            old(self)@ is Object,
        ensures
            final(self)@ == JsonV::Object(obj_insert(old(self)@->Object_0, key@, value@)),
    {
        let ghost es = old(self)@->Object_0;
        match self {
            Json::Object(entries) => {
                proof { lemma_object_keys(*entries); }
                match find_key(entries, key) {
                    Some(i) => {
                        entries.set(i, (owned(key), value));
                        proof {
                            assert(Json::Object(*entries)@->Object_0 =~= es.update(i as int, (key@, value@)));
                        }
                    },
                    None => {
                        entries.push((owned(key), value));
                        proof {
                            assert(Json::Object(*entries)@->Object_0 =~= es.push((key@, value@)));
                        }
                    },
                }
            },
            _ => {},
        }
    }

    /// Removes the entry for `key` from this object.
    pub fn remove(&mut self, key: &str)
        requires
            old(self)@ is Object,
        ensures
            final(self)@ == JsonV::Object(obj_remove(old(self)@->Object_0, key@)),
    {
        let ghost es = old(self)@->Object_0;
        match self {
            Json::Object(entries) => {
                proof { lemma_object_keys(*entries); }
                match find_key(entries, key) {
                    Some(i) => {
                        entries.remove(i);
                        proof {
                            assert(Json::Object(*entries)@->Object_0 =~= es.remove(i as int));
                        }
                    },
                    None => {},
                }
            },
            _ => {},
        }
    }
}

} // verus!
