//! Cell value unwrapping and row flattening for Coda table data.
//!
//! Coda's API returns row values keyed by column IDs with rich wrapper objects.
//! This module provides utilities to flatten those into simple, agent-friendly
//! JSON objects with human-readable column names as keys.
use vstd::prelude::*;
use crate::json::{Json, JsonV, lookup, obj_insert, key_index, keys_of, exec_keys, find_key, owned, lemma_key_index_bounds};
use crate::text::{extend_str, string_of};

verus! {

/// The underlying value of a cell: strings, numbers, booleans and null as they
/// are; an object's `content`, else its `url`, else the object itself; an array
/// item by item.
pub open spec fn unwrap_cell_spec(v: JsonV) -> JsonV
    decreases v,
{
    match v {
        JsonV::Array(a) => JsonV::Array(Seq::new(a.len(), |i: int|
            if 0 <= i < a.len() {
                proof { assert(decreases_to!(a => a[i])); }
                unwrap_cell_spec(a[i])
            } else {
                JsonV::Null
            })),
        JsonV::Object(es) => match lookup(es, "content"@) {
            Some(c) => c,
            None => match lookup(es, "url"@) {
                Some(u) => u,
                None => v,
            },
        },
        _ => v,
    }
}

/// Unwrap a Coda cell value to its underlying JSON primitive.
///
/// - `"hello"` → `"hello"` (string passthrough)
/// - `42` → `42` (number passthrough)
/// - `true` → `true` (bool passthrough)
/// - `null` → `null`
/// - `{"content": "Alice", "@type": "CodaText"}` → `"Alice"`
/// - `{"url": "https://..."}` → `"https://..."`
/// - `[{"content": "A"}, {"content": "B"}]` → `["A", "B"]`
/// - Unknown objects → preserved as-is
#[verifier::loop_isolation(false)]
pub fn unwrap_cell_value(cell: &Json) -> (r: Json)
    ensures
        r@ == unwrap_cell_spec(cell@),
    decreases cell,
{
    match cell {
        Json::Array(arr) => {
            let ghost a = cell@->Array_0;
            let mut out: Vec<Json> = Vec::new();
            let mut i: usize = 0;
            while i < arr.len()
                invariant
                    i <= arr.len(),
                    out.len() == i,
                    a.len() == arr.len(),
                    forall|j: int| 0 <= j < arr.len() ==> a[j] == (#[trigger] arr@[j])@,
                    forall|j: int| 0 <= j < i ==> (#[trigger] out@[j])@ == unwrap_cell_spec(a[j]),
                decreases arr.len() - i,
            {
                proof {
                    assert(decreases_to!(*cell => *arr));
                    assert(decreases_to!(*arr => arr@));
                    assert(decreases_to!(arr@ => arr@[i as int]));
                }
                let x = unwrap_cell_value(&arr[i]);
                out.push(x);
                i = i + 1;
            }
            let r = Json::Array(out);
            assert(r@->Array_0 =~= unwrap_cell_spec(cell@)->Array_0);
            r
        },
        Json::Object(_) => {
            match cell.get("content") {
                Some(c) => c.duplicate(),
                None => match cell.get("url") {
                    Some(u) => u.duplicate(),
                    None => cell.duplicate(),
                },
            }
        },
        _ => cell.duplicate(),
    }
}

/// The identifier of a column: its `columnId`, or when it has none its `id`,
/// as text; empty when that is missing or not a string.
pub open spec fn column_id(col: JsonV) -> Seq<char> {
    match col.get("columnId"@) {
        Some(v) => match v.as_str() { Some(s) => s, None => Seq::empty() },
        None => match col.get_str("id"@) { Some(s) => s, None => Seq::empty() },
    }
}

/// The name of a column, `Untitled` when it has none.
pub open spec fn column_name(col: JsonV) -> Seq<char> {
    match col.get_str("name"@) {
        Some(s) => s,
        None => "Untitled"@,
    }
}

/// How many of the columns have an id and the given name.
pub open spec fn name_count(cols: Seq<JsonV>, name: Seq<char>) -> nat
    decreases cols.len(),
{
    if cols.len() == 0 {
        0
    } else {
        name_count(cols.drop_last(), name) + if column_id(cols.last()).len() > 0 && column_name(cols.last()) == name { 1nat } else { 0nat }
    }
}

/// The map from column id to display name: columns without an id are skipped;
/// the first column with a name keeps it, later ones with the same name get
/// ` (id)` appended; a later column with the same id replaces an earlier one.
pub open spec fn column_map_spec(cols: Seq<JsonV>) -> Seq<(Seq<char>, Seq<char>)>
    decreases cols.len(),
{
    if cols.len() == 0 {
        Seq::empty()
    } else {
        let prev = column_map_spec(cols.drop_last());
        let c = cols.last();
        let id = column_id(c);
        if id.len() == 0 {
            prev
        } else {
            let raw = column_name(c);
            let n = name_count(cols.drop_last(), raw) + 1;
            let display = if n > 1 { raw + " ("@ + id + ")"@ } else { raw };
            obj_insert(prev, id, display)
        }
    }
}

/// The text of string pairs.
pub open spec fn pairs_view(v: Seq<(String, String)>) -> Seq<(Seq<char>, Seq<char>)> {
    v.map_values(|e: (String, String)| (e.0@, e.1@))
}

pub proof fn lemma_pairs_keys(v: Seq<(String, String)>)
    ensures
        keys_of(pairs_view(v)) == exec_keys(v),
{
    assert(keys_of(pairs_view(v)) =~= exec_keys(v));
}

/// Sets `key` to `value` among string pairs, replacing an existing entry in place.
pub fn pairs_insert(pairs: &mut Vec<(String, String)>, key: &str, value: String)
    ensures
        pairs_view(final(pairs)@) == obj_insert(pairs_view(old(pairs)@), key@, value@),
{
    proof { lemma_pairs_keys(old(pairs)@); }
    match find_key(pairs, key) {
        Some(i) => {
            pairs.set(i, (owned(key), value));
            assert(pairs_view(pairs@) =~= pairs_view(old(pairs)@).update(i as int, (key@, value@)));
        },
        None => {
            pairs.push((owned(key), value));
            assert(pairs_view(pairs@) =~= pairs_view(old(pairs)@).push((key@, value@)));
        },
    }
}

/// The value paired with `key`.
pub fn pairs_get<'a>(pairs: &'a Vec<(String, String)>, key: &str) -> (r: Option<&'a String>)
    ensures
        r matches Some(s) ==> lookup(pairs_view(pairs@), key@) == Some(s@),
        r is None ==> lookup(pairs_view(pairs@), key@) is None,
{
    proof { lemma_pairs_keys(pairs@); }
    match find_key(pairs, key) {
        Some(i) => Some(&pairs[i].1),
        None => None,
    }
}

fn column_id_of(col: &Json) -> (r: &str)
    ensures
        r@ == column_id(col@),
{
    proof { reveal_strlit(""); }
    match col.get("columnId") {
        Some(v) => match v.as_str() {
            Some(s) => s,
            None => "",
        },
        None => match col.get_str("id") {
            Some(s) => s,
            None => "",
        },
    }
}

fn column_name_of(col: &Json) -> (r: &str)
    ensures
        r@ == column_name(col@),
{
    match col.get_str("name") {
        Some(s) => s,
        None => "Untitled",
    }
}

/// How many of the first `upto` columns have an id and the given name.
fn count_named(columns: &[Json], upto: usize, name: &str) -> (r: usize)
    requires
        upto <= columns.len(),
    ensures
        r == name_count(columns@.map_values(|c: Json| c@).take(upto as int), name@),
{
    let ghost cols = columns@.map_values(|c: Json| c@);
    let mut n: usize = 0;
    let mut j: usize = 0;
    while j < upto
        invariant
            j <= upto <= columns.len(),
            cols == columns@.map_values(|c: Json| c@),
            n == name_count(cols.take(j as int), name@),
            n <= j,
        decreases upto - j,
    {
        assert(cols.take(j + 1).drop_last() =~= cols.take(j as int));
        assert(cols.take(j + 1).last() == columns@[j as int]@);
        let id = column_id_of(&columns[j]);
        if !id.is_empty() && crate::json::str_eq(column_name_of(&columns[j]), name) {
            n = n + 1;
        }
        j = j + 1;
    }
    n
}

/// Build a column ID → display name map from the columns metadata array.
///
/// Handles duplicate column names by appending ` (c-xyz)` to the second occurrence.
/// Tries `columnId` first, then `id` as fallback for the column identifier.
pub fn build_column_map(columns: &[Json]) -> (r: Vec<(String, String)>)
    ensures
        pairs_view(r@) == column_map_spec(columns@.map_values(|c: Json| c@)),
{
    let ghost cols = columns@.map_values(|c: Json| c@);
    let mut map: Vec<(String, String)> = Vec::new();
    let mut i: usize = 0;
    while i < columns.len()
        invariant
            i <= columns.len(),
            cols == columns@.map_values(|c: Json| c@),
            pairs_view(map@) == column_map_spec(cols.take(i as int)),
        decreases columns.len() - i,
    {
        let col = &columns[i];
        let id = column_id_of(col);
        assert(cols.take(i + 1).drop_last() =~= cols.take(i as int));
        assert(cols.take(i + 1).last() == col@);
        if !id.is_empty() {
            let raw = column_name_of(col);
            let count = count_named(columns, i, raw);
            let display = if count >= 1 {
                let mut v: Vec<char> = Vec::new();
                extend_str(&mut v, raw);
                extend_str(&mut v, " (");
                extend_str(&mut v, id);
                extend_str(&mut v, ")");
                string_of(v.as_slice())
            } else {
                owned(raw)
            };
            pairs_insert(&mut map, id, display);
        }
        i = i + 1;
    }
    assert(cols.take(i as int) =~= cols);
    map
}

/// The row id: its `rowId`, or when it has none its `id`, when that is a string.
pub open spec fn row_id(row: JsonV) -> Option<Seq<char>> {
    match row.get("rowId"@) {
        Some(v) => v.as_str(),
        None => row.get_str("id"@),
    }
}

/// The entries `acc` with each value cell set under its column's display name
/// (the column id itself when the map has no name for it), in order.
pub open spec fn flatten_entries(
    acc: Seq<(Seq<char>, JsonV)>,
    es: Seq<(Seq<char>, JsonV)>,
    cmap: Seq<(Seq<char>, Seq<char>)>,
) -> Seq<(Seq<char>, JsonV)>
    decreases es.len(),
{
    if es.len() == 0 {
        acc
    } else {
        let prev = flatten_entries(acc, es.drop_last(), cmap);
        let col_id = es.last().0;
        let name = match lookup(cmap, col_id) {
            Some(n) => n,
            None => col_id,
        };
        obj_insert(prev, name, unwrap_cell_spec(es.last().1))
    }
}

pub open spec fn flatten_row_spec(row: JsonV, cmap: Seq<(Seq<char>, Seq<char>)>) -> JsonV {
    let base = match row_id(row) {
        Some(id) => seq![("_rowId"@, JsonV::Str(id))],
        None => Seq::empty(),
    };
    JsonV::Object(match row.get_object("values"@) {
        Some(es) => flatten_entries(base, es, cmap),
        None => base,
    })
}

/// Flatten a raw API row into a simple object with human-readable column names.
///
/// Input:  `{"rowId":"r-abc","values":{"c-1":{"content":"Alice"},"c-2":42},"browserLink":"..."}`
/// Output: `{"_rowId":"r-abc","Name":"Alice","Score":42}`
///
/// - Internal fields are prefixed with `_`
/// - Column IDs are resolved to display names via `column_map`
/// - Unknown column IDs fall back to the raw ID as the key
/// - Metadata fields (browserLink, createdAt, updatedAt) are dropped
pub fn flatten_row(row: &Json, column_map: &Vec<(String, String)>) -> (r: Json)
    ensures
        r@ == flatten_row_spec(row@, pairs_view(column_map@)),
{
    let mut flat = Json::empty_object();
    let rid = match row.get("rowId") {
        Some(v) => v.as_str(),
        None => row.get_str("id"),
    };
    match rid {
        Some(id) => {
            flat.insert("_rowId", Json::str(id));
            proof {
                reveal_strlit("_rowId");
                assert(flat@->Object_0 =~= seq![("_rowId"@, JsonV::Str(id@))]);
            }
        },
        None => {},
    }
    let ghost base = flat@->Object_0;
    match row.get_object("values") {
        Some(values) => {
            let ghost es = Json::Object(*values)@->Object_0;
            let mut i: usize = 0;
            while i < values.len()
                invariant
                    i <= values.len(),
                    es == Json::Object(*values)@->Object_0,
                    flat@ is Object,
                    flat@->Object_0 == flatten_entries(base, es.take(i as int), pairs_view(column_map@)),
                decreases values.len() - i,
            {
                let col_id = values[i].0.as_str();
                assert(es.take(i + 1).drop_last() =~= es.take(i as int));
                assert(es.take(i + 1).last() == es[i as int]);
                let name = match pairs_get(column_map, col_id) {
                    Some(n) => n.as_str(),
                    None => col_id,
                };
                let cell = unwrap_cell_value(&values[i].1);
                flat.insert(name, cell);
                i = i + 1;
            }
            assert(es.take(i as int) =~= es);
        },
        None => {},
    }
    flat
}

} // verus!
