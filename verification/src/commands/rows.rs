//! Table rows through the Coda REST API: shaping rows for import, batching
//! them, reading what each batch did, and narrowing rows to chosen columns.
use vstd::prelude::*;
use crate::client::set_key;
use crate::commands::compound::{jstr, str_array, string_array};
use crate::commands::tools::{pick_parts, split_pick_parts};
use crate::error::{CodaError, CodaErrorV};
use crate::json::{
    Json, JsonV, entries_view, items_view, push_entry, push_item, object_of, array_of, lookup,
};
use crate::text::{
    chars_of, decimal, eq_ignore_ascii_case, extend_str, push_decimal, split_char, split_exec,
    starts_with, str_eq_ignore_ascii_case, string_of, string_views, trim, trim_chars, views,
};
use crate::validate::{encode_path_segment, percent_encoding, resource_id_problem, validate_resource_id};

verus! {

/// A row in the form the API takes: as it is when it has `cells`; a flat object
/// as one cell per key; anything else as it is.
pub open spec fn normalize_spec(row: JsonV) -> JsonV {
    if row.get("cells"@) is Some {
        row
    } else {
        match row {
            JsonV::Object(es) => JsonV::Object(seq![("cells"@, JsonV::Array(es.map_values(
                |e: (Seq<char>, JsonV)| JsonV::Object(seq![("column"@, jstr(e.0)), ("value"@, e.1)]),
            )))]),
            _ => row,
        }
    }
}

/// Normalize a row object into Coda's expected format.
pub fn normalize_row(row: Json) -> (r: Json)
    ensures
        r@ == normalize_spec(row@),
{
    if row.get("cells").is_some() {
        return row;
    }
    match &row {
        Json::Object(map) => {
            let ghost ev = entries_view(map@);
            proof { crate::json::lemma_object_view(*map); }
            let mut cells: Vec<Json> = Vec::new();
            let mut i: usize = 0;
            while i < map.len()
                invariant
                    i <= map.len(),
                    ev == entries_view(map@),
                    items_view(cells@) == ev.take(i as int).map_values(
                        |e: (Seq<char>, JsonV)| JsonV::Object(seq![("column"@, jstr(e.0)), ("value"@, e.1)]),
                    ),
                decreases map.len() - i,
            {
                let mut c: Vec<(String, Json)> = Vec::new();
                push_entry(&mut c, "column", Json::Str(map[i].0.clone()));
                push_entry(&mut c, "value", map[i].1.duplicate());
                assert(entries_view(c@) =~= seq![("column"@, jstr(ev[i as int].0)), ("value"@, ev[i as int].1)]);
                push_item(&mut cells, object_of(c));
                i = i + 1;
                assert(items_view(cells@) =~= ev.take(i as int).map_values(
                    |e: (Seq<char>, JsonV)| JsonV::Object(seq![("column"@, jstr(e.0)), ("value"@, e.1)]),
                ));
            }
            assert(ev.take(i as int) =~= ev);
            let mut es: Vec<(String, Json)> = Vec::new();
            push_entry(&mut es, "cells", array_of(cells));
            assert(entries_view(es@) =~= normalize_spec(row@)->Object_0);
            object_of(es)
        },
        _ => row,
    }
}

/// Whether a key is among the fields, up to ASCII case.
pub open spec fn field_kept(fields: Seq<Seq<char>>, k: Seq<char>) -> bool {
    exists|i: int| 0 <= i < fields.len() && eq_ignore_ascii_case(#[trigger] fields[i], k)
}

/// The entries whose keys are among the fields.
pub open spec fn keep_fields(es: Seq<(Seq<char>, JsonV)>, fields: Seq<Seq<char>>) -> Seq<(Seq<char>, JsonV)>
    decreases es.len(),
{
    if es.len() == 0 {
        Seq::empty()
    } else {
        let rest = keep_fields(es.drop_last(), fields);
        if field_kept(fields, es.last().0) { rest.push(es.last()) } else { rest }
    }
}

/// An item with its `values` narrowed to the fields, where it has an object of values.
pub open spec fn filter_item_spec(item: JsonV, fields: Seq<Seq<char>>) -> JsonV {
    match item.get_object("values"@) {
        Some(vs) => set_key(item, "values"@, JsonV::Object(keep_fields(vs, fields))),
        None => item,
    }
}

fn kept_exec(fields: &Vec<String>, k: &str) -> (r: bool)
    ensures
        r == field_kept(string_views(fields@), k@),
{
    let ghost fv = string_views(fields@);
    let mut i: usize = 0;
    while i < fields.len()
        invariant
            i <= fields.len(),
            fv == string_views(fields@),
            forall|j: int| 0 <= j < i ==> !eq_ignore_ascii_case(#[trigger] fv[j], k@),
        decreases fields.len() - i,
    {
        if str_eq_ignore_ascii_case(fields[i].as_str(), k) {
            assert(eq_ignore_ascii_case(fv[i as int], k@));
            return true;
        }
        i = i + 1;
    }
    false
}

/// Narrows an item's values to the given fields, matched up to ASCII case.
pub fn filter_item_fields(item: &Json, fields: &Vec<String>) -> (r: Json)
    ensures
        r@ == filter_item_spec(item@, string_views(fields@)),
{
    let mut out = item.duplicate();
    match item.get_object("values") {
        Some(vs) => {
            let ghost ev = Json::Object(*vs)@->Object_0;
            proof { crate::json::lemma_object_view(*vs); }
            let mut kept: Vec<(String, Json)> = Vec::new();
            let mut i: usize = 0;
            assert(ev.take(0) =~= Seq::<(Seq<char>, JsonV)>::empty());
            assert(entries_view(kept@) =~= Seq::<(Seq<char>, JsonV)>::empty());
            while i < vs.len()
                invariant
                    i <= vs.len(),
                    ev == entries_view(vs@),
                    entries_view(kept@) == keep_fields(ev.take(i as int), string_views(fields@)),
                decreases vs.len() - i,
            {
                assert(ev.take(i + 1).drop_last() =~= ev.take(i as int));
                if kept_exec(fields, vs[i].0.as_str()) {
                    push_entry(&mut kept, vs[i].0.as_str(), vs[i].1.duplicate());
                }
                i = i + 1;
            }
            assert(ev.take(i as int) =~= ev);
            crate::client::set_key_exec(&mut out, "values", object_of(kept));
            out
        },
        None => out,
    }
}

/// A list response with each item's values narrowed to the comma-separated fields.
pub open spec fn filter_rows_spec(response: JsonV, field_list: Seq<char>) -> JsonV {
    let fields = pick_parts(field_list);
    match response.get_array("items"@) {
        Some(items) => set_key(response, "items"@, JsonV::Array(items.map_values(|i: JsonV| filter_item_spec(i, fields)))),
        None => response,
    }
}

/// Filter row response to only include specified column names in values.
pub fn filter_row_fields(response: &Json, field_list: &str) -> (r: Json)
    ensures
        r@ == filter_rows_spec(response@, field_list@),
{
    let fields = split_pick_parts(field_list);
    let mut out = response.duplicate();
    match response.get_array("items") {
        Some(items) => {
            let ghost fv = string_views(fields@);
            let mut filtered: Vec<Json> = Vec::new();
            let mut i: usize = 0;
            while i < items.len()
                invariant
                    i <= items.len(),
                    fv == string_views(fields@),
                    items_view(filtered@) == items_view(items@).take(i as int).map_values(|x: JsonV| filter_item_spec(x, fv)),
                decreases items.len() - i,
            {
                push_item(&mut filtered, filter_item_fields(&items[i], &fields));
                i = i + 1;
                assert(items_view(filtered@) =~= items_view(items@).take(i as int).map_values(|x: JsonV| filter_item_spec(x, fv)));
            }
            assert(items_view(items@).take(i as int) =~= items_view(items@));
            crate::client::set_key_exec(&mut out, "items", array_of(filtered));
            out
        },
        None => out,
    }
}

/// The rows endpoint of a table, when both identifiers are valid.
pub open spec fn rows_path_spec(doc_id: Seq<char>, table_id: Seq<char>) -> Result<Seq<char>, CodaErrorV> {
    match resource_id_problem(doc_id, "docId"@) {
        Some(m) => Err(CodaErrorV::Validation(m)),
        None => match resource_id_problem(table_id, "tableId"@) {
            Some(m) => Err(CodaErrorV::Validation(m)),
            None => Ok("/docs/"@ + percent_encoding(crate::text::utf8_bytes(doc_id)) + "/tables/"@
                + percent_encoding(crate::text::utf8_bytes(table_id)) + "/rows"@),
        },
    }
}

/// The rows endpoint of a table, after checking both identifiers.
pub fn rows_path(doc_id: &str, table_id: &str) -> (r: Result<String, CodaError>)
    ensures
        rows_path_spec(doc_id@, table_id@) matches Ok(p) ==> r matches Ok(s) && s@ == p,
        rows_path_spec(doc_id@, table_id@) matches Err(e) ==> r matches Err(x) && x@ == e,
{
    match validate_resource_id(doc_id, "docId") {
        Ok(_) => {},
        Err(e) => { return Err(e); },
    }
    match validate_resource_id(table_id, "tableId") {
        Ok(_) => {},
        Err(e) => { return Err(e); },
    }
    let mut v: Vec<char> = Vec::new();
    extend_str(&mut v, "/docs/");
    let d = encode_path_segment(doc_id);
    extend_str(&mut v, d.as_str());
    extend_str(&mut v, "/tables/");
    let t = encode_path_segment(table_id);
    extend_str(&mut v, t.as_str());
    extend_str(&mut v, "/rows");
    Ok(string_of(v.as_slice()))
}

/// How the rows to import are given.
pub enum ImportInput {
    /// One JSON array of rows.
    Array(String),
    /// One JSON row per non-empty line, with the line's number among those lines.
    Lines(Vec<(usize, String)>),
}

/// The non-empty lines, numbered from one.
pub open spec fn numbered_lines(lines: Seq<Seq<char>>, from: nat) -> Seq<(nat, Seq<char>)>
    decreases lines.len(),
{
    if lines.len() == 0 {
        Seq::empty()
    } else if trim(lines[0]).len() == 0 {
        numbered_lines(lines.drop_first(), from)
    } else {
        seq![(from, lines[0])] + numbered_lines(lines.drop_first(), from + 1)
    }
}

/// How the import reads its input: an error when there is nothing; the whole
/// trimmed input as an array when it starts with `[`; else its non-empty lines.
pub open spec fn import_input_spec(input: Seq<char>) -> Result<(bool, Seq<(nat, Seq<char>)>, Seq<char>), CodaErrorV> {
    let t = trim(input);
    if t.len() == 0 {
        Err(CodaErrorV::Validation("No input provided on stdin. Pipe NDJSON rows or a JSON array."@))
    } else if t[0] == '[' {
        Ok((true, Seq::empty(), t))
    } else {
        Ok((false, numbered_lines(split_char(t, '\n'), 1), Seq::empty()))
    }
}

/// Reads the import's input.
pub fn import_input(input: &str) -> (r: Result<ImportInput, CodaError>)
    ensures
        import_input_spec(input@) matches Err(e) ==> r matches Err(x) && x@ == e,
        import_input_spec(input@) matches Ok((true, _, t)) ==> r matches Ok(ImportInput::Array(a)) && a@ == t,
        import_input_spec(input@) matches Ok((false, ls, _)) ==> r matches Ok(ImportInput::Lines(v))
            && v@.map_values(|e: (usize, String)| (e.0 as nat, e.1@)) == ls,
{
    let c = chars_of(input);
    let t = trim_chars(c.as_slice());
    if t.len() == 0 {
        return Err(CodaError::Validation("No input provided on stdin. Pipe NDJSON rows or a JSON array.".to_owned()));
    }
    if t[0] == '[' {
        return Ok(ImportInput::Array(string_of(t.as_slice())));
    }
    let lines = split_exec(t.as_slice(), '\n');
    let ghost lv = views(lines@);
    let mut out: Vec<(usize, String)> = Vec::new();
    let mut i: usize = 0;
    assert(lv.skip(0) =~= lv);
    assert(out@.map_values(|e: (usize, String)| (e.0 as nat, e.1@)) =~= Seq::<(nat, Seq<char>)>::empty());
    while i < lines.len()
        invariant
            i <= lines.len(),
            lv == views(lines@),
            out.len() <= i,
            numbered_lines(lv, 1) == out@.map_values(|e: (usize, String)| (e.0 as nat, e.1@)) + numbered_lines(lv.skip(i as int), (out.len() + 1) as nat),
        decreases lines.len() - i,
    {
        let l = &lines[i];
        assert(lv.skip(i as int)[0] == l@);
        assert(lv.skip(i as int).drop_first() =~= lv.skip(i + 1));
        let tl = trim_chars(l.as_slice());
        let ghost before = out@.map_values(|e: (usize, String)| (e.0 as nat, e.1@));
        if tl.len() > 0 {
            let s = string_of(l.as_slice());
            let n = out.len() + 1;
            out.push((n, s));
            assert(out@.map_values(|e: (usize, String)| (e.0 as nat, e.1@)) =~= before.push((n as nat, l@)));
            assert(before.push((n as nat, l@)) + numbered_lines(lv.skip(i + 1), (n + 1) as nat)
                =~= before + (seq![(n as nat, l@)] + numbered_lines(lv.skip(i + 1), (n + 1) as nat)));
        }
        i = i + 1;
    }
    assert(lv.skip(i as int) =~= Seq::<Seq<char>>::empty());
    assert(out@.map_values(|e: (usize, String)| (e.0 as nat, e.1@)) + Seq::<(nat, Seq<char>)>::empty()
        =~= out@.map_values(|e: (usize, String)| (e.0 as nat, e.1@)));
    Ok(ImportInput::Lines(out))
}

/// The key columns of an import: comma-separated, each trimmed.
pub open spec fn key_list(keys: Seq<char>) -> Seq<Seq<char>> {
    pick_parts(keys)
}

/// The body of one batch: its rows, and the key columns where there are any.
pub open spec fn batch_body_spec(rows: Seq<JsonV>, keys: Option<Seq<char>>) -> JsonV {
    JsonV::Object(
        (match keys { Some(k) => seq![("keyColumns"@, str_array(key_list(k)))], None => Seq::empty() })
            + seq![("rows"@, JsonV::Array(rows))],
    )
}

/// The bodies of the batches: the rows in chunks of `size`, the last one shorter.
pub open spec fn batches_spec(rows: Seq<JsonV>, size: nat, keys: Option<Seq<char>>) -> Seq<JsonV>
    decreases rows.len(),
{
    if rows.len() == 0 || size == 0 {
        Seq::empty()
    } else if rows.len() <= size {
        seq![batch_body_spec(rows, keys)]
    } else {
        seq![batch_body_spec(rows.take(size as int), keys)] + batches_spec(rows.skip(size as int), size, keys)
    }
}

/// The body of one batch.
pub fn batch_body(chunk: &[Json], key_columns: Option<&str>) -> (r: Json)
    ensures
        r@ == batch_body_spec(items_view(chunk@), match key_columns { Some(s) => Some(s@), None => None }),
{
    let mut es: Vec<(String, Json)> = Vec::new();
    match key_columns {
        Some(keys) => {
            let list = split_pick_parts(keys);
            push_entry(&mut es, "keyColumns", string_array(&list));
        },
        None => {},
    }
    let mut rows: Vec<Json> = Vec::new();
    let mut i: usize = 0;
    while i < chunk.len()
        invariant
            i <= chunk.len(),
            items_view(rows@) == items_view(chunk@).take(i as int),
        decreases chunk.len() - i,
    {
        push_item(&mut rows, chunk[i].duplicate());
        i = i + 1;
        assert(items_view(rows@) =~= items_view(chunk@).take(i as int));
    }
    assert(items_view(chunk@).take(i as int) =~= items_view(chunk@));
    push_entry(&mut es, "rows", array_of(rows));
    let ghost kv = match key_columns { Some(s) => Some(s@), None => None };
    assert(entries_view(es@) =~= batch_body_spec(items_view(chunk@), kv)->Object_0);
    object_of(es)
}

/// Splits the rows into batches of at most `batch_size`.
pub fn import_batches(rows: &Vec<Json>, batch_size: usize, key_columns: Option<&str>) -> (r: Vec<Json>)
    requires
        batch_size > 0,
    ensures
        items_view(r@) == batches_spec(items_view(rows@), batch_size as nat,
            match key_columns { Some(s) => Some(s@), None => None }),
{
    let ghost kv = match key_columns { Some(s) => Some(s@), None => None };
    let ghost rv = items_view(rows@);
    let mut out: Vec<Json> = Vec::new();
    let mut start: usize = 0;
    assert(rv.skip(0) =~= rv);
    assert(items_view(out@) =~= Seq::<JsonV>::empty());
    while start < rows.len()
        invariant
            start <= rows.len(),
            batch_size > 0,
            rv == items_view(rows@),
            kv == match key_columns { Some(s) => Some(s@), None => None },
            batches_spec(rv, batch_size as nat, kv) == items_view(out@) + batches_spec(rv.skip(start as int), batch_size as nat, kv),
        decreases rows.len() - start,
    {
        let end = if rows.len() - start <= batch_size { rows.len() } else { start + batch_size };
        let body = batch_body(&rows.as_slice()[start..end], key_columns);
        proof {
            let rest = rv.skip(start as int);
            assert(rows@.subrange(start as int, end as int).map_values(|x: Json| x@) =~= items_view(rows@).subrange(start as int, end as int));
            if rest.len() <= batch_size {
                assert(rest =~= rv.subrange(start as int, end as int));
            } else {
                assert(rest.take(batch_size as int) =~= rv.subrange(start as int, end as int));
                assert(rest.skip(batch_size as int) =~= rv.skip(end as int));
            }
        }
        let ghost before = items_view(out@);
        push_item(&mut out, body);
        proof {
            let rest = rv.skip(start as int);
            if rest.len() <= batch_size {
                assert(rv.skip(end as int) =~= Seq::<JsonV>::empty());
                assert(before.push(body@) + batches_spec(rv.skip(end as int), batch_size as nat, kv) =~= before + batches_spec(rest, batch_size as nat, kv));
            } else {
                assert(before.push(body@) + batches_spec(rv.skip(end as int), batch_size as nat, kv) =~= before + batches_spec(rest, batch_size as nat, kv));
            }
        }
        start = end;
    }
    assert(rv.skip(start as int) =~= Seq::<JsonV>::empty());
    assert(items_view(out@) + Seq::<JsonV>::empty() =~= items_view(out@));
    out
}

/// How many rows a batch reply says were added or updated: the length of its id
/// list, else its count (kept to its low 32 bits), else none.
pub open spec fn reply_count(reply: JsonV, ids: Seq<char>, count: Seq<char>) -> nat {
    match reply.get_array(ids) {
        Some(a) => (a.len() % 0x1_0000_0000) as nat,
        None => match reply.get_u64(count) {
            Some(n) => (n % 0x1_0000_0000) as nat,
            None => 0,
        },
    }
}

/// How many rows a batch reply says were added and updated.
pub fn batch_counts(reply: &Json) -> (r: (u32, u32))
    ensures
        r.0 == reply_count(reply@, "addedRowIds"@, "addedRowCount"@),
        r.1 == reply_count(reply@, "updatedRowIds"@, "updatedRowCount"@),
{
    let added: u32 = match reply.get_array("addedRowIds") {
        Some(a) => (a.len() as u64 % 0x1_0000_0000) as u32,
        None => match reply.get_u64("addedRowCount") {
            Some(n) => (n % 0x1_0000_0000) as u32,
            None => 0,
        },
    };
    let updated: u32 = match reply.get_array("updatedRowIds") {
        Some(a) => (a.len() as u64 % 0x1_0000_0000) as u32,
        None => match reply.get_u64("updatedRowCount") {
            Some(n) => (n % 0x1_0000_0000) as u32,
            None => 0,
        },
    };
    (added, updated)
}

/// What a dry run shows of one batch.
pub open spec fn dry_batch_spec(batch: nat, rows: nat, path: Seq<char>, keys: Option<Seq<char>>) -> JsonV {
    JsonV::Object(seq![
        ("batch"@, JsonV::Number(decimal(batch))),
        ("bodyPreview"@, JsonV::Object(seq![
            ("keyColumns"@, match keys { Some(k) => jstr(k), None => JsonV::Null }),
            ("rows"@, jstr("["@ + decimal(rows) + " rows]"@)),
        ])),
        ("method"@, jstr("POST"@)),
        ("rowCount"@, JsonV::Number(decimal(rows))),
        ("url"@, jstr("https://coda.io/apis/v1"@ + path)),
    ])
}

/// What a dry run shows of one batch.
pub fn dry_batch(batch: u32, rows: usize, path: &str, key_columns: Option<&str>) -> (r: Json)
    ensures
        r@ == dry_batch_spec(batch as nat, rows as nat, path@, match key_columns { Some(s) => Some(s@), None => None }),
{
    let mut preview: Vec<(String, Json)> = Vec::new();
    match key_columns {
        Some(k) => push_entry(&mut preview, "keyColumns", Json::str(k)),
        None => push_entry(&mut preview, "keyColumns", Json::Null),
    }
    let mut t: Vec<char> = Vec::new();
    extend_str(&mut t, "[");
    push_decimal(&mut t, rows as u64);
    extend_str(&mut t, " rows]");
    push_entry(&mut preview, "rows", Json::Str(string_of(t.as_slice())));
    let ghost pv = entries_view(preview@);
    assert(t@ =~= "["@ + decimal(rows as nat) + " rows]"@);
    assert(pv =~= seq![
        ("keyColumns"@, match key_columns { Some(k) => jstr(k@), None => JsonV::Null }),
        ("rows"@, jstr("["@ + decimal(rows as nat) + " rows]"@)),
    ]);
    let mut es: Vec<(String, Json)> = Vec::new();
    push_entry(&mut es, "batch", Json::number(batch as u64));
    push_entry(&mut es, "bodyPreview", object_of(preview));
    push_entry(&mut es, "method", Json::str("POST"));
    push_entry(&mut es, "rowCount", Json::number(rows as u64));
    let mut u: Vec<char> = Vec::new();
    extend_str(&mut u, "https://coda.io/apis/v1");
    extend_str(&mut u, path);
    assert(u@ =~= "https://coda.io/apis/v1"@ + path@);
    push_entry(&mut es, "url", Json::Str(string_of(u.as_slice())));
    let ghost kv = match key_columns { Some(s) => Some(s@), None => None };
    proof {
        let spec = dry_batch_spec(batch as nat, rows as nat, path@, kv)->Object_0;
        match key_columns {
            Some(k) => { assert(spec[1].1->Object_0 =~= pv); },
            None => { assert(spec[1].1->Object_0 =~= pv); },
        }
        assert(entries_view(es@) =~= spec);
    }
    object_of(es)
}

/// The summary of an import.
pub fn import_summary(total_rows: usize, batches: u32, added: u32, updated: u32) -> (r: Json)
    ensures
        r@ == JsonV::Object(seq![
            ("addedRowCount"@, JsonV::Number(decimal(added as nat))),
            ("batches"@, JsonV::Number(decimal(batches as nat))),
            ("totalRows"@, JsonV::Number(decimal(total_rows as nat))),
            ("updatedRowCount"@, JsonV::Number(decimal(updated as nat))),
        ]),
{
    let mut es: Vec<(String, Json)> = Vec::new();
    push_entry(&mut es, "addedRowCount", Json::number(added as u64));
    push_entry(&mut es, "batches", Json::number(batches as u64));
    push_entry(&mut es, "totalRows", Json::number(total_rows as u64));
    push_entry(&mut es, "updatedRowCount", Json::number(updated as u64));
    assert(entries_view(es@) =~= seq![
        ("addedRowCount"@, JsonV::Number(decimal(added as nat))),
        ("batches"@, JsonV::Number(decimal(batches as nat))),
        ("totalRows"@, JsonV::Number(decimal(total_rows as nat))),
        ("updatedRowCount"@, JsonV::Number(decimal(updated as nat))),
    ]);
    object_of(es)
}

} // verus!
