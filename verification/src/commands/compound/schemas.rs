//! The JSON Schema definitions of the compound tools, so that they appear in
//! discovery beside the remote ones.
use vstd::prelude::*;
use crate::commands::compound::jstr;
use crate::json::{Json, JsonV, entries_view, items_view, push_entry, push_item, object_of, array_of};

verus! {

/// A property of a given type, with a description where there is one.
pub open spec fn prop_spec(ty: Seq<char>, description: Option<Seq<char>>) -> JsonV {
    JsonV::Object(match description {
        Some(d) => seq![("description"@, jstr(d)), ("type"@, jstr(ty))],
        None => seq![("type"@, jstr(ty))],
    })
}

/// An object schema of the given properties and required fields, with the
/// draft it follows where asked.
pub open spec fn object_schema_spec(properties: JsonV, required: Seq<JsonV>, with_schema: bool) -> JsonV {
    let rest = seq![
        ("properties"@, properties),
        ("required"@, JsonV::Array(required)),
        ("type"@, jstr("object"@)),
    ];
    JsonV::Object(if with_schema {
        seq![("$schema"@, jstr("http://json-schema.org/draft-07/schema#"@))] + rest
    } else {
        rest
    })
}

/// A tool's schema: its description, input schema and name.
pub open spec fn tool_schema_spec(name: Seq<char>, description: Seq<char>, input: JsonV) -> JsonV {
    JsonV::Object(seq![("description"@, jstr(description)), ("inputSchema"@, input), ("name"@, jstr(name))])
}

pub open spec fn page_create_schema() -> JsonV {
    tool_schema_spec(
        "page_create_with_content"@,
        "Create a new page and insert markdown content in a single call. Eliminates the need to chain page_create → content_modify."@,
        object_schema_spec(
            JsonV::Object(seq![
                ("content"@, prop_spec("string"@, Some("Markdown content to insert (optional)"@))),
                ("subtitle"@, prop_spec("string"@, Some("Page subtitle"@))),
                ("title"@, prop_spec("string"@, Some("Page title"@))),
                ("uri"@, prop_spec("string"@, Some("Parent — document URI for top-level, page URI for nested"@))),
            ]),
            seq![jstr("uri"@), jstr("title"@)],
            true,
        ),
    )
}

pub open spec fn doc_scaffold_schema() -> JsonV {
    let table_item = object_schema_spec(
        JsonV::Object(seq![
            ("columns"@, prop_spec("array"@, None)),
            ("name"@, prop_spec("string"@, None)),
            ("rows"@, prop_spec("array"@, None)),
        ]),
        seq![jstr("name"@), jstr("columns"@)],
        false,
    );
    let page_item = object_schema_spec(
        JsonV::Object(seq![
            ("content"@, prop_spec("string"@, Some("Markdown content"@))),
            ("subtitle"@, prop_spec("string"@, None)),
            ("tables"@, JsonV::Object(seq![("items"@, table_item), ("type"@, jstr("array"@))])),
            ("title"@, prop_spec("string"@, None)),
        ]),
        seq![jstr("title"@)],
        false,
    );
    tool_schema_spec(
        "doc_scaffold"@,
        "Create a complete document with pages, content, tables, and rows in a single call."@,
        object_schema_spec(
            JsonV::Object(seq![
                ("pages"@, JsonV::Object(seq![
                    ("description"@, jstr("Pages to create"@)),
                    ("items"@, page_item),
                    ("type"@, jstr("array"@)),
                ])),
                ("title"@, prop_spec("string"@, Some("Document title"@))),
            ]),
            seq![jstr("title"@)],
            true,
        ),
    )
}

pub open spec fn doc_summarize_schema() -> JsonV {
    tool_schema_spec(
        "doc_summarize"@,
        "Read a document and return a condensed summary: pages, tables, row counts, and content previews. ~500 tokens instead of 10+ calls."@,
        object_schema_spec(
            JsonV::Object(seq![("uri"@, prop_spec("string"@, Some("Document URI (coda://docs/{docId})"@)))]),
            seq![jstr("uri"@)],
            true,
        ),
    )
}

pub open spec fn table_search_schema() -> JsonV {
    tool_schema_spec(
        "table_search"@,
        "Read table rows and filter client-side by column value. Returns only matching rows."@,
        object_schema_spec(
            JsonV::Object(seq![
                ("column"@, prop_spec("string"@, Some("Column name or column ID (c-xxxxx) to filter on"@))),
                ("operator"@, JsonV::Object(seq![
                    ("description"@, jstr("Operator: eq (default), ne, contains"@)),
                    ("enum"@, JsonV::Array(seq![jstr("eq"@), jstr("ne"@), jstr("contains"@)])),
                    ("type"@, jstr("string"@)),
                ])),
                ("uri"@, prop_spec("string"@, Some("Table URI (coda://docs/{docId}/tables/{tableId})"@))),
                ("value"@, prop_spec("string"@, Some("Value to match"@))),
            ]),
            seq![jstr("uri"@), jstr("column"@), jstr("value"@)],
            true,
        ),
    )
}

/// The schemas of the compound tools, in the order discovery lists them.
pub open spec fn synthetic_schemas_spec() -> Seq<JsonV> {
    seq![page_create_schema(), doc_scaffold_schema(), doc_summarize_schema(), table_search_schema()]
}

fn strs(v: &[&str]) -> (r: Json)
    ensures
        r@ == JsonV::Array(v@.map_values(|s: &str| jstr(s@))),
{
    let mut items: Vec<Json> = Vec::new();
    let mut i: usize = 0;
    while i < v.len()
        invariant
            i <= v.len(),
            items_view(items@) == v@.take(i as int).map_values(|s: &str| jstr(s@)),
        decreases v.len() - i,
    {
        push_item(&mut items, Json::str(v[i]));
        i = i + 1;
        assert(items_view(items@) =~= v@.take(i as int).map_values(|s: &str| jstr(s@)));
    }
    assert(v@.take(i as int) =~= v@);
    array_of(items)
}

fn prop(ty: &str, description: Option<&str>) -> (r: Json)
    ensures
        r@ == prop_spec(ty@, match description { Some(d) => Some(d@), None => None }),
{
    let mut es: Vec<(String, Json)> = Vec::new();
    match description {
        Some(d) => push_entry(&mut es, "description", Json::str(d)),
        None => {},
    }
    push_entry(&mut es, "type", Json::str(ty));
    proof {
        match description {
            Some(d) => assert(entries_view(es@) =~= seq![("description"@, jstr(d@)), ("type"@, jstr(ty@))]),
            None => assert(entries_view(es@) =~= seq![("type"@, jstr(ty@))]),
        }
    }
    object_of(es)
}

fn object_schema(properties: Json, required: &[&str], with_schema: bool) -> (r: Json)
    ensures
        r@ == object_schema_spec(properties@, required@.map_values(|s: &str| jstr(s@)), with_schema),
{
    let ghost pv = properties@;
    let mut es: Vec<(String, Json)> = Vec::new();
    if with_schema {
        push_entry(&mut es, "$schema", Json::str("http://json-schema.org/draft-07/schema#"));
    }
    push_entry(&mut es, "properties", properties);
    push_entry(&mut es, "required", strs(required));
    push_entry(&mut es, "type", Json::str("object"));
    assert(entries_view(es@) =~= object_schema_spec(pv, required@.map_values(|s: &str| jstr(s@)), with_schema)->Object_0);
    object_of(es)
}

/// A tool's schema: its description, input schema and name.
fn tool_schema(name: &str, description: &str, input: Json) -> (r: Json)
    ensures
        r@ == tool_schema_spec(name@, description@, input@),
{
    let ghost iv = input@;
    let mut es: Vec<(String, Json)> = Vec::new();
    push_entry(&mut es, "description", Json::str(description));
    push_entry(&mut es, "inputSchema", input);
    push_entry(&mut es, "name", Json::str(name));
    assert(entries_view(es@) =~= tool_schema_spec(name@, description@, iv)->Object_0);
    object_of(es)
}

/// Return JSON Schema definitions for compound tools so they appear in discovery.
pub fn synthetic_tool_schemas() -> (r: Vec<Json>)
    ensures
        r.len() == synthetic_schemas_spec().len(),
        forall|i: int| 0 <= i < r.len() ==> #[trigger] r@[i]@ == synthetic_schemas_spec()[i],
{
    // page_create_with_content
    let mut p: Vec<(String, Json)> = Vec::new();
    push_entry(&mut p, "content", prop("string", Some("Markdown content to insert (optional)")));
    push_entry(&mut p, "subtitle", prop("string", Some("Page subtitle")));
    push_entry(&mut p, "title", prop("string", Some("Page title")));
    push_entry(&mut p, "uri", prop("string", Some("Parent — document URI for top-level, page URI for nested")));
    assert(entries_view(p@) =~= seq![
        ("content"@, prop_spec("string"@, Some("Markdown content to insert (optional)"@))),
        ("subtitle"@, prop_spec("string"@, Some("Page subtitle"@))),
        ("title"@, prop_spec("string"@, Some("Page title"@))),
        ("uri"@, prop_spec("string"@, Some("Parent — document URI for top-level, page URI for nested"@))),
    ]);
    let mut r1: Vec<&str> = Vec::new();
    r1.push("uri");
    r1.push("title");
    assert(r1@.map_values(|s: &str| jstr(s@)) =~= seq![jstr("uri"@), jstr("title"@)]);
    let s1 = object_schema(object_of(p), r1.as_slice(), true);
    let t1 = tool_schema(
        "page_create_with_content",
        "Create a new page and insert markdown content in a single call. Eliminates the need to chain page_create → content_modify.",
        s1,
    );
    assert(t1@ == page_create_schema());

    // doc_scaffold
    let mut tp: Vec<(String, Json)> = Vec::new();
    push_entry(&mut tp, "columns", prop("array", None));
    push_entry(&mut tp, "name", prop("string", None));
    push_entry(&mut tp, "rows", prop("array", None));
    assert(entries_view(tp@) =~= seq![
        ("columns"@, prop_spec("array"@, None)),
        ("name"@, prop_spec("string"@, None)),
        ("rows"@, prop_spec("array"@, None)),
    ]);
    let mut rt: Vec<&str> = Vec::new();
    rt.push("name");
    rt.push("columns");
    assert(rt@.map_values(|s: &str| jstr(s@)) =~= seq![jstr("name"@), jstr("columns"@)]);
    let table_item = object_schema(object_of(tp), rt.as_slice(), false);
    let ghost table_v = table_item@;
    let mut tables: Vec<(String, Json)> = Vec::new();
    push_entry(&mut tables, "items", table_item);
    push_entry(&mut tables, "type", Json::str("array"));
    assert(entries_view(tables@) =~= seq![("items"@, table_v), ("type"@, jstr("array"@))]);
    let tables_obj = object_of(tables);
    let ghost tables_v = tables_obj@;
    let mut pp: Vec<(String, Json)> = Vec::new();
    push_entry(&mut pp, "content", prop("string", Some("Markdown content")));
    push_entry(&mut pp, "subtitle", prop("string", None));
    push_entry(&mut pp, "tables", tables_obj);
    push_entry(&mut pp, "title", prop("string", None));
    assert(entries_view(pp@) =~= seq![
        ("content"@, prop_spec("string"@, Some("Markdown content"@))),
        ("subtitle"@, prop_spec("string"@, None)),
        ("tables"@, tables_v),
        ("title"@, prop_spec("string"@, None)),
    ]);
    let mut rp: Vec<&str> = Vec::new();
    rp.push("title");
    assert(rp@.map_values(|s: &str| jstr(s@)) =~= seq![jstr("title"@)]);
    let page_item = object_schema(object_of(pp), rp.as_slice(), false);
    let ghost page_v = page_item@;
    let mut pages: Vec<(String, Json)> = Vec::new();
    push_entry(&mut pages, "description", Json::str("Pages to create"));
    push_entry(&mut pages, "items", page_item);
    push_entry(&mut pages, "type", Json::str("array"));
    assert(entries_view(pages@) =~= seq![
        ("description"@, jstr("Pages to create"@)),
        ("items"@, page_v),
        ("type"@, jstr("array"@)),
    ]);
    let pages_obj = object_of(pages);
    let ghost pages_v = pages_obj@;
    let mut d: Vec<(String, Json)> = Vec::new();
    push_entry(&mut d, "pages", pages_obj);
    push_entry(&mut d, "title", prop("string", Some("Document title")));
    assert(entries_view(d@) =~= seq![
        ("pages"@, pages_v),
        ("title"@, prop_spec("string"@, Some("Document title"@))),
    ]);
    let mut r2: Vec<&str> = Vec::new();
    r2.push("title");
    assert(r2@.map_values(|s: &str| jstr(s@)) =~= seq![jstr("title"@)]);
    let s2 = object_schema(object_of(d), r2.as_slice(), true);
    let t2 = tool_schema(
        "doc_scaffold",
        "Create a complete document with pages, content, tables, and rows in a single call.",
        s2,
    );
    assert(t2@ == doc_scaffold_schema());

    // doc_summarize
    let mut sp: Vec<(String, Json)> = Vec::new();
    push_entry(&mut sp, "uri", prop("string", Some("Document URI (coda://docs/{docId})")));
    assert(entries_view(sp@) =~= seq![("uri"@, prop_spec("string"@, Some("Document URI (coda://docs/{docId})"@)))]);
    let mut r3: Vec<&str> = Vec::new();
    r3.push("uri");
    assert(r3@.map_values(|s: &str| jstr(s@)) =~= seq![jstr("uri"@)]);
    let s3 = object_schema(object_of(sp), r3.as_slice(), true);
    let t3 = tool_schema(
        "doc_summarize",
        "Read a document and return a condensed summary: pages, tables, row counts, and content previews. ~500 tokens instead of 10+ calls.",
        s3,
    );
    assert(t3@ == doc_summarize_schema());

    // table_search
    let mut op: Vec<(String, Json)> = Vec::new();
    push_entry(&mut op, "description", Json::str("Operator: eq (default), ne, contains"));
    let mut ops: Vec<&str> = Vec::new();
    ops.push("eq");
    ops.push("ne");
    ops.push("contains");
    assert(ops@.map_values(|s: &str| jstr(s@)) =~= seq![jstr("eq"@), jstr("ne"@), jstr("contains"@)]);
    push_entry(&mut op, "enum", strs(ops.as_slice()));
    push_entry(&mut op, "type", Json::str("string"));
    assert(entries_view(op@) =~= seq![
        ("description"@, jstr("Operator: eq (default), ne, contains"@)),
        ("enum"@, JsonV::Array(seq![jstr("eq"@), jstr("ne"@), jstr("contains"@)])),
        ("type"@, jstr("string"@)),
    ]);
    let op_obj = object_of(op);
    let ghost op_v = op_obj@;
    let mut ts: Vec<(String, Json)> = Vec::new();
    push_entry(&mut ts, "column", prop("string", Some("Column name or column ID (c-xxxxx) to filter on")));
    push_entry(&mut ts, "operator", op_obj);
    push_entry(&mut ts, "uri", prop("string", Some("Table URI (coda://docs/{docId}/tables/{tableId})")));
    push_entry(&mut ts, "value", prop("string", Some("Value to match")));
    assert(entries_view(ts@) =~= seq![
        ("column"@, prop_spec("string"@, Some("Column name or column ID (c-xxxxx) to filter on"@))),
        ("operator"@, op_v),
        ("uri"@, prop_spec("string"@, Some("Table URI (coda://docs/{docId}/tables/{tableId})"@))),
        ("value"@, prop_spec("string"@, Some("Value to match"@))),
    ]);
    let mut r4: Vec<&str> = Vec::new();
    r4.push("uri");
    r4.push("column");
    r4.push("value");
    assert(r4@.map_values(|s: &str| jstr(s@)) =~= seq![jstr("uri"@), jstr("column"@), jstr("value"@)]);
    let s4 = object_schema(object_of(ts), r4.as_slice(), true);
    let t4 = tool_schema(
        "table_search",
        "Read table rows and filter client-side by column value. Returns only matching rows.",
        s4,
    );
    assert(t4@ == table_search_schema());

    let mut out: Vec<Json> = Vec::new();
    out.push(t1);
    out.push(t2);
    out.push(t3);
    out.push(t4);
    out
}

} // verus!
