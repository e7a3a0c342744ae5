//! The registry of known Coda tools with their descriptions and required
//! fields. It bootstraps discovery: tools not listed here still work through
//! dynamic dispatch.
use vstd::prelude::*;

verus! {

/// A known tool: its name, what it does, and its required fields with their
/// JSON types.
pub struct Tool {
    pub name: &'static str,
    pub description: &'static str,
    pub required: Vec<(&'static str, &'static str)>,
}

/// The model of a tool: name, description, required fields with their types.
pub open spec fn tool_view(t: Tool) -> (Seq<char>, Seq<char>, Seq<(Seq<char>, Seq<char>)>) {
    (t.name@, t.description@, t.required@.map_values(|f: (&'static str, &'static str)| (f.0@, f.1@)))
}

/// The known tools, in the order they are listed.
pub open spec fn registry() -> Seq<(Seq<char>, Seq<char>, Seq<(Seq<char>, Seq<char>)>)> {
    seq![
        ("whoami"@, "Get info about the authenticated user"@, Seq::empty()),
        ("document_create"@, "Create a new Coda doc"@, seq![("title"@, "string"@)]),
        ("document_delete"@, "Delete a doc (DESTRUCTIVE)"@, seq![("docId"@, "string"@)]),
        ("document_read"@, "Read full document structure"@, seq![("docId"@, "string"@)]),
        ("search"@, "Search across docs for pages, tables, and rows"@, seq![("query"@, "string"@)]),
        ("url_decode"@, "Decode a Coda URL into resource IDs"@, seq![("url"@, "string"@)]),
        ("tool_guide"@, "Get usage guidance for a topic"@, seq![("topic"@, "string"@)]),
        ("page_create"@, "Create a new page"@, seq![("docId"@, "string"@), ("title"@, "string"@)]),
        ("page_read"@, "Read page content and metadata"@, seq![("docId"@, "string"@)]),
        ("page_update"@, "Update page properties"@, seq![("docId"@, "string"@), ("pageId"@, "string"@), ("updateFields"@, "object"@)]),
        ("page_delete"@, "Delete a page (DESTRUCTIVE)"@, seq![("docId"@, "string"@), ("pageId"@, "string"@)]),
        ("page_duplicate"@, "Duplicate a page with all content"@, seq![("docId"@, "string"@), ("pageId"@, "string"@)]),
        ("table_create"@, "Create a table with typed columns"@, seq![("docId"@, "string"@), ("canvasId"@, "string"@), ("name"@, "string"@), ("columns"@, "array"@)]),
        ("table_add_rows"@, "Add rows to a table (bulk)"@, seq![("docId"@, "string"@), ("tableId"@, "string"@), ("columns"@, "array"@), ("rows"@, "array"@)]),
        ("table_add_columns"@, "Add columns to a table"@, seq![("docId"@, "string"@), ("tableId"@, "string"@), ("columns"@, "array"@)]),
        ("table_read_rows"@, "Read rows from a table"@, seq![("docId"@, "string"@), ("tableId"@, "string"@)]),
        ("table_delete"@, "Delete a table (DESTRUCTIVE)"@, seq![("docId"@, "string"@), ("tableId"@, "string"@)]),
        ("table_delete_rows"@, "Delete rows from a table"@, seq![("docId"@, "string"@), ("tableId"@, "string"@), ("data"@, "object"@)]),
        ("table_delete_columns"@, "Delete columns from a table"@, seq![("docId"@, "string"@), ("tableId"@, "string"@), ("columnIds"@, "array"@)]),
        ("table_update_rows"@, "Update rows in a table"@, seq![("docId"@, "string"@), ("tableId"@, "string"@), ("rows"@, "array"@)]),
        ("table_update_columns"@, "Update column properties"@, seq![("docId"@, "string"@), ("tableId"@, "string"@), ("columns"@, "array"@)]),
        ("table_view_configure"@, "Configure view: filter, layout, name"@, seq![("docId"@, "string"@), ("tableId"@, "string"@), ("tableViewId"@, "string"@)]),
        ("content_modify"@, "Write page content: markdown, callouts, code"@, seq![("docId"@, "string"@), ("canvasId"@, "string"@), ("operations"@, "array"@)]),
        ("content_image_upload"@, "Upload an image to a page"@, seq![("docId"@, "string"@), ("blobId"@, "string"@), ("imageUrl"@, "string"@)]),
        ("comment_manage"@, "Add, reply to, or delete comments"@, seq![("docId"@, "string"@), ("data"@, "object"@)]),
        ("formula_create"@, "Create a named formula"@, seq![("docId"@, "string"@), ("canvasId"@, "string"@), ("formula"@, "string"@)]),
        ("formula_execute"@, "Evaluate a CFL expression"@, seq![("docId"@, "string"@), ("formula"@, "string"@)]),
        ("formula_update"@, "Update a formula"@, seq![("docId"@, "string"@), ("formulaId"@, "string"@), ("updatedFields"@, "object"@)]),
        ("formula_delete"@, "Delete a formula"@, seq![("docId"@, "string"@), ("formulaId"@, "string"@)]),
    ]
}

/// The known tools.
pub fn tools() -> (r: Vec<Tool>)
    ensures
        r@.map_values(|t: Tool| tool_view(t)) == registry(),
{
    let r = vec![
        Tool { name: "whoami", description: "Get info about the authenticated user", required: vec![] },
        Tool { name: "document_create", description: "Create a new Coda doc", required: vec![("title", "string")] },
        Tool { name: "document_delete", description: "Delete a doc (DESTRUCTIVE)", required: vec![("docId", "string")] },
        Tool { name: "document_read", description: "Read full document structure", required: vec![("docId", "string")] },
        Tool { name: "search", description: "Search across docs for pages, tables, and rows", required: vec![("query", "string")] },
        Tool { name: "url_decode", description: "Decode a Coda URL into resource IDs", required: vec![("url", "string")] },
        Tool { name: "tool_guide", description: "Get usage guidance for a topic", required: vec![("topic", "string")] },
        Tool { name: "page_create", description: "Create a new page", required: vec![("docId", "string"), ("title", "string")] },
        Tool { name: "page_read", description: "Read page content and metadata", required: vec![("docId", "string")] },
        Tool { name: "page_update", description: "Update page properties", required: vec![("docId", "string"), ("pageId", "string"), ("updateFields", "object")] },
        Tool { name: "page_delete", description: "Delete a page (DESTRUCTIVE)", required: vec![("docId", "string"), ("pageId", "string")] },
        Tool { name: "page_duplicate", description: "Duplicate a page with all content", required: vec![("docId", "string"), ("pageId", "string")] },
        Tool { name: "table_create", description: "Create a table with typed columns", required: vec![("docId", "string"), ("canvasId", "string"), ("name", "string"), ("columns", "array")] },
        Tool { name: "table_add_rows", description: "Add rows to a table (bulk)", required: vec![("docId", "string"), ("tableId", "string"), ("columns", "array"), ("rows", "array")] },
        Tool { name: "table_add_columns", description: "Add columns to a table", required: vec![("docId", "string"), ("tableId", "string"), ("columns", "array")] },
        Tool { name: "table_read_rows", description: "Read rows from a table", required: vec![("docId", "string"), ("tableId", "string")] },
        Tool { name: "table_delete", description: "Delete a table (DESTRUCTIVE)", required: vec![("docId", "string"), ("tableId", "string")] },
        Tool { name: "table_delete_rows", description: "Delete rows from a table", required: vec![("docId", "string"), ("tableId", "string"), ("data", "object")] },
        Tool { name: "table_delete_columns", description: "Delete columns from a table", required: vec![("docId", "string"), ("tableId", "string"), ("columnIds", "array")] },
        Tool { name: "table_update_rows", description: "Update rows in a table", required: vec![("docId", "string"), ("tableId", "string"), ("rows", "array")] },
        Tool { name: "table_update_columns", description: "Update column properties", required: vec![("docId", "string"), ("tableId", "string"), ("columns", "array")] },
        Tool { name: "table_view_configure", description: "Configure view: filter, layout, name", required: vec![("docId", "string"), ("tableId", "string"), ("tableViewId", "string")] },
        Tool { name: "content_modify", description: "Write page content: markdown, callouts, code", required: vec![("docId", "string"), ("canvasId", "string"), ("operations", "array")] },
        Tool { name: "content_image_upload", description: "Upload an image to a page", required: vec![("docId", "string"), ("blobId", "string"), ("imageUrl", "string")] },
        Tool { name: "comment_manage", description: "Add, reply to, or delete comments", required: vec![("docId", "string"), ("data", "object")] },
        Tool { name: "formula_create", description: "Create a named formula", required: vec![("docId", "string"), ("canvasId", "string"), ("formula", "string")] },
        Tool { name: "formula_execute", description: "Evaluate a CFL expression", required: vec![("docId", "string"), ("formula", "string")] },
        Tool { name: "formula_update", description: "Update a formula", required: vec![("docId", "string"), ("formulaId", "string"), ("updatedFields", "object")] },
        Tool { name: "formula_delete", description: "Delete a formula", required: vec![("docId", "string"), ("formulaId", "string")] },
    ];
    assert(r@.map_values(|t: Tool| tool_view(t)) =~= registry()) by {
        assert(r@[0].required@.map_values(|f: (&'static str, &'static str)| (f.0@, f.1@)) =~= registry()[0].2);
        assert(r@[1].required@.map_values(|f: (&'static str, &'static str)| (f.0@, f.1@)) =~= registry()[1].2);
        assert(r@[2].required@.map_values(|f: (&'static str, &'static str)| (f.0@, f.1@)) =~= registry()[2].2);
        assert(r@[3].required@.map_values(|f: (&'static str, &'static str)| (f.0@, f.1@)) =~= registry()[3].2);
        assert(r@[4].required@.map_values(|f: (&'static str, &'static str)| (f.0@, f.1@)) =~= registry()[4].2);
        assert(r@[5].required@.map_values(|f: (&'static str, &'static str)| (f.0@, f.1@)) =~= registry()[5].2);
        assert(r@[6].required@.map_values(|f: (&'static str, &'static str)| (f.0@, f.1@)) =~= registry()[6].2);
        assert(r@[7].required@.map_values(|f: (&'static str, &'static str)| (f.0@, f.1@)) =~= registry()[7].2);
        assert(r@[8].required@.map_values(|f: (&'static str, &'static str)| (f.0@, f.1@)) =~= registry()[8].2);
        assert(r@[9].required@.map_values(|f: (&'static str, &'static str)| (f.0@, f.1@)) =~= registry()[9].2);
        assert(r@[10].required@.map_values(|f: (&'static str, &'static str)| (f.0@, f.1@)) =~= registry()[10].2);
        assert(r@[11].required@.map_values(|f: (&'static str, &'static str)| (f.0@, f.1@)) =~= registry()[11].2);
        assert(r@[12].required@.map_values(|f: (&'static str, &'static str)| (f.0@, f.1@)) =~= registry()[12].2);
        assert(r@[13].required@.map_values(|f: (&'static str, &'static str)| (f.0@, f.1@)) =~= registry()[13].2);
        assert(r@[14].required@.map_values(|f: (&'static str, &'static str)| (f.0@, f.1@)) =~= registry()[14].2);
        assert(r@[15].required@.map_values(|f: (&'static str, &'static str)| (f.0@, f.1@)) =~= registry()[15].2);
        assert(r@[16].required@.map_values(|f: (&'static str, &'static str)| (f.0@, f.1@)) =~= registry()[16].2);
        assert(r@[17].required@.map_values(|f: (&'static str, &'static str)| (f.0@, f.1@)) =~= registry()[17].2);
        assert(r@[18].required@.map_values(|f: (&'static str, &'static str)| (f.0@, f.1@)) =~= registry()[18].2);
        assert(r@[19].required@.map_values(|f: (&'static str, &'static str)| (f.0@, f.1@)) =~= registry()[19].2);
        assert(r@[20].required@.map_values(|f: (&'static str, &'static str)| (f.0@, f.1@)) =~= registry()[20].2);
        assert(r@[21].required@.map_values(|f: (&'static str, &'static str)| (f.0@, f.1@)) =~= registry()[21].2);
        assert(r@[22].required@.map_values(|f: (&'static str, &'static str)| (f.0@, f.1@)) =~= registry()[22].2);
        assert(r@[23].required@.map_values(|f: (&'static str, &'static str)| (f.0@, f.1@)) =~= registry()[23].2);
        assert(r@[24].required@.map_values(|f: (&'static str, &'static str)| (f.0@, f.1@)) =~= registry()[24].2);
        assert(r@[25].required@.map_values(|f: (&'static str, &'static str)| (f.0@, f.1@)) =~= registry()[25].2);
        assert(r@[26].required@.map_values(|f: (&'static str, &'static str)| (f.0@, f.1@)) =~= registry()[26].2);
        assert(r@[27].required@.map_values(|f: (&'static str, &'static str)| (f.0@, f.1@)) =~= registry()[27].2);
        assert(r@[28].required@.map_values(|f: (&'static str, &'static str)| (f.0@, f.1@)) =~= registry()[28].2);
    }
    r
}

} // verus!
