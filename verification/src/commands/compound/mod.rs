//! Compound operations: multi-step tool orchestration for agents.
//!
//! Each compound tool composes several Coda tool calls into one invocation.
//! The decisions are state machines here; whoever runs one performs the call it
//! asks for and hands back the outcome.
use vstd::prelude::*;
use crate::error::{CodaError, CodaErrorV};
use crate::json::{
    Json, JsonV, str_eq, lookup, entries_view, items_view, push_entry, push_item, object_of, array_of,
    or_null,
};
use crate::text::{
    chars_of, contains, contains_exec, decimal, eq_ignore_ascii_case, extend_str, lowercase,
    push_decimal, str_eq_ignore_ascii_case, string_of, to_lowercase,
};

pub mod retry;
pub mod page_content;
pub mod scaffold;
pub mod summarize;
pub mod schemas;

verus! {

/// What a compound operation asks of whoever runs it next.
pub enum Step {
    /// Call `tool` with `payload` and hand back the outcome; with `retry`, a
    /// transient failure is repeated (up to three repeats) before that.
    Call { tool: String, payload: Json, retry: bool },
    /// The operation is over, with this result.
    Finish(Result<Json, CodaError>),
}

/// The model of a step.
pub enum StepV {
    Call(Seq<char>, JsonV, bool),
    Finish(Result<JsonV, CodaErrorV>),
}

/// The model of a result.
pub open spec fn result_view(r: Result<Json, CodaError>) -> Result<JsonV, CodaErrorV> {
    match r {
        Ok(v) => Ok(v@),
        Err(e) => Err(e@),
    }
}

/// The model of an outcome handed back: the value, or the error itself.
pub open spec fn outcome_view(r: Result<Json, CodaError>) -> Result<JsonV, CodaError> {
    match r {
        Ok(v) => Ok(v@),
        Err(e) => Err(e),
    }
}

impl View for Step {
    type V = StepV;

    open spec fn view(&self) -> StepV {
        match self {
            Step::Call { tool, payload, retry } => StepV::Call(tool@, payload@, *retry),
            Step::Finish(r) => StepV::Finish(result_view(*r)),
        }
    }
}

/// The number of repeats a retried call is allowed.
pub const RETRIES: u32 = 3;

/// A JSON string value.
pub open spec fn jstr(s: Seq<char>) -> JsonV {
    JsonV::Str(s)
}

/// The payload that inserts markdown into a canvas.
pub open spec fn content_payload_spec(canvas: Seq<char>, md: Seq<char>) -> JsonV {
    JsonV::Object(seq![
        ("operations"@, JsonV::Array(seq![JsonV::Object(seq![
            ("blockType"@, jstr("markdown"@)),
            ("content"@, jstr(md)),
            ("operation"@, jstr("insert_element"@)),
        ])])),
        ("uri"@, jstr(canvas)),
    ])
}

/// The payload that inserts markdown into a canvas.
pub fn content_payload(canvas: &str, md: &str) -> (r: Json)
    ensures
        r@ == content_payload_spec(canvas@, md@),
{
    let mut op: Vec<(String, Json)> = Vec::new();
    push_entry(&mut op, "blockType", Json::str("markdown"));
    push_entry(&mut op, "content", Json::str(md));
    push_entry(&mut op, "operation", Json::str("insert_element"));
    let ghost inner = seq![
        ("blockType"@, jstr("markdown"@)),
        ("content"@, jstr(md@)),
        ("operation"@, jstr("insert_element"@)),
    ];
    assert(entries_view(op@) =~= inner);
    let mut ops: Vec<Json> = Vec::new();
    push_item(&mut ops, object_of(op));
    assert(items_view(ops@) =~= seq![JsonV::Object(inner)]);
    let mut es: Vec<(String, Json)> = Vec::new();
    push_entry(&mut es, "operations", array_of(ops));
    push_entry(&mut es, "uri", Json::str(canvas));
    let r = object_of(es);
    assert(entries_view(es@) =~= content_payload_spec(canvas@, md@)->Object_0);
    r
}

/// A string list as a JSON array of strings.
pub open spec fn str_array(v: Seq<Seq<char>>) -> JsonV {
    JsonV::Array(v.map_values(|s: Seq<char>| JsonV::Str(s)))
}

/// A string list as a JSON array of strings.
pub fn string_array(v: &Vec<String>) -> (r: Json)
    ensures
        r@ == str_array(crate::text::string_views(v@)),
{
    let mut items: Vec<Json> = Vec::new();
    let mut i: usize = 0;
    while i < v.len()
        invariant
            i <= v.len(),
            items_view(items@) == crate::text::string_views(v@).take(i as int).map_values(|s: Seq<char>| JsonV::Str(s)),
        decreases v.len() - i,
    {
        let ghost before = items@;
        push_item(&mut items, Json::Str(v[i].clone()));
        i = i + 1;
        assert(items_view(items@) =~= crate::text::string_views(v@).take(i as int).map_values(|s: Seq<char>| JsonV::Str(s)));
    }
    assert(crate::text::string_views(v@).take(i as int) =~= crate::text::string_views(v@));
    array_of(items)
}

/// A step of a dry-run preview.
pub open spec fn preview_step(n: nat, tool: Seq<char>, payload: JsonV) -> JsonV {
    JsonV::Object(seq![("payload"@, payload), ("step"@, JsonV::Number(decimal(n))), ("tool"@, jstr(tool))])
}

/// What a dry run of a compound tool shows: the steps it would take.
pub open spec fn dry_run_spec(name: Seq<char>, payload: JsonV) -> JsonV {
    let c = ("compound"@, jstr(name));
    if name == "page_create_with_content"@ {
        JsonV::Object(seq![c, ("steps"@, JsonV::Array(seq![
            preview_step(1, "page_create"@, JsonV::Object(seq![
                ("title"@, or_null(payload.get("title"@))),
                ("uri"@, or_null(payload.get("uri"@))),
            ])),
            preview_step(2, "content_modify"@, JsonV::Object(seq![
                ("operations"@, JsonV::Array(seq![JsonV::Object(seq![
                    ("blockType"@, jstr("markdown"@)),
                    ("operation"@, jstr("insert_element"@)),
                ])])),
                ("uri"@, jstr("<from step 1: canvasUri>"@)),
            ])),
        ]))])
    } else if name == "doc_scaffold"@ {
        let n: nat = match payload.get_array("pages"@) { Some(a) => a.len(), None => 0 };
        JsonV::Object(seq![
            c,
            ("estimatedCalls"@, JsonV::Number(decimal(n * 2 + 1))),
            ("steps"@, jstr("1 document_create + "@ + decimal(n) + " page_create + content_modify + table_create as needed"@)),
        ])
    } else if name == "doc_summarize"@ {
        JsonV::Object(seq![c, ("steps"@, JsonV::Array(seq![
            jstr("1 document_read"@), jstr("N page_read (one per page, max 20)"@),
        ]))])
    } else if name == "table_search"@ {
        JsonV::Object(seq![c, ("steps"@, JsonV::Array(seq![
            jstr("1 table_read_rows (auto-paginated)"@), jstr("client-side filter"@),
        ]))])
    } else {
        JsonV::Object(seq![c, ("payload"@, payload)])
    }
}

fn two_strings(a: &str, b: &str) -> (r: Json)
    ensures
        r@ == JsonV::Array(seq![jstr(a@), jstr(b@)]),
{
    let mut items: Vec<Json> = Vec::new();
    push_item(&mut items, Json::str(a));
    push_item(&mut items, Json::str(b));
    assert(items_view(items@) =~= seq![jstr(a@), jstr(b@)]);
    array_of(items)
}

fn step_entry(n: u64, tool: &str, payload: Json) -> (r: Json)
    ensures
        r@ == preview_step(n as nat, tool@, payload@),
{
    let mut es: Vec<(String, Json)> = Vec::new();
    push_entry(&mut es, "payload", payload);
    push_entry(&mut es, "step", Json::number(n));
    push_entry(&mut es, "tool", Json::str(tool));
    assert(entries_view(es@) =~= preview_step(n as nat, tool@, entries_view(es@)[0].1)->Object_0);
    object_of(es)
}

/// Generate a dry-run preview of the steps a compound operation would take.
pub fn dry_run_preview(tool_name: &str, payload: &Json) -> (r: Json)
    requires
        payload@.get_array("pages"@) matches Some(a) ==> a.len() <= 0x7fff_ffff_ffff_ffff,
    ensures
        r@ == dry_run_spec(tool_name@, payload@),
{
    let mut es: Vec<(String, Json)> = Vec::new();
    push_entry(&mut es, "compound", Json::str(tool_name));
    if str_eq(tool_name, "page_create_with_content") {
        let mut p1: Vec<(String, Json)> = Vec::new();
        push_entry(&mut p1, "title", payload.get_or_null("title"));
        push_entry(&mut p1, "uri", payload.get_or_null("uri"));
        let ghost p1v = entries_view(p1@);
        let mut op: Vec<(String, Json)> = Vec::new();
        push_entry(&mut op, "blockType", Json::str("markdown"));
        push_entry(&mut op, "operation", Json::str("insert_element"));
        let ghost opv = entries_view(op@);
        let mut ops: Vec<Json> = Vec::new();
        push_item(&mut ops, object_of(op));
        let ghost opsv = items_view(ops@);
        let mut p2: Vec<(String, Json)> = Vec::new();
        push_entry(&mut p2, "operations", array_of(ops));
        push_entry(&mut p2, "uri", Json::str("<from step 1: canvasUri>"));
        let ghost p2v = entries_view(p2@);
        let mut steps: Vec<Json> = Vec::new();
        push_item(&mut steps, step_entry(1, "page_create", object_of(p1)));
        push_item(&mut steps, step_entry(2, "content_modify", object_of(p2)));
        let ghost stepsv = items_view(steps@);
        push_entry(&mut es, "steps", array_of(steps));
        proof {
            assert(p1v =~= seq![
                ("title"@, or_null(payload@.get("title"@))),
                ("uri"@, or_null(payload@.get("uri"@))),
            ]);
            assert(opv =~= seq![("blockType"@, jstr("markdown"@)), ("operation"@, jstr("insert_element"@))]);
            assert(opsv =~= seq![JsonV::Object(opv)]);
            assert(p2v =~= seq![("operations"@, JsonV::Array(opsv)), ("uri"@, jstr("<from step 1: canvasUri>"@))]);
            assert(stepsv =~= seq![
                preview_step(1, "page_create"@, JsonV::Object(p1v)),
                preview_step(2, "content_modify"@, JsonV::Object(p2v)),
            ]);
            assert(entries_view(es@) =~= dry_run_spec(tool_name@, payload@)->Object_0);
        }
    } else if str_eq(tool_name, "doc_scaffold") {
        let n: u64 = match payload.get_array("pages") {
            Some(a) => a.len() as u64,
            None => 0,
        };
        push_entry(&mut es, "estimatedCalls", Json::number(n * 2 + 1));
        let mut t: Vec<char> = Vec::new();
        extend_str(&mut t, "1 document_create + ");
        push_decimal(&mut t, n);
        extend_str(&mut t, " page_create + content_modify + table_create as needed");
        push_entry(&mut es, "steps", Json::Str(string_of(t.as_slice())));
        assert(entries_view(es@) =~= dry_run_spec(tool_name@, payload@)->Object_0);
    } else if str_eq(tool_name, "doc_summarize") {
        push_entry(&mut es, "steps", two_strings("1 document_read", "N page_read (one per page, max 20)"));
        assert(entries_view(es@) =~= dry_run_spec(tool_name@, payload@)->Object_0);
    } else if str_eq(tool_name, "table_search") {
        push_entry(&mut es, "steps", two_strings("1 table_read_rows (auto-paginated)", "client-side filter"));
        assert(entries_view(es@) =~= dry_run_spec(tool_name@, payload@)->Object_0);
    } else {
        push_entry(&mut es, "payload", payload.duplicate());
        assert(entries_view(es@) =~= dry_run_spec(tool_name@, payload@)->Object_0);
    }
    object_of(es)
}

/// The names of the compound tools.
pub open spec fn compound_tool_names() -> Seq<Seq<char>> {
    seq!["page_create_with_content"@, "doc_scaffold"@, "doc_summarize"@, "table_search"@]
}

/// Check if a tool name is a compound operation.
pub fn is_compound(name: &str) -> (r: bool)
    ensures
        r == compound_tool_names().contains(name@),
{
    let ghost names = compound_tool_names();
    if str_eq(name, "page_create_with_content") {
        assert(names[0] == name@);
        true
    } else if str_eq(name, "doc_scaffold") {
        assert(names[1] == name@);
        true
    } else if str_eq(name, "doc_summarize") {
        assert(names[2] == name@);
        true
    } else if str_eq(name, "table_search") {
        assert(names[3] == name@);
        true
    } else {
        assert(!names.contains(name@)) by {
            assert forall|i: int| 0 <= i < names.len() implies names[i] != name@ by {
                if i == 0 {} else if i == 1 {} else if i == 2 {} else {}
            }
        }
        false
    }
}

/// Whether a cell matches a search value under an operator, ignoring case:
/// `eq` (also any unknown operator), `ne`, or `contains`.
pub open spec fn match_value_spec(cell: Seq<char>, search: Seq<char>, operator: Seq<char>) -> bool {
    let c = lowercase(cell);
    let s = lowercase(search);
    if operator == "ne"@ {
        c != s
    } else if operator == "contains"@ {
        contains(c, s)
    } else {
        c == s
    }
}

/// Matching ignores case on both sides: `contains` holds when the lowercase
/// cell holds the lowercase search value, `eq` when the two lowercase texts are
/// the same, `ne` when they differ.
pub proof fn law_match_ignores_case(cell: Seq<char>, search: Seq<char>)
    ensures
        match_value_spec(cell, search, "contains"@) == contains(lowercase(cell), lowercase(search)),
        match_value_spec(cell, search, "eq"@) == (lowercase(cell) == lowercase(search)),
        match_value_spec(cell, search, "ne"@) == (lowercase(cell) != lowercase(search)),
{
    reveal_strlit("contains");
    reveal_strlit("eq");
    reveal_strlit("ne");
    assert("contains"@ != "ne"@) by { assert("contains"@.len() != "ne"@.len()); }
    assert("eq"@ != "ne"@) by { assert("eq"@[0] != "ne"@[0]); }
    assert("eq"@ != "contains"@) by { assert("eq"@.len() != "contains"@.len()); }
}

/// Match a cell value against a search value using the given operator.
pub fn match_value(cell: &str, search: &str, operator: &str) -> (r: bool)
    ensures
        r == match_value_spec(cell@, search@, operator@),
{
    let cell_lower = to_lowercase(cell);
    let search_lower = to_lowercase(search);
    let same = str_eq(cell_lower.as_str(), search_lower.as_str());
    if str_eq(operator, "ne") {
        !same
    } else if str_eq(operator, "contains") {
        let c = chars_of(cell_lower.as_str());
        let s = chars_of(search_lower.as_str());
        contains_exec(c.as_slice(), s.as_slice())
    } else {
        same
    }
}

/// The text of a cell: strings, numbers and booleans as written; an object's
/// `content` string; anything else empty.
pub open spec fn cell_string(v: JsonV) -> Seq<char> {
    match v {
        JsonV::Str(s) => s,
        JsonV::Number(n) => n,
        JsonV::Bool(b) => if b { "true"@ } else { "false"@ },
        JsonV::Object(es) => match lookup(es, "content"@) {
            Some(JsonV::Str(c)) => c,
            _ => Seq::empty(),
        },
        _ => Seq::empty(),
    }
}

/// Unwrap a cell value: handles raw strings, numbers, and {content: "..."} objects.
pub fn unwrap_cell(cell: &Json) -> (r: String)
    ensures
        r@ == cell_string(cell@),
{
    match cell {
        Json::Str(s) => s.clone(),
        Json::Number(n) => n.clone(),
        Json::Bool(b) => {
            if *b {
                "true".to_owned()
            } else {
                "false".to_owned()
            }
        },
        Json::Object(_) => {
            match cell.get_str("content") {
                Some(c) => c.to_owned(),
                None => String::new(),
            }
        },
        _ => String::new(),
    }
}

/// The text of a row's cell under `key`; empty where the row has no such cell.
pub open spec fn extract_cell_spec(row: JsonV, key: Seq<char>) -> Seq<char> {
    match row.get_object("values"@) {
        Some(values) => match lookup(values, key) {
            Some(cell) => cell_string(cell),
            None => Seq::empty(),
        },
        None => Seq::empty(),
    }
}

/// Extract a cell's display value from a row by its key in the row's values.
pub fn extract_cell_value(row: &Json, column_key: &str) -> (r: String)
    ensures
        r@ == extract_cell_spec(row@, column_key@),
{
    match row.get("values") {
        Some(values) => {
            match values {
                Json::Object(_) => {
                    match values.get(column_key) {
                        Some(cell) => unwrap_cell(cell),
                        None => String::new(),
                    }
                },
                _ => String::new(),
            }
        },
        None => String::new(),
    }
}

/// The identifier a column offers: its `columnId` when it has one, else its `id`,
/// when that is a string.
pub open spec fn column_ident(col: JsonV) -> Option<Seq<char>> {
    match col.get("columnId"@) {
        Some(v) => v.as_str(),
        None => col.get_str("id"@),
    }
}

/// The identifier of the first column whose name equals `name` up to ASCII case
/// and that has an identifier.
pub open spec fn column_id_by_name(columns: Seq<JsonV>, name: Seq<char>) -> Option<Seq<char>>
    decreases columns.len(),
{
    if columns.len() == 0 {
        None
    } else {
        let col = columns[0];
        let col_name = match col.get_str("name"@) {
            Some(n) => n,
            None => Seq::empty(),
        };
        if eq_ignore_ascii_case(col_name, name) && column_ident(col) is Some {
            column_ident(col)
        } else {
            column_id_by_name(columns.drop_first(), name)
        }
    }
}

/// The key under which rows hold a column: the name itself where the first row's
/// values have it, else the identifier of the column of that name, else the name.
pub open spec fn column_key_spec(rows: Seq<JsonV>, columns: Seq<JsonV>, name: Seq<char>) -> Seq<char> {
    let direct = rows.len() > 0 && (match rows[0].get_object("values"@) {
        Some(values) => lookup(values, name) is Some,
        None => false,
    });
    if direct {
        name
    } else {
        match column_id_by_name(columns, name) {
            Some(id) => id,
            None => name,
        }
    }
}

fn column_ident_exec(col: &Json) -> (r: Option<&str>)
    ensures
        r matches Some(s) ==> column_ident(col@) == Some(s@),
        r is None ==> column_ident(col@) is None,
{
    match col.get("columnId") {
        Some(v) => v.as_str(),
        None => col.get_str("id"),
    }
}

/// Resolve a column name to the key used in row values.
/// Checks the columns metadata to map name → columnId.
pub fn resolve_column_key(rows: &[Json], columns: &[Json], column_name: &str) -> (r: String)
    ensures
        r@ == column_key_spec(items_view(rows@), items_view(columns@), column_name@),
{
    let ghost rs = items_view(rows@);
    let ghost cs = items_view(columns@);
    if rows.len() > 0 {
        assert(rs[0] == rows@[0]@);
        match rows[0].get("values") {
            Some(values) => {
                match values {
                    Json::Object(_) => {
                        if values.get(column_name).is_some() {
                            return column_name.to_owned();
                        }
                    },
                    _ => {},
                }
            },
            None => {},
        }
    }
    let mut i: usize = 0;
    assert(cs.skip(0) =~= cs);
    assert(column_key_spec(rs, cs, column_name@) == match column_id_by_name(cs, column_name@) {
        Some(id) => id,
        None => column_name@,
    });
    while i < columns.len()
        invariant
            i <= columns.len(),
            cs == items_view(columns@),
            rs == items_view(rows@),
            column_key_spec(rs, cs, column_name@) == match column_id_by_name(cs, column_name@) {
                Some(id) => id,
                None => column_name@,
            },
            column_id_by_name(cs, column_name@) == column_id_by_name(cs.skip(i as int), column_name@),
        decreases columns.len() - i,
    {
        let col = &columns[i];
        assert(cs.skip(i as int)[0] == col@);
        assert(cs.skip(i as int).drop_first() =~= cs.skip(i + 1));
        let same_name = match col.get_str("name") {
            Some(n) => str_eq_ignore_ascii_case(n, column_name),
            None => column_name.is_empty(),
        };
        assert(same_name == eq_ignore_ascii_case(
            match col@.get_str("name"@) { Some(n) => n, None => Seq::empty() }, column_name@));
        if same_name {
            match column_ident_exec(col) {
                Some(id) => {
                    let ghost rest = cs.skip(i as int);
                    assert(rest[0] == col@);
                    assert(column_ident(rest[0]) == Some(id@));
                    assert(column_id_by_name(rest, column_name@) == Some(id@));
                    return id.to_owned();
                },
                None => {},
            }
        }
        i = i + 1;
    }
    column_name.to_owned()
}

/// The rows whose cell under `key` matches.
pub open spec fn matching_rows(rows: Seq<JsonV>, key: Seq<char>, search: Seq<char>, op: Seq<char>) -> Seq<JsonV>
    decreases rows.len(),
{
    if rows.len() == 0 {
        Seq::empty()
    } else {
        let rest = matching_rows(rows.drop_last(), key, search, op);
        if match_value_spec(extract_cell_spec(rows.last(), key), search, op) {
            rest.push(rows.last())
        } else {
            rest
        }
    }
}

/// The rows of a table read: its `rows`, else its `items`, where that is an array.
pub open spec fn read_rows(result: JsonV) -> Seq<JsonV> {
    let v = match result.get("rows"@) {
        Some(r) => Some(r),
        None => result.get("items"@),
    };
    match v {
        Some(x) => match x.as_array() {
            Some(a) => a,
            None => Seq::empty(),
        },
        None => Seq::empty(),
    }
}

/// The parameters of a table search.
pub struct SearchParams {
    pub uri: String,
    pub column: String,
    pub value: String,
    pub operator: String,
}

/// What a table search gives for a table read.
pub open spec fn search_result_spec(p: (Seq<char>, Seq<char>, Seq<char>), result: JsonV) -> JsonV {
    let (column, value, op) = p;
    let rows = read_rows(result);
    let cols = match result.get_array("columns"@) { Some(c) => c, None => Seq::empty() };
    let key = column_key_spec(rows, cols, column);
    let found = matching_rows(rows, key, value, op);
    JsonV::Object(seq![
        ("filter"@, JsonV::Object(seq![("column"@, jstr(column)), ("operator"@, jstr(op)), ("value"@, jstr(value))])),
        ("matchCount"@, JsonV::Number(decimal(found.len()))),
        ("rows"@, JsonV::Array(found)),
        ("totalRows"@, JsonV::Number(decimal(rows.len()))),
    ])
}

/// Reads the parameters of a table search: `uri`, `column` and `value` are
/// required strings; `operator` is `eq` unless given.
pub fn search_params(payload: &Json) -> (r: Result<SearchParams, CodaError>)
    ensures
        payload@.get_str("uri"@) is None ==> (r matches Err(e) && e@ == CodaErrorV::Validation("Missing required field: uri"@)),
        payload@.get_str("uri"@) is Some && payload@.get_str("column"@) is None
            ==> (r matches Err(e) && e@ == CodaErrorV::Validation("Missing required field: column"@)),
        payload@.get_str("uri"@) is Some && payload@.get_str("column"@) is Some && payload@.get_str("value"@) is None
            ==> (r matches Err(e) && e@ == CodaErrorV::Validation("Missing required field: value"@)),
        r matches Ok(p) ==> {
            &&& payload@.get_str("uri"@) == Some(p.uri@)
            &&& payload@.get_str("column"@) == Some(p.column@)
            &&& payload@.get_str("value"@) == Some(p.value@)
            &&& p.operator@ == match payload@.get_str("operator"@) { Some(o) => o, None => "eq"@ }
        },
        (payload@.get_str("uri"@) is Some && payload@.get_str("column"@) is Some && payload@.get_str("value"@) is Some) ==> r is Ok,
{
    let uri = match payload.get_str("uri") {
        Some(u) => u.to_owned(),
        None => { return Err(CodaError::Validation("Missing required field: uri".to_owned())); },
    };
    let column = match payload.get_str("column") {
        Some(u) => u.to_owned(),
        None => { return Err(CodaError::Validation("Missing required field: column".to_owned())); },
    };
    let value = match payload.get_str("value") {
        Some(u) => u.to_owned(),
        None => { return Err(CodaError::Validation("Missing required field: value".to_owned())); },
    };
    let operator = match payload.get_str("operator") {
        Some(o) => o.to_owned(),
        None => "eq".to_owned(),
    };
    Ok(SearchParams { uri, column, value, operator })
}

/// The payload that reads a table's rows.
pub fn read_rows_payload(uri: &str) -> (r: Json)
    ensures
        r@ == JsonV::Object(seq![("uri"@, jstr(uri@))]),
{
    let mut es: Vec<(String, Json)> = Vec::new();
    push_entry(&mut es, "uri", Json::str(uri));
    assert(entries_view(es@) =~= seq![("uri"@, jstr(uri@))]);
    object_of(es)
}

fn empty_items() -> (r: Vec<Json>)
    ensures
        items_view(r@) == Seq::<JsonV>::empty(),
{
    let e: Vec<Json> = Vec::new();
    assert(items_view(e@) =~= Seq::<JsonV>::empty());
    e
}

/// Filters a table read by the search: the rows whose cell in the column
/// matches, with their count, the number of rows read and the filter applied.
pub fn table_search_result(p: &SearchParams, result: &Json) -> (r: Json)
    ensures
        r@ == search_result_spec((p.column@, p.value@, p.operator@), result@),
{
    let source = match result.get("rows") {
        Some(r) => Some(r),
        None => result.get("items"),
    };
    let rows: &Vec<Json> = match source {
        Some(x) => match x.as_array() {
            Some(a) => a,
            None => &empty_items(),
        },
        None => &empty_items(),
    };
    let ghost rv = items_view(rows@);
    assert(rv == read_rows(result@));
    let cols: &Vec<Json> = match result.get_array("columns") {
        Some(c) => c,
        None => &empty_items(),
    };
    let key = resolve_column_key(rows.as_slice(), cols.as_slice(), p.column.as_str());
    let mut found: Vec<Json> = Vec::new();
    let mut i: usize = 0;
    assert(rv.take(0) =~= Seq::<JsonV>::empty());
    while i < rows.len()
        invariant
            i <= rows.len(),
            rv == items_view(rows@),
            items_view(found@) == matching_rows(rv.take(i as int), key@, p.value@, p.operator@),
        decreases rows.len() - i,
    {
        let row = &rows[i];
        assert(rv.take(i + 1).drop_last() =~= rv.take(i as int));
        assert(rv.take(i + 1).last() == row@);
        let cell = extract_cell_value(row, key.as_str());
        if match_value(cell.as_str(), p.value.as_str(), p.operator.as_str()) {
            push_item(&mut found, row.duplicate());
        }
        i = i + 1;
    }
    assert(rv.take(i as int) =~= rv);
    let mut filter: Vec<(String, Json)> = Vec::new();
    push_entry(&mut filter, "column", Json::str(p.column.as_str()));
    push_entry(&mut filter, "operator", Json::str(p.operator.as_str()));
    push_entry(&mut filter, "value", Json::str(p.value.as_str()));
    let ghost fv = entries_view(filter@);
    let count = found.len() as u64;
    let ghost foundv = items_view(found@);
    let mut es: Vec<(String, Json)> = Vec::new();
    push_entry(&mut es, "filter", object_of(filter));
    push_entry(&mut es, "matchCount", Json::number(count));
    push_entry(&mut es, "rows", array_of(found));
    push_entry(&mut es, "totalRows", Json::number(rows.len() as u64));
    proof {
        assert(fv =~= seq![("column"@, jstr(p.column@)), ("operator"@, jstr(p.operator@)), ("value"@, jstr(p.value@))]);
        assert(entries_view(es@) =~= search_result_spec((p.column@, p.value@, p.operator@), result@)->Object_0);
    }
    object_of(es)
}

} // verus!
