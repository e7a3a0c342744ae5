//! `doc_scaffold`: create a whole document from a blueprint of pages, content,
//! tables and rows.
//!
//! Creating the document, and creating every page after the first, is
//! critical: a failure there ends the operation with that error. Everything
//! else is best effort: a failure is listed under `errors`, the page it belongs
//! to is marked `partial`, and the operation goes on. The result says whether
//! it is `complete`, that is whether nothing failed.
use vstd::prelude::*;
use crate::commands::compound::{
    Step, StepV, outcome_view, content_payload, content_payload_spec, jstr, str_array, string_array,
};
use crate::commands::compound::page_content::{page_create_payload, page_create_payload_spec};
use crate::error::{CodaError, CodaErrorV, message_spec};
use crate::json::{
    Json, JsonV, entries_view, items_view, push_entry, push_item, object_of, array_of, or_null,
};
use crate::text::{decimal, extend_str, string_of, string_views};

verus! {

#[derive(PartialEq, Eq, Structural, Clone, Copy)]
pub enum ScaffoldPhase {
    AwaitDoc,
    AwaitPageUpdate,
    AwaitPageCreate,
    AwaitContent,
    AwaitTable,
    AwaitRows,
    Done,
}

/// The state of one `doc_scaffold` operation.
pub struct Scaffold {
    pub phase: ScaffoldPhase,
    pub doc_uri: String,
    pub browser_link: Json,
    pub first_canvas: Option<String>,
    pub first_page_uri: Option<String>,
    /// The blueprint's pages.
    pub pages: Vec<Json>,
    /// The page being worked on.
    pub page: usize,
    /// The canvas and page URI of the page being worked on.
    pub canvas: String,
    pub page_uri: Option<String>,
    /// Whether something on the page being worked on failed.
    pub partial: bool,
    /// The table of the page being worked on.
    pub table: usize,
    /// The table just created, while its rows are being added.
    pub table_uri: String,
    pub col_count: u64,
    pub created_pages: Vec<Json>,
    pub created_tables: Vec<Json>,
    pub total_rows: u64,
    pub errors: Vec<String>,
}

/// The model of the state.
pub struct ScaffoldV {
    pub phase: ScaffoldPhase,
    pub doc_uri: Seq<char>,
    pub browser_link: JsonV,
    pub first_canvas: Option<Seq<char>>,
    pub first_page_uri: Option<Seq<char>>,
    pub pages: Seq<JsonV>,
    pub page: int,
    pub canvas: Seq<char>,
    pub page_uri: Option<Seq<char>>,
    pub partial: bool,
    pub table: int,
    pub table_uri: Seq<char>,
    pub col_count: nat,
    pub created_pages: Seq<JsonV>,
    pub created_tables: Seq<JsonV>,
    pub total_rows: nat,
    pub errors: Seq<Seq<char>>,
}

pub open spec fn opt_view(o: Option<String>) -> Option<Seq<char>> {
    match o {
        Some(s) => Some(s@),
        None => None,
    }
}

impl View for Scaffold {
    type V = ScaffoldV;

    open spec fn view(&self) -> ScaffoldV {
        ScaffoldV {
            phase: self.phase,
            doc_uri: self.doc_uri@,
            browser_link: self.browser_link@,
            first_canvas: opt_view(self.first_canvas),
            first_page_uri: opt_view(self.first_page_uri),
            pages: items_view(self.pages@),
            page: self.page as int,
            canvas: self.canvas@,
            page_uri: opt_view(self.page_uri),
            partial: self.partial,
            table: self.table as int,
            table_uri: self.table_uri@,
            col_count: self.col_count as nat,
            created_pages: items_view(self.created_pages@),
            created_tables: items_view(self.created_tables@),
            total_rows: self.total_rows as nat,
            errors: string_views(self.errors@),
        }
    }
}

/// Where the walk through the blueprint stands: at the start of a page, at its
/// body once its canvas is known (or not), at its content, or at its tables.
pub enum Pos {
    Page,
    Body(Option<Seq<char>>, Option<Seq<char>>),
    Content,
    Table,
}

pub open spec fn rank(p: Pos) -> nat {
    match p {
        Pos::Page => 3,
        Pos::Body(_, _) => 2,
        Pos::Content => 1,
        Pos::Table => 0,
    }
}

/// A page's title; "Untitled" when it has none.
pub open spec fn page_title(spec: JsonV) -> Seq<char> {
    match spec.get_str("title"@) {
        Some(t) => t,
        None => "Untitled"@,
    }
}

/// A page's tables; none when it has no array of them.
pub open spec fn page_tables(spec: JsonV) -> Seq<JsonV> {
    match spec.get_array("tables"@) {
        Some(t) => t,
        None => Seq::empty(),
    }
}

/// A table's name; "Untitled Table" when it has none.
pub open spec fn table_name(t: JsonV) -> Seq<char> {
    match t.get_str("name"@) {
        Some(n) => n,
        None => "Untitled Table"@,
    }
}

/// The title, and the subtitle where there is one, of a page.
pub open spec fn title_fields(title: Seq<char>, subtitle: Option<Seq<char>>) -> Seq<(Seq<char>, JsonV)> {
    (match subtitle {
        Some(s) => seq![("subtitle"@, jstr(s))],
        None => Seq::empty(),
    }) + seq![("title"@, jstr(title))]
}

/// The payload that renames the document's first page.
pub open spec fn page_update_payload_spec(uri: Seq<char>, title: Seq<char>, subtitle: Option<Seq<char>>) -> JsonV {
    JsonV::Object(seq![
        ("updateFields"@, JsonV::Object(title_fields(title, subtitle))),
        ("uri"@, jstr(uri)),
    ])
}

/// The payload that creates a table on a canvas: its columns (none when the
/// blueprint gives none), its name, its rows where the blueprint gives an array of
/// them together with columns, and the canvas.
pub open spec fn table_payload_spec(t: JsonV, canvas: Seq<char>) -> JsonV {
    JsonV::Object(
        seq![
            ("columns"@, match t.get("columns"@) {
                Some(c) => c,
                None => JsonV::Array(Seq::empty()),
            }),
            ("name"@, jstr(table_name(t))),
        ] + (if t.get_array("rows"@) is Some && t.get("columns"@) is Some {
            seq![("rows"@, t.get("rows"@)->0)]
        } else {
            Seq::empty()
        }) + seq![("uri"@, jstr(canvas))],
    )
}

/// The identifiers of the created columns: each column's `columnId`, else its
/// `id`, where it has one.
pub open spec fn column_ids(cols: Seq<JsonV>) -> Seq<JsonV>
    decreases cols.len(),
{
    if cols.len() == 0 {
        Seq::empty()
    } else {
        let c = cols.last();
        let rest = column_ids(cols.drop_last());
        match c.get("columnId"@) {
            Some(id) => rest.push(id),
            None => match c.get("id"@) {
                Some(id) => rest.push(id),
                None => rest,
            },
        }
    }
}

/// A created column's identifier: its `columnId`, else its `id`.
pub open spec fn column_id_of(c: JsonV) -> Option<JsonV> {
    match c.get("columnId"@) {
        Some(id) => Some(id),
        None => c.get("id"@),
    }
}

/// The identifiers of the created columns keep the columns' order: one more
/// column adds its identifier at the end, where it has one.
pub proof fn law_column_ids_push(cols: Seq<JsonV>, c: JsonV)
    ensures
        column_ids(cols.push(c)) == match column_id_of(c) {
            Some(id) => column_ids(cols).push(id),
            None => column_ids(cols),
        },
{
    assert(cols.push(c).drop_last() =~= cols);
}

/// Where every created column has an identifier, the identifiers are the
/// columns', one for one and in the same order.
pub proof fn law_column_ids_in_order(cols: Seq<JsonV>)
    requires
        forall|i: int| 0 <= i < cols.len() ==> #[trigger] column_id_of(cols[i]) is Some,
    ensures
        column_ids(cols).len() == cols.len(),
        forall|i: int| 0 <= i < cols.len() ==> column_ids(cols)[i] == #[trigger] column_id_of(cols[i])->0,
    decreases cols.len(),
{
    if cols.len() > 0 {
        let pre = cols.drop_last();
        assert forall|i: int| 0 <= i < pre.len() implies #[trigger] column_id_of(pre[i]) is Some by {
            assert(pre[i] == cols[i]);
        }
        law_column_ids_in_order(pre);
        assert(column_id_of(cols[cols.len() - 1]) is Some);
        assert forall|i: int| 0 <= i < cols.len() implies column_ids(cols)[i] == #[trigger] column_id_of(cols[i])->0 by {
            if i < pre.len() {
                assert(pre[i] == cols[i]);
            }
        }
    }
}

/// The payload that adds rows to a created table.
pub open spec fn add_rows_payload_spec(table_uri: Seq<char>, cols: Seq<JsonV>, rows: Seq<JsonV>) -> JsonV {
    JsonV::Object(seq![
        ("columns"@, JsonV::Array(column_ids(cols))),
        ("rows"@, JsonV::Array(rows)),
        ("uri"@, jstr(table_uri)),
    ])
}

/// The entry of a created page.
pub open spec fn page_entry_spec(canvas: Seq<char>, page_uri: Option<Seq<char>>, partial: bool, title: Seq<char>) -> JsonV {
    JsonV::Object(seq![
        ("canvasUri"@, jstr(canvas)),
        ("pageUri"@, match page_uri {
            Some(u) => jstr(u),
            None => JsonV::Null,
        }),
        ("status"@, jstr(if partial { "partial"@ } else { "complete"@ })),
        ("title"@, jstr(title)),
    ])
}

/// The entry of a created table.
pub open spec fn table_entry_spec(col_count: nat, name: Seq<char>, table_uri: Seq<char>) -> JsonV {
    JsonV::Object(seq![
        ("columns"@, JsonV::Number(decimal(col_count))),
        ("name"@, jstr(name)),
        ("tableUri"@, jstr(table_uri)),
    ])
}

/// The result of the whole operation.
pub open spec fn scaffold_result_spec(s: ScaffoldV) -> JsonV {
    JsonV::Object(seq![
        ("browserLink"@, s.browser_link),
        ("complete"@, JsonV::Bool(s.errors.len() == 0)),
        ("docUri"@, jstr(s.doc_uri)),
        ("errors"@, str_array(s.errors)),
        ("pages"@, JsonV::Array(s.created_pages)),
        ("tables"@, JsonV::Array(s.created_tables)),
        ("totalRows"@, JsonV::Number(decimal(s.total_rows))),
    ])
}

/// Addition that stops at the largest 64-bit value.
pub open spec fn sat_add(a: nat, b: nat) -> nat {
    if a + b > u64::MAX { u64::MAX as nat } else { a + b }
}

/// The text of an error that belongs to something named.
pub open spec fn labeled(what: Seq<char>, name: Seq<char>, tail: Seq<char>) -> Seq<char> {
    what + "'"@ + name + "': "@ + tail
}

/// The current page of the blueprint.
pub open spec fn cur_page(s: ScaffoldV) -> JsonV {
    s.pages[s.page]
}

/// The current table of the current page.
pub open spec fn cur_table(s: ScaffoldV) -> JsonV {
    page_tables(cur_page(s))[s.table]
}

/// Walks on from `pos` to the next call, or to the end.
pub open spec fn advance(s: ScaffoldV, pos: Pos) -> (ScaffoldV, StepV)
    decreases (if s.page <= s.pages.len() { s.pages.len() - s.page } else { 0 }), rank(pos),
{
    if !(0 <= s.page < s.pages.len()) {
        let t = ScaffoldV { phase: ScaffoldPhase::Done, ..s };
        (t, StepV::Finish(Ok(scaffold_result_spec(t))))
    } else {
        let spec = cur_page(s);
        let title = page_title(spec);
        match pos {
            Pos::Page => {
                if s.page == 0 {
                    match s.first_page_uri {
                        Some(fp) => (
                            ScaffoldV { phase: ScaffoldPhase::AwaitPageUpdate, ..s },
                            StepV::Call("page_update"@, page_update_payload_spec(fp, title, spec.get_str("subtitle"@)), false),
                        ),
                        None => advance(s, Pos::Body(s.first_canvas, None)),
                    }
                } else {
                    (
                        ScaffoldV { phase: ScaffoldPhase::AwaitPageCreate, ..s },
                        StepV::Call("page_create"@, page_create_payload_spec(s.doc_uri, title, spec.get_str("subtitle"@)), false),
                    )
                }
            },
            Pos::Body(canvas, page_uri) => match canvas {
                None => advance(
                    ScaffoldV { errors: s.errors.push(labeled("Page "@, title, "no canvas URI"@)), page: s.page + 1, ..s },
                    Pos::Page,
                ),
                Some(c) => advance(ScaffoldV { canvas: c, page_uri: page_uri, partial: false, ..s }, Pos::Content),
            },
            Pos::Content => match spec.get_str("content"@) {
                Some(md) => (
                    ScaffoldV { phase: ScaffoldPhase::AwaitContent, ..s },
                    StepV::Call("content_modify"@, content_payload_spec(s.canvas, md), true),
                ),
                None => advance(ScaffoldV { table: 0, ..s }, Pos::Table),
            },
            Pos::Table => {
                if 0 <= s.table < page_tables(spec).len() {
                    (
                        ScaffoldV { phase: ScaffoldPhase::AwaitTable, ..s },
                        StepV::Call("table_create"@, table_payload_spec(cur_table(s), s.canvas), true),
                    )
                } else {
                    advance(
                        ScaffoldV {
                            created_pages: s.created_pages.push(page_entry_spec(s.canvas, s.page_uri, s.partial, title)),
                            page: s.page + 1,
                            ..s
                        },
                        Pos::Page,
                    )
                }
            },
        }
    }
}

/// What the outcome of the call last asked for leads to.
pub open spec fn scaffold_next(s: ScaffoldV, outcome: Result<JsonV, CodaError>) -> (ScaffoldV, StepV) {
    match s.phase {
        ScaffoldPhase::AwaitDoc => match outcome {
            Err(e) => (ScaffoldV { phase: ScaffoldPhase::Done, ..s }, StepV::Finish(Err(e@))),
            Ok(doc) => match doc.get_str("docUri"@) {
                None => (ScaffoldV { phase: ScaffoldPhase::Done, ..s }, StepV::Finish(Err(CodaErrorV::Other("document_create did not return docUri"@)))),
                Some(uri) => {
                    let first = match doc.get_array("pages"@) {
                        Some(ps) => if ps.len() > 0 { Some(ps[0]) } else { None },
                        None => None,
                    };
                    let fc = match first { Some(p) => p.get_str("canvasUri"@), None => None };
                    let fp = match first { Some(p) => p.get_str("pageUri"@), None => None };
                    advance(
                        ScaffoldV {
                            doc_uri: uri,
                            browser_link: or_null(doc.get("browserLink"@)),
                            first_canvas: fc,
                            first_page_uri: fp,
                            page: 0,
                            ..s
                        },
                        Pos::Page,
                    )
                },
            },
        },
        ScaffoldPhase::AwaitPageUpdate => advance(s, Pos::Body(s.first_canvas, s.first_page_uri)),
        ScaffoldPhase::AwaitPageCreate => match outcome {
            Err(e) => (ScaffoldV { phase: ScaffoldPhase::Done, ..s }, StepV::Finish(Err(e@))),
            Ok(res) => advance(s, Pos::Body(res.get_str("canvasUri"@), res.get_str("pageUri"@))),
        },
        ScaffoldPhase::AwaitContent => match outcome {
            Ok(_) => advance(ScaffoldV { table: 0, ..s }, Pos::Table),
            Err(e) => advance(
                ScaffoldV {
                    errors: s.errors.push(labeled("Content for "@, page_title(cur_page(s)), message_spec(e))),
                    partial: true,
                    table: 0,
                    ..s
                },
                Pos::Table,
            ),
        },
        ScaffoldPhase::AwaitTable => {
            let t = cur_table(s);
            let name = table_name(t);
            match outcome {
                Err(e) => advance(
                    ScaffoldV {
                        errors: s.errors.push(labeled("Table "@, name, message_spec(e))),
                        partial: true,
                        table: s.table + 1,
                        ..s
                    },
                    Pos::Table,
                ),
                Ok(tr) => {
                    let tbl_uri = match tr.get_str("tableUri"@) { Some(u) => u, None => Seq::empty() };
                    let cols = match tr.get_array("columns"@) { Some(c) => c, None => Seq::empty() };
                    let row_count = match tr.get_u64("rowCount"@) { Some(n) => n, None => 0 };
                    let total = sat_add(s.total_rows, row_count);
                    match t.get_array("rows"@) {
                        Some(rows) => if row_count == 0 && rows.len() > 0 {
                            (
                                ScaffoldV {
                                    phase: ScaffoldPhase::AwaitRows,
                                    table_uri: tbl_uri,
                                    col_count: cols.len(),
                                    total_rows: total,
                                    ..s
                                },
                                StepV::Call("table_add_rows"@, add_rows_payload_spec(tbl_uri, cols, rows), true),
                            )
                        } else {
                            advance(
                                ScaffoldV {
                                    created_tables: s.created_tables.push(table_entry_spec(cols.len(), name, tbl_uri)),
                                    total_rows: total,
                                    table: s.table + 1,
                                    ..s
                                },
                                Pos::Table,
                            )
                        },
                        None => advance(
                            ScaffoldV {
                                created_tables: s.created_tables.push(table_entry_spec(cols.len(), name, tbl_uri)),
                                total_rows: total,
                                table: s.table + 1,
                                ..s
                            },
                            Pos::Table,
                        ),
                    }
                },
            }
        },
        ScaffoldPhase::AwaitRows => {
            let t = cur_table(s);
            let name = table_name(t);
            let entry = table_entry_spec(s.col_count, name, s.table_uri);
            match outcome {
                Ok(ar) => {
                    let added = match ar.get_u64("rowCount"@) {
                        Some(n) => n,
                        None => t.get_array("rows"@)->0.len(),
                    };
                    advance(
                        ScaffoldV {
                            created_tables: s.created_tables.push(entry),
                            total_rows: sat_add(s.total_rows, added),
                            table: s.table + 1,
                            ..s
                        },
                        Pos::Table,
                    )
                },
                Err(e) => advance(
                    ScaffoldV {
                        created_tables: s.created_tables.push(entry),
                        errors: s.errors.push(labeled("Rows for "@, name, message_spec(e))),
                        partial: true,
                        table: s.table + 1,
                        ..s
                    },
                    Pos::Table,
                ),
            }
        },
        ScaffoldPhase::Done => (s, StepV::Finish(Ok(scaffold_result_spec(s)))),
    }
}


pub open spec fn scaffold_wf(s: ScaffoldV) -> bool {
    match s.phase {
        ScaffoldPhase::AwaitDoc | ScaffoldPhase::Done => true,
        ScaffoldPhase::AwaitPageUpdate | ScaffoldPhase::AwaitPageCreate | ScaffoldPhase::AwaitContent =>
            0 <= s.page < s.pages.len(),
        ScaffoldPhase::AwaitTable => 0 <= s.page < s.pages.len() && 0 <= s.table < page_tables(cur_page(s)).len(),
        ScaffoldPhase::AwaitRows => 0 <= s.page < s.pages.len() && 0 <= s.table < page_tables(cur_page(s)).len()
            && cur_table(s).get_array("rows"@) is Some,
    }
}

pub proof fn lemma_advance_wf(s: ScaffoldV, pos: Pos)
    ensures
        scaffold_wf(advance(s, pos).0),
    decreases (if s.page <= s.pages.len() { s.pages.len() - s.page } else { 0 }), rank(pos),
{
    if 0 <= s.page < s.pages.len() {
        let spec = cur_page(s);
        match pos {
            Pos::Page => {
                if s.page == 0 {
                    match s.first_page_uri {
                        Some(fp) => {},
                        None => lemma_advance_wf(s, Pos::Body(s.first_canvas, None)),
                    }
                }
            },
            Pos::Body(canvas, page_uri) => match canvas {
                None => lemma_advance_wf(
                    ScaffoldV { errors: s.errors.push(labeled("Page "@, page_title(spec), "no canvas URI"@)), page: s.page + 1, ..s },
                    Pos::Page,
                ),
                Some(c) => lemma_advance_wf(ScaffoldV { canvas: c, page_uri: page_uri, partial: false, ..s }, Pos::Content),
            },
            Pos::Content => match spec.get_str("content"@) {
                Some(md) => {},
                None => lemma_advance_wf(ScaffoldV { table: 0, ..s }, Pos::Table),
            },
            Pos::Table => {
                if 0 <= s.table < page_tables(spec).len() {
                } else {
                    lemma_advance_wf(
                        ScaffoldV {
                            created_pages: s.created_pages.push(page_entry_spec(s.canvas, s.page_uri, s.partial, page_title(spec))),
                            page: s.page + 1,
                            ..s
                        },
                        Pos::Page,
                    );
                }
            },
        }
    }
}

/// Where the exec walk stands; see `Pos`.
pub enum PosE {
    Page,
    Body(Option<String>, Option<String>),
    Content,
    Table,
}

impl View for PosE {
    type V = Pos;

    open spec fn view(&self) -> Pos {
        match self {
            PosE::Page => Pos::Page,
            PosE::Body(c, p) => Pos::Body(opt_view(*c), opt_view(*p)),
            PosE::Content => Pos::Content,
            PosE::Table => Pos::Table,
        }
    }
}

fn owned_opt(o: Option<&str>) -> (r: Option<String>)
    ensures
        opt_view(r) == match o { Some(s) => Some(s@), None => None },
{
    match o {
        Some(s) => Some(s.to_owned()),
        None => None,
    }
}

fn opt_str(o: &Option<String>) -> (r: Option<&str>)
    ensures
        match r { Some(s) => Some(s@), None => None } == opt_view(*o),
{
    match o {
        Some(s) => Some(s.as_str()),
        None => None,
    }
}

fn labeled_text(what: &str, name: &str, tail: &str) -> (r: String)
    ensures
        r@ == labeled(what@, name@, tail@),
{
    let mut v: Vec<char> = Vec::new();
    extend_str(&mut v, what);
    extend_str(&mut v, "'");
    extend_str(&mut v, name);
    extend_str(&mut v, "': ");
    extend_str(&mut v, tail);
    string_of(v.as_slice())
}

fn page_title_exec(spec: &Json) -> (r: String)
    ensures
        r@ == page_title(spec@),
{
    match spec.get_str("title") {
        Some(t) => t.to_owned(),
        None => "Untitled".to_owned(),
    }
}

fn table_name_exec(t: &Json) -> (r: String)
    ensures
        r@ == table_name(t@),
{
    match t.get_str("name") {
        Some(n) => n.to_owned(),
        None => "Untitled Table".to_owned(),
    }
}

fn page_tables_len(spec: &Json) -> (r: usize)
    ensures
        r == page_tables(spec@).len(),
{
    match spec.get_array("tables") {
        Some(t) => t.len(),
        None => 0,
    }
}

fn page_table(spec: &Json, i: usize) -> (r: &Json)
    requires
        i < page_tables(spec@).len(),
    ensures
        r@ == page_tables(spec@)[i as int],
{
    match spec.get_array("tables") {
        Some(t) => &t[i],
        None => {
            assert(false);
            spec
        },
    }
}

fn page_update_payload(uri: &str, title: &str, subtitle: Option<&str>) -> (r: Json)
    ensures
        r@ == page_update_payload_spec(uri@, title@, match subtitle { Some(s) => Some(s@), None => None }),
{
    let mut fields: Vec<(String, Json)> = Vec::new();
    match subtitle {
        Some(s) => push_entry(&mut fields, "subtitle", Json::str(s)),
        None => {},
    }
    push_entry(&mut fields, "title", Json::str(title));
    let ghost sv = match subtitle { Some(s) => Some(s@), None => None };
    assert(entries_view(fields@) =~= title_fields(title@, sv));
    let mut es: Vec<(String, Json)> = Vec::new();
    push_entry(&mut es, "updateFields", object_of(fields));
    push_entry(&mut es, "uri", Json::str(uri));
    assert(entries_view(es@) =~= page_update_payload_spec(uri@, title@, sv)->Object_0);
    object_of(es)
}

fn table_payload(t: &Json, canvas: &str) -> (r: Json)
    ensures
        r@ == table_payload_spec(t@, canvas@),
{
    let mut es: Vec<(String, Json)> = Vec::new();
    let cols = match t.get("columns") {
        Some(c) => c.duplicate(),
        None => {
            let empty: Vec<Json> = Vec::new();
            assert(items_view(empty@) =~= Seq::<JsonV>::empty());
            array_of(empty)
        },
    };
    push_entry(&mut es, "columns", cols);
    let name = table_name_exec(t);
    push_entry(&mut es, "name", Json::Str(name));
    let has_rows = t.get_array("rows").is_some() && t.get("columns").is_some();
    if has_rows {
        match t.get("rows") {
            Some(rows) => push_entry(&mut es, "rows", rows.duplicate()),
            None => {},
        }
    }
    push_entry(&mut es, "uri", Json::str(canvas));
    assert(entries_view(es@) =~= table_payload_spec(t@, canvas@)->Object_0);
    object_of(es)
}

fn column_ids_exec(cols: &Vec<Json>) -> (r: Vec<Json>)
    ensures
        items_view(r@) == column_ids(items_view(cols@)),
{
    let ghost cv = items_view(cols@);
    let mut out: Vec<Json> = Vec::new();
    let mut i: usize = 0;
    assert(cv.take(0) =~= Seq::<JsonV>::empty());
    while i < cols.len()
        invariant
            i <= cols.len(),
            cv == items_view(cols@),
            items_view(out@) == column_ids(cv.take(i as int)),
        decreases cols.len() - i,
    {
        let c = &cols[i];
        assert(cv.take(i + 1).drop_last() =~= cv.take(i as int));
        assert(cv.take(i + 1).last() == c@);
        match c.get("columnId") {
            Some(id) => push_item(&mut out, id.duplicate()),
            None => match c.get("id") {
                Some(id) => push_item(&mut out, id.duplicate()),
                None => {},
            },
        }
        i = i + 1;
    }
    assert(cv.take(i as int) =~= cv);
    out
}

fn add_rows_payload(table_uri: &str, cols: &Vec<Json>, rows: &Vec<Json>) -> (r: Json)
    ensures
        r@ == add_rows_payload_spec(table_uri@, items_view(cols@), items_view(rows@)),
{
    let mut es: Vec<(String, Json)> = Vec::new();
    push_entry(&mut es, "columns", array_of(column_ids_exec(cols)));
    let mut copy: Vec<Json> = Vec::new();
    let mut i: usize = 0;
    while i < rows.len()
        invariant
            i <= rows.len(),
            items_view(copy@) == items_view(rows@).take(i as int),
        decreases rows.len() - i,
    {
        push_item(&mut copy, rows[i].duplicate());
        i = i + 1;
        assert(items_view(copy@) =~= items_view(rows@).take(i as int));
    }
    assert(items_view(rows@).take(i as int) =~= items_view(rows@));
    push_entry(&mut es, "rows", array_of(copy));
    push_entry(&mut es, "uri", Json::str(table_uri));
    assert(entries_view(es@) =~= add_rows_payload_spec(table_uri@, items_view(cols@), items_view(rows@))->Object_0);
    object_of(es)
}

fn page_entry(canvas: &str, page_uri: Option<&str>, partial: bool, title: &str) -> (r: Json)
    ensures
        r@ == page_entry_spec(canvas@, match page_uri { Some(s) => Some(s@), None => None }, partial, title@),
{
    let mut es: Vec<(String, Json)> = Vec::new();
    push_entry(&mut es, "canvasUri", Json::str(canvas));
    match page_uri {
        Some(u) => push_entry(&mut es, "pageUri", Json::str(u)),
        None => push_entry(&mut es, "pageUri", Json::Null),
    }
    if partial {
        push_entry(&mut es, "status", Json::str("partial"));
    } else {
        push_entry(&mut es, "status", Json::str("complete"));
    }
    push_entry(&mut es, "title", Json::str(title));
    let ghost pv = match page_uri { Some(s) => Some(s@), None => None };
    assert(entries_view(es@) =~= page_entry_spec(canvas@, pv, partial, title@)->Object_0);
    object_of(es)
}

fn table_entry(col_count: u64, name: &str, table_uri: &str) -> (r: Json)
    ensures
        r@ == table_entry_spec(col_count as nat, name@, table_uri@),
{
    let mut es: Vec<(String, Json)> = Vec::new();
    push_entry(&mut es, "columns", Json::number(col_count));
    push_entry(&mut es, "name", Json::str(name));
    push_entry(&mut es, "tableUri", Json::str(table_uri));
    assert(entries_view(es@) =~= table_entry_spec(col_count as nat, name@, table_uri@)->Object_0);
    object_of(es)
}

fn copy_items(v: &Vec<Json>) -> (r: Vec<Json>)
    ensures
        items_view(r@) == items_view(v@),
{
    let mut copy: Vec<Json> = Vec::new();
    let mut i: usize = 0;
    while i < v.len()
        invariant
            i <= v.len(),
            items_view(copy@) == items_view(v@).take(i as int),
        decreases v.len() - i,
    {
        push_item(&mut copy, v[i].duplicate());
        i = i + 1;
        assert(items_view(copy@) =~= items_view(v@).take(i as int));
    }
    assert(items_view(v@).take(i as int) =~= items_view(v@));
    copy
}

impl Scaffold {
    /// The result of the whole operation, from the state reached.
    fn result(&self) -> (r: Json)
        ensures
            r@ == scaffold_result_spec(self@),
    {
        let mut es: Vec<(String, Json)> = Vec::new();
        push_entry(&mut es, "browserLink", self.browser_link.duplicate());
        push_entry(&mut es, "complete", Json::Bool(self.errors.len() == 0));
        push_entry(&mut es, "docUri", Json::Str(self.doc_uri.clone()));
        push_entry(&mut es, "errors", string_array(&self.errors));
        push_entry(&mut es, "pages", array_of(copy_items(&self.created_pages)));
        push_entry(&mut es, "tables", array_of(copy_items(&self.created_tables)));
        push_entry(&mut es, "totalRows", Json::number(self.total_rows));
        assert(entries_view(es@) =~= scaffold_result_spec(self@)->Object_0);
        object_of(es)
    }

    /// Reads the blueprint and asks for the document to be created; a blueprint
    /// without a string `title` ends the operation with a validation error.
    pub fn start(payload: &Json) -> (r: (Scaffold, Step))
        ensures
            scaffold_wf(r.0@),
            payload@.get_str("title"@) is None ==> r.0.phase == ScaffoldPhase::Done
                && r.1@ == StepV::Finish(Err(CodaErrorV::Validation("Missing required field: title"@))),
            payload@.get_str("title"@) matches Some(title) ==> {
                &&& r.0.phase == ScaffoldPhase::AwaitDoc
                &&& r.0@.pages == match payload@.get_array("pages"@) { Some(p) => p, None => Seq::empty() }
                &&& r.0@.errors.len() == 0
                &&& !r.0@.partial
                &&& r.0@.created_pages.len() == 0
                &&& r.0@.created_tables.len() == 0
                &&& r.0@.total_rows == 0
                &&& r.1@ == StepV::Call("document_create"@, JsonV::Object(seq![("title"@, jstr(title))]), false)
            },
    {
        let pages = match payload.get_array("pages") {
            Some(p) => copy_items(p),
            None => {
                let e: Vec<Json> = Vec::new();
                assert(items_view(e@) =~= Seq::<JsonV>::empty());
                e
            },
        };
        let mut m = Scaffold {
            phase: ScaffoldPhase::Done,
            doc_uri: String::new(),
            browser_link: Json::Null,
            first_canvas: None,
            first_page_uri: None,
            pages,
            page: 0,
            canvas: String::new(),
            page_uri: None,
            partial: false,
            table: 0,
            table_uri: String::new(),
            col_count: 0,
            created_pages: Vec::new(),
            created_tables: Vec::new(),
            total_rows: 0,
            errors: Vec::new(),
        };
        assert(items_view(m.created_pages@) =~= Seq::<JsonV>::empty());
        assert(items_view(m.created_tables@) =~= Seq::<JsonV>::empty());
        assert(string_views(m.errors@) =~= Seq::<Seq<char>>::empty());
        let title = match payload.get_str("title") {
            Some(t) => t,
            None => {
                return (m, Step::Finish(Err(CodaError::Validation("Missing required field: title".to_owned()))));
            },
        };
        let mut es: Vec<(String, Json)> = Vec::new();
        push_entry(&mut es, "title", Json::str(title));
        assert(entries_view(es@) =~= seq![("title"@, jstr(title@))]);
        m.phase = ScaffoldPhase::AwaitDoc;
        (m, Step::Call { tool: "document_create".to_owned(), payload: object_of(es), retry: false })
    }

    /// Walks on from `pos` to the next call, or to the end.
    fn walk(&mut self, pos: PosE) -> (r: Step)
        ensures
            (final(self)@, r@) == advance(old(self)@, pos@),
        decreases (if self.page <= self.pages.len() { self.pages.len() - self.page } else { 0 }), rank(pos@),
    {
        if self.page >= self.pages.len() {
            let r = self.result();
            self.phase = ScaffoldPhase::Done;
            return Step::Finish(Ok(r));
        }
        let ghost s = self@;
        assert(cur_page(s) == self.pages@[self.page as int]@);
        let title = page_title_exec(&self.pages[self.page]);
        match pos {
            PosE::Page => {
                if self.page == 0 {
                    match &self.first_page_uri {
                        Some(fp) => {
                            let p = page_update_payload(fp.as_str(), title.as_str(), self.pages[self.page].get_str("subtitle"));
                            self.phase = ScaffoldPhase::AwaitPageUpdate;
                            Step::Call { tool: "page_update".to_owned(), payload: p, retry: false }
                        },
                        None => {
                            let c = self.first_canvas.clone();
                            self.walk(PosE::Body(c, None))
                        },
                    }
                } else {
                    let p = page_create_payload(self.doc_uri.as_str(), title.as_str(), self.pages[self.page].get_str("subtitle"));
                    self.phase = ScaffoldPhase::AwaitPageCreate;
                    Step::Call { tool: "page_create".to_owned(), payload: p, retry: false }
                }
            },
            PosE::Body(canvas, page_uri) => {
                match canvas {
                    None => {
                        let msg = labeled_text("Page ", title.as_str(), "no canvas URI");
                        let ghost before = self.errors@;
                        self.errors.push(msg);
                        assert(string_views(self.errors@) =~= string_views(before).push(msg@));
                        self.page = self.page + 1;
                        self.walk(PosE::Page)
                    },
                    Some(c) => {
                        self.canvas = c;
                        self.page_uri = page_uri;
                        self.partial = false;
                        self.walk(PosE::Content)
                    },
                }
            },
            PosE::Content => {
                let content = owned_opt(self.pages[self.page].get_str("content"));
                match content {
                    Some(md) => {
                        let p = content_payload(self.canvas.as_str(), md.as_str());
                        self.phase = ScaffoldPhase::AwaitContent;
                        Step::Call { tool: "content_modify".to_owned(), payload: p, retry: true }
                    },
                    None => {
                        self.table = 0;
                        self.walk(PosE::Table)
                    },
                }
            },
            PosE::Table => {
                let n = page_tables_len(&self.pages[self.page]);
                if self.table < n {
                    let p = table_payload(page_table(&self.pages[self.page], self.table), self.canvas.as_str());
                    self.phase = ScaffoldPhase::AwaitTable;
                    Step::Call { tool: "table_create".to_owned(), payload: p, retry: true }
                } else {
                    let e = page_entry(self.canvas.as_str(), opt_str(&self.page_uri), self.partial, title.as_str());
                    let ghost before = self.created_pages@;
                    self.created_pages.push(e);
                    assert(items_view(self.created_pages@) =~= items_view(before).push(e@));
                    self.page = self.page + 1;
                    self.walk(PosE::Page)
                }
            },
        }
    }

    /// Hands back the outcome of the call last asked for and says what comes next.
    pub fn next(&mut self, outcome: Result<Json, CodaError>) -> (r: Step)
        requires
            scaffold_wf(old(self)@),
            old(self).phase != ScaffoldPhase::Done,
        ensures
            (final(self)@, r@) == scaffold_next(old(self)@, outcome_view(outcome)),
            scaffold_wf(final(self)@),
    {
        let ghost s = self@;
        match self.phase {
            ScaffoldPhase::AwaitDoc => {
                match outcome {
                    Err(e) => {
                        self.phase = ScaffoldPhase::Done;
                        Step::Finish(Err(e))
                    },
                    Ok(doc) => {
                        let uri = match doc.get_str("docUri") {
                            Some(u) => u.to_owned(),
                            None => {
                                self.phase = ScaffoldPhase::Done;
                                return Step::Finish(Err(CodaError::Other("document_create did not return docUri".to_owned())));
                            },
                        };
                        let (fc, fp) = match doc.get_array("pages") {
                            Some(ps) => {
                                if ps.len() > 0 {
                                    (owned_opt(ps[0].get_str("canvasUri")), owned_opt(ps[0].get_str("pageUri")))
                                } else {
                                    (None, None)
                                }
                            },
                            None => (None, None),
                        };
                        self.doc_uri = uri;
                        self.browser_link = doc.get_or_null("browserLink");
                        self.first_canvas = fc;
                        self.first_page_uri = fp;
                        self.page = 0;
                        proof { lemma_advance_wf(self@, Pos::Page); }
                        self.walk(PosE::Page)
                    },
                }
            },
            ScaffoldPhase::AwaitPageUpdate => {
                let c = self.first_canvas.clone();
                let p = self.first_page_uri.clone();
                proof { lemma_advance_wf(self@, Pos::Body(opt_view(c), opt_view(p))); }
                self.walk(PosE::Body(c, p))
            },
            ScaffoldPhase::AwaitPageCreate => {
                match outcome {
                    Err(e) => {
                        self.phase = ScaffoldPhase::Done;
                        Step::Finish(Err(e))
                    },
                    Ok(res) => {
                        let c = owned_opt(res.get_str("canvasUri"));
                        let p = owned_opt(res.get_str("pageUri"));
                        proof { lemma_advance_wf(self@, Pos::Body(opt_view(c), opt_view(p))); }
                        self.walk(PosE::Body(c, p))
                    },
                }
            },
            ScaffoldPhase::AwaitContent => {
                match outcome {
                    Ok(_) => {
                        self.table = 0;
                        proof { lemma_advance_wf(self@, Pos::Table); }
                        self.walk(PosE::Table)
                    },
                    Err(e) => {
                        let title = page_title_exec(&self.pages[self.page]);
                        let m = e.message();
                        let msg = labeled_text("Content for ", title.as_str(), m.as_str());
                        let ghost before = self.errors@;
                        self.errors.push(msg);
                        assert(string_views(self.errors@) =~= string_views(before).push(msg@));
                        self.partial = true;
                        self.table = 0;
                        proof { lemma_advance_wf(self@, Pos::Table); }
                        self.walk(PosE::Table)
                    },
                }
            },
            ScaffoldPhase::AwaitTable => {
                let _n = page_tables_len(&self.pages[self.page]);
                let t = page_table(&self.pages[self.page], self.table).duplicate();
                let name = table_name_exec(&t);
                match outcome {
                    Err(e) => {
                        let m = e.message();
                        let msg = labeled_text("Table ", name.as_str(), m.as_str());
                        let ghost before = self.errors@;
                        self.errors.push(msg);
                        assert(string_views(self.errors@) =~= string_views(before).push(msg@));
                        self.partial = true;
                        self.table = self.table + 1;
                        proof { lemma_advance_wf(self@, Pos::Table); }
                        self.walk(PosE::Table)
                    },
                    Ok(tr) => {
                        let tbl_uri = match tr.get_str("tableUri") {
                            Some(u) => u.to_owned(),
                            None => String::new(),
                        };
                        let cols = match tr.get_array("columns") {
                            Some(c) => copy_items(c),
                            None => {
                                let e: Vec<Json> = Vec::new();
                                assert(items_view(e@) =~= Seq::<JsonV>::empty());
                                e
                            },
                        };
                        let row_count: u64 = match tr.get_u64("rowCount") {
                            Some(n) => n,
                            None => 0,
                        };
                        let total = self.total_rows.saturating_add(row_count);
                        let wants_rows = match t.get_array("rows") {
                            Some(rows) => row_count == 0 && rows.len() > 0,
                            None => false,
                        };
                        if wants_rows {
                            let rows = match t.get_array("rows") {
                                Some(rows) => copy_items(rows),
                                None => {
                                    assert(false);
                                    Vec::new()
                                },
                            };
                            let p = add_rows_payload(tbl_uri.as_str(), &cols, &rows);
                            self.phase = ScaffoldPhase::AwaitRows;
                            self.table_uri = tbl_uri;
                            self.col_count = cols.len() as u64;
                            self.total_rows = total;
                            Step::Call { tool: "table_add_rows".to_owned(), payload: p, retry: true }
                        } else {
                            let e = table_entry(cols.len() as u64, name.as_str(), tbl_uri.as_str());
                            let ghost before = self.created_tables@;
                            self.created_tables.push(e);
                            assert(items_view(self.created_tables@) =~= items_view(before).push(e@));
                            self.total_rows = total;
                            self.table = self.table + 1;
                            proof { lemma_advance_wf(self@, Pos::Table); }
                            self.walk(PosE::Table)
                        }
                    },
                }
            },
            ScaffoldPhase::AwaitRows => {
                let _n = page_tables_len(&self.pages[self.page]);
                let t = page_table(&self.pages[self.page], self.table).duplicate();
                let name = table_name_exec(&t);
                let e = table_entry(self.col_count, name.as_str(), self.table_uri.as_str());
                let ghost before = self.created_tables@;
                self.created_tables.push(e);
                assert(items_view(self.created_tables@) =~= items_view(before).push(e@));
                match outcome {
                    Ok(ar) => {
                        let added: u64 = match ar.get_u64("rowCount") {
                            Some(n) => n,
                            None => match t.get_array("rows") {
                                Some(rows) => rows.len() as u64,
                                None => 0,
                            },
                        };
                        self.total_rows = self.total_rows.saturating_add(added);
                    },
                    Err(err) => {
                        let m = err.message();
                        let msg = labeled_text("Rows for ", name.as_str(), m.as_str());
                        let ghost before_e = self.errors@;
                        self.errors.push(msg);
                        assert(string_views(self.errors@) =~= string_views(before_e).push(msg@));
                        self.partial = true;
                    },
                }
                self.table = self.table + 1;
                proof { lemma_advance_wf(self@, Pos::Table); }
                self.walk(PosE::Table)
            },
            ScaffoldPhase::Done => {
                let r = self.result();
                Step::Finish(Ok(r))
            },
        }
    }
}

/// Whether a created page's entry is marked partial.
pub open spec fn page_is_partial(p: JsonV) -> bool {
    p.get_str("status"@) == Some("partial"@)
}

/// No failure goes unlisted: while no error is listed, neither the page at
/// hand nor any created page is partial.
pub open spec fn failures_listed(s: ScaffoldV) -> bool {
    s.errors.len() == 0 ==> (!s.partial && forall|i: int| 0 <= i < s.created_pages.len() ==> !page_is_partial(#[trigger] s.created_pages[i]))
}

proof fn lemma_entry_status(canvas: Seq<char>, page_uri: Option<Seq<char>>, partial: bool, title: Seq<char>)
    ensures
        page_is_partial(page_entry_spec(canvas, page_uri, partial, title)) == partial,
{
    reveal_strlit("canvasUri");
    reveal_strlit("pageUri");
    reveal_strlit("status");
    reveal_strlit("partial");
    reveal_strlit("complete");
    let es = page_entry_spec(canvas, page_uri, partial, title)->Object_0;
    assert(es[0].0[0] == 'c' && es[1].0[0] == 'p' && "status"@[0] == 's');
    assert(es[0].0 != "status"@ && es[1].0 != "status"@);
    crate::json::lemma_lookup_at(es, "status"@, 2);
    assert("partial"@.len() != "complete"@.len());
}

proof fn lemma_advance_listed(s: ScaffoldV, pos: Pos)
    requires
        failures_listed(s),
    ensures
        failures_listed(advance(s, pos).0),
    decreases (if s.page <= s.pages.len() { s.pages.len() - s.page } else { 0 }), rank(pos),
{
    if 0 <= s.page < s.pages.len() {
        let spec = cur_page(s);
        match pos {
            Pos::Page => {
                if s.page == 0 {
                    match s.first_page_uri {
                        Some(fp) => {},
                        None => lemma_advance_listed(s, Pos::Body(s.first_canvas, None)),
                    }
                }
            },
            Pos::Body(canvas, page_uri) => match canvas {
                None => lemma_advance_listed(
                    ScaffoldV { errors: s.errors.push(labeled("Page "@, page_title(spec), "no canvas URI"@)), page: s.page + 1, ..s },
                    Pos::Page,
                ),
                Some(c) => lemma_advance_listed(ScaffoldV { canvas: c, page_uri: page_uri, partial: false, ..s }, Pos::Content),
            },
            Pos::Content => match spec.get_str("content"@) {
                Some(md) => {},
                None => lemma_advance_listed(ScaffoldV { table: 0, ..s }, Pos::Table),
            },
            Pos::Table => {
                if 0 <= s.table < page_tables(spec).len() {
                } else {
                    let e = page_entry_spec(s.canvas, s.page_uri, s.partial, page_title(spec));
                    lemma_entry_status(s.canvas, s.page_uri, s.partial, page_title(spec));
                    let t = ScaffoldV { created_pages: s.created_pages.push(e), page: s.page + 1, ..s };
                    assert(failures_listed(t)) by {
                        if t.errors.len() == 0 {
                            assert forall|i: int| 0 <= i < t.created_pages.len() implies !page_is_partial(#[trigger] t.created_pages[i]) by {
                                if i < s.created_pages.len() {
                                    assert(t.created_pages[i] == s.created_pages[i]);
                                }
                            }
                        }
                    }
                    lemma_advance_listed(t, Pos::Page);
                }
            },
        }
    }
}

/// A failure is never hidden behind a complete result: from a state where no
/// failure is unlisted, every step of `doc_scaffold` leads to such a state
/// again, and a finished result that holds a partial page is not complete.
pub proof fn law_scaffold_failures_listed(s: ScaffoldV, outcome: Result<JsonV, CodaError>)
    requires
        failures_listed(s),
    ensures
        failures_listed(scaffold_next(s, outcome).0),
        forall|i: int| 0 <= i < s.created_pages.len() && page_is_partial(#[trigger] s.created_pages[i])
            ==> scaffold_result_spec(s).get("complete"@) == Some(JsonV::Bool(false)),
{
    reveal_strlit("browserLink");
    reveal_strlit("complete");
    let es = scaffold_result_spec(s)->Object_0;
    assert(es[0].0[0] == 'b' && "complete"@[0] == 'c');
    crate::json::lemma_lookup_at(es, "complete"@, 1);
    match s.phase {
        ScaffoldPhase::AwaitDoc => match outcome {
            Err(e) => {},
            Ok(doc) => match doc.get_str("docUri"@) {
                None => {},
                Some(uri) => {
                    let first = match doc.get_array("pages"@) {
                        Some(ps) => if ps.len() > 0 { Some(ps[0]) } else { None },
                        None => None,
                    };
                    let fc = match first { Some(p) => p.get_str("canvasUri"@), None => None };
                    let fp = match first { Some(p) => p.get_str("pageUri"@), None => None };
                    lemma_advance_listed(
                        ScaffoldV { doc_uri: uri, browser_link: or_null(doc.get("browserLink"@)), first_canvas: fc,
                            first_page_uri: fp, page: 0, ..s },
                        Pos::Page,
                    );
                },
            },
        },
        ScaffoldPhase::AwaitPageUpdate => lemma_advance_listed(s, Pos::Body(s.first_canvas, s.first_page_uri)),
        ScaffoldPhase::AwaitPageCreate => match outcome {
            Err(e) => {},
            Ok(res) => lemma_advance_listed(s, Pos::Body(res.get_str("canvasUri"@), res.get_str("pageUri"@))),
        },
        ScaffoldPhase::AwaitContent => match outcome {
            Ok(_) => lemma_advance_listed(ScaffoldV { table: 0, ..s }, Pos::Table),
            Err(e) => lemma_advance_listed(
                ScaffoldV {
                    errors: s.errors.push(labeled("Content for "@, page_title(cur_page(s)), message_spec(e))),
                    partial: true,
                    table: 0,
                    ..s
                },
                Pos::Table,
            ),
        },
        ScaffoldPhase::AwaitTable => {
            let t = cur_table(s);
            let name = table_name(t);
            match outcome {
                Err(e) => lemma_advance_listed(
                    ScaffoldV { errors: s.errors.push(labeled("Table "@, name, message_spec(e))), partial: true,
                        table: s.table + 1, ..s },
                    Pos::Table,
                ),
                Ok(tr) => {
                    let tbl_uri = match tr.get_str("tableUri"@) { Some(u) => u, None => Seq::empty() };
                    let cols = match tr.get_array("columns"@) { Some(c) => c, None => Seq::empty() };
                    let row_count = match tr.get_u64("rowCount"@) { Some(n) => n, None => 0 };
                    let total = sat_add(s.total_rows, row_count);
                    let u = ScaffoldV {
                        created_tables: s.created_tables.push(table_entry_spec(cols.len(), name, tbl_uri)),
                        total_rows: total,
                        table: s.table + 1,
                        ..s
                    };
                    match t.get_array("rows"@) {
                        Some(rows) => if row_count == 0 && rows.len() > 0 {
                        } else {
                            lemma_advance_listed(u, Pos::Table);
                        },
                        None => lemma_advance_listed(u, Pos::Table),
                    }
                },
            }
        },
        ScaffoldPhase::AwaitRows => {
            let t = cur_table(s);
            let name = table_name(t);
            let entry = table_entry_spec(s.col_count, name, s.table_uri);
            match outcome {
                Ok(ar) => {
                    let added = match ar.get_u64("rowCount"@) {
                        Some(n) => n,
                        None => t.get_array("rows"@)->0.len(),
                    };
                    lemma_advance_listed(
                        ScaffoldV { created_tables: s.created_tables.push(entry), total_rows: sat_add(s.total_rows, added),
                            table: s.table + 1, ..s },
                        Pos::Table,
                    );
                },
                Err(e) => lemma_advance_listed(
                    ScaffoldV {
                        created_tables: s.created_tables.push(entry),
                        errors: s.errors.push(labeled("Rows for "@, name, message_spec(e))),
                        partial: true,
                        table: s.table + 1,
                        ..s
                    },
                    Pos::Table,
                ),
            }
        },
        ScaffoldPhase::Done => {},
    }
}

/// A run of `doc_scaffold` starts with no failure unlisted.
pub proof fn law_scaffold_start_listed(s: ScaffoldV)
    requires
        s.errors.len() == 0,
        !s.partial,
        s.created_pages.len() == 0,
    ensures
        failures_listed(s),
{
}

} // verus!
