//! The sync of one document as a state machine: it asks for tool calls, and
//! says what to write and report, in order, between them.
//!
//! Reading the document is critical; a page or table that cannot be read is
//! reported and skipped.
use vstd::prelude::*;
use crate::cell::{build_column_map, column_map_spec, flatten_row, flatten_row_spec, pairs_view};
use crate::commands::compound::{jstr, outcome_view, str_array, string_array};
use crate::commands::compound::scaffold::sat_add;
use crate::commands::compound::summarize::{column_names, read_uri};
use crate::commands::sync::{
    PageDetail, PageDetailV, TableDetail, TableDetailV, context_md, context_md_spec, page_details_view,
    table_details_view,
};
use crate::error::{CodaError, CodaErrorV, message_spec};
use crate::json::{
    Json, JsonV, entries_view, items_view, push_entry, push_item, object_of, array_of, obj_insert,
    find_key, exec_keys, keys_of, lemma_key_index_bounds,
};
use crate::slug::{id_from_uri, id_from_uri_spec, slugify, slugify_spec};
use crate::text::{chars_of, decimal, extend_str, string_of, string_views, trim, trim_chars};

verus! {

/// The most rows a table is read with.
pub const MAX_ROW_LIMIT: u64 = 100;

/// What the caller does for the sync between its calls.
pub enum SyncEffect {
    /// Create a directory, relative to the docs directory of the sync root.
    MakeDir(String),
    /// Write a text file.
    WriteText(String, String),
    /// Write a JSON file, pretty-printed.
    WriteJson(String, Json),
    /// Write newline-delimited JSON, one value per line.
    WriteRows(String, Vec<Json>),
    /// Report progress on the informational stream.
    Info(String),
}

pub enum SyncEffectV {
    MakeDir(Seq<char>),
    WriteText(Seq<char>, Seq<char>),
    WriteJson(Seq<char>, JsonV),
    WriteRows(Seq<char>, Seq<JsonV>),
    Info(Seq<char>),
}

impl View for SyncEffect {
    type V = SyncEffectV;

    open spec fn view(&self) -> SyncEffectV {
        match self {
            SyncEffect::MakeDir(p) => SyncEffectV::MakeDir(p@),
            SyncEffect::WriteText(p, t) => SyncEffectV::WriteText(p@, t@),
            SyncEffect::WriteJson(p, j) => SyncEffectV::WriteJson(p@, j@),
            SyncEffect::WriteRows(p, r) => SyncEffectV::WriteRows(p@, items_view(r@)),
            SyncEffect::Info(m) => SyncEffectV::Info(m@),
        }
    }
}

pub open spec fn effects_view(v: Seq<SyncEffect>) -> Seq<SyncEffectV> {
    v.map_values(|e: SyncEffect| e@)
}

/// What the sync of one document came to.
pub struct SyncStats {
    pub doc_uri: String,
    pub doc_title: String,
    pub doc_slug: String,
    pub pages_synced: u64,
    pub tables_synced: u64,
    pub rows_synced: u64,
    pub errors: Vec<String>,
}

/// What the sync asks next.
pub enum SyncStep {
    /// Call a tool (repeating failures as `SyncRetry` says) and hand back the outcome.
    Call { tool: String, payload: Json },
    Finish(Result<SyncStats, CodaError>),
}

pub struct SyncStatsV {
    pub doc_uri: Seq<char>,
    pub doc_title: Seq<char>,
    pub doc_slug: Seq<char>,
    pub pages_synced: nat,
    pub tables_synced: nat,
    pub rows_synced: nat,
    pub errors: Seq<Seq<char>>,
}

pub enum SyncStepV {
    Call(Seq<char>, JsonV),
    Finish(Result<SyncStatsV, CodaErrorV>),
}

impl View for SyncStep {
    type V = SyncStepV;

    open spec fn view(&self) -> SyncStepV {
        match self {
            SyncStep::Call { tool, payload } => SyncStepV::Call(tool@, payload@),
            SyncStep::Finish(Ok(s)) => SyncStepV::Finish(Ok(SyncStatsV {
                doc_uri: s.doc_uri@,
                doc_title: s.doc_title@,
                doc_slug: s.doc_slug@,
                pages_synced: s.pages_synced as nat,
                tables_synced: s.tables_synced as nat,
                rows_synced: s.rows_synced as nat,
                errors: string_views(s.errors@),
            })),
            SyncStep::Finish(Err(e)) => SyncStepV::Finish(Err(e@)),
        }
    }
}

#[derive(PartialEq, Eq, Structural, Clone, Copy)]
pub enum SyncPhase {
    AwaitDoc,
    AwaitPage,
    AwaitTable,
    Done,
}

/// The state of the sync of one document.
pub struct SyncRun {
    pub phase: SyncPhase,
    pub doc_uri: String,
    pub tables_only: bool,
    pub row_limit: u64,
    /// The time the sync records, in RFC 3339.
    pub now: String,
    pub doc_title: String,
    pub doc_slug: String,
    pub pages: Vec<Json>,
    pub page: usize,
    pub has_content: bool,
    pub tables: Vec<Json>,
    pub table: usize,
    pub page_tables: u64,
    pub page_rows: u64,
    pub table_uris: Vec<String>,
    pub page_details: Vec<PageDetail>,
    pub table_details: Vec<(String, TableDetail)>,
    pub sync_pages: Json,
    pub sync_tables: Json,
    pub pages_synced: u64,
    pub tables_synced: u64,
    pub rows_synced: u64,
    pub errors: Vec<String>,
}

pub struct SyncRunV {
    pub phase: SyncPhase,
    pub doc_uri: Seq<char>,
    pub tables_only: bool,
    pub row_limit: nat,
    pub now: Seq<char>,
    pub doc_title: Seq<char>,
    pub doc_slug: Seq<char>,
    pub pages: Seq<JsonV>,
    pub page: int,
    pub has_content: bool,
    pub tables: Seq<JsonV>,
    pub table: int,
    pub page_tables: nat,
    pub page_rows: nat,
    pub table_uris: Seq<Seq<char>>,
    pub page_details: Seq<PageDetailV>,
    pub table_details: Seq<(Seq<char>, TableDetailV)>,
    pub sync_pages: JsonV,
    pub sync_tables: JsonV,
    pub pages_synced: nat,
    pub tables_synced: nat,
    pub rows_synced: nat,
    pub errors: Seq<Seq<char>>,
}

impl View for SyncRun {
    type V = SyncRunV;

    open spec fn view(&self) -> SyncRunV {
        SyncRunV {
            phase: self.phase,
            doc_uri: self.doc_uri@,
            tables_only: self.tables_only,
            row_limit: self.row_limit as nat,
            now: self.now@,
            doc_title: self.doc_title@,
            doc_slug: self.doc_slug@,
            pages: items_view(self.pages@),
            page: self.page as int,
            has_content: self.has_content,
            tables: items_view(self.tables@),
            table: self.table as int,
            page_tables: self.page_tables as nat,
            page_rows: self.page_rows as nat,
            table_uris: string_views(self.table_uris@),
            page_details: page_details_view(self.page_details@),
            table_details: table_details_view(self.table_details@),
            sync_pages: self.sync_pages@,
            sync_tables: self.sync_tables@,
            pages_synced: self.pages_synced as nat,
            tables_synced: self.tables_synced as nat,
            rows_synced: self.rows_synced as nat,
            errors: string_views(self.errors@),
        }
    }
}

/// A string, or the default where there is none.
pub open spec fn str_or(v: Option<Seq<char>>, d: Seq<char>) -> Seq<char> {
    match v {
        Some(s) => s,
        None => d,
    }
}

/// The payload that reads the document's structure.
pub open spec fn doc_read_payload_spec(uri: Seq<char>) -> JsonV {
    JsonV::Object(seq![
        ("contentTypesToInclude"@, JsonV::Array(seq![jstr("tables"@)])),
        ("uri"@, jstr(uri)),
    ])
}

/// The payload that reads a page whole.
pub open spec fn page_read_payload_spec(uri: Seq<char>) -> JsonV {
    JsonV::Object(seq![
        ("contentTypesToInclude"@, JsonV::Array(seq![jstr("markdown"@), jstr("tables"@)])),
        ("markdownBlockLimit"@, JsonV::Number(decimal(500))),
        ("uri"@, jstr(uri)),
    ])
}

/// The payload that reads a table's rows.
pub open spec fn rows_read_payload_spec(uri: Seq<char>, limit: nat) -> JsonV {
    JsonV::Object(seq![("rowLimit"@, JsonV::Number(decimal(limit))), ("uri"@, jstr(uri))])
}

/// The document's title: its `title`, else its `name`, else "untitled".
pub open spec fn doc_name(meta: JsonV) -> Seq<char> {
    let v = match meta.get("title"@) {
        Some(t) => Some(t),
        None => meta.get("name"@),
    };
    match v {
        Some(x) => str_or(x.as_str(), "untitled"@),
        None => "untitled"@,
    }
}

/// A field of the document worth keeping: present and not null.
pub open spec fn kept(meta: JsonV, key: Seq<char>) -> Seq<(Seq<char>, JsonV)> {
    match meta.get(key) {
        Some(v) => if v is Null { Seq::empty() } else { seq![(key, v)] },
        None => Seq::empty(),
    }
}

/// The essentials of the document written to `__doc.json`.
pub open spec fn doc_json_spec(meta: JsonV, name: Seq<char>, uri: Seq<char>) -> JsonV {
    JsonV::Object(
        kept(meta, "browserLink"@) + kept(meta, "createdAt"@) + seq![("docUri"@, jstr(uri))]
            + kept(meta, "owner"@) + seq![("title"@, jstr(name))],
    )
}

/// The metadata of a page written beside it.
pub open spec fn page_meta_spec(p: JsonV, slug: Seq<char>) -> JsonV {
    JsonV::Object(seq![
        ("canvasUri"@, match p.get_str("canvasUri"@) { Some(c) => jstr(c), None => JsonV::Null }),
        ("pageUri"@, match p.get_str("pageUri"@) { Some(c) => jstr(c), None => JsonV::Null }),
        ("slug"@, jstr(slug)),
        ("title"@, jstr(str_or(p.get_str("title"@), "Untitled"@))),
    ])
}

pub open spec fn page_slug(p: JsonV) -> Seq<char> {
    slugify_spec(str_or(p.get_str("title"@), "Untitled"@), id_from_uri_spec(read_uri(p)))
}

pub open spec fn table_name_s(t: JsonV) -> Seq<char> {
    str_or(t.get_str("name"@), "Untitled"@)
}

pub open spec fn table_uri_s(t: JsonV) -> Seq<char> {
    str_or(t.get_str("tableUri"@), Seq::empty())
}

pub open spec fn table_slug(t: JsonV) -> Seq<char> {
    slugify_spec(table_name_s(t), id_from_uri_spec(table_uri_s(t)))
}

/// A table's columns as given, or none.
pub open spec fn table_columns(t: JsonV) -> JsonV {
    match t.get("columns"@) {
        Some(c) => c,
        None => JsonV::Array(Seq::empty()),
    }
}

pub open spec fn table_columns_arr(t: JsonV) -> Seq<JsonV> {
    match table_columns(t).as_array() {
        Some(a) => a,
        None => Seq::empty(),
    }
}

/// The rows of a table read: its `rows`, else its `items`.
pub open spec fn rows_of(rr: JsonV) -> Seq<JsonV> {
    crate::commands::compound::read_rows(rr)
}

/// The schema of a table written to `__schema.json`.
pub open spec fn schema_json_spec(t: JsonV) -> JsonV {
    JsonV::Object(seq![
        ("columns"@, table_columns(t)),
        ("tableName"@, jstr(table_name_s(t))),
        ("tableUri"@, jstr(table_uri_s(t))),
    ])
}

/// The rows flattened for `rows.ndjson`.
pub open spec fn flat_rows(rows: Seq<JsonV>, cols: Seq<JsonV>) -> Seq<JsonV> {
    rows.map_values(|r: JsonV| flatten_row_spec(r, column_map_spec(cols)))
}

/// The directory of a table.
pub open spec fn table_dir(s: SyncRunV, t: JsonV) -> Seq<char> {
    s.doc_slug + "/pages/tables/"@ + table_slug(t)
}

/// A page's record in `__sync.json`.
pub open spec fn page_entry_spec(slug: Seq<char>, now: Seq<char>, tables: Seq<Seq<char>>) -> JsonV {
    JsonV::Object(seq![("slug"@, jstr(slug)), ("synced_at"@, jstr(now)), ("tables"@, str_array(tables))])
}

/// A table's record in `__sync.json`.
pub open spec fn table_entry_spec(count: nat, slug: Seq<char>, now: Seq<char>) -> JsonV {
    JsonV::Object(seq![
        ("row_count"@, JsonV::Number(decimal(count))),
        ("slug"@, jstr(slug)),
        ("synced_at"@, jstr(now)),
    ])
}

/// The sync state of the document written to `__sync.json`.
pub open spec fn doc_sync_spec(s: SyncRunV) -> JsonV {
    JsonV::Object(seq![
        ("doc_uri"@, jstr(s.doc_uri)),
        ("pages"@, s.sync_pages),
        ("synced_at"@, jstr(s.now)),
        ("tables"@, s.sync_tables),
        ("version"@, JsonV::Number(decimal(1))),
    ])
}

/// Sets a key of an object; anything else as it is.
pub open spec fn put(v: JsonV, key: Seq<char>, x: JsonV) -> JsonV {
    crate::client::set_key(v, key, x)
}

pub open spec fn stats_of(s: SyncRunV) -> SyncStatsV {
    SyncStatsV {
        doc_uri: s.doc_uri,
        doc_title: s.doc_title,
        doc_slug: s.doc_slug,
        pages_synced: s.pages_synced,
        tables_synced: s.tables_synced,
        rows_synced: s.rows_synced,
        errors: s.errors,
    }
}

/// Sets `key` among keyed details: replaced in place, or appended.
pub open spec fn detail_insert(ds: Seq<(Seq<char>, TableDetailV)>, key: Seq<char>, d: TableDetailV) -> Seq<(Seq<char>, TableDetailV)> {
    obj_insert(ds, key, d)
}

/// Where the walk through the document stands.
pub enum SyncPos {
    /// At the start of the page `page`, or past the last page.
    Page,
    /// At the table `table` of the current page, or past its last table.
    Table,
}

pub open spec fn sync_rank(p: SyncPos) -> nat {
    match p {
        SyncPos::Page => 1,
        SyncPos::Table => 0,
    }
}

/// Walks on from `pos` to the next call, or to the end, with what is written and
/// reported on the way.
pub open spec fn sync_advance(s: SyncRunV, pos: SyncPos) -> (SyncRunV, Seq<SyncEffectV>, SyncStepV)
    decreases (if s.page <= s.pages.len() { s.pages.len() - s.page } else { 0 }), sync_rank(pos),
        (if s.table <= s.tables.len() { s.tables.len() - s.table } else { 0 }),
{
    if !(0 <= s.page < s.pages.len()) {
        let t = SyncRunV { phase: SyncPhase::Done, ..s };
        (
            t,
            seq![
                SyncEffectV::WriteText(s.doc_slug + "/CONTEXT.md"@,
                    context_md_spec(s.doc_title, s.now, s.doc_uri, s.page_details, s.table_details)),
                SyncEffectV::WriteJson(s.doc_slug + "/__sync.json"@, doc_sync_spec(s)),
            ],
            SyncStepV::Finish(Ok(stats_of(s))),
        )
    } else {
        let p = s.pages[s.page];
        let title = str_or(p.get_str("title"@), "Untitled"@);
        let ru = read_uri(p);
        match pos {
            SyncPos::Page => {
                if ru.len() == 0 {
                    let msg = "Page '"@ + str_or(p.get_str("title"@), "?"@) + "': "@ + "Page '"@ + title + "' has no URI"@;
                    let (t, es, st) = sync_advance(
                        SyncRunV { errors: s.errors.push(msg), page: s.page + 1, ..s },
                        SyncPos::Page,
                    );
                    (t, seq![SyncEffectV::Info("[sync] Error: "@ + msg + "\n"@)] + es, st)
                } else {
                    (
                        SyncRunV { phase: SyncPhase::AwaitPage, ..s },
                        seq![SyncEffectV::Info("[sync]   Page: "@ + title + "\n"@)],
                        SyncStepV::Call("page_read"@, page_read_payload_spec(ru)),
                    )
                }
            },
            SyncPos::Table => {
                if 0 <= s.table < s.tables.len() {
                    let t = s.tables[s.table];
                    let name = table_name_s(t);
                    let turi = table_uri_s(t);
                    if turi.len() == 0 {
                        let (u, es, st) = sync_advance(SyncRunV { table: s.table + 1, ..s }, SyncPos::Table);
                        (
                            u,
                            seq![SyncEffectV::Info("[sync]     Table '"@ + str_or(t.get_str("name"@), "?"@) + "' error: "@
                                + "Table '"@ + name + "' has no URI"@ + "\n"@)] + es,
                            st,
                        )
                    } else {
                        (
                            SyncRunV { phase: SyncPhase::AwaitTable, ..s },
                            seq![SyncEffectV::Info("[sync]     Table: "@ + name + "\n"@)],
                            SyncStepV::Call("table_read_rows"@, rows_read_payload_spec(turi, s.row_limit)),
                        )
                    }
                } else {
                    let slug = page_slug(p);
                    sync_advance(
                        SyncRunV {
                            sync_pages: put(s.sync_pages, ru, page_entry_spec(slug, s.now, s.table_uris)),
                            pages_synced: sat_add(s.pages_synced, 1),
                            tables_synced: sat_add(s.tables_synced, s.page_tables),
                            rows_synced: sat_add(s.rows_synced, s.page_rows),
                            page_details: s.page_details.push(PageDetailV { slug: slug, title: title, has_content: s.has_content }),
                            page: s.page + 1,
                            ..s
                        },
                        SyncPos::Page,
                    )
                }
            },
        }
    }
}

/// What the outcome of the call last asked for leads to.
pub open spec fn sync_next(s: SyncRunV, outcome: Result<JsonV, CodaError>) -> (SyncRunV, Seq<SyncEffectV>, SyncStepV) {
    match s.phase {
        SyncPhase::AwaitDoc => match outcome {
            Err(e) => (SyncRunV { phase: SyncPhase::Done, ..s }, Seq::empty(), SyncStepV::Finish(Err(e@))),
            Ok(doc) => {
                let meta = match doc.get("document"@) { Some(m) => m, None => JsonV::Object(Seq::empty()) };
                let name = doc_name(meta);
                let slug = slugify_spec(name, id_from_uri_spec(s.doc_uri));
                let pages = match doc.get_array("pages"@) { Some(p) => p, None => Seq::empty() };
                let (t, es, st) = sync_advance(
                    SyncRunV { doc_title: name, doc_slug: slug, pages: pages, page: 0, ..s },
                    SyncPos::Page,
                );
                (
                    t,
                    seq![
                        SyncEffectV::MakeDir(slug),
                        SyncEffectV::WriteJson(slug + "/__doc.json"@, doc_json_spec(meta, name, s.doc_uri)),
                        SyncEffectV::MakeDir(slug + "/pages"@),
                        SyncEffectV::Info("[sync] Found "@ + decimal(pages.len()) + " pages\n"@),
                    ] + es,
                    st,
                )
            },
        },
        SyncPhase::AwaitPage => {
            let p = s.pages[s.page];
            match outcome {
                Err(e) => {
                    let msg = "Page '"@ + str_or(p.get_str("title"@), "?"@) + "': "@ + message_spec(e);
                    let (t, es, st) = sync_advance(SyncRunV { errors: s.errors.push(msg), page: s.page + 1, ..s }, SyncPos::Page);
                    (t, seq![SyncEffectV::Info("[sync] Error: "@ + msg + "\n"@)] + es, st)
                },
                Ok(pd) => {
                    let content = str_or(pd.get_str("content"@), Seq::empty());
                    let has = trim(content).len() > 0;
                    let slug = page_slug(p);
                    let writes = if s.tables_only {
                        Seq::empty()
                    } else {
                        (if has { seq![SyncEffectV::WriteText(s.doc_slug + "/pages/"@ + slug + ".md"@, content)] } else { Seq::empty() })
                            + seq![SyncEffectV::WriteJson(s.doc_slug + "/pages/"@ + slug + ".json"@, page_meta_spec(p, slug))]
                    };
                    let tables = match pd.get_array("tables"@) { Some(t) => t, None => Seq::empty() };
                    let (t, es, st) = sync_advance(
                        SyncRunV {
                            has_content: has,
                            tables: tables,
                            table: 0,
                            page_tables: 0,
                            page_rows: 0,
                            table_uris: Seq::empty(),
                            ..s
                        },
                        SyncPos::Table,
                    );
                    (t, writes + es, st)
                },
            }
        },
        SyncPhase::AwaitTable => {
            let t = s.tables[s.table];
            match outcome {
                Err(e) => {
                    let (u, es, st) = sync_advance(SyncRunV { table: s.table + 1, ..s }, SyncPos::Table);
                    (
                        u,
                        seq![SyncEffectV::Info("[sync]     Table '"@ + str_or(t.get_str("name"@), "?"@) + "' error: "@
                            + message_spec(e) + "\n"@)] + es,
                        st,
                    )
                },
                Ok(rr) => {
                    let rows = rows_of(rr);
                    let cols = table_columns_arr(t);
                    let turi = table_uri_s(t);
                    let detail = TableDetailV {
                        slug: table_slug(t),
                        name: table_name_s(t),
                        column_names: column_names(cols),
                        row_count: rows.len(),
                    };
                    let empty = cols.len() == 0 && rows.len() == 0;
                    let dir = table_dir(s, t);
                    let writes = if empty {
                        Seq::empty()
                    } else {
                        seq![SyncEffectV::MakeDir(dir), SyncEffectV::WriteJson(dir + "/__schema.json"@, schema_json_spec(t))]
                            + (if rows.len() > 0 { seq![SyncEffectV::WriteRows(dir + "/rows.ndjson"@, flat_rows(rows, cols))] } else { Seq::empty() })
                    };
                    let s1 = if empty {
                        s
                    } else {
                        SyncRunV {
                            sync_tables: put(s.sync_tables, turi, table_entry_spec(rows.len(), table_slug(t), s.now)),
                            page_tables: sat_add(s.page_tables, 1),
                            page_rows: sat_add(s.page_rows, rows.len()),
                            ..s
                        }
                    };
                    let (u, es, st) = sync_advance(
                        SyncRunV {
                            table_uris: s1.table_uris.push(turi),
                            table_details: detail_insert(s1.table_details, turi, detail),
                            table: s.table + 1,
                            ..s1
                        },
                        SyncPos::Table,
                    );
                    (u, writes + es, st)
                },
            }
        },
        SyncPhase::Done => (s, Seq::empty(), SyncStepV::Finish(Ok(stats_of(s)))),
    }
}

/// A step taken at the time `now`: what it records is stamped with `now`.
pub open spec fn sync_next_at(s: SyncRunV, outcome: Result<JsonV, CodaError>, now: Seq<char>) -> (SyncRunV, Seq<SyncEffectV>, SyncStepV) {
    sync_next(SyncRunV { now: now, ..s }, outcome)
}

/// The state a sync starts in: waiting for the document, nothing read,
/// recorded or counted yet.
pub open spec fn sync_start_spec(doc_uri: Seq<char>, tables_only: bool, row_limit: nat, now: Seq<char>) -> SyncRunV {
    SyncRunV {
        phase: SyncPhase::AwaitDoc,
        doc_uri: doc_uri,
        tables_only: tables_only,
        row_limit: row_limit,
        now: now,
        doc_title: Seq::empty(),
        doc_slug: Seq::empty(),
        pages: Seq::empty(),
        page: 0,
        has_content: false,
        tables: Seq::empty(),
        table: 0,
        page_tables: 0,
        page_rows: 0,
        table_uris: Seq::empty(),
        page_details: Seq::empty(),
        table_details: Seq::empty(),
        sync_pages: JsonV::Object(Seq::empty()),
        sync_tables: JsonV::Object(Seq::empty()),
        pages_synced: 0,
        tables_synced: 0,
        rows_synced: 0,
        errors: Seq::empty(),
    }
}

pub open spec fn sync_wf(s: SyncRunV) -> bool {
    &&& s.sync_pages is Object
    &&& s.sync_tables is Object
    &&& (s.phase == SyncPhase::AwaitPage ==> 0 <= s.page < s.pages.len())
    &&& (s.phase == SyncPhase::AwaitTable ==> 0 <= s.page < s.pages.len() && 0 <= s.table < s.tables.len())
}

pub proof fn lemma_sync_advance_wf(s: SyncRunV, pos: SyncPos)
    requires
        s.sync_pages is Object,
        s.sync_tables is Object,
    ensures
        sync_wf(sync_advance(s, pos).0),
    decreases (if s.page <= s.pages.len() { s.pages.len() - s.page } else { 0 }), sync_rank(pos),
        (if s.table <= s.tables.len() { s.tables.len() - s.table } else { 0 }),
{
    if 0 <= s.page < s.pages.len() {
        let p = s.pages[s.page];
        let title = str_or(p.get_str("title"@), "Untitled"@);
        let ru = read_uri(p);
        match pos {
            SyncPos::Page => {
                if ru.len() == 0 {
                    let msg = "Page '"@ + str_or(p.get_str("title"@), "?"@) + "': "@ + "Page '"@ + title + "' has no URI"@;
                    lemma_sync_advance_wf(SyncRunV { errors: s.errors.push(msg), page: s.page + 1, ..s }, SyncPos::Page);
                }
            },
            SyncPos::Table => {
                if 0 <= s.table < s.tables.len() {
                    if table_uri_s(s.tables[s.table]).len() == 0 {
                        lemma_sync_advance_wf(SyncRunV { table: s.table + 1, ..s }, SyncPos::Table);
                    }
                } else {
                    let slug = page_slug(p);
                    lemma_sync_advance_wf(
                        SyncRunV {
                            sync_pages: put(s.sync_pages, ru, page_entry_spec(slug, s.now, s.table_uris)),
                            pages_synced: sat_add(s.pages_synced, 1),
                            tables_synced: sat_add(s.tables_synced, s.page_tables),
                            rows_synced: sat_add(s.rows_synced, s.page_rows),
                            page_details: s.page_details.push(PageDetailV { slug: slug, title: title, has_content: s.has_content }),
                            page: s.page + 1,
                            ..s
                        },
                        SyncPos::Page,
                    );
                }
            },
        }
    }
}

proof fn lemma_advance_rows(s: SyncRunV, pos: SyncPos)
    ensures
        pos == SyncPos::Page ==> sync_advance(s, pos).0.rows_synced == s.rows_synced
            && sync_advance(s, pos).0.page >= s.page,
        pos == SyncPos::Table ==> ({
            let r = sync_advance(s, pos).0;
            ||| r.page == s.page && r.page_rows == s.page_rows && r.rows_synced == s.rows_synced
            ||| r.page > s.page && r.rows_synced == sat_add(s.rows_synced, s.page_rows)
        }),
    decreases (if s.page <= s.pages.len() { s.pages.len() - s.page } else { 0 }), sync_rank(pos),
        (if s.table <= s.tables.len() { s.tables.len() - s.table } else { 0 }),
{
    if 0 <= s.page < s.pages.len() {
        let p = s.pages[s.page];
        let title = str_or(p.get_str("title"@), "Untitled"@);
        let ru = read_uri(p);
        match pos {
            SyncPos::Page => {
                if ru.len() == 0 {
                    let msg = "Page '"@ + str_or(p.get_str("title"@), "?"@) + "': "@ + "Page '"@ + title + "' has no URI"@;
                    lemma_advance_rows(SyncRunV { errors: s.errors.push(msg), page: s.page + 1, ..s }, SyncPos::Page);
                }
            },
            SyncPos::Table => {
                if 0 <= s.table < s.tables.len() {
                    if table_uri_s(s.tables[s.table]).len() == 0 {
                        lemma_advance_rows(SyncRunV { table: s.table + 1, ..s }, SyncPos::Table);
                    }
                } else {
                    let slug = page_slug(p);
                    lemma_advance_rows(
                        SyncRunV {
                            sync_pages: put(s.sync_pages, ru, page_entry_spec(slug, s.now, s.table_uris)),
                            pages_synced: sat_add(s.pages_synced, 1),
                            tables_synced: sat_add(s.tables_synced, s.page_tables),
                            rows_synced: sat_add(s.rows_synced, s.page_rows),
                            page_details: s.page_details.push(PageDetailV { slug: slug, title: title, has_content: s.has_content }),
                            page: s.page + 1,
                            ..s
                        },
                        SyncPos::Page,
                    );
                }
            },
        }
    }
}

/// Every row a table read brings is counted: after the step on a read of `n`
/// rows (of a table with columns or rows), either the page goes on with `n`
/// more rows pending, or the page is done and the sync's row count has grown by
/// the page's pending rows and these `n`.
pub proof fn law_table_rows_counted(s: SyncRunV, rr: JsonV)
    requires
        s.phase == SyncPhase::AwaitTable,
        table_columns_arr(s.tables[s.table]).len() > 0 || rows_of(rr).len() > 0,
        s.rows_synced + s.page_rows + rows_of(rr).len() <= u64::MAX,
    ensures
        ({
            let n = rows_of(rr).len();
            let t = sync_next(s, Ok(rr)).0;
            ||| t.page == s.page && t.page_rows == s.page_rows + n && t.rows_synced == s.rows_synced
            ||| t.page > s.page && t.rows_synced == s.rows_synced + s.page_rows + n
        }),
{
    let tb = s.tables[s.table];
    let rows = rows_of(rr);
    let cols = table_columns_arr(tb);
    let turi = table_uri_s(tb);
    let detail = TableDetailV {
        slug: table_slug(tb),
        name: table_name_s(tb),
        column_names: column_names(cols),
        row_count: rows.len(),
    };
    let s1 = SyncRunV {
        sync_tables: put(s.sync_tables, turi, table_entry_spec(rows.len(), table_slug(tb), s.now)),
        page_tables: sat_add(s.page_tables, 1),
        page_rows: sat_add(s.page_rows, rows.len()),
        ..s
    };
    let s2 = SyncRunV {
        table_uris: s1.table_uris.push(turi),
        table_details: detail_insert(s1.table_details, turi, detail),
        table: s.table + 1,
        ..s1
    };
    lemma_advance_rows(s2, SyncPos::Table);
}

/// A write that a tables-only sync may make: the document's `CONTEXT.md`, its
/// `__doc.json` and `__sync.json`, a table's `__schema.json` and rows; directories
/// and progress lines besides.
pub open spec fn tables_only_write(e: SyncEffectV, slug: Seq<char>) -> bool {
    match e {
        SyncEffectV::WriteText(p, _) => p == slug + "/CONTEXT.md"@,
        SyncEffectV::WriteJson(p, _) => p == slug + "/__doc.json"@ || p == slug + "/__sync.json"@
            || exists|x: Seq<char>| p == #[trigger] (slug + "/pages/tables/"@ + x) + "/__schema.json"@,
        _ => true,
    }
}

/// What walking on between calls emits: progress lines and the two closing writes.
pub open spec fn advance_effect(e: SyncEffectV, slug: Seq<char>) -> bool {
    match e {
        SyncEffectV::Info(_) => true,
        SyncEffectV::WriteText(p, _) => p == slug + "/CONTEXT.md"@,
        SyncEffectV::WriteJson(p, _) => p == slug + "/__sync.json"@,
        _ => false,
    }
}

pub proof fn lemma_advance_effects(s: SyncRunV, pos: SyncPos)
    ensures
        sync_advance(s, pos).0.doc_slug == s.doc_slug,
        sync_advance(s, pos).0.tables_only == s.tables_only,
        forall|i: int| 0 <= i < sync_advance(s, pos).1.len()
            ==> advance_effect(#[trigger] sync_advance(s, pos).1[i], s.doc_slug),
    decreases (if s.page <= s.pages.len() { s.pages.len() - s.page } else { 0 }), sync_rank(pos),
        (if s.table <= s.tables.len() { s.tables.len() - s.table } else { 0 }),
{
    if 0 <= s.page < s.pages.len() {
        let p = s.pages[s.page];
        let title = str_or(p.get_str("title"@), "Untitled"@);
        let ru = read_uri(p);
        match pos {
            SyncPos::Page => {
                if ru.len() == 0 {
                    let msg = "Page '"@ + str_or(p.get_str("title"@), "?"@) + "': "@ + "Page '"@ + title + "' has no URI"@;
                    let s1 = SyncRunV { errors: s.errors.push(msg), page: s.page + 1, ..s };
                    lemma_advance_effects(s1, SyncPos::Page);
                    let head = seq![SyncEffectV::Info("[sync] Error: "@ + msg + "\n"@)];
                    let tail = sync_advance(s1, SyncPos::Page).1;
                    assert(sync_advance(s, pos).1 == head + tail);
                    assert forall|i: int| 0 <= i < (head + tail).len()
                        implies advance_effect(#[trigger] (head + tail)[i], s.doc_slug) by {
                        if i >= 1 {
                            assert((head + tail)[i] == tail[i - 1]);
                        }
                    }
                }
            },
            SyncPos::Table => {
                if 0 <= s.table < s.tables.len() {
                    let t = s.tables[s.table];
                    if table_uri_s(t).len() == 0 {
                        let s1 = SyncRunV { table: s.table + 1, ..s };
                        lemma_advance_effects(s1, SyncPos::Table);
                        let head = seq![SyncEffectV::Info("[sync]     Table '"@ + str_or(t.get_str("name"@), "?"@) + "' error: "@
                            + "Table '"@ + table_name_s(t) + "' has no URI"@ + "\n"@)];
                        let tail = sync_advance(s1, SyncPos::Table).1;
                        assert(sync_advance(s, pos).1 == head + tail);
                        assert forall|i: int| 0 <= i < (head + tail).len()
                            implies advance_effect(#[trigger] (head + tail)[i], s.doc_slug) by {
                            if i >= 1 {
                                assert((head + tail)[i] == tail[i - 1]);
                            }
                        }
                    }
                } else {
                    let slug = page_slug(p);
                    lemma_advance_effects(
                        SyncRunV {
                            sync_pages: put(s.sync_pages, ru, page_entry_spec(slug, s.now, s.table_uris)),
                            pages_synced: sat_add(s.pages_synced, 1),
                            tables_synced: sat_add(s.tables_synced, s.page_tables),
                            rows_synced: sat_add(s.rows_synced, s.page_rows),
                            page_details: s.page_details.push(PageDetailV { slug: slug, title: title, has_content: s.has_content }),
                            page: s.page + 1,
                            ..s
                        },
                        SyncPos::Page,
                    );
                }
            },
        }
    }
}

/// A sync made with `tables_only` skips page content: whatever call has come
/// back, the step that follows writes no page's markdown or metadata, only the
/// document's own files and its tables' files, and the sync stays tables-only.
pub proof fn law_tables_only_skips_pages(s: SyncRunV, outcome: Result<JsonV, CodaError>)
    requires
        s.tables_only,
    ensures
        sync_next(s, outcome).0.tables_only,
        forall|i: int| 0 <= i < sync_next(s, outcome).1.len()
            ==> tables_only_write(#[trigger] sync_next(s, outcome).1[i], sync_next(s, outcome).0.doc_slug),
{
    let (t, es, st) = sync_next(s, outcome);
    match s.phase {
        SyncPhase::AwaitDoc => {
            if let Ok(doc) = outcome {
                let meta = match doc.get("document"@) { Some(m) => m, None => JsonV::Object(Seq::empty()) };
                let name = doc_name(meta);
                let slug = slugify_spec(name, id_from_uri_spec(s.doc_uri));
                let pages = match doc.get_array("pages"@) { Some(p) => p, None => Seq::empty() };
                let s1 = SyncRunV { doc_title: name, doc_slug: slug, pages: pages, page: 0, ..s };
                lemma_advance_effects(s1, SyncPos::Page);
                let head = seq![
                    SyncEffectV::MakeDir(slug),
                    SyncEffectV::WriteJson(slug + "/__doc.json"@, doc_json_spec(meta, name, s.doc_uri)),
                    SyncEffectV::MakeDir(slug + "/pages"@),
                    SyncEffectV::Info("[sync] Found "@ + decimal(pages.len()) + " pages\n"@),
                ];
                let tail = sync_advance(s1, SyncPos::Page).1;
                assert(es == head + tail);
                assert forall|i: int| 0 <= i < es.len() implies tables_only_write(#[trigger] es[i], t.doc_slug) by {
                    if i >= 4 {
                        assert(es[i] == tail[i - 4]);
                        assert(advance_effect(tail[i - 4], slug));
                    }
                }
            }
        },
        SyncPhase::AwaitPage => {
            let p = s.pages[s.page];
            match outcome {
                Err(e) => {
                    let msg = "Page '"@ + str_or(p.get_str("title"@), "?"@) + "': "@ + message_spec(e);
                    let s1 = SyncRunV { errors: s.errors.push(msg), page: s.page + 1, ..s };
                    lemma_advance_effects(s1, SyncPos::Page);
                    let head = seq![SyncEffectV::Info("[sync] Error: "@ + msg + "\n"@)];
                    let tail = sync_advance(s1, SyncPos::Page).1;
                    assert(es == head + tail);
                    assert forall|i: int| 0 <= i < es.len() implies tables_only_write(#[trigger] es[i], t.doc_slug) by {
                        if i >= 1 {
                            assert(es[i] == tail[i - 1]);
                            assert(advance_effect(tail[i - 1], s.doc_slug));
                        }
                    }
                },
                Ok(pd) => {
                    let content = str_or(pd.get_str("content"@), Seq::empty());
                    let has = trim(content).len() > 0;
                    let tables = match pd.get_array("tables"@) { Some(t) => t, None => Seq::empty() };
                    let s1 = SyncRunV {
                        has_content: has,
                        tables: tables,
                        table: 0,
                        page_tables: 0,
                        page_rows: 0,
                        table_uris: Seq::empty(),
                        ..s
                    };
                    lemma_advance_effects(s1, SyncPos::Table);
                    let tail = sync_advance(s1, SyncPos::Table).1;
                    assert(es == Seq::<SyncEffectV>::empty() + tail);
                    assert forall|i: int| 0 <= i < es.len() implies tables_only_write(#[trigger] es[i], t.doc_slug) by {
                        assert(es[i] == tail[i]);
                        assert(advance_effect(tail[i], s.doc_slug));
                    }
                },
            }
        },
        SyncPhase::AwaitTable => {
            let tb = s.tables[s.table];
            match outcome {
                Err(e) => {
                    let s1 = SyncRunV { table: s.table + 1, ..s };
                    lemma_advance_effects(s1, SyncPos::Table);
                    let head = seq![SyncEffectV::Info("[sync]     Table '"@ + str_or(tb.get_str("name"@), "?"@) + "' error: "@
                        + message_spec(e) + "\n"@)];
                    let tail = sync_advance(s1, SyncPos::Table).1;
                    assert(es == head + tail);
                    assert forall|i: int| 0 <= i < es.len() implies tables_only_write(#[trigger] es[i], t.doc_slug) by {
                        if i >= 1 {
                            assert(es[i] == tail[i - 1]);
                            assert(advance_effect(tail[i - 1], s.doc_slug));
                        }
                    }
                },
                Ok(rr) => {
                    let rows = rows_of(rr);
                    let cols = table_columns_arr(tb);
                    let turi = table_uri_s(tb);
                    let detail = TableDetailV {
                        slug: table_slug(tb),
                        name: table_name_s(tb),
                        column_names: column_names(cols),
                        row_count: rows.len(),
                    };
                    let empty = cols.len() == 0 && rows.len() == 0;
                    let dir = table_dir(s, tb);
                    let writes = if empty {
                        Seq::empty()
                    } else {
                        seq![SyncEffectV::MakeDir(dir), SyncEffectV::WriteJson(dir + "/__schema.json"@, schema_json_spec(tb))]
                            + (if rows.len() > 0 { seq![SyncEffectV::WriteRows(dir + "/rows.ndjson"@, flat_rows(rows, cols))] } else { Seq::empty() })
                    };
                    let s1 = if empty {
                        s
                    } else {
                        SyncRunV {
                            sync_tables: put(s.sync_tables, turi, table_entry_spec(rows.len(), table_slug(tb), s.now)),
                            page_tables: sat_add(s.page_tables, 1),
                            page_rows: sat_add(s.page_rows, rows.len()),
                            ..s
                        }
                    };
                    let s2 = SyncRunV {
                        table_uris: s1.table_uris.push(turi),
                        table_details: detail_insert(s1.table_details, turi, detail),
                        table: s.table + 1,
                        ..s1
                    };
                    lemma_advance_effects(s2, SyncPos::Table);
                    let tail = sync_advance(s2, SyncPos::Table).1;
                    assert(es == writes + tail);
                    assert(dir + "/__schema.json"@ == (s.doc_slug + "/pages/tables/"@ + table_slug(tb)) + "/__schema.json"@);
                    assert forall|i: int| 0 <= i < es.len() implies tables_only_write(#[trigger] es[i], t.doc_slug) by {
                        if i >= writes.len() {
                            assert(es[i] == tail[i - writes.len()]);
                            assert(advance_effect(tail[i - writes.len()], s.doc_slug));
                        } else {
                            assert(es[i] == writes[i]);
                        }
                    }
                },
            }
        },
        SyncPhase::Done => {},
    }
}

fn push_effect(effects: &mut Vec<SyncEffect>, e: SyncEffect)
    ensures
        effects_view(final(effects)@) == effects_view(old(effects)@).push(e@),
{
    let ghost before = effects@;
    effects.push(e);
    assert(effects_view(effects@) =~= effects_view(before).push(e@));
}

fn text3(a: &str, b: &str, c: &str) -> (r: String)
    ensures
        r@ == a@ + b@ + c@,
{
    let mut v: Vec<char> = Vec::new();
    extend_str(&mut v, a);
    extend_str(&mut v, b);
    extend_str(&mut v, c);
    assert(v@ =~= a@ + b@ + c@);
    string_of(v.as_slice())
}

fn text2(a: &str, b: &str) -> (r: String)
    ensures
        r@ == a@ + b@,
{
    let mut v: Vec<char> = Vec::new();
    extend_str(&mut v, a);
    extend_str(&mut v, b);
    assert(v@ =~= a@ + b@);
    string_of(v.as_slice())
}

fn text4(a: &str, b: &str, c: &str, d: &str) -> (r: String)
    ensures
        r@ == a@ + b@ + c@ + d@,
{
    let mut v: Vec<char> = Vec::new();
    extend_str(&mut v, a);
    extend_str(&mut v, b);
    extend_str(&mut v, c);
    extend_str(&mut v, d);
    assert(v@ =~= a@ + b@ + c@ + d@);
    string_of(v.as_slice())
}

fn text5(a: &str, b: &str, c: &str, d: &str, e: &str) -> (r: String)
    ensures
        r@ == a@ + b@ + c@ + d@ + e@,
{
    let mut v: Vec<char> = Vec::new();
    extend_str(&mut v, a);
    extend_str(&mut v, b);
    extend_str(&mut v, c);
    extend_str(&mut v, d);
    extend_str(&mut v, e);
    assert(v@ =~= a@ + b@ + c@ + d@ + e@);
    string_of(v.as_slice())
}

fn str_or_exec<'a>(v: Option<&'a str>, d: &'a str) -> (r: &'a str)
    ensures
        r@ == str_or(match v { Some(x) => Some(x@), None => None }, d@),
{
    match v {
        Some(x) => x,
        None => d,
    }
}

fn read_uri_exec(p: &Json) -> (r: String)
    ensures
        r@ == read_uri(p@),
{
    match p.get_str("canvasUri") {
        Some(c) => c.to_owned(),
        None => match p.get_str("pageUri") {
            Some(u) => u.to_owned(),
            None => String::new(),
        },
    }
}

fn page_slug_exec(p: &Json) -> (r: String)
    ensures
        r@ == page_slug(p@),
{
    let ru = read_uri_exec(p);
    let id = id_from_uri(ru.as_str());
    slugify(str_or_exec(p.get_str("title"), "Untitled"), id.as_str())
}

fn table_uri_exec(t: &Json) -> (r: String)
    ensures
        r@ == table_uri_s(t@),
{
    match t.get_str("tableUri") {
        Some(u) => u.to_owned(),
        None => String::new(),
    }
}

fn table_slug_exec(t: &Json) -> (r: String)
    ensures
        r@ == table_slug(t@),
{
    let turi = table_uri_exec(t);
    let id = id_from_uri(turi.as_str());
    slugify(str_or_exec(t.get_str("name"), "Untitled"), id.as_str())
}

fn empty_items() -> (r: Vec<Json>)
    ensures
        items_view(r@) == Seq::<JsonV>::empty(),
{
    let e: Vec<Json> = Vec::new();
    assert(items_view(e@) =~= Seq::<JsonV>::empty());
    e
}

fn copy_items(v: &Vec<Json>) -> (r: Vec<Json>)
    ensures
        items_view(r@) == items_view(v@),
{
    let mut copy: Vec<Json> = Vec::new();
    let mut i: usize = 0;
    while i < v.len()
        invariant
            i <= v.len(),
            items_view(copy@) == items_view(v@).take(i as int),
        decreases v.len() - i,
    {
        push_item(&mut copy, v[i].duplicate());
        i = i + 1;
        assert(items_view(copy@) =~= items_view(v@).take(i as int));
    }
    assert(items_view(v@).take(i as int) =~= items_view(v@));
    copy
}

fn table_columns_exec(t: &Json) -> (r: Json)
    ensures
        r@ == table_columns(t@),
{
    match t.get("columns") {
        Some(c) => c.duplicate(),
        None => array_of(empty_items()),
    }
}

fn rows_of_exec(rr: &Json) -> (r: Vec<Json>)
    ensures
        items_view(r@) == rows_of(rr@),
{
    let source = match rr.get("rows") {
        Some(r) => Some(r),
        None => rr.get("items"),
    };
    match source {
        Some(x) => match x.as_array() {
            Some(a) => copy_items(a),
            None => empty_items(),
        },
        None => empty_items(),
    }
}

fn column_names_exec(cols: &Vec<Json>) -> (r: Vec<String>)
    ensures
        string_views(r@) == column_names(items_view(cols@)),
{
    let ghost cv = items_view(cols@);
    let mut out: Vec<String> = Vec::new();
    let mut i: usize = 0;
    assert(cv.take(0) =~= Seq::<JsonV>::empty());
    assert(string_views(out@) =~= Seq::<Seq<char>>::empty());
    while i < cols.len()
        invariant
            i <= cols.len(),
            cv == items_view(cols@),
            string_views(out@) == column_names(cv.take(i as int)),
        decreases cols.len() - i,
    {
        assert(cv.take(i + 1).drop_last() =~= cv.take(i as int));
        assert(cv.take(i + 1).last() == cols@[i as int]@);
        match cols[i].get_str("name") {
            Some(n) => {
                let ghost before = out@;
                out.push(n.to_owned());
                assert(string_views(out@) =~= string_views(before).push(n@));
            },
            None => {},
        }
        i = i + 1;
    }
    assert(cv.take(i as int) =~= cv);
    out
}

fn doc_json(meta: &Json, name: &str, uri: &str) -> (r: Json)
    ensures
        r@ == doc_json_spec(meta@, name@, uri@),
{
    let mut es: Vec<(String, Json)> = Vec::new();
    let ghost e0 = entries_view(es@);
    keep(&mut es, meta, "browserLink");
    keep(&mut es, meta, "createdAt");
    push_entry(&mut es, "docUri", Json::str(uri));
    keep(&mut es, meta, "owner");
    push_entry(&mut es, "title", Json::str(name));
    assert(entries_view(es@) =~= doc_json_spec(meta@, name@, uri@)->Object_0);
    object_of(es)
}

fn keep(es: &mut Vec<(String, Json)>, meta: &Json, key: &str)
    ensures
        entries_view(final(es)@) == entries_view(old(es)@) + kept(meta@, key@),
{
    match meta.get(key) {
        Some(v) => {
            if !v.is_null() {
                push_entry(es, key, v.duplicate());
                assert(entries_view(es@) =~= entries_view(old(es)@) + kept(meta@, key@));
            } else {
                assert(entries_view(es@) =~= entries_view(old(es)@) + kept(meta@, key@));
            }
        },
        None => {
            assert(entries_view(es@) =~= entries_view(old(es)@) + kept(meta@, key@));
        },
    }
}

fn page_meta(p: &Json, slug: &str) -> (r: Json)
    ensures
        r@ == page_meta_spec(p@, slug@),
{
    let mut es: Vec<(String, Json)> = Vec::new();
    match p.get_str("canvasUri") {
        Some(c) => push_entry(&mut es, "canvasUri", Json::str(c)),
        None => push_entry(&mut es, "canvasUri", Json::Null),
    }
    match p.get_str("pageUri") {
        Some(c) => push_entry(&mut es, "pageUri", Json::str(c)),
        None => push_entry(&mut es, "pageUri", Json::Null),
    }
    push_entry(&mut es, "slug", Json::str(slug));
    push_entry(&mut es, "title", Json::str(str_or_exec(p.get_str("title"), "Untitled")));
    assert(entries_view(es@) =~= page_meta_spec(p@, slug@)->Object_0);
    object_of(es)
}

fn strs_json(v: &Vec<String>) -> (r: Json)
    ensures
        r@ == str_array(string_views(v@)),
{
    string_array(v)
}

pub proof fn lemma_detail_keys(v: Seq<(String, TableDetail)>)
    ensures
        keys_of(table_details_view(v)) == exec_keys(v),
{
    assert(keys_of(table_details_view(v)) =~= exec_keys(v));
}

fn detail_insert_exec(ds: &mut Vec<(String, TableDetail)>, key: &str, d: TableDetail)
    ensures
        table_details_view(final(ds)@) == detail_insert(table_details_view(old(ds)@), key@, d@),
{
    proof { lemma_detail_keys(old(ds)@); }
    let ghost dv = d@;
    match find_key(ds, key) {
        Some(i) => {
            ds.set(i, (key.to_owned(), d));
            assert(table_details_view(ds@) =~= table_details_view(old(ds)@).update(i as int, (key@, dv)));
        },
        None => {
            ds.push((key.to_owned(), d));
            assert(table_details_view(ds@) =~= table_details_view(old(ds)@).push((key@, dv)));
        },
    }
}

fn put_exec(v: &mut Json, key: &str, x: Json)
    ensures
        final(v)@ == put(old(v)@, key@, x@),
{
    match v {
        Json::Object(_) => v.insert(key, x),
        _ => {},
    }
}

impl SyncRun {
    /// Starts the sync of the document at `doc_uri`, recording the time `now`;
    /// tables are read with at most `max_rows` rows, and no more than a hundred.
    pub fn start(doc_uri: &str, tables_only: bool, max_rows: usize, now: &str) -> (r: (SyncRun, Vec<SyncEffect>, SyncStep))
        ensures
            sync_wf(r.0@),
            r.0@ == sync_start_spec(doc_uri@, tables_only, (if max_rows < 100 { max_rows as nat } else { 100 }), now@),
            effects_view(r.1@) == seq![SyncEffectV::Info("[sync] Reading document: "@ + doc_uri@ + "\n"@)],
            r.2@ == SyncStepV::Call("document_read"@, doc_read_payload_spec(doc_uri@)),
    {
        let row_limit: u64 = if (max_rows as u64) < MAX_ROW_LIMIT { max_rows as u64 } else { MAX_ROW_LIMIT };
        let m = SyncRun {
            phase: SyncPhase::AwaitDoc,
            doc_uri: doc_uri.to_owned(),
            tables_only,
            row_limit,
            now: now.to_owned(),
            doc_title: String::new(),
            doc_slug: String::new(),
            pages: Vec::new(),
            page: 0,
            has_content: false,
            tables: Vec::new(),
            table: 0,
            page_tables: 0,
            page_rows: 0,
            table_uris: Vec::new(),
            page_details: Vec::new(),
            table_details: Vec::new(),
            sync_pages: Json::empty_object(),
            sync_tables: Json::empty_object(),
            pages_synced: 0,
            tables_synced: 0,
            rows_synced: 0,
            errors: Vec::new(),
        };
        assert(string_views(m.errors@) =~= Seq::<Seq<char>>::empty());
        assert(m@.pages =~= Seq::<JsonV>::empty());
        assert(m@.tables =~= Seq::<JsonV>::empty());
        assert(m@.table_uris =~= Seq::<Seq<char>>::empty());
        assert(m@.page_details =~= Seq::<PageDetailV>::empty());
        assert(m@.table_details =~= Seq::<(Seq<char>, TableDetailV)>::empty());
        assert(m@ == sync_start_spec(doc_uri@, tables_only, row_limit as nat, now@));
        let mut effects: Vec<SyncEffect> = Vec::new();
        assert(effects_view(effects@) =~= Seq::<SyncEffectV>::empty());
        let msg = text3("[sync] Reading document: ", doc_uri, "\n");
        push_effect(&mut effects, SyncEffect::Info(msg));
        assert(effects_view(effects@) =~= seq![SyncEffectV::Info("[sync] Reading document: "@ + doc_uri@ + "\n"@)]);
        let mut kinds: Vec<Json> = Vec::new();
        push_item(&mut kinds, Json::str("tables"));
        assert(items_view(kinds@) =~= seq![jstr("tables"@)]);
        let mut es: Vec<(String, Json)> = Vec::new();
        push_entry(&mut es, "contentTypesToInclude", array_of(kinds));
        push_entry(&mut es, "uri", Json::str(doc_uri));
        assert(entries_view(es@) =~= doc_read_payload_spec(doc_uri@)->Object_0);
        (m, effects, SyncStep::Call { tool: "document_read".to_owned(), payload: object_of(es) })
    }
}

fn copy_strings(v: &Vec<String>) -> (r: Vec<String>)
    ensures
        string_views(r@) == string_views(v@),
{
    let mut out: Vec<String> = Vec::new();
    let mut i: usize = 0;
    while i < v.len()
        invariant
            i <= v.len(),
            string_views(out@) == string_views(v@).take(i as int),
        decreases v.len() - i,
    {
        let x = v[i].clone();
        let ghost before = out@;
        out.push(x);
        assert(string_views(out@) =~= string_views(before).push(x@));
        i = i + 1;
        assert(string_views(v@).take(i as int) =~= string_views(v@).take(i - 1).push(x@));
    }
    assert(string_views(v@).take(i as int) =~= string_views(v@));
    out
}

impl SyncRun {
    fn stats(&self) -> (r: SyncStats)
        ensures
            SyncStep::Finish(Ok(r))@ == SyncStepV::Finish(Ok(stats_of(self@))),
    {
        SyncStats {
            doc_uri: self.doc_uri.clone(),
            doc_title: self.doc_title.clone(),
            doc_slug: self.doc_slug.clone(),
            pages_synced: self.pages_synced,
            tables_synced: self.tables_synced,
            rows_synced: self.rows_synced,
            errors: copy_strings(&self.errors),
        }
    }

    fn doc_sync(&self) -> (r: Json)
        ensures
            r@ == doc_sync_spec(self@),
    {
        let mut es: Vec<(String, Json)> = Vec::new();
        push_entry(&mut es, "doc_uri", Json::Str(self.doc_uri.clone()));
        push_entry(&mut es, "pages", self.sync_pages.duplicate());
        push_entry(&mut es, "synced_at", Json::Str(self.now.clone()));
        push_entry(&mut es, "tables", self.sync_tables.duplicate());
        push_entry(&mut es, "version", Json::number(1));
        assert(entries_view(es@) =~= doc_sync_spec(self@)->Object_0);
        object_of(es)
    }

    fn walk(&mut self, pos: SyncPos, effects: &mut Vec<SyncEffect>) -> (r: SyncStep)
        requires
            old(self)@.sync_pages is Object,
            old(self)@.sync_tables is Object,
        ensures
            final(self)@ == sync_advance(old(self)@, pos).0,
            effects_view(final(effects)@) == effects_view(old(effects)@) + sync_advance(old(self)@, pos).1,
            r@ == sync_advance(old(self)@, pos).2,
        decreases (if self.page <= self.pages.len() { self.pages.len() - self.page } else { 0 }), sync_rank(pos),
            (if self.table <= self.tables.len() { self.tables.len() - self.table } else { 0 }),
    {
        let ghost s = self@;
        let ghost e0 = effects_view(effects@);
        if self.page >= self.pages.len() {
            let md = context_md(self.doc_title.as_str(), self.now.as_str(), self.doc_uri.as_str(), &self.page_details, &self.table_details);
            let p1 = text2(self.doc_slug.as_str(), "/CONTEXT.md");
            push_effect(effects, SyncEffect::WriteText(p1, md));
            let p2 = text2(self.doc_slug.as_str(), "/__sync.json");
            push_effect(effects, SyncEffect::WriteJson(p2, self.doc_sync()));
            proof {
                assert(p1@ =~= s.doc_slug + "/CONTEXT.md"@);
                assert(p2@ =~= s.doc_slug + "/__sync.json"@);
            }
            let st = self.stats();
            self.phase = SyncPhase::Done;
            assert(effects_view(effects@) =~= e0 + sync_advance(s, pos).1);
            return SyncStep::Finish(Ok(st));
        }
        let p = self.pages[self.page].duplicate();
        assert(s.pages[s.page] == p@);
        let title = str_or_exec(p.get_str("title"), "Untitled");
        let ru = read_uri_exec(&p);
        match pos {
            SyncPos::Page => {
                if ru.as_str().is_empty() {
                    let inner = text3("Page '", title, "' has no URI");
                    let msg = text4("Page '", str_or_exec(p.get_str("title"), "?"), "': ", inner.as_str());
                    assert(msg@ =~= "Page '"@ + str_or(p@.get_str("title"@), "?"@) + "': "@ + "Page '"@
                        + str_or(p@.get_str("title"@), "Untitled"@) + "' has no URI"@);
                    let line = text3("[sync] Error: ", msg.as_str(), "\n");
                    push_effect(effects, SyncEffect::Info(line));
                    let ghost e1 = effects_view(effects@);
                    let ghost before = self.errors@;
                    self.errors.push(msg);
                    assert(string_views(self.errors@) =~= string_views(before).push(msg@));
                    self.page = self.page + 1;
                    let ghost s1 = self@;
                    let r = self.walk(SyncPos::Page, effects);
                    assert(effects_view(effects@) =~= e0 + sync_advance(s, pos).1) by {
                        assert(e1 == e0.push(SyncEffectV::Info(line@)));
                        assert(e0.push(SyncEffectV::Info(line@)) + sync_advance(s1, SyncPos::Page).1
                            =~= e0 + (seq![SyncEffectV::Info(line@)] + sync_advance(s1, SyncPos::Page).1));
                    }
                    r
                } else {
                    let line = text3("[sync]   Page: ", title, "\n");
                    push_effect(effects, SyncEffect::Info(line));
                    let mut kinds: Vec<Json> = Vec::new();
                    push_item(&mut kinds, Json::str("markdown"));
                    push_item(&mut kinds, Json::str("tables"));
                    assert(items_view(kinds@) =~= seq![jstr("markdown"@), jstr("tables"@)]);
                    let mut es: Vec<(String, Json)> = Vec::new();
                    push_entry(&mut es, "contentTypesToInclude", array_of(kinds));
                    push_entry(&mut es, "markdownBlockLimit", Json::number(500));
                    push_entry(&mut es, "uri", Json::Str(ru));
                    assert(entries_view(es@) =~= page_read_payload_spec(read_uri(p@))->Object_0);
                    self.phase = SyncPhase::AwaitPage;
                    assert(effects_view(effects@) =~= e0 + sync_advance(s, pos).1);
                    SyncStep::Call { tool: "page_read".to_owned(), payload: object_of(es) }
                }
            },
            SyncPos::Table => {
                if self.table < self.tables.len() {
                    let t = self.tables[self.table].duplicate();
                    assert(s.tables[s.table] == t@);
                    let name = str_or_exec(t.get_str("name"), "Untitled");
                    let turi = table_uri_exec(&t);
                    if turi.as_str().is_empty() {
                        let inner = text3("Table '", name, "' has no URI");
                        let line = text5("[sync]     Table '", str_or_exec(t.get_str("name"), "?"), "' error: ", inner.as_str(), "\n");
                        assert(line@ =~= "[sync]     Table '"@ + str_or(t@.get_str("name"@), "?"@) + "' error: "@
                            + "Table '"@ + table_name_s(t@) + "' has no URI"@ + "\n"@);
                        push_effect(effects, SyncEffect::Info(line));
                        let ghost e1 = effects_view(effects@);
                        self.table = self.table + 1;
                        let ghost s1 = self@;
                        let r = self.walk(SyncPos::Table, effects);
                        assert(effects_view(effects@) =~= e0 + sync_advance(s, pos).1) by {
                            assert(e0.push(SyncEffectV::Info(line@)) + sync_advance(s1, SyncPos::Table).1
                                =~= e0 + (seq![SyncEffectV::Info(line@)] + sync_advance(s1, SyncPos::Table).1));
                        }
                        r
                    } else {
                        let line = text3("[sync]     Table: ", name, "\n");
                        push_effect(effects, SyncEffect::Info(line));
                        let mut es: Vec<(String, Json)> = Vec::new();
                        push_entry(&mut es, "rowLimit", Json::number(self.row_limit));
                        push_entry(&mut es, "uri", Json::Str(turi));
                        assert(entries_view(es@) =~= rows_read_payload_spec(table_uri_s(t@), s.row_limit)->Object_0);
                        self.phase = SyncPhase::AwaitTable;
                        assert(effects_view(effects@) =~= e0 + sync_advance(s, pos).1);
                        SyncStep::Call { tool: "table_read_rows".to_owned(), payload: object_of(es) }
                    }
                } else {
                    let slug = page_slug_exec(&p);
                    let mut entry: Vec<(String, Json)> = Vec::new();
                    push_entry(&mut entry, "slug", Json::Str(slug.clone()));
                    push_entry(&mut entry, "synced_at", Json::Str(self.now.clone()));
                    push_entry(&mut entry, "tables", strs_json(&self.table_uris));
                    assert(entries_view(entry@) =~= page_entry_spec(slug@, s.now, s.table_uris)->Object_0);
                    put_exec(&mut self.sync_pages, ru.as_str(), object_of(entry));
                    self.pages_synced = self.pages_synced.saturating_add(1);
                    self.tables_synced = self.tables_synced.saturating_add(self.page_tables);
                    self.rows_synced = self.rows_synced.saturating_add(self.page_rows);
                    let d = PageDetail { slug, title: title.to_owned(), has_content: self.has_content };
                    let ghost dv = d@;
                    let ghost before = self.page_details@;
                    self.page_details.push(d);
                    assert(page_details_view(self.page_details@) =~= page_details_view(before).push(dv));
                    self.page = self.page + 1;
                    self.walk(SyncPos::Page, effects)
                }
            },
        }
    }
}

impl SyncRun {
    #[verifier::rlimit(40)]
    fn on_doc(&mut self, outcome: Result<Json, CodaError>) -> (r: (Vec<SyncEffect>, SyncStep))
        requires
            sync_wf(old(self)@),
            old(self).phase == SyncPhase::AwaitDoc,
        ensures
            final(self)@ == sync_next(old(self)@, outcome_view(outcome)).0,
            effects_view(r.0@) == sync_next(old(self)@, outcome_view(outcome)).1,
            r.1@ == sync_next(old(self)@, outcome_view(outcome)).2,
            sync_wf(final(self)@),
    {
        let ghost s = self@;
        let mut effects: Vec<SyncEffect> = Vec::new();
        assert(effects_view(effects@) =~= Seq::<SyncEffectV>::empty());
        match outcome {
            Err(e) => {
                self.phase = SyncPhase::Done;
                (effects, SyncStep::Finish(Err(e)))
            },
            Ok(doc) => {
                let meta = match doc.get("document") {
                    Some(m) => m.duplicate(),
                    None => Json::empty_object(),
                };
                let name_src = match meta.get("title") {
                    Some(t) => Some(t),
                    None => meta.get("name"),
                };
                let name: String = match name_src {
                    Some(x) => match x.as_str() {
                        Some(n) => n.to_owned(),
                        None => "untitled".to_owned(),
                    },
                    None => "untitled".to_owned(),
                };
                assert(name@ == doc_name(meta@));
                let id = id_from_uri(self.doc_uri.as_str());
                let slug = slugify(name.as_str(), id.as_str());
                let pages = match doc.get_array("pages") {
                    Some(p) => copy_items(p),
                    None => empty_items(),
                };
                push_effect(&mut effects, SyncEffect::MakeDir(slug.clone()));
                let dj = doc_json(&meta, name.as_str(), self.doc_uri.as_str());
                push_effect(&mut effects, SyncEffect::WriteJson(text2(slug.as_str(), "/__doc.json"), dj));
                push_effect(&mut effects, SyncEffect::MakeDir(text2(slug.as_str(), "/pages")));
                let mut found: Vec<char> = Vec::new();
                extend_str(&mut found, "[sync] Found ");
                crate::text::push_decimal(&mut found, pages.len() as u64);
                extend_str(&mut found, " pages\n");
                push_effect(&mut effects, SyncEffect::Info(string_of(found.as_slice())));
                let ghost head = effects_view(effects@);
                self.doc_title = name;
                self.doc_slug = slug;
                self.pages = pages;
                self.page = 0;
                let ghost s1 = self@;
                proof { lemma_sync_advance_wf(s1, SyncPos::Page); }
                let st = self.walk(SyncPos::Page, &mut effects);
                assert(effects_view(effects@) =~= sync_next(s, outcome_view(outcome)).1);
                (effects, st)
            },
        }
    }

    #[verifier::rlimit(40)]
    fn on_page(&mut self, outcome: Result<Json, CodaError>) -> (r: (Vec<SyncEffect>, SyncStep))
        requires
            sync_wf(old(self)@),
            old(self).phase == SyncPhase::AwaitPage,
        ensures
            final(self)@ == sync_next(old(self)@, outcome_view(outcome)).0,
            effects_view(r.0@) == sync_next(old(self)@, outcome_view(outcome)).1,
            r.1@ == sync_next(old(self)@, outcome_view(outcome)).2,
            sync_wf(final(self)@),
    {
        let ghost s = self@;
        let mut effects: Vec<SyncEffect> = Vec::new();
        assert(effects_view(effects@) =~= Seq::<SyncEffectV>::empty());
        assert(self.page < self.pages.len());
        let p = self.pages[self.page].duplicate();
        assert(s.pages[s.page] == p@);
        match outcome {
            Err(e) => {
                let m = e.message();
                let msg = text4("Page '", str_or_exec(p.get_str("title"), "?"), "': ", m.as_str());
                let line = text3("[sync] Error: ", msg.as_str(), "\n");
                push_effect(&mut effects, SyncEffect::Info(line));
                let ghost before = self.errors@;
                self.errors.push(msg);
                assert(string_views(self.errors@) =~= string_views(before).push(msg@));
                self.page = self.page + 1;
                let ghost s1 = self@;
                proof { lemma_sync_advance_wf(s1, SyncPos::Page); }
                let st = self.walk(SyncPos::Page, &mut effects);
                assert(effects_view(effects@) =~= sync_next(s, outcome_view(outcome)).1);
                (effects, st)
            },
            Ok(pd) => {
                let content: &str = str_or_exec(pd.get_str("content"), "");
                proof { reveal_strlit(""); }
                let tc = chars_of(content);
                let trimmed = trim_chars(tc.as_slice());
                let has = trimmed.len() > 0;
                let slug = page_slug_exec(&p);
                if !self.tables_only {
                    if has {
                        let path = text4(self.doc_slug.as_str(), "/pages/", slug.as_str(), ".md");
                        push_effect(&mut effects, SyncEffect::WriteText(path, content.to_owned()));
                    }
                    let path = text4(self.doc_slug.as_str(), "/pages/", slug.as_str(), ".json");
                    push_effect(&mut effects, SyncEffect::WriteJson(path, page_meta(&p, slug.as_str())));
                }
                let ghost head = effects_view(effects@);
                let tables = match pd.get_array("tables") {
                    Some(t) => copy_items(t),
                    None => empty_items(),
                };
                self.has_content = has;
                self.tables = tables;
                self.table = 0;
                self.page_tables = 0;
                self.page_rows = 0;
                self.table_uris = Vec::new();
                assert(string_views(self.table_uris@) =~= Seq::<Seq<char>>::empty());
                let ghost s1 = self@;
                proof { lemma_sync_advance_wf(s1, SyncPos::Table); }
                let st = self.walk(SyncPos::Table, &mut effects);
                assert(effects_view(effects@) =~= sync_next(s, outcome_view(outcome)).1);
                (effects, st)
            },
        }
    }

    #[verifier::rlimit(40)]
    fn on_table(&mut self, outcome: Result<Json, CodaError>) -> (r: (Vec<SyncEffect>, SyncStep))
        requires
            sync_wf(old(self)@),
            old(self).phase == SyncPhase::AwaitTable,
        ensures
            final(self)@ == sync_next(old(self)@, outcome_view(outcome)).0,
            effects_view(r.0@) == sync_next(old(self)@, outcome_view(outcome)).1,
            r.1@ == sync_next(old(self)@, outcome_view(outcome)).2,
            sync_wf(final(self)@),
    {
        let ghost s = self@;
        let mut effects: Vec<SyncEffect> = Vec::new();
        assert(effects_view(effects@) =~= Seq::<SyncEffectV>::empty());
        assert(self.table < self.tables.len());
        let t = self.tables[self.table].duplicate();
        assert(s.tables[s.table] == t@);
        match outcome {
            Err(e) => {
                let m = e.message();
                let line = text5("[sync]     Table '", str_or_exec(t.get_str("name"), "?"), "' error: ", m.as_str(), "\n");
                push_effect(&mut effects, SyncEffect::Info(line));
                self.table = self.table + 1;
                let ghost s1 = self@;
                proof { lemma_sync_advance_wf(s1, SyncPos::Table); }
                let st = self.walk(SyncPos::Table, &mut effects);
                assert(effects_view(effects@) =~= sync_next(s, outcome_view(outcome)).1);
                (effects, st)
            },
            Ok(rr) => {
                let rows = rows_of_exec(&rr);
                let columns = table_columns_exec(&t);
                let cols: Vec<Json> = match columns.as_array() {
                    Some(a) => copy_items(a),
                    None => empty_items(),
                };
                let turi = table_uri_exec(&t);
                let tslug = table_slug_exec(&t);
                let tname = str_or_exec(t.get_str("name"), "Untitled").to_owned();
                let names = column_names_exec(&cols);
                let detail = TableDetail { slug: tslug.clone(), name: tname, column_names: names, row_count: rows.len() };
                let empty = cols.len() == 0 && rows.len() == 0;
                if !empty {
                    let dir = text3(self.doc_slug.as_str(), "/pages/tables/", tslug.as_str());
                    push_effect(&mut effects, SyncEffect::MakeDir(dir.clone()));
                    let mut schema: Vec<(String, Json)> = Vec::new();
                    push_entry(&mut schema, "columns", columns.duplicate());
                    push_entry(&mut schema, "tableName", Json::str(str_or_exec(t.get_str("name"), "Untitled")));
                    push_entry(&mut schema, "tableUri", Json::Str(turi.clone()));
                    assert(entries_view(schema@) =~= schema_json_spec(t@)->Object_0);
                    push_effect(&mut effects, SyncEffect::WriteJson(text2(dir.as_str(), "/__schema.json"), object_of(schema)));
                    if rows.len() > 0 {
                        let cmap = build_column_map(cols.as_slice());
                        assert(cols@.map_values(|c: Json| c@) =~= items_view(cols@));
                        let mut flat: Vec<Json> = Vec::new();
                        let mut i: usize = 0;
                        while i < rows.len()
                            invariant
                                i <= rows.len(),
                                pairs_view(cmap@) == column_map_spec(items_view(cols@)),
                                items_view(flat@) == flat_rows(items_view(rows@), items_view(cols@)).take(i as int),
                            decreases rows.len() - i,
                        {
                            push_item(&mut flat, flatten_row(&rows[i], &cmap));
                            i = i + 1;
                            assert(items_view(flat@) =~= flat_rows(items_view(rows@), items_view(cols@)).take(i as int));
                        }
                        assert(flat_rows(items_view(rows@), items_view(cols@)).take(i as int)
                            =~= flat_rows(items_view(rows@), items_view(cols@)));
                        push_effect(&mut effects, SyncEffect::WriteRows(text2(dir.as_str(), "/rows.ndjson"), flat));
                    }
                    let mut entry: Vec<(String, Json)> = Vec::new();
                    push_entry(&mut entry, "row_count", Json::number(rows.len() as u64));
                    push_entry(&mut entry, "slug", Json::Str(tslug.clone()));
                    push_entry(&mut entry, "synced_at", Json::Str(self.now.clone()));
                    assert(entries_view(entry@) =~= table_entry_spec(rows.len() as nat, tslug@, s.now)->Object_0);
                    put_exec(&mut self.sync_tables, turi.as_str(), object_of(entry));
                    self.page_tables = self.page_tables.saturating_add(1);
                    self.page_rows = self.page_rows.saturating_add(rows.len() as u64);
                }
                let ghost before = self.table_uris@;
                self.table_uris.push(turi.clone());
                assert(string_views(self.table_uris@) =~= string_views(before).push(turi@));
                detail_insert_exec(&mut self.table_details, turi.as_str(), detail);
                self.table = self.table + 1;
                let ghost s1 = self@;
                proof { lemma_sync_advance_wf(s1, SyncPos::Table); }
                let st = self.walk(SyncPos::Table, &mut effects);
                assert(effects_view(effects@) =~= sync_next(s, outcome_view(outcome)).1);
                (effects, st)
            },
        }
    }

    /// Hands back the outcome of the call last asked for, at the time `now`:
    /// what to write and report, and what comes next. What this step records
    /// is stamped with `now`.
    pub fn next(&mut self, outcome: Result<Json, CodaError>, now: &str) -> (r: (Vec<SyncEffect>, SyncStep))
        requires
            sync_wf(old(self)@),
            old(self).phase != SyncPhase::Done,
        ensures
            final(self)@ == sync_next_at(old(self)@, outcome_view(outcome), now@).0,
            effects_view(r.0@) == sync_next_at(old(self)@, outcome_view(outcome), now@).1,
            r.1@ == sync_next_at(old(self)@, outcome_view(outcome), now@).2,
            sync_wf(final(self)@),
    {
        self.now = now.to_owned();
        self.step(outcome)
    }

    fn step(&mut self, outcome: Result<Json, CodaError>) -> (r: (Vec<SyncEffect>, SyncStep))
        requires
            sync_wf(old(self)@),
            old(self).phase != SyncPhase::Done,
        ensures
            final(self)@ == sync_next(old(self)@, outcome_view(outcome)).0,
            effects_view(r.0@) == sync_next(old(self)@, outcome_view(outcome)).1,
            r.1@ == sync_next(old(self)@, outcome_view(outcome)).2,
            sync_wf(final(self)@),
    {
        match self.phase {
            SyncPhase::AwaitDoc => self.on_doc(outcome),
            SyncPhase::AwaitPage => self.on_page(outcome),
            SyncPhase::AwaitTable => self.on_table(outcome),
            SyncPhase::Done => {
                let effects: Vec<SyncEffect> = Vec::new();
                assert(effects_view(effects@) =~= Seq::<SyncEffectV>::empty());
                let st = self.stats();
                (effects, SyncStep::Finish(Ok(st)))
            },
        }
    }
}

} // verus!
