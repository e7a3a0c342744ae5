//! `doc_summarize`: read a document and return a condensed summary of its
//! pages, tables, row counts and content previews.
//!
//! Reading the document is critical; reading a page is best effort: a page that
//! cannot be read is summarized by its title and canvas alone. At most twenty
//! pages are read.
use vstd::prelude::*;
use crate::commands::compound::{Step, StepV, jstr, outcome_view, str_array, string_array};
use crate::error::{CodaError, CodaErrorV};
use crate::json::{
    Json, JsonV, entries_view, items_view, push_entry, push_item, object_of, array_of, or_null,
};
use crate::text::{
    chars_of, decimal, extend_chars, extend_str, string_of, string_views, trim, trim_chars,
};
use crate::commands::compound::scaffold::opt_view;

verus! {

/// The number of pages a summary reads at most.
pub const MAX_PAGES_READ: usize = 20;

#[derive(PartialEq, Eq, Structural, Clone, Copy)]
pub enum SummaryPhase {
    AwaitDoc,
    AwaitPage,
    Done,
}

/// The state of one `doc_summarize` operation.
pub struct Summarize {
    pub phase: SummaryPhase,
    pub uri: String,
    pub doc_meta: Json,
    pub pages: Vec<Json>,
    pub page: usize,
    pub page_summaries: Vec<Json>,
    pub table_summaries: Vec<Json>,
}

/// The model of the state.
pub struct SummarizeV {
    pub phase: SummaryPhase,
    pub uri: Seq<char>,
    pub doc_meta: JsonV,
    pub pages: Seq<JsonV>,
    pub page: int,
    pub page_summaries: Seq<JsonV>,
    pub table_summaries: Seq<JsonV>,
}

impl View for Summarize {
    type V = SummarizeV;

    open spec fn view(&self) -> SummarizeV {
        SummarizeV {
            phase: self.phase,
            uri: self.uri@,
            doc_meta: self.doc_meta@,
            pages: items_view(self.pages@),
            page: self.page as int,
            page_summaries: items_view(self.page_summaries@),
            table_summaries: items_view(self.table_summaries@),
        }
    }
}

/// How many of the pages are read.
pub open spec fn pages_to_read(s: SummarizeV) -> int {
    if s.pages.len() < 20 { s.pages.len() as int } else { 20 }
}

/// A page's title; "?" when it has none.
pub open spec fn summary_title(p: JsonV) -> Seq<char> {
    match p.get_str("title"@) {
        Some(t) => t,
        None => "?"@,
    }
}

/// The URI a page is read by: its canvas, else its page URI, else nothing.
pub open spec fn read_uri(p: JsonV) -> Seq<char> {
    match p.get_str("canvasUri"@) {
        Some(c) => c,
        None => match p.get_str("pageUri"@) {
            Some(u) => u,
            None => Seq::empty(),
        },
    }
}

/// The payload that reads a page's markdown and tables.
pub open spec fn read_payload_spec(uri: Seq<char>) -> JsonV {
    JsonV::Object(seq![
        ("contentTypesToInclude"@, JsonV::Array(seq![jstr("markdown"@), jstr("tables"@)])),
        ("markdownBlockLimit"@, JsonV::Number(decimal(3))),
        ("uri"@, jstr(uri)),
    ])
}

/// The start of a page's content: trimmed, and cut to its first 197
/// characters and an ellipsis when longer than 200 characters.
pub open spec fn preview_text(content: Seq<char>) -> Seq<char> {
    let t = trim(content);
    if t.len() > 200 {
        t.take(197) + "..."@
    } else {
        t
    }
}

/// The names of a table's columns, where they are strings.
pub open spec fn column_names(cols: Seq<JsonV>) -> Seq<Seq<char>>
    decreases cols.len(),
{
    if cols.len() == 0 {
        Seq::empty()
    } else {
        let rest = column_names(cols.drop_last());
        match cols.last().get_str("name"@) {
            Some(n) => rest.push(n),
            None => rest,
        }
    }
}

/// The summary of a table found on a page.
pub open spec fn table_summary_spec(t: JsonV, page_title: Seq<char>) -> JsonV {
    JsonV::Object(seq![
        ("columns"@, str_array(column_names(match t.get_array("columns"@) { Some(c) => c, None => Seq::empty() }))),
        ("name"@, jstr(match t.get_str("name"@) { Some(n) => n, None => "?"@ })),
        ("page"@, jstr(page_title)),
        ("rowCount"@, JsonV::Number(decimal(match t.get_u64("rowCount"@) { Some(n) => n, None => 0 }))),
        ("tableUri"@, jstr(match t.get_str("tableUri"@) { Some(u) => u, None => Seq::empty() })),
    ])
}

/// The tables of a page read.
pub open spec fn read_tables(pd: JsonV) -> Seq<JsonV> {
    match pd.get_array("tables"@) {
        Some(t) => t,
        None => Seq::empty(),
    }
}

/// The summary of a page that was read.
pub open spec fn page_summary_spec(p: JsonV, pd: JsonV) -> JsonV {
    JsonV::Object(seq![
        ("canvasUri"@, match p.get_str("canvasUri"@) { Some(c) => jstr(c), None => JsonV::Null }),
        ("contentPreview"@, match pd.get_str("content"@) { Some(c) => jstr(preview_text(c)), None => JsonV::Null }),
        ("tables"@, JsonV::Number(decimal(read_tables(pd).len()))),
        ("title"@, jstr(summary_title(p))),
    ])
}

/// The summary of a page that could not be read.
pub open spec fn unread_summary_spec(p: JsonV) -> JsonV {
    JsonV::Object(seq![
        ("canvasUri"@, match p.get_str("canvasUri"@) { Some(c) => jstr(c), None => JsonV::Null }),
        ("title"@, jstr(summary_title(p))),
    ])
}

/// The result of the whole operation.
pub open spec fn summary_result_spec(s: SummarizeV) -> JsonV {
    JsonV::Object(seq![
        ("doc"@, s.doc_meta),
        ("pageCount"@, JsonV::Number(decimal(s.pages.len()))),
        ("pages"@, JsonV::Array(s.page_summaries)),
        ("tables"@, JsonV::Array(s.table_summaries)),
        ("uri"@, jstr(s.uri)),
    ])
}

/// Walks on to the next page to read, or to the end; a page with nothing to read
/// it by is summarized by its title alone.
pub open spec fn summary_advance(s: SummarizeV) -> (SummarizeV, StepV)
    decreases pages_to_read(s) - s.page,
{
    if !(0 <= s.page < pages_to_read(s)) {
        let t = SummarizeV { phase: SummaryPhase::Done, ..s };
        (t, StepV::Finish(Ok(summary_result_spec(t))))
    } else {
        let p = s.pages[s.page];
        let ru = read_uri(p);
        if ru.len() == 0 {
            summary_advance(SummarizeV {
                page_summaries: s.page_summaries.push(JsonV::Object(seq![("title"@, jstr(summary_title(p)))])),
                page: s.page + 1,
                ..s
            })
        } else {
            (SummarizeV { phase: SummaryPhase::AwaitPage, ..s }, StepV::Call("page_read"@, read_payload_spec(ru), false))
        }
    }
}

/// What the outcome of the call last asked for leads to.
pub open spec fn summary_next(s: SummarizeV, outcome: Result<JsonV, CodaError>) -> (SummarizeV, StepV) {
    match s.phase {
        SummaryPhase::AwaitDoc => match outcome {
            Err(e) => (SummarizeV { phase: SummaryPhase::Done, ..s }, StepV::Finish(Err(e@))),
            Ok(doc) => summary_advance(SummarizeV {
                doc_meta: match doc.get("document"@) { Some(d) => d, None => JsonV::Object(Seq::empty()) },
                pages: match doc.get_array("pages"@) { Some(p) => p, None => Seq::empty() },
                page: 0,
                ..s
            }),
        },
        SummaryPhase::AwaitPage => {
            let p = s.pages[s.page];
            match outcome {
                Ok(pd) => summary_advance(SummarizeV {
                    table_summaries: s.table_summaries + read_tables(pd).map_values(|t: JsonV| table_summary_spec(t, summary_title(p))),
                    page_summaries: s.page_summaries.push(page_summary_spec(p, pd)),
                    page: s.page + 1,
                    ..s
                }),
                Err(_) => summary_advance(SummarizeV {
                    page_summaries: s.page_summaries.push(unread_summary_spec(p)),
                    page: s.page + 1,
                    ..s
                }),
            }
        },
        SummaryPhase::Done => (s, StepV::Finish(Ok(summary_result_spec(s)))),
    }
}

proof fn lemma_advance_keeps(s: SummarizeV)
    ensures
        summary_advance(s).0.table_summaries == s.table_summaries,
        summary_advance(s).0.page_summaries.len() >= s.page_summaries.len(),
        forall|i: int| 0 <= i < s.page_summaries.len() ==>
            #[trigger] summary_advance(s).0.page_summaries[i] == s.page_summaries[i],
    decreases pages_to_read(s) - s.page,
{
    if 0 <= s.page < pages_to_read(s) {
        let p = s.pages[s.page];
        if read_uri(p).len() == 0 {
            let s1 = SummarizeV {
                page_summaries: s.page_summaries.push(JsonV::Object(seq![("title"@, jstr(summary_title(p)))])),
                page: s.page + 1,
                ..s
            };
            lemma_advance_keeps(s1);
            assert forall|i: int| 0 <= i < s.page_summaries.len() implies
                #[trigger] summary_advance(s).0.page_summaries[i] == s.page_summaries[i] by {
                assert(s1.page_summaries[i] == s.page_summaries[i]);
            }
        }
    }
}

/// A page that was read is summarized with the number of tables its page read
/// returned, and as many table summaries are added to the result.
pub proof fn law_summary_counts_read_tables(s: SummarizeV, pd: JsonV)
    requires
        s.phase == SummaryPhase::AwaitPage,
    ensures
        ({
            let n: nat = match pd.get_array("tables"@) { Some(ts) => ts.len(), None => 0 };
            let t = summary_next(s, Ok(pd)).0;
            &&& t.page_summaries[s.page_summaries.len() as int].get("tables"@) == Some(JsonV::Number(decimal(n)))
            &&& t.table_summaries.len() == s.table_summaries.len() + n
        }),
{
    let p = s.pages[s.page];
    let s1 = SummarizeV {
        table_summaries: s.table_summaries + read_tables(pd).map_values(|t: JsonV| table_summary_spec(t, summary_title(p))),
        page_summaries: s.page_summaries.push(page_summary_spec(p, pd)),
        page: s.page + 1,
        ..s
    };
    lemma_advance_keeps(s1);
    assert(s1.page_summaries[s.page_summaries.len() as int] == page_summary_spec(p, pd));
    reveal_strlit("tables");
    reveal_strlit("canvasUri");
    reveal_strlit("contentPreview");
    let es = page_summary_spec(p, pd)->Object_0;
    assert(es[0].0[0] != "tables"@[0]);
    assert(es[1].0[0] != "tables"@[0]);
    crate::json::lemma_lookup_at(es, "tables"@, 2);
}

pub open spec fn summary_wf(s: SummarizeV) -> bool {
    s.phase == SummaryPhase::AwaitPage ==> 0 <= s.page < pages_to_read(s)
}

pub proof fn lemma_summary_advance_wf(s: SummarizeV)
    ensures
        summary_wf(summary_advance(s).0),
    decreases pages_to_read(s) - s.page,
{
    if 0 <= s.page < pages_to_read(s) {
        let p = s.pages[s.page];
        if read_uri(p).len() == 0 {
            lemma_summary_advance_wf(SummarizeV {
                page_summaries: s.page_summaries.push(JsonV::Object(seq![("title"@, jstr(summary_title(p)))])),
                page: s.page + 1,
                ..s
            });
        }
    }
}

fn summary_title_exec(p: &Json) -> (r: String)
    ensures
        r@ == summary_title(p@),
{
    match p.get_str("title") {
        Some(t) => t.to_owned(),
        None => "?".to_owned(),
    }
}

fn read_uri_exec(p: &Json) -> (r: String)
    ensures
        r@ == read_uri(p@),
{
    match p.get_str("canvasUri") {
        Some(c) => c.to_owned(),
        None => match p.get_str("pageUri") {
            Some(u) => u.to_owned(),
            None => String::new(),
        },
    }
}

fn read_payload(uri: &str) -> (r: Json)
    ensures
        r@ == read_payload_spec(uri@),
{
    let mut kinds: Vec<Json> = Vec::new();
    push_item(&mut kinds, Json::str("markdown"));
    push_item(&mut kinds, Json::str("tables"));
    assert(items_view(kinds@) =~= seq![jstr("markdown"@), jstr("tables"@)]);
    let mut es: Vec<(String, Json)> = Vec::new();
    push_entry(&mut es, "contentTypesToInclude", array_of(kinds));
    push_entry(&mut es, "markdownBlockLimit", Json::number(3));
    push_entry(&mut es, "uri", Json::str(uri));
    assert(entries_view(es@) =~= read_payload_spec(uri@)->Object_0);
    object_of(es)
}

/// The start of a page's content, as the summary shows it.
pub fn content_preview(content: &str) -> (r: String)
    ensures
        r@ == preview_text(content@),
{
    let c = chars_of(content);
    let t = trim_chars(c.as_slice());
    if t.len() > 200 {
        let mut p: Vec<char> = Vec::new();
        let mut i: usize = 0;
        while i < 197
            invariant
                i <= 197,
                t@.len() > 200,
                p@ == t@.take(i as int),
            decreases 197 - i,
        {
            p.push(t[i]);
            i = i + 1;
            assert(t@.take(i as int) =~= t@.take((i - 1) as int).push(t@[i - 1]));
        }
        extend_str(&mut p, "...");
        string_of(p.as_slice())
    } else {
        string_of(t.as_slice())
    }
}

fn column_names_exec(cols: &Vec<Json>) -> (r: Vec<String>)
    ensures
        string_views(r@) == column_names(items_view(cols@)),
{
    let ghost cv = items_view(cols@);
    let mut out: Vec<String> = Vec::new();
    let mut i: usize = 0;
    assert(cv.take(0) =~= Seq::<JsonV>::empty());
    assert(string_views(out@) =~= Seq::<Seq<char>>::empty());
    while i < cols.len()
        invariant
            i <= cols.len(),
            cv == items_view(cols@),
            string_views(out@) == column_names(cv.take(i as int)),
        decreases cols.len() - i,
    {
        assert(cv.take(i + 1).drop_last() =~= cv.take(i as int));
        assert(cv.take(i + 1).last() == cols@[i as int]@);
        match cols[i].get_str("name") {
            Some(n) => {
                let ghost before = out@;
                out.push(n.to_owned());
                assert(string_views(out@) =~= string_views(before).push(n@));
            },
            None => {},
        }
        i = i + 1;
    }
    assert(cv.take(i as int) =~= cv);
    out
}

fn table_summary(t: &Json, page_title: &str) -> (r: Json)
    ensures
        r@ == table_summary_spec(t@, page_title@),
{
    let names = match t.get_array("columns") {
        Some(c) => column_names_exec(c),
        None => {
            let e: Vec<String> = Vec::new();
            assert(string_views(e@) =~= column_names(Seq::<JsonV>::empty()));
            e
        },
    };
    let mut es: Vec<(String, Json)> = Vec::new();
    push_entry(&mut es, "columns", string_array(&names));
    match t.get_str("name") {
        Some(n) => push_entry(&mut es, "name", Json::str(n)),
        None => push_entry(&mut es, "name", Json::str("?")),
    }
    push_entry(&mut es, "page", Json::str(page_title));
    match t.get_u64("rowCount") {
        Some(n) => push_entry(&mut es, "rowCount", Json::number(n)),
        None => push_entry(&mut es, "rowCount", Json::number(0)),
    }
    match t.get_str("tableUri") {
        Some(u) => push_entry(&mut es, "tableUri", Json::str(u)),
        None => push_entry(&mut es, "tableUri", Json::Str(String::new())),
    }
    assert(entries_view(es@) =~= table_summary_spec(t@, page_title@)->Object_0);
    object_of(es)
}

fn canvas_or_null(p: &Json) -> (r: Json)
    ensures
        r@ == match p@.get_str("canvasUri"@) { Some(c) => jstr(c), None => JsonV::Null },
{
    match p.get_str("canvasUri") {
        Some(c) => Json::str(c),
        None => Json::Null,
    }
}

fn copy_items(v: &Vec<Json>) -> (r: Vec<Json>)
    ensures
        items_view(r@) == items_view(v@),
{
    let mut copy: Vec<Json> = Vec::new();
    let mut i: usize = 0;
    while i < v.len()
        invariant
            i <= v.len(),
            items_view(copy@) == items_view(v@).take(i as int),
        decreases v.len() - i,
    {
        push_item(&mut copy, v[i].duplicate());
        i = i + 1;
        assert(items_view(copy@) =~= items_view(v@).take(i as int));
    }
    assert(items_view(v@).take(i as int) =~= items_view(v@));
    copy
}

impl Summarize {
    fn result(&self) -> (r: Json)
        ensures
            r@ == summary_result_spec(self@),
    {
        let mut es: Vec<(String, Json)> = Vec::new();
        push_entry(&mut es, "doc", self.doc_meta.duplicate());
        push_entry(&mut es, "pageCount", Json::number(self.pages.len() as u64));
        push_entry(&mut es, "pages", array_of(copy_items(&self.page_summaries)));
        push_entry(&mut es, "tables", array_of(copy_items(&self.table_summaries)));
        push_entry(&mut es, "uri", Json::Str(self.uri.clone()));
        assert(entries_view(es@) =~= summary_result_spec(self@)->Object_0);
        object_of(es)
    }

    /// Reads the payload and asks for the document to be read; a payload without
    /// a string `uri` ends the operation with a validation error.
    pub fn start(payload: &Json) -> (r: (Summarize, Step))
        ensures
            summary_wf(r.0@),
            payload@.get_str("uri"@) is None ==> r.0.phase == SummaryPhase::Done
                && r.1@ == StepV::Finish(Err(CodaErrorV::Validation("Missing required field: uri"@))),
            payload@.get_str("uri"@) matches Some(uri) ==> {
                &&& r.0.phase == SummaryPhase::AwaitDoc
                &&& r.0@.uri == uri
                &&& r.0@.page_summaries.len() == 0
                &&& r.0@.table_summaries.len() == 0
                &&& r.1@ == StepV::Call("document_read"@, JsonV::Object(seq![("uri"@, jstr(uri))]), false)
            },
    {
        let mut m = Summarize {
            phase: SummaryPhase::Done,
            uri: String::new(),
            doc_meta: Json::Null,
            pages: Vec::new(),
            page: 0,
            page_summaries: Vec::new(),
            table_summaries: Vec::new(),
        };
        assert(items_view(m.page_summaries@) =~= Seq::<JsonV>::empty());
        assert(items_view(m.table_summaries@) =~= Seq::<JsonV>::empty());
        let uri = match payload.get_str("uri") {
            Some(u) => u,
            None => {
                return (m, Step::Finish(Err(CodaError::Validation("Missing required field: uri".to_owned()))));
            },
        };
        let mut es: Vec<(String, Json)> = Vec::new();
        push_entry(&mut es, "uri", Json::str(uri));
        assert(entries_view(es@) =~= seq![("uri"@, jstr(uri@))]);
        m.phase = SummaryPhase::AwaitDoc;
        m.uri = uri.to_owned();
        (m, Step::Call { tool: "document_read".to_owned(), payload: object_of(es), retry: false })
    }

    fn walk(&mut self) -> (r: Step)
        ensures
            (final(self)@, r@) == summary_advance(old(self)@),
        decreases pages_to_read(self@) - self.page,
    {
        let limit = if self.pages.len() < MAX_PAGES_READ { self.pages.len() } else { MAX_PAGES_READ };
        if self.page >= limit {
            let r = self.result();
            self.phase = SummaryPhase::Done;
            return Step::Finish(Ok(r));
        }
        let ru = read_uri_exec(&self.pages[self.page]);
        if ru.as_str().is_empty() {
            let title = summary_title_exec(&self.pages[self.page]);
            let mut es: Vec<(String, Json)> = Vec::new();
            push_entry(&mut es, "title", Json::Str(title));
            assert(entries_view(es@) =~= seq![("title"@, jstr(summary_title(self@.pages[self.page as int])))]);
            let e = object_of(es);
            let ghost before = self.page_summaries@;
            self.page_summaries.push(e);
            assert(items_view(self.page_summaries@) =~= items_view(before).push(e@));
            self.page = self.page + 1;
            self.walk()
        } else {
            let p = read_payload(ru.as_str());
            self.phase = SummaryPhase::AwaitPage;
            Step::Call { tool: "page_read".to_owned(), payload: p, retry: false }
        }
    }

    /// Hands back the outcome of the call last asked for and says what comes next.
    pub fn next(&mut self, outcome: Result<Json, CodaError>) -> (r: Step)
        requires
            summary_wf(old(self)@),
            old(self).phase != SummaryPhase::Done,
        ensures
            (final(self)@, r@) == summary_next(old(self)@, outcome_view(outcome)),
            summary_wf(final(self)@),
    {
        if self.phase == SummaryPhase::AwaitDoc {
            match outcome {
                Err(e) => {
                    self.phase = SummaryPhase::Done;
                    Step::Finish(Err(e))
                },
                Ok(doc) => {
                    self.doc_meta = match doc.get("document") {
                        Some(d) => d.duplicate(),
                        None => {
                            let e: Vec<(String, Json)> = Vec::new();
                            assert(entries_view(e@) =~= Seq::<(Seq<char>, JsonV)>::empty());
                            object_of(e)
                        },
                    };
                    self.pages = match doc.get_array("pages") {
                        Some(p) => copy_items(p),
                        None => {
                            let e: Vec<Json> = Vec::new();
                            assert(items_view(e@) =~= Seq::<JsonV>::empty());
                            e
                        },
                    };
                    self.page = 0;
                    proof { lemma_summary_advance_wf(self@); }
                    self.walk()
                },
            }
        } else {
            let pspec = self.pages[self.page].duplicate();
            let title = summary_title_exec(&pspec);
            match outcome {
                Ok(pd) => {
                    let tables: Vec<Json> = match pd.get_array("tables") {
                        Some(t) => copy_items(t),
                        None => {
                            let e: Vec<Json> = Vec::new();
                            assert(items_view(e@) =~= Seq::<JsonV>::empty());
                            e
                        },
                    };
                    let ghost ts = read_tables(pd@);
                    let ghost base = items_view(self.table_summaries@);
                    let ghost s0 = self@;
                    let mut k: usize = 0;
                    while k < tables.len()
                        invariant
                            k <= tables.len(),
                            items_view(tables@) == ts,
                            self@ == (SummarizeV { table_summaries: self@.table_summaries, ..s0 }),
                            self.page < self.pages.len(),
                            title@ == summary_title(pspec@),
                            items_view(self.table_summaries@)
                                == base + ts.take(k as int).map_values(|t: JsonV| table_summary_spec(t, summary_title(pspec@))),
                        decreases tables.len() - k,
                    {
                        let e = table_summary(&tables[k], title.as_str());
                        let ghost before = self.table_summaries@;
                        self.table_summaries.push(e);
                        assert(items_view(self.table_summaries@) =~= items_view(before).push(e@));
                        k = k + 1;
                        assert(ts.take(k as int).map_values(|t: JsonV| table_summary_spec(t, summary_title(pspec@)))
                            =~= ts.take(k - 1).map_values(|t: JsonV| table_summary_spec(t, summary_title(pspec@))).push(e@));
                    }
                    assert(ts.take(k as int) =~= ts);
                    let preview = match pd.get_str("content") {
                        Some(c) => Json::Str(content_preview(c)),
                        None => Json::Null,
                    };
                    let mut es: Vec<(String, Json)> = Vec::new();
                    push_entry(&mut es, "canvasUri", canvas_or_null(&pspec));
                    push_entry(&mut es, "contentPreview", preview);
                    push_entry(&mut es, "tables", Json::number(tables.len() as u64));
                    push_entry(&mut es, "title", Json::Str(title));
                    assert(entries_view(es@) =~= page_summary_spec(pspec@, pd@)->Object_0);
                    let e = object_of(es);
                    let ghost before = self.page_summaries@;
                    self.page_summaries.push(e);
                    assert(items_view(self.page_summaries@) =~= items_view(before).push(e@));
                },
                Err(_) => {
                    let mut es: Vec<(String, Json)> = Vec::new();
                    push_entry(&mut es, "canvasUri", canvas_or_null(&pspec));
                    push_entry(&mut es, "title", Json::Str(title));
                    assert(entries_view(es@) =~= unread_summary_spec(pspec@)->Object_0);
                    let e = object_of(es);
                    let ghost before = self.page_summaries@;
                    self.page_summaries.push(e);
                    assert(items_view(self.page_summaries@) =~= items_view(before).push(e@));
                },
            }
            self.page = self.page + 1;
            proof { lemma_summary_advance_wf(self@); }
            self.walk()
        }
    }
}

} // verus!
