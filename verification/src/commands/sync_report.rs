//! What a sync reports around the sync itself: the options it runs with, how
//! it repeats a failed call, the preview of a dry run, and the summary of a
//! finished run.
use vstd::prelude::*;
use crate::commands::compound::jstr;
use crate::commands::sync_run::{SyncStats, doc_name, doc_read_payload_spec, str_or};
use crate::error::CodaError;
use crate::json::{Json, JsonV, entries_view, items_view, push_entry, push_item, object_of, array_of};
use crate::slug::{slugify, slugify_spec, id_from_uri, id_from_uri_spec};
use crate::text::{decimal, extend_str, join_path, join_path_exec, push_decimal, string_of, string_views};

verus! {

/// The options of `sync`.
pub struct SyncOpts {
    pub doc_uri: String,
    pub root: String,
    pub force: bool,
    pub dry_run: bool,
    pub tables_only: bool,
    pub max_rows: usize,
}

/// What a sync writes to `.gitignore` under its root, where there is none.
pub const GITIGNORE_TEXT: &'static str = "# Synced Coda data — do not commit\n*\n";

/// The repeats of one call of a sync: every failure is repeated, two times
/// more than the configured retries allow, after a pause that grows with
/// the attempt and is three times longer while the document is not ready
/// yet (status 409).
pub struct SyncRetry {
    pub attempt: u32,
    pub max_retries: u32,
}

/// Whether an error says that the document is not ready yet.
pub open spec fn not_ready(e: CodaError) -> bool {
    e matches CodaError::Api { status, .. } && status == 409
}

/// The notice before a repeat.
pub open spec fn retry_notice(tool: Seq<char>, attempt: nat, total: nat) -> Seq<char> {
    "[sync] Retrying "@ + tool + " (attempt "@ + decimal(attempt) + "/"@ + decimal(total) + ")...\n"@
}

impl SyncRetry {
    /// The attempts after the first that a call gets.
    pub open spec fn total(self) -> nat {
        (self.max_retries + 2) as nat
    }

    pub fn new(max_retries: u32) -> (r: SyncRetry)
        requires
            max_retries + 2 <= u32::MAX,
        ensures
            r.attempt == 0,
            r.max_retries == max_retries,
    {
        SyncRetry { attempt: 0, max_retries }
    }

    /// After the attempt numbered `attempt` failed with `err`: the pause in
    /// milliseconds and the notice before the next attempt, or `None` when no
    /// attempt is left and `err` is the call's error.
    pub fn after_failure(&mut self, tool: &str, err: &CodaError) -> (r: Option<(u64, String)>)
        requires
            old(self).max_retries + 2 <= u32::MAX,
            old(self).attempt <= old(self).max_retries + 2,
        ensures
            final(self).max_retries == old(self).max_retries,
            final(self).attempt <= final(self).max_retries + 2,
            old(self).attempt < old(self).total() ==> {
                &&& final(self).attempt == old(self).attempt + 1
                &&& r matches Some((ms, notice))
                &&& ms == (if not_ready(*err) { 3000int } else { 1000int }) * final(self).attempt
                &&& notice@ == retry_notice(tool@, final(self).attempt as nat, old(self).total())
            },
            old(self).attempt >= old(self).total() ==> r is None && final(self).attempt == old(self).attempt,
    {
        let total = self.max_retries + 2;
        if self.attempt >= total {
            return None;
        }
        self.attempt = self.attempt + 1;
        let base: u64 = match err {
            CodaError::Api { status, .. } => if *status == 409 { 3000 } else { 1000 },
            _ => 1000,
        };
        assert(base * self.attempt <= 3000 * 0xffff_ffffu64) by (nonlinear_arith)
            requires
                base <= 3000,
                self.attempt <= 0xffff_ffffu32,
        ;
        let ms = base * (self.attempt as u64);
        let mut v: Vec<char> = Vec::new();
        extend_str(&mut v, "[sync] Retrying ");
        extend_str(&mut v, tool);
        extend_str(&mut v, " (attempt ");
        push_decimal(&mut v, self.attempt as u64);
        extend_str(&mut v, "/");
        push_decimal(&mut v, total as u64);
        extend_str(&mut v, ")...\n");
        assert(v@ =~= retry_notice(tool@, self.attempt as nat, old(self).total()));
        Some((ms, string_of(v.as_slice())))
    }
}

/// The notice of a dry run.
pub open spec fn dry_run_notice_spec(doc_uri: Seq<char>, root: Seq<char>) -> Seq<char> {
    "[sync] Dry run: would sync "@ + doc_uri + " to "@ + root + "\n"@
}

pub fn dry_run_notice(doc_uri: &str, root: &str) -> (r: String)
    ensures
        r@ == dry_run_notice_spec(doc_uri@, root@),
{
    let mut v: Vec<char> = Vec::new();
    extend_str(&mut v, "[sync] Dry run: would sync ");
    extend_str(&mut v, doc_uri);
    extend_str(&mut v, " to ");
    extend_str(&mut v, root);
    extend_str(&mut v, "\n");
    assert(v@ =~= dry_run_notice_spec(doc_uri@, root@));
    string_of(v.as_slice())
}

/// The payload that reads the document's structure with its tables.
pub fn doc_read_payload(doc_uri: &str) -> (r: Json)
    ensures
        r@ == doc_read_payload_spec(doc_uri@),
{
    let mut kinds: Vec<Json> = Vec::new();
    push_item(&mut kinds, Json::str("tables"));
    assert(items_view(kinds@) =~= seq![jstr("tables"@)]);
    let mut es: Vec<(String, Json)> = Vec::new();
    push_entry(&mut es, "contentTypesToInclude", array_of(kinds));
    push_entry(&mut es, "uri", Json::str(doc_uri));
    assert(entries_view(es@) =~= doc_read_payload_spec(doc_uri@)->Object_0);
    object_of(es)
}

/// The document's metadata in a `document_read` answer, or an empty object.
pub open spec fn doc_meta(doc: JsonV) -> JsonV {
    match doc.get("document"@) {
        Some(m) => m,
        None => JsonV::Object(Seq::empty()),
    }
}

/// A page as the dry run previews it: its title (or `?`) and the slug it
/// would get from its title and the id of its canvas or page URI.
pub open spec fn page_preview(page: JsonV) -> JsonV {
    let title = str_or(page.get_str("title"@), "?"@);
    let uri = match page.get_str("canvasUri"@) {
        Some(u) => u,
        None => str_or(page.get_str("pageUri"@), Seq::empty()),
    };
    JsonV::Object(seq![
        ("slug"@, jstr(slugify_spec(title, id_from_uri_spec(uri)))),
        ("title"@, jstr(title)),
    ])
}

/// The pages of a `document_read` answer, or none.
pub open spec fn doc_pages(doc: JsonV) -> Seq<JsonV> {
    match doc.get_array("pages"@) {
        Some(ps) => ps,
        None => Seq::empty(),
    }
}

/// What a dry run shows: the document's slug, its pages with their slugs,
/// and the directories a sync would write.
pub open spec fn dry_run_preview_spec(doc_uri: Seq<char>, root: Seq<char>, doc: JsonV) -> JsonV {
    let slug = slugify_spec(doc_name(doc_meta(doc)), id_from_uri_spec(doc_uri));
    let pages = doc_pages(doc);
    let doc_dir = root + "/docs/"@ + slug;
    JsonV::Object(seq![
        ("docSlug"@, jstr(slug)),
        ("docUri"@, jstr(doc_uri)),
        ("dryRun"@, JsonV::Bool(true)),
        ("pageCount"@, JsonV::Number(decimal(pages.len()))),
        ("pages"@, JsonV::Array(pages.map_values(|p: JsonV| page_preview(p)))),
        ("paths"@, JsonV::Object(seq![
            ("docDir"@, jstr(doc_dir)),
            ("pagesDir"@, jstr(doc_dir + "/pages/"@)),
            ("tablesDir"@, jstr(doc_dir + "/pages/tables/"@)),
        ])),
        ("root"@, jstr(root)),
    ])
}

fn page_preview_exec(page: &Json) -> (r: Json)
    ensures
        r@ == page_preview(page@),
{
    let title: &str = match page.get_str("title") { Some(t) => t, None => "?" };
    let uri: &str = match page.get_str("canvasUri") {
        Some(u) => u,
        None => match page.get_str("pageUri") {
            Some(u) => u,
            None => {
                proof { reveal_strlit(""); }
                ""
            },
        },
    };
    assert(title@ == str_or(page@.get_str("title"@), "?"@));
    assert(uri@ == match page@.get_str("canvasUri"@) {
        Some(u) => u,
        None => str_or(page@.get_str("pageUri"@), Seq::empty()),
    });
    let pid = id_from_uri(uri);
    let slug = slugify(title, pid.as_str());
    let mut es: Vec<(String, Json)> = Vec::new();
    push_entry(&mut es, "slug", Json::Str(slug));
    push_entry(&mut es, "title", Json::str(title));
    assert(entries_view(es@) =~= page_preview(page@)->Object_0);
    object_of(es)
}

fn concat2(a: &str, b: &str) -> (r: String)
    ensures
        r@ == a@ + b@,
{
    let mut v: Vec<char> = Vec::new();
    extend_str(&mut v, a);
    extend_str(&mut v, b);
    string_of(v.as_slice())
}

/// The preview of a dry run, from the `document_read` answer.
pub fn dry_run_preview(doc_uri: &str, root: &str, doc: &Json) -> (r: Json)
    ensures
        r@ == dry_run_preview_spec(doc_uri@, root@, doc@),
{
    let meta = match doc.get("document") { Some(m) => m.duplicate(), None => Json::empty_object() };
    let name_src = match meta.get("title") {
        Some(t) => Some(t),
        None => meta.get("name"),
    };
    let name: &str = match name_src {
        Some(x) => match x.as_str() { Some(n) => n, None => "untitled" },
        None => "untitled",
    };
    assert(name@ == doc_name(doc_meta(doc@)));
    let id = id_from_uri(doc_uri);
    let slug = slugify(name, id.as_str());
    let empty: Vec<Json> = Vec::new();
    let pages: &Vec<Json> = match doc.get_array("pages") { Some(p) => p, None => &empty };
    assert(items_view(pages@) == doc_pages(doc@)) by {
        if doc@.get_array("pages"@) is None {
            assert(items_view(pages@) =~= Seq::<JsonV>::empty());
        }
    }
    let ghost want = doc_pages(doc@).map_values(|p: JsonV| page_preview(p));
    let mut previews: Vec<Json> = Vec::new();
    let mut i: usize = 0;
    while i < pages.len()
        invariant
            i <= pages.len(),
            items_view(pages@) == doc_pages(doc@),
            want == doc_pages(doc@).map_values(|p: JsonV| page_preview(p)),
            items_view(previews@) == want.take(i as int),
        decreases pages.len() - i,
    {
        push_item(&mut previews, page_preview_exec(&pages[i]));
        assert(items_view(previews@) =~= want.take(i + 1));
        i = i + 1;
    }
    assert(want.take(pages.len() as int) =~= want);
    let d1 = concat2(root, "/docs/");
    let doc_dir = concat2(d1.as_str(), slug.as_str());
    let pages_dir = concat2(doc_dir.as_str(), "/pages/");
    let tables_dir = concat2(doc_dir.as_str(), "/pages/tables/");
    let mut paths: Vec<(String, Json)> = Vec::new();
    push_entry(&mut paths, "docDir", Json::str(doc_dir.as_str()));
    push_entry(&mut paths, "pagesDir", Json::Str(pages_dir));
    push_entry(&mut paths, "tablesDir", Json::Str(tables_dir));
    let ghost dd = root@ + "/docs/"@ + slug@;
    assert(doc_dir@ =~= dd);
    assert(entries_view(paths@) =~= seq![
        ("docDir"@, jstr(dd)),
        ("pagesDir"@, jstr(dd + "/pages/"@)),
        ("tablesDir"@, jstr(dd + "/pages/tables/"@)),
    ]);
    let mut es: Vec<(String, Json)> = Vec::new();
    push_entry(&mut es, "docSlug", Json::str(slug.as_str()));
    push_entry(&mut es, "docUri", Json::str(doc_uri));
    push_entry(&mut es, "dryRun", Json::Bool(true));
    push_entry(&mut es, "pageCount", Json::number(pages.len() as u64));
    push_entry(&mut es, "pages", array_of(previews));
    push_entry(&mut es, "paths", object_of(paths));
    push_entry(&mut es, "root", Json::str(root));
    assert(entries_view(es@) =~= dry_run_preview_spec(doc_uri@, root@, doc@)->Object_0);
    object_of(es)
}

/// The directory of a synced document under the sync root.
pub open spec fn doc_dir_spec(root: Seq<char>, slug: Seq<char>) -> Seq<char> {
    join_path(join_path(root, "docs"@), slug)
}

pub fn doc_dir(root: &str, slug: &str) -> (r: String)
    ensures
        r@ == doc_dir_spec(root@, slug@),
{
    let d = join_path_exec(root, "docs");
    join_path_exec(d.as_str(), slug)
}

/// The record a finished sync prints.
pub open spec fn sync_summary_spec(doc_uri: Seq<char>, slug: Seq<char>, pages: nat, tables: nat, rows: nat,
    errors: Seq<Seq<char>>, root: Seq<char>) -> JsonV
{
    JsonV::Object(seq![
        ("docDir"@, jstr(doc_dir_spec(root, slug))),
        ("docUri"@, jstr(doc_uri)),
        ("errors"@, JsonV::Array(errors.map_values(|e: Seq<char>| jstr(e)))),
        ("pages"@, JsonV::Number(decimal(pages))),
        ("root"@, jstr(root)),
        ("rows"@, JsonV::Number(decimal(rows))),
        ("synced"@, JsonV::Bool(true)),
        ("tables"@, JsonV::Number(decimal(tables))),
    ])
}

pub fn sync_summary(stats: &SyncStats, root: &str) -> (r: Json)
    ensures
        r@ == sync_summary_spec(stats.doc_uri@, stats.doc_slug@, stats.pages_synced as nat,
            stats.tables_synced as nat, stats.rows_synced as nat, string_views(stats.errors@), root@),
{
    let ghost want = string_views(stats.errors@).map_values(|e: Seq<char>| jstr(e));
    let mut errs: Vec<Json> = Vec::new();
    let mut i: usize = 0;
    while i < stats.errors.len()
        invariant
            i <= stats.errors.len(),
            want == string_views(stats.errors@).map_values(|e: Seq<char>| jstr(e)),
            items_view(errs@) == want.take(i as int),
        decreases stats.errors.len() - i,
    {
        push_item(&mut errs, Json::str(stats.errors[i].as_str()));
        assert(items_view(errs@) =~= want.take(i + 1));
        i = i + 1;
    }
    assert(want.take(stats.errors.len() as int) =~= want);
    let dir = doc_dir(root, stats.doc_slug.as_str());
    let mut es: Vec<(String, Json)> = Vec::new();
    push_entry(&mut es, "docDir", Json::Str(dir));
    push_entry(&mut es, "docUri", Json::str(stats.doc_uri.as_str()));
    push_entry(&mut es, "errors", array_of(errs));
    push_entry(&mut es, "pages", Json::number(stats.pages_synced));
    push_entry(&mut es, "root", Json::str(root));
    push_entry(&mut es, "rows", Json::number(stats.rows_synced));
    push_entry(&mut es, "synced", Json::Bool(true));
    push_entry(&mut es, "tables", Json::number(stats.tables_synced));
    assert(entries_view(es@) =~= sync_summary_spec(stats.doc_uri@, stats.doc_slug@, stats.pages_synced as nat,
        stats.tables_synced as nat, stats.rows_synced as nat, string_views(stats.errors@), root@)->Object_0);
    object_of(es)
}

/// The closing report of a finished sync on the informational stream, with
/// the lines that the agent's notes file `notes` should carry.
pub open spec fn completion_text_spec(title: Seq<char>, pages: nat, tables: nat, rows: nat, path: Seq<char>,
    root: Seq<char>, notes: Seq<char>) -> Seq<char>
{
    "\n--- Sync complete ---\nDoc:    "@ + title
        + "\nPages:  "@ + decimal(pages)
        + " synced\nTables: "@ + decimal(tables)
        + " synced ("@ + decimal(rows)
        + " rows)\nPath:   "@ + path
        + "\n\nAdd to your "@ + notes + ":\n\n## Coda Data\n- Start with `"@ + root
        + "/INDEX.md` to see all synced docs, then read `"@ + root
        + "/docs/*/CONTEXT.md` for details.\n- Not every Coda doc has been synced. If the doc you need is missing, run `shd sync --doc-url \"<url>\"` first.\n- To create a new doc from scratch: `shd doc_scaffold --json '{...}' --sync`\n- To create a doc based on an existing one: read the relevant CONTEXT.md first, then scaffold with --sync\n- The --sync flag auto-syncs created docs to `"@
        + root + "/` so CONTEXT.md is available for next time\n\nTip: "@ + root
        + "/.gitignore already excludes synced data from git.\n"@
}

pub fn completion_text(stats: &SyncStats, root: &str, notes: &str) -> (r: String)
    ensures
        r@ == completion_text_spec(stats.doc_title@, stats.pages_synced as nat, stats.tables_synced as nat,
            stats.rows_synced as nat, doc_dir_spec(root@, stats.doc_slug@), root@, notes@),
{
    let dir = doc_dir(root, stats.doc_slug.as_str());
    let mut v: Vec<char> = Vec::new();
    extend_str(&mut v, "\n--- Sync complete ---\nDoc:    ");
    extend_str(&mut v, stats.doc_title.as_str());
    extend_str(&mut v, "\nPages:  ");
    push_decimal(&mut v, stats.pages_synced);
    extend_str(&mut v, " synced\nTables: ");
    push_decimal(&mut v, stats.tables_synced);
    extend_str(&mut v, " synced (");
    push_decimal(&mut v, stats.rows_synced);
    extend_str(&mut v, " rows)\nPath:   ");
    extend_str(&mut v, dir.as_str());
    extend_str(&mut v, "\n\nAdd to your ");
    extend_str(&mut v, notes);
    extend_str(&mut v, ":\n\n## Coda Data\n- Start with `");
    extend_str(&mut v, root);
    extend_str(&mut v, "/INDEX.md` to see all synced docs, then read `");
    extend_str(&mut v, root);
    extend_str(&mut v, "/docs/*/CONTEXT.md` for details.\n- Not every Coda doc has been synced. If the doc you need is missing, run `shd sync --doc-url \"<url>\"` first.\n- To create a new doc from scratch: `shd doc_scaffold --json '{...}' --sync`\n- To create a doc based on an existing one: read the relevant CONTEXT.md first, then scaffold with --sync\n- The --sync flag auto-syncs created docs to `");
    extend_str(&mut v, root);
    extend_str(&mut v, "/` so CONTEXT.md is available for next time\n\nTip: ");
    extend_str(&mut v, root);
    extend_str(&mut v, "/.gitignore already excludes synced data from git.\n");
    assert(v@ =~= completion_text_spec(stats.doc_title@, stats.pages_synced as nat, stats.tables_synced as nat,
        stats.rows_synced as nat, doc_dir_spec(root@, stats.doc_slug@), root@, notes@));
    string_of(v.as_slice())
}

} // verus!
