//! Sync: materialize Coda documents as a local tree of files, so that agents
//! can read them with ordinary file tools.
//!
//! Under the sync root stand an ignore file for git, the record of synced
//! documents, an index, and one directory per document with its metadata,
//! its context file and its pages; each page has its markdown and metadata,
//! each table its schema and its rows, one JSON value per line.
//!
//! Here stand the texts and records a sync writes, and the sync itself as a
//! state machine; reading the clock, the file system and the network is the
//! caller's part.
use vstd::prelude::*;
use crate::json::{Json, JsonV, lookup, keys_of, items_view, entries_view, push_entry, object_of};
use crate::json::str_eq;
use crate::text::{chars_of, decimal, extend_str, join, join_strings, push_decimal, string_of, string_views};

verus! {

/// "1 page", "3 pages".
pub open spec fn plural_spec(n: nat, singular: Seq<char>) -> Seq<char> {
    decimal(n) + " "@ + singular + (if n == 1 { Seq::empty() } else { "s"@ })
}

/// Simple pluralization: "1 page" vs "3 pages".
pub fn plural(n: usize, singular: &str) -> (r: String)
    ensures
        r@ == plural_spec(n as nat, singular@),
{
    let mut v: Vec<char> = Vec::new();
    push_decimal(&mut v, n as u64);
    extend_str(&mut v, " ");
    extend_str(&mut v, singular);
    if n != 1 {
        extend_str(&mut v, "s");
    }
    proof {
        if n == 1 {
            assert(v@ =~= plural_spec(n as nat, singular@));
        } else {
            reveal_strlit("s");
            assert(v@ =~= plural_spec(n as nat, singular@));
        }
    }
    string_of(v.as_slice())
}

/// A page as CONTEXT.md lists it.
pub struct PageDetail {
    pub slug: String,
    pub title: String,
    pub has_content: bool,
}

/// A table as CONTEXT.md lists it.
pub struct TableDetail {
    pub slug: String,
    pub name: String,
    pub column_names: Vec<String>,
    pub row_count: usize,
}

pub struct PageDetailV {
    pub slug: Seq<char>,
    pub title: Seq<char>,
    pub has_content: bool,
}

pub struct TableDetailV {
    pub slug: Seq<char>,
    pub name: Seq<char>,
    pub column_names: Seq<Seq<char>>,
    pub row_count: nat,
}

impl View for PageDetail {
    type V = PageDetailV;

    open spec fn view(&self) -> PageDetailV {
        PageDetailV { slug: self.slug@, title: self.title@, has_content: self.has_content }
    }
}

impl View for TableDetail {
    type V = TableDetailV;

    open spec fn view(&self) -> TableDetailV {
        TableDetailV {
            slug: self.slug@,
            name: self.name@,
            column_names: string_views(self.column_names@),
            row_count: self.row_count as nat,
        }
    }
}

pub open spec fn page_details_view(v: Seq<PageDetail>) -> Seq<PageDetailV> {
    v.map_values(|p: PageDetail| p@)
}

pub open spec fn table_details_view(v: Seq<(String, TableDetail)>) -> Seq<(Seq<char>, TableDetailV)> {
    v.map_values(|e: (String, TableDetail)| (e.0@, e.1@))
}

/// A page's line in CONTEXT.md.
pub open spec fn page_line(p: PageDetailV) -> Seq<char> {
    if p.has_content {
        "- "@ + p.slug + ".md — \""@ + p.title + "\"\n"@
    } else {
        "- "@ + p.slug + ".json — \""@ + p.title + "\" (no content)\n"@
    }
}

/// The column names as CONTEXT.md shows them: all of them, or the first twenty
/// and how many more there are.
pub open spec fn display_columns(names: Seq<Seq<char>>) -> Seq<char> {
    if names.len() > 20 {
        join(names.take(20), ", "@) + ", ...and "@ + decimal((names.len() - 20) as nat) + " more"@
    } else {
        join(names, ", "@)
    }
}

/// A table's lines in CONTEXT.md.
pub open spec fn table_lines(t: TableDetailV) -> Seq<char> {
    "- tables/"@ + t.slug + "/ — \""@ + t.name + "\" ("@ + plural_spec(t.column_names.len(), "column"@) + ", "@
        + plural_spec(t.row_count, "row"@) + ")\n"@
        + (if t.column_names.len() > 0 { "  Columns: "@ + display_columns(t.column_names) + "\n"@ } else { Seq::empty() })
}

pub open spec fn pages_text(ps: Seq<PageDetailV>) -> Seq<char>
    decreases ps.len(),
{
    if ps.len() == 0 { Seq::empty() } else { pages_text(ps.drop_last()) + page_line(ps.last()) }
}

pub open spec fn tables_text(ts: Seq<(Seq<char>, TableDetailV)>) -> Seq<char>
    decreases ts.len(),
{
    if ts.len() == 0 { Seq::empty() } else { tables_text(ts.drop_last()) + table_lines(ts.last().1) }
}

/// The text of CONTEXT.md: the document, when it was synced and where from,
/// its pages, and its tables where it has any.
pub open spec fn context_md_spec(
    title: Seq<char>,
    synced_at: Seq<char>,
    uri: Seq<char>,
    pages: Seq<PageDetailV>,
    tables: Seq<(Seq<char>, TableDetailV)>,
) -> Seq<char> {
    "# "@ + title + "\n"@ + "Synced: "@ + synced_at + "\n"@ + "Source: "@ + uri + "\n"@ + "\n"@
        + "## Pages\n"@ + pages_text(pages) + "\n"@
        + (if tables.len() > 0 { "## Tables\n"@ + tables_text(tables) } else { Seq::empty() })
}

#[verifier::rlimit(40)]
fn push_table_lines(v: &mut Vec<char>, t: &TableDetail)
    ensures
        final(v)@ == old(v)@ + table_lines(t@),
{
    let ghost start = v@;
    extend_str(v, "- tables/");
    extend_str(v, t.slug.as_str());
    extend_str(v, "/ — \"");
    extend_str(v, t.name.as_str());
    extend_str(v, "\" (");
    let c = plural(t.column_names.len(), "column");
    extend_str(v, c.as_str());
    extend_str(v, ", ");
    let r = plural(t.row_count, "row");
    extend_str(v, r.as_str());
    extend_str(v, ")\n");
    let n = t.column_names.len();
    if n > 0 {
        extend_str(v, "  Columns: ");
        if n > 20 {
            let mut first: Vec<String> = Vec::new();
            let mut i: usize = 0;
            while i < 20
                invariant
                    i <= 20,
                    n == t.column_names.len(),
                    n > 20,
                    string_views(first@) == string_views(t.column_names@).take(i as int),
                decreases 20 - i,
            {
                let ghost before = first@;
                let name = t.column_names[i].clone();
                first.push(name);
                assert(string_views(first@) =~= string_views(before).push(name@));
                i = i + 1;
                assert(string_views(first@) =~= string_views(t.column_names@).take(i as int));
            }
            let j = join_strings(&first, ", ");
            extend_str(v, j.as_str());
            extend_str(v, ", ...and ");
            push_decimal(v, (n - 20) as u64);
            extend_str(v, " more");
        } else {
            let j = join_strings(&t.column_names, ", ");
            extend_str(v, j.as_str());
        }
        extend_str(v, "\n");
    }
    assert(v@ =~= start + table_lines(t@));
}

/// The text of CONTEXT.md.
pub fn context_md(
    title: &str,
    synced_at: &str,
    uri: &str,
    pages: &Vec<PageDetail>,
    tables: &Vec<(String, TableDetail)>,
) -> (r: String)
    ensures
        r@ == context_md_spec(title@, synced_at@, uri@, page_details_view(pages@), table_details_view(tables@)),
{
    let mut v: Vec<char> = Vec::new();
    extend_str(&mut v, "# ");
    extend_str(&mut v, title);
    extend_str(&mut v, "\n");
    extend_str(&mut v, "Synced: ");
    extend_str(&mut v, synced_at);
    extend_str(&mut v, "\n");
    extend_str(&mut v, "Source: ");
    extend_str(&mut v, uri);
    extend_str(&mut v, "\n");
    extend_str(&mut v, "\n");
    extend_str(&mut v, "## Pages\n");
    let ghost head = v@;
    let ghost pv = page_details_view(pages@);
    let mut i: usize = 0;
    assert(pv.take(0) =~= Seq::<PageDetailV>::empty());
    assert(v@ =~= head + pages_text(pv.take(0)));
    while i < pages.len()
        invariant
            i <= pages.len(),
            pv == page_details_view(pages@),
            v@ == head + pages_text(pv.take(i as int)),
        decreases pages.len() - i,
    {
        let p = &pages[i];
        let ghost before = v@;
        if p.has_content {
            extend_str(&mut v, "- ");
            extend_str(&mut v, p.slug.as_str());
            extend_str(&mut v, ".md — \"");
            extend_str(&mut v, p.title.as_str());
            extend_str(&mut v, "\"\n");
        } else {
            extend_str(&mut v, "- ");
            extend_str(&mut v, p.slug.as_str());
            extend_str(&mut v, ".json — \"");
            extend_str(&mut v, p.title.as_str());
            extend_str(&mut v, "\" (no content)\n");
        }
        assert(v@ =~= before + page_line(p@));
        assert(pv.take(i + 1).drop_last() =~= pv.take(i as int));
        i = i + 1;
    }
    assert(pv.take(i as int) =~= pv);
    extend_str(&mut v, "\n");
    if tables.len() > 0 {
        extend_str(&mut v, "## Tables\n");
        let ghost head2 = v@;
        let ghost tv = table_details_view(tables@);
        let mut k: usize = 0;
        assert(tv.take(0) =~= Seq::<(Seq<char>, TableDetailV)>::empty());
        assert(v@ =~= head2 + tables_text(tv.take(0)));
        while k < tables.len()
            invariant
                k <= tables.len(),
                tv == table_details_view(tables@),
                v@ == head2 + tables_text(tv.take(k as int)),
            decreases tables.len() - k,
        {
            push_table_lines(&mut v, &tables[k].1);
            assert(tv.take(k + 1).drop_last() =~= tv.take(k as int));
            k = k + 1;
        }
        assert(tv.take(k as int) =~= tv);
    }
    assert(v@ =~= context_md_spec(title@, synced_at@, uri@, page_details_view(pages@), table_details_view(tables@)));
    string_of(v.as_slice())
}

/// The order of texts that `str`'s `Ord` gives: lexicographic by character.
pub open spec fn lex_lt(a: Seq<char>, b: Seq<char>) -> bool
    decreases a.len(),
{
    if a.len() == 0 {
        b.len() > 0
    } else if b.len() == 0 {
        false
    } else if a[0] != b[0] {
        a[0] < b[0]
    } else {
        lex_lt(a.drop_first(), b.drop_first())
    }
}

pub proof fn lemma_lex_irreflexive(a: Seq<char>)
    ensures
        !lex_lt(a, a),
    decreases a.len(),
{
    if a.len() > 0 {
        lemma_lex_irreflexive(a.drop_first());
    }
}

pub proof fn lemma_lex_trans(a: Seq<char>, b: Seq<char>, c: Seq<char>)
    requires
        lex_lt(a, b),
        lex_lt(b, c),
    ensures
        lex_lt(a, c),
    decreases a.len(),
{
    if a.len() > 0 && b.len() > 0 && c.len() > 0 && a[0] == b[0] && b[0] == c[0] {
        lemma_lex_trans(a.drop_first(), b.drop_first(), c.drop_first());
    }
}

pub proof fn lemma_lex_total(a: Seq<char>, b: Seq<char>)
    ensures
        lex_lt(a, b) || a == b || lex_lt(b, a),
    decreases a.len(),
{
    if a.len() > 0 && b.len() > 0 && a[0] == b[0] {
        lemma_lex_total(a.drop_first(), b.drop_first());
        if a.drop_first() == b.drop_first() {
            assert(a =~= seq![a[0]] + a.drop_first());
            assert(b =~= seq![b[0]] + b.drop_first());
        }
    } else if a.len() == 0 && b.len() == 0 {
        assert(a =~= b);
    }
}

/// Whether `a` sorts before `b`.
pub fn text_lt(a: &str, b: &str) -> (r: bool)
    ensures
        r == lex_lt(a@, b@),
{
    let x = chars_of(a);
    let y = chars_of(b);
    let mut i: usize = 0;
    assert(x@.skip(0) =~= x@);
    assert(y@.skip(0) =~= y@);
    while i < x.len() && i < y.len()
        invariant
            i <= x.len(),
            i <= y.len(),
            lex_lt(a@, b@) == lex_lt(x@.skip(i as int), y@.skip(i as int)),
            x@ == a@,
            y@ == b@,
        decreases x.len() - i,
    {
        if x[i] != y[i] {
            return x[i] < y[i];
        }
        assert(x@.skip(i as int).drop_first() =~= x@.skip(i + 1));
        assert(y@.skip(i as int).drop_first() =~= y@.skip(i + 1));
        i = i + 1;
    }
    i < y.len()
}

/// A synced document as the manifest records it.
pub struct ManifestDocEntry {
    pub slug: String,
    pub title: String,
    pub synced_at: String,
    pub page_count: usize,
    pub table_count: usize,
}

pub struct ManifestDocEntryV {
    pub slug: Seq<char>,
    pub title: Seq<char>,
    pub synced_at: Seq<char>,
    pub page_count: nat,
    pub table_count: nat,
}

impl View for ManifestDocEntry {
    type V = ManifestDocEntryV;

    open spec fn view(&self) -> ManifestDocEntryV {
        ManifestDocEntryV {
            slug: self.slug@,
            title: self.title@,
            synced_at: self.synced_at@,
            page_count: self.page_count as nat,
            table_count: self.table_count as nat,
        }
    }
}

/// The documents synced under a root, each by its URI, kept sorted by title.
pub struct SyncManifest {
    pub version: u32,
    pub synced_at: String,
    pub docs: Vec<(String, ManifestDocEntry)>,
}

pub open spec fn docs_view(v: Seq<(String, ManifestDocEntry)>) -> Seq<(Seq<char>, ManifestDocEntryV)> {
    v.map_values(|e: (String, ManifestDocEntry)| (e.0@, e.1@))
}

/// Each document once, sorted by title.
pub open spec fn docs_wf(d: Seq<(Seq<char>, ManifestDocEntryV)>) -> bool {
    &&& forall|i: int, j: int| 0 <= i < j < d.len() ==> d[i].0 != d[j].0
    &&& forall|i: int, j: int| 0 <= i < j < d.len() ==> !lex_lt(d[j].1.title, d[i].1.title)
}

pub proof fn lemma_lookup_unique<V>(es: Seq<(Seq<char>, V)>, k: Seq<char>, i: int)
    requires
        forall|a: int, b: int| 0 <= a < b < es.len() ==> es[a].0 != es[b].0,
        0 <= i < es.len(),
        es[i].0 == k,
    ensures
        lookup(es, k) == Some(es[i].1),
{
    crate::json::lemma_lookup_at(es, k, i);
}

pub proof fn lemma_lookup_absent<V>(es: Seq<(Seq<char>, V)>, k: Seq<char>)
    requires
        forall|a: int| 0 <= a < es.len() ==> es[a].0 != k,
    ensures
        lookup(es, k) is None,
{
    crate::json::lemma_key_index_none(keys_of(es), k);
}

pub proof fn lemma_insert_sorted(d1: Seq<(Seq<char>, ManifestDocEntryV)>, p: int, uri: Seq<char>, ev: ManifestDocEntryV)
    requires
        docs_wf(d1),
        0 <= p <= d1.len(),
        forall|a: int| 0 <= a < d1.len() ==> d1[a].0 != uri,
        forall|a: int| 0 <= a < p ==> !lex_lt(ev.title, d1[a].1.title),
        p < d1.len() ==> lex_lt(ev.title, d1[p].1.title),
    ensures
        docs_wf(d1.insert(p, (uri, ev))),
{
    let d2 = d1.insert(p, (uri, ev));
    let title = ev.title;
    assert forall|i: int, j: int| 0 <= i < j < d2.len() implies d2[i].0 != d2[j].0 by {
        if i < p && j < p {
        } else if i == p {
            assert(d2[j] == d1[j - 1]);
        } else if j == p {
            assert(d2[i] == d1[i]);
        } else if i < p {
            assert(d2[i] == d1[i]);
            assert(d2[j] == d1[j - 1]);
        } else {
            assert(d2[i] == d1[i - 1]);
            assert(d2[j] == d1[j - 1]);
        }
    }
    assert forall|i: int, j: int| 0 <= i < j < d2.len() implies !lex_lt(d2[j].1.title, d2[i].1.title) by {
        if j < p {
            assert(d2[i] == d1[i]);
            assert(d2[j] == d1[j]);
        } else if i == p {
            assert(d2[j] == d1[j - 1]);
            if lex_lt(d1[j - 1].1.title, title) {
                if j - 1 == p {
                    lemma_lex_trans(title, d1[p].1.title, title);
                    lemma_lex_irreflexive(title);
                } else {
                    assert(!lex_lt(d1[j - 1].1.title, d1[p].1.title));
                    lemma_lex_trans(d1[j - 1].1.title, title, d1[p].1.title);
                }
            }
        } else if j == p {
            assert(d2[i] == d1[i]);
            lemma_lex_total(title, d1[i].1.title);
            if title == d1[i].1.title {
                lemma_lex_irreflexive(title);
            }
        } else if i < p {
            assert(d2[i] == d1[i]);
            assert(d2[j] == d1[j - 1]);
        } else {
            assert(d2[i] == d1[i - 1]);
            assert(d2[j] == d1[j - 1]);
        }
    }
}

pub proof fn lemma_upsert_lookup(
    d0: Seq<(Seq<char>, ManifestDocEntryV)>,
    d1: Seq<(Seq<char>, ManifestDocEntryV)>,
    d2: Seq<(Seq<char>, ManifestDocEntryV)>,
    found: Option<usize>,
    p: int,
    uri: Seq<char>,
    ev: ManifestDocEntryV,
)
    requires
        docs_wf(d0),
        docs_wf(d2),
        match found {
            Some(f) => f < d0.len() && d0[f as int].0 == uri && d1 == d0.remove(f as int),
            None => d1 == d0 && forall|a: int| 0 <= a < d0.len() ==> d0[a].0 != uri,
        },
        0 <= p <= d1.len(),
        d2 == d1.insert(p, (uri, ev)),
    ensures
        lookup(d2, uri) == Some(ev),
        forall|k: Seq<char>| k != uri ==> lookup(d2, k) == lookup(d0, k),
{
    lemma_lookup_unique(d2, uri, p);
    assert forall|k: Seq<char>| k != uri implies lookup(d2, k) == lookup(d0, k) by {
        if exists|a: int| 0 <= a < d0.len() && d0[a].0 == k {
            let a = choose|a: int| 0 <= a < d0.len() && d0[a].0 == k;
            lemma_lookup_unique(d0, k, a);
            let b: int = match found {
                Some(f) => if a < f { a } else { a - 1 },
                None => a,
            };
            assert(d1[b] == d0[a]);
            let c: int = if b < p { b } else { b + 1 };
            assert(d2[c] == d1[b]);
            lemma_lookup_unique(d2, k, c);
        } else {
            lemma_lookup_absent(d0, k);
            assert forall|c: int| 0 <= c < d2.len() implies d2[c].0 != k by {
                if c == p {
                } else {
                    let b: int = if c < p { c } else { c - 1 };
                    assert(d2[c] == d1[b]);
                    let a: int = match found {
                        Some(f) => if b < f { b } else { b + 1 },
                        None => b,
                    };
                    assert(d1[b] == d0[a]);
                }
            }
            lemma_lookup_absent(d2, k);
        }
    }
}

impl SyncManifest {
    /// An empty manifest.
    pub fn new() -> (r: SyncManifest)
        ensures
            r.version == 1,
            docs_view(r.docs@).len() == 0,
            docs_wf(docs_view(r.docs@)),
    {
        let r = SyncManifest { version: 1, synced_at: String::new(), docs: Vec::new() };
        assert(docs_view(r.docs@) =~= Seq::<(Seq<char>, ManifestDocEntryV)>::empty());
        r
    }

    /// Records a synced document, replacing what was recorded of it before, and
    /// keeps the documents sorted by title.
    pub fn upsert_doc(&mut self, uri: &str, entry: ManifestDocEntry)
        requires
            docs_wf(docs_view(old(self).docs@)),
        ensures
            docs_wf(docs_view(final(self).docs@)),
            lookup(docs_view(final(self).docs@), uri@) == Some(entry@),
            forall|k: Seq<char>| k != uri@ ==> lookup(docs_view(final(self).docs@), k) == lookup(docs_view(old(self).docs@), k),
            final(self).version == old(self).version,
            final(self).synced_at == old(self).synced_at,
    {
        let ghost d0 = docs_view(self.docs@);
        // Drop the earlier record of this document.
        let mut j: usize = 0;
        let mut found: Option<usize> = None;
        while j < self.docs.len()
            invariant
                j <= self.docs.len(),
                d0 == docs_view(self.docs@),
                found is None ==> forall|a: int| 0 <= a < j ==> d0[a].0 != uri@,
                found matches Some(f) ==> f < self.docs.len() && d0[f as int].0 == uri@,
            decreases self.docs.len() - j,
        {
            if found.is_none() && str_eq(self.docs[j].0.as_str(), uri) {
                found = Some(j);
            }
            j = j + 1;
        }
        match found {
            Some(f) => {
                self.docs.remove(f);
                proof {
                    let d1 = docs_view(self.docs@);
                    assert(d1 =~= d0.remove(f as int));
                }
            },
            None => {},
        }
        let ghost d1 = docs_view(self.docs@);
        proof {
            match found {
                Some(f) => {
                    assert forall|i: int, j: int| 0 <= i < j < d1.len() implies d1[i].0 != d1[j].0
                        && !lex_lt(d1[j].1.title, d1[i].1.title) by {
                        let a: int = if i < f { i } else { i + 1 };
                        let b: int = if j < f { j } else { j + 1 };
                        assert(d1[i] == d0[a]);
                        assert(d1[j] == d0[b]);
                    }
                    assert forall|a: int| 0 <= a < d1.len() implies d1[a].0 != uri@ by {
                        let b: int = if a < f { a } else { a + 1 };
                        assert(d1[a] == d0[b]);
                    }
                },
                None => {},
            }
        }
        // Find where the title goes.
        let mut p: usize = 0;
        while p < self.docs.len() && !text_lt(entry.title.as_str(), self.docs[p].1.title.as_str())
            invariant
                p <= self.docs.len(),
                d1 == docs_view(self.docs@),
                forall|a: int| 0 <= a < p ==> !lex_lt(entry@.title, d1[a].1.title),
            decreases self.docs.len() - p,
        {
            p = p + 1;
        }
        assert(p < d1.len() ==> lex_lt(entry@.title, d1[p as int].1.title));
        let ghost title = entry@.title;
        let ghost ev = entry@;
        self.docs.insert(p, (uri.to_owned(), entry));
        proof {
            let d2 = docs_view(self.docs@);
            assert(d2 =~= d1.insert(p as int, (uri@, ev)));
            lemma_insert_sorted(d1, p as int, uri@, ev);
            lemma_upsert_lookup(d0, d1, d2, found, p as int, uri@, ev);
        }
    }
}

/// A document's lines in INDEX.md.
pub open spec fn index_lines(uri: Seq<char>, e: ManifestDocEntryV) -> Seq<char> {
    "- docs/"@ + e.slug + "/ — \""@ + e.title + "\" ("@ + plural_spec(e.page_count, "page"@) + ", "@
        + plural_spec(e.table_count, "table"@) + ")
"@ + "  Source: "@ + uri + "
"@
}

pub open spec fn docs_text(d: Seq<(Seq<char>, ManifestDocEntryV)>) -> Seq<char>
    decreases d.len(),
{
    if d.len() == 0 { Seq::empty() } else { docs_text(d.drop_last()) + index_lines(d.last().0, d.last().1) }
}

/// The text of INDEX.md: every synced document, sorted by title, or a note that
/// there is none yet.
pub open spec fn index_md_spec(updated: Seq<char>, d: Seq<(Seq<char>, ManifestDocEntryV)>) -> Seq<char> {
    "# Synced Coda Docs\n"@ + "Last updated: "@ + updated + "\n"@ + "\n"@
        + (if d.len() == 0 {
            "No docs synced yet. Run `shd sync --doc-url \"<url>\"` to add one.\n"@
        } else {
            "## Docs\n"@ + docs_text(d) + "\n"@
        })
        + "Not every Coda doc is synced here. To add one: `shd sync --doc-url \"<url>\"`\n"@
}

/// The text of INDEX.md, from the manifest.
pub fn index_md(updated: &str, manifest: &SyncManifest) -> (r: String)
    ensures
        r@ == index_md_spec(updated@, docs_view(manifest.docs@)),
{
    let mut v: Vec<char> = Vec::new();
    extend_str(&mut v, "# Synced Coda Docs\n");
    extend_str(&mut v, "Last updated: ");
    extend_str(&mut v, updated);
    extend_str(&mut v, "\n");
    extend_str(&mut v, "\n");
    let ghost dv = docs_view(manifest.docs@);
    if manifest.docs.len() == 0 {
        extend_str(&mut v, "No docs synced yet. Run `shd sync --doc-url \"<url>\"` to add one.\n");
    } else {
        extend_str(&mut v, "## Docs\n");
        let ghost head = v@;
        let mut i: usize = 0;
        assert(dv.take(0) =~= Seq::<(Seq<char>, ManifestDocEntryV)>::empty());
        assert(v@ =~= head + docs_text(dv.take(0)));
        while i < manifest.docs.len()
            invariant
                i <= manifest.docs.len(),
                dv == docs_view(manifest.docs@),
                v@ == head + docs_text(dv.take(i as int)),
            decreases manifest.docs.len() - i,
        {
            let (uri, e) = (&manifest.docs[i].0, &manifest.docs[i].1);
            let ghost before = v@;
            extend_str(&mut v, "- docs/");
            extend_str(&mut v, e.slug.as_str());
            extend_str(&mut v, "/ — \"");
            extend_str(&mut v, e.title.as_str());
            extend_str(&mut v, "\" (");
            let pp = plural(e.page_count, "page");
            extend_str(&mut v, pp.as_str());
            extend_str(&mut v, ", ");
            let tt = plural(e.table_count, "table");
            extend_str(&mut v, tt.as_str());
            extend_str(&mut v, ")\n");
            extend_str(&mut v, "  Source: ");
            extend_str(&mut v, uri.as_str());
            extend_str(&mut v, "\n");
            assert(v@ =~= before + index_lines(uri@, e@));
            assert(dv.take(i + 1).drop_last() =~= dv.take(i as int));
            i = i + 1;
        }
        assert(dv.take(i as int) =~= dv);
        extend_str(&mut v, "\n");
    }
    extend_str(&mut v, "Not every Coda doc is synced here. To add one: `shd sync --doc-url \"<url>\"`\n");
    assert(v@ =~= index_md_spec(updated@, docs_view(manifest.docs@)));
    string_of(v.as_slice())
}

} // verus!
