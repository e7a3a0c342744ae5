//! Slugification utilities for converting Coda names to filesystem-safe paths,
//! and the parsing of Coda browser URLs and `coda://` URIs.
use vstd::prelude::*;
use crate::text::{trim, trim_chars, starts_with, index_of, index_of_exec, last_index_of, last_index_of_exec, last_occurrence, last_occurrence_exec, starts_with_exec, slice_vec, extend_str, is_ascii_alnum, ascii_lower, is_lower, is_upper, lowercase, to_lowercase, chars_of, ascii_alnum, to_ascii_lower, extend_chars, string_of, occurs_at, trim_str, str_starts_with};

verus! {

pub open spec fn slug_char(c: char) -> char {
    if is_ascii_alnum(c) { c } else { '-' }
}

/// Runs of hyphens collapsed, a leading run dropped: a hyphen stays only when
/// the character before it is not a hyphen.
pub open spec fn collapse_hyphens(s: Seq<char>) -> Seq<char>
    decreases s.len(),
{
    if s.len() == 0 {
        Seq::empty()
    } else {
        let i = s.len() - 1;
        let keep = s[i] != '-' || (i > 0 && s[i - 1] != '-');
        collapse_hyphens(s.drop_last()) + if keep { seq![s[i]] } else { Seq::empty() }
    }
}

/// Trailing hyphens removed.
pub open spec fn strip_trailing_hyphens(s: Seq<char>) -> Seq<char>
    decreases s.len(),
{
    if s.len() > 0 && s.last() == '-' {
        strip_trailing_hyphens(s.drop_last())
    } else {
        s
    }
}

/// The name part of a slug, from the lowercased name.
pub open spec fn slug_base(lower: Seq<char>) -> Seq<char> {
    let t = strip_trailing_hyphens(collapse_hyphens(lower.map_values(|c: char| slug_char(c))));
    let t2 = if t.len() > 80 { strip_trailing_hyphens(t.take(80)) } else { t };
    if t2.len() == 0 { "untitled"@ } else { t2 }
}

/// The ASCII letters and digits of an id, in order.
pub open spec fn alnum_only(s: Seq<char>) -> Seq<char>
    decreases s.len(),
{
    if s.len() == 0 {
        Seq::empty()
    } else {
        alnum_only(s.drop_last()) + if is_ascii_alnum(s.last()) { seq![s.last()] } else { Seq::empty() }
    }
}

/// The id suffix: the first six ASCII letters and digits of the id, lowercased.
pub open spec fn id_suffix(id: Seq<char>) -> Seq<char> {
    let a = alnum_only(id);
    let t = if a.len() > 6 { a.take(6) } else { a };
    t.map_values(|c: char| ascii_lower(c))
}

pub open spec fn slugify_spec(name: Seq<char>, id: Seq<char>) -> Seq<char> {
    let base = slug_base(lowercase(name));
    let suffix = id_suffix(id);
    if suffix.len() == 0 { base } else { base + seq!['-'] + suffix }
}

fn strip_trailing_hyphens_vec(v: &mut Vec<char>)
    ensures
        final(v)@ == strip_trailing_hyphens(old(v)@),
{
    while v.len() > 0 && v[v.len() - 1] == '-'
        invariant
            strip_trailing_hyphens(v@) == strip_trailing_hyphens(old(v)@),
        decreases v.len(),
    {
        let ghost before = v@;
        v.pop();
        assert(v@ =~= before.drop_last());
    }
}

/// Convert a name and an ID suffix into a filesystem-safe slug.
///
/// Rules:
/// - Lowercase
/// - Replace non-alphanumeric characters with hyphens
/// - Collapse consecutive hyphens
/// - Strip leading/trailing hyphens
/// - Truncate to 80 characters before appending the ID suffix
/// - Append `-{suffix}` (first 6 chars of the ID) to prevent collisions
///
/// Example: slugify("Q2 Planning Doc", "AbCdEfGhIj") → "q2-planning-doc-abcdef"
pub fn slugify(name: &str, id: &str) -> (r: String)
    ensures
        r@ == slugify_spec(name@, id@),
        r@ == (if id_suffix(id@).len() == 0 { slug_base(lowercase(name@)) }
            else { slug_base(lowercase(name@)) + "-"@ + id_suffix(id@) }),
        slug_form(r@),
        slug_form(slug_base(lowercase(name@))),
        slug_base(lowercase(name@)).len() <= 80,
        slug_base(slug_base(lowercase(name@)).map_values(|c: char| ascii_lower(c))) == slug_base(lowercase(name@)),
{
    let lower_s = to_lowercase(name);
    let lower = chars_of(lower_s.as_str());
    let ghost mapped = lower@.map_values(|c: char| slug_char(c));
    let mut slug: Vec<char> = Vec::new();
    let mut prev_hyphen = true;
    let mut i: usize = 0;
    while i < lower.len()
        invariant
            i <= lower.len(),
            mapped == lower@.map_values(|c: char| slug_char(c)),
            slug@ == collapse_hyphens(mapped.take(i as int)),
            prev_hyphen == (i == 0 || mapped[i - 1] == '-'),
        decreases lower.len() - i,
    {
        let c = if ascii_alnum(lower[i]) { lower[i] } else { '-' };
        assert(c == mapped[i as int]);
        if c == '-' {
            if !prev_hyphen {
                slug.push('-');
            }
            prev_hyphen = true;
        } else {
            slug.push(c);
            prev_hyphen = false;
        }
        i = i + 1;
        assert(mapped.take(i as int).drop_last() =~= mapped.take((i - 1) as int));
        assert(slug@ =~= collapse_hyphens(mapped.take(i as int)));
    }
    assert(mapped.take(i as int) =~= mapped);
    strip_trailing_hyphens_vec(&mut slug);
    if slug.len() > 80 {
        slug.truncate(80);
        strip_trailing_hyphens_vec(&mut slug);
    }
    if slug.len() == 0 {
        slug = chars_of("untitled");
    }
    assert(slug@ == slug_base(lower_s@));

    let idc = chars_of(id);
    let mut alnum: Vec<char> = Vec::new();
    let mut j: usize = 0;
    while j < idc.len()
        invariant
            j <= idc.len(),
            idc@ == id@,
            alnum@ == alnum_only(id@.take(j as int)),
        decreases idc.len() - j,
    {
        if ascii_alnum(idc[j]) {
            alnum.push(idc[j]);
        }
        j = j + 1;
        assert(id@.take(j as int).drop_last() =~= id@.take((j - 1) as int));
    }
    assert(id@.take(j as int) =~= id@);
    if alnum.len() > 6 {
        alnum.truncate(6);
    }
    let mut suffix: Vec<char> = Vec::new();
    let mut k: usize = 0;
    while k < alnum.len()
        invariant
            k <= alnum.len(),
            suffix@ == alnum@.take(k as int).map_values(|c: char| ascii_lower(c)),
        decreases alnum.len() - k,
    {
        suffix.push(to_ascii_lower(alnum[k]));
        k = k + 1;
        assert(suffix@ =~= alnum@.take(k as int).map_values(|c: char| ascii_lower(c)));
    }
    assert(alnum@.take(k as int) =~= alnum@);
    assert(suffix@ == id_suffix(id@));
    if suffix.len() > 0 {
        slug.push('-');
        extend_chars(&mut slug, suffix.as_slice());
    }
    proof {
        lemma_slug_base_form(lower_s@);
        lemma_slug_base_fixed(slug_base(lower_s@));
        reveal_strlit("-");
        assert("-"@ =~= seq!['-']);
        if suffix@.len() > 0 {
            lemma_id_suffix_chars(id@);
            lemma_slug_join(slug_base(lower_s@), suffix@);
        }
    }
    string_of(slug.as_slice())
}

/// Every trailing `c` removed.
pub open spec fn strip_trailing_char(s: Seq<char>, c: char) -> Seq<char>
    decreases s.len(),
{
    if s.len() > 0 && s.last() == c {
        strip_trailing_char(s.drop_last(), c)
    } else {
        s
    }
}

/// The text up to the first `/`.
pub open spec fn first_segment(s: Seq<char>) -> Seq<char> {
    match index_of(s, '/') {
        Some(k) => s.take(k),
        None => s,
    }
}

/// The text after the last `/`.
pub open spec fn last_segment(s: Seq<char>) -> Seq<char> {
    match last_index_of(s, '/') {
        Some(k) => s.skip(k + 1),
        None => s,
    }
}

pub open spec fn all_alnum(s: Seq<char>) -> bool {
    forall|j: int| 0 <= j < s.len() ==> is_ascii_alnum(#[trigger] s[j])
}

/// The path after a Coda browser URL's `/d/`, for https and http.
pub open spec fn coda_url_path(u: Seq<char>) -> Option<Seq<char>> {
    if starts_with(u, "https://coda.io/d/"@) {
        Some(u.skip("https://coda.io/d/"@.len() as int))
    } else if starts_with(u, "http://coda.io/d/"@) {
        Some(u.skip("http://coda.io/d/"@.len() as int))
    } else {
        None
    }
}

/// The doc id of a Coda browser URL: in the first path segment after `/d/`,
/// what follows the last `_d`, when that is non-empty and alphanumeric.
pub open spec fn parse_coda_url_spec(url: Seq<char>) -> Option<Seq<char>> {
    let u = strip_trailing_char(trim(url), '/');
    match coda_url_path(u) {
        None => None,
        Some(path) => {
            let seg = first_segment(path);
            match last_occurrence(seg, "_d"@) {
                None => None,
                Some(pos) => {
                    let id = seg.skip(pos + 2);
                    if id.len() > 0 && all_alnum(id) { Some(id) } else { None }
                },
            }
        },
    }
}

pub open spec fn resolve_error_text(input: Seq<char>) -> Seq<char> {
    "Could not parse Coda document URL: "@ + input
        + "\nExpected: https://coda.io/d/Title_dDocId or coda://docs/DocId"@
}

pub open spec fn resolve_doc_input_spec(input: Seq<char>) -> Result<Seq<char>, Seq<char>> {
    let t = trim(input);
    if starts_with(t, "coda://"@) {
        Ok(t)
    } else {
        match parse_coda_url_spec(t) {
            Some(id) => Ok("coda://docs/"@ + id),
            None => Err(resolve_error_text(t)),
        }
    }
}

/// The short id of a URI: its last segment without a `canvas-`, `grid-` or
/// `section-` prefix.
pub open spec fn id_from_uri_spec(uri: Seq<char>) -> Seq<char> {
    let raw = last_segment(uri);
    if starts_with(raw, "canvas-"@) {
        raw.skip(7)
    } else if starts_with(raw, "grid-"@) {
        raw.skip(5)
    } else if starts_with(raw, "section-"@) {
        raw.skip(8)
    } else {
        raw
    }
}

/// Parse a Coda browser URL and extract the doc ID.
///
/// Accepts:
///   `https://coda.io/d/Title_dAbCdEf`
///   `https://coda.io/d/Title_dAbCdEf/Page-Name_suXyZ`
///   `https://coda.io/d/_dAbCdEf`
///
/// Returns the doc ID (e.g., `"AbCdEf"`) or `None` if not a valid Coda URL.
#[verifier::loop_isolation(false)]
pub fn parse_coda_url(url: &str) -> (r: Option<String>)
    ensures
        r matches Some(id) ==> parse_coda_url_spec(url@) == Some(id@),
        r is None ==> parse_coda_url_spec(url@) is None,
{
    let c = chars_of(url);
    let mut u = trim_chars(c.as_slice());
    while u.len() > 0 && u[u.len() - 1] == '/'
        invariant
            strip_trailing_char(u@, '/') == strip_trailing_char(trim(url@), '/'),
        decreases u.len(),
    {
        let ghost before = u@;
        u.pop();
        assert(u@ =~= before.drop_last());
    }
    let https = chars_of("https://coda.io/d/");
    let http = chars_of("http://coda.io/d/");
    let path = if starts_with_exec(u.as_slice(), https.as_slice()) {
        slice_vec(u.as_slice(), https.len(), u.len())
    } else if starts_with_exec(u.as_slice(), http.as_slice()) {
        slice_vec(u.as_slice(), http.len(), u.len())
    } else {
        return None;
    };
    assert(coda_url_path(u@) == Some(path@));
    let seg = match index_of_exec(path.as_slice(), '/') {
        Some(k) => {
            proof { crate::text::lemma_index_of(path@, '/'); }
            slice_vec(path.as_slice(), 0, k)
        },
        None => path,
    };
    assert(seg@ == first_segment(path@));
    let marker = chars_of("_d");
    proof { reveal_strlit("_d"); }
    assert(marker.len() == 2);
    let pos = match last_occurrence_exec(seg.as_slice(), marker.as_slice()) {
        Some(pos) => pos,
        None => return None,
    };
    proof { lemma_last_occurrence_in(seg@, marker@); }
    let id = slice_vec(seg.as_slice(), pos + 2, seg.len());
    assert(id@ =~= seg@.skip(pos + 2));
    if id.len() == 0 {
        return None;
    }
    let mut j: usize = 0;
    while j < id.len()
        invariant
            j <= id.len(),
            forall|k: int| 0 <= k < j ==> is_ascii_alnum(#[trigger] id@[k]),
        decreases id.len() - j,
    {
        if !ascii_alnum(id[j]) {
            assert(!is_ascii_alnum(id@[j as int]));
            return None;
        }
        j = j + 1;
    }
    assert(id@ =~= seg@.skip(pos + 2));
    Some(string_of(id.as_slice()))
}

proof fn lemma_last_occurrence_in(s: Seq<char>, p: Seq<char>)
    ensures
        last_occurrence(s, p) matches Some(i) ==> 0 <= i && i + p.len() <= s.len(),
    decreases s.len(),
{
    if p.len() <= s.len() && !occurs_at(s, p, s.len() - p.len()) && s.len() > 0 {
        lemma_last_occurrence_in(s.drop_last(), p);
    }
}

/// Convert a browser URL or `coda://` URI to a `coda://` URI.
///
/// If already a `coda://` URI, returns as-is.
/// If a browser URL, parses the doc ID and constructs `coda://docs/{docId}`.
pub fn resolve_doc_input(input: &str) -> (r: Result<String, String>)
    ensures
        r matches Ok(s) ==> resolve_doc_input_spec(input@) == Ok::<Seq<char>, Seq<char>>(s@),
        r matches Err(e) ==> resolve_doc_input_spec(input@) == Err::<Seq<char>, Seq<char>>(e@),
{
    let t = trim_str(input);
    if str_starts_with(t.as_str(), "coda://") {
        return Ok(t);
    }
    match parse_coda_url(t.as_str()) {
        Some(doc_id) => {
            let mut v: Vec<char> = Vec::new();
            extend_str(&mut v, "coda://docs/");
            extend_str(&mut v, doc_id.as_str());
            Ok(string_of(v.as_slice()))
        },
        None => {
            let mut v: Vec<char> = Vec::new();
            extend_str(&mut v, "Could not parse Coda document URL: ");
            extend_str(&mut v, t.as_str());
            extend_str(&mut v, "\nExpected: https://coda.io/d/Title_dDocId or coda://docs/DocId");
            Err(string_of(v.as_slice()))
        },
    }
}

/// Extract a short ID from a Coda URI, stripping common prefixes.
///
/// e.g. "coda://docs/AbCdEfGhIj" → "AbCdEfGhIj"
/// e.g. "coda://docs/abc/canvases/canvas-KOsNISRf_L" → "KOsNISRf_L"
/// e.g. "coda://docs/abc/tables/grid-k4rNzi0nC9" → "k4rNzi0nC9"
pub fn id_from_uri(uri: &str) -> (r: String)
    ensures
        r@ == id_from_uri_spec(uri@),
{
    let c = chars_of(uri);
    let raw = match last_index_of_exec(c.as_slice(), '/') {
        Some(k) => {
            proof { crate::text::lemma_last_index_of(c@, '/'); }
            let n = c.len();
            assert(k < n);
            slice_vec(c.as_slice(), k + 1, n)
        },
        None => c,
    };
    assert(raw@ =~= last_segment(uri@));
    let canvas = chars_of("canvas-");
    let grid = chars_of("grid-");
    let section = chars_of("section-");
    proof {
        reveal_strlit("canvas-");
        reveal_strlit("grid-");
        reveal_strlit("section-");
    }
    let out = if starts_with_exec(raw.as_slice(), canvas.as_slice()) {
        slice_vec(raw.as_slice(), 7, raw.len())
    } else if starts_with_exec(raw.as_slice(), grid.as_slice()) {
        slice_vec(raw.as_slice(), 5, raw.len())
    } else if starts_with_exec(raw.as_slice(), section.as_slice()) {
        slice_vec(raw.as_slice(), 8, raw.len())
    } else {
        raw
    };
    assert(out@ =~= id_from_uri_spec(uri@));
    string_of(out.as_slice())
}

/// The short id of a URI is a suffix of it and holds no `/`.
pub proof fn law_id_from_uri_suffix(uri: Seq<char>)
    ensures
        id_from_uri_spec(uri).len() <= uri.len(),
        id_from_uri_spec(uri) == uri.skip(uri.len() - id_from_uri_spec(uri).len()),
        forall|j: int| 0 <= j < id_from_uri_spec(uri).len() ==> #[trigger] id_from_uri_spec(uri)[j] != '/',
{
    crate::text::lemma_last_index_of(uri, '/');
    let raw = last_segment(uri);
    let k: int = match last_index_of(uri, '/') { Some(i) => i + 1, None => 0 };
    assert(raw =~= uri.skip(k));
    assert forall|j: int| 0 <= j < raw.len() implies raw[j] != '/' by {
        assert(raw[j] == uri[j + k]);
    }
    let r = id_from_uri_spec(uri);
    let d: int = uri.len() - raw.len();
    let p: int = raw.len() - r.len();
    reveal_strlit("canvas-");
    reveal_strlit("grid-");
    reveal_strlit("section-");
    assert(0 <= p <= raw.len());
    assert(r =~= raw.skip(p));
    assert(r =~= uri.skip(uri.len() - r.len()));
    assert forall|j: int| 0 <= j < r.len() implies #[trigger] r[j] != '/' by {
        assert(r[j] == raw[j + p]);
    }
}

/// Resolving an already resolved input gives it back unchanged.
pub proof fn law_resolve_idempotent(input: Seq<char>)
    ensures
        resolve_doc_input_spec(input) matches Ok(r) ==> resolve_doc_input_spec(r) == Ok::<Seq<char>, Seq<char>>(r),
{
    let t = trim(input);
    crate::text::lemma_trim_idempotent(input);
    reveal_strlit("coda://");
    reveal_strlit("coda://docs/");
    if !starts_with(t, "coda://"@) {
        if let Some(id) = parse_coda_url_spec(t) {
            let r = "coda://docs/"@ + id;
            assert(r[0] == 'c');
            assert(r.last() == id.last());
            assert(is_ascii_alnum(id[id.len() - 1]));
            crate::text::lemma_trim_fixed(r);
            assert(r.subrange(0, 7) =~= "coda://"@);
        }
    }
}

/// The id taken from the URI that a browser URL resolves to is the doc id of that URL.
pub proof fn law_uri_id_roundtrip(url: Seq<char>)
    ensures
        parse_coda_url_spec(url) matches Some(id) ==> id_from_uri_spec("coda://docs/"@ + id) == id,
{
    if let Some(id) = parse_coda_url_spec(url) {
        reveal_strlit("coda://docs/");
        reveal_strlit("canvas-");
        reveal_strlit("grid-");
        reveal_strlit("section-");
        let u = "coda://docs/"@ + id;
        assert(u[11] == '/');
        assert forall|j: int| 11 < j < u.len() implies u[j] != '/' by {
            assert(u[j] == id[j - 12]);
            assert(is_ascii_alnum(id[j - 12]));
        }
        crate::text::lemma_last_index_of(u, '/');
        assert(last_index_of(u, '/') == Some(11int));
        assert(u.skip(12) =~= id);
        assert(last_segment(u) == id);
        assert(!starts_with(id, "canvas-"@)) by {
            if id.len() >= 7 {
                assert(is_ascii_alnum(id[6]));
                assert(id.subrange(0, 7)[6] == id[6]);
            }
        }
        assert(!starts_with(id, "grid-"@)) by {
            if id.len() >= 5 {
                assert(is_ascii_alnum(id[4]));
                assert(id.subrange(0, 5)[4] == id[4]);
            }
        }
        assert(!starts_with(id, "section-"@)) by {
            if id.len() >= 8 {
                assert(is_ascii_alnum(id[7]));
                assert(id.subrange(0, 8)[7] == id[7]);
            }
        }
    }
}

pub open spec fn slug_ok_char(c: char) -> bool {
    is_ascii_alnum(c) || c == '-'
}

proof fn lemma_collapse_chars(s: Seq<char>)
    requires
        forall|j: int| 0 <= j < s.len() ==> slug_ok_char(#[trigger] s[j]),
    ensures
        forall|j: int| 0 <= j < collapse_hyphens(s).len() ==> slug_ok_char(#[trigger] collapse_hyphens(s)[j]),
        collapse_hyphens(s).len() <= s.len(),
        collapse_hyphens(s).len() == 0 ==> forall|j: int| 0 <= j < s.len() ==> s[j] == '-',
        collapse_hyphens(s).len() > 0 ==> collapse_hyphens(s)[0] != '-',
    decreases s.len(),
{
    if s.len() > 0 {
        let t = s.drop_last();
        lemma_collapse_chars(t);
        let c = collapse_hyphens(s);
        let ct = collapse_hyphens(t);
        assert forall|j: int| 0 <= j < c.len() implies slug_ok_char(#[trigger] c[j]) by {
            if j < ct.len() {
                assert(c[j] == ct[j]);
            }
        }
        if ct.len() > 0 {
            assert(c[0] == ct[0]);
        }
        if c.len() == 0 {
            assert forall|j: int| 0 <= j < s.len() implies s[j] == '-' by {
                if j < t.len() {
                    assert(s[j] == t[j]);
                }
            }
        }
    }
}

proof fn lemma_strip_trailing(s: Seq<char>)
    ensures
        strip_trailing_hyphens(s).len() <= s.len(),
        strip_trailing_hyphens(s) == s.take(strip_trailing_hyphens(s).len() as int),
        strip_trailing_hyphens(s).len() > 0 ==> strip_trailing_hyphens(s).last() != '-',
    decreases s.len(),
{
    if s.len() > 0 && s.last() == '-' {
        lemma_strip_trailing(s.drop_last());
        let r = strip_trailing_hyphens(s);
        assert(s.drop_last().take(r.len() as int) =~= s.take(r.len() as int));
    } else {
        assert(s.take(s.len() as int) =~= s);
    }
}

proof fn lemma_alnum_only(s: Seq<char>)
    ensures
        forall|j: int| 0 <= j < alnum_only(s).len() ==> is_ascii_alnum(#[trigger] alnum_only(s)[j]),
    decreases s.len(),
{
    if s.len() > 0 {
        lemma_alnum_only(s.drop_last());
        let a = alnum_only(s);
        let b = alnum_only(s.drop_last());
        assert forall|j: int| 0 <= j < a.len() implies is_ascii_alnum(#[trigger] a[j]) by {
            if j < b.len() {
                assert(a[j] == b[j]);
            }
        }
    }
}

/// Every slug is non-empty, at most 87 characters long (80 for the name, a hyphen
/// and six for the id), made of ASCII letters, digits and hyphens, and neither
/// starts nor ends with a hyphen.
pub proof fn law_slug_shape(name: Seq<char>, id: Seq<char>)
    ensures
        ({
            let r = slugify_spec(name, id);
            &&& 0 < r.len() <= 87
            &&& forall|j: int| 0 <= j < r.len() ==> slug_ok_char(#[trigger] r[j])
            &&& r[0] != '-'
            &&& r.last() != '-'
        }),
{
    let lower = lowercase(name);
    let mapped = lower.map_values(|c: char| slug_char(c));
    assert forall|j: int| 0 <= j < mapped.len() implies slug_ok_char(#[trigger] mapped[j]) by {}
    lemma_collapse_chars(mapped);
    let c = collapse_hyphens(mapped);
    lemma_strip_trailing(c);
    let t = strip_trailing_hyphens(c);
    assert(t.len() > 0 ==> t[0] == c[0]);
    lemma_strip_trailing(t.take(80));
    let t2 = if t.len() > 80 { strip_trailing_hyphens(t.take(80)) } else { t };
    if t.len() > 80 {
        assert(t2 == t.take(80).take(t2.len() as int));
        assert(t2.len() > 0 ==> t2[0] == t[0]);
    }
    assert forall|j: int| 0 <= j < t2.len() implies slug_ok_char(#[trigger] t2[j]) by {
        if t.len() > 80 {
            assert(t2[j] == t[j]);
        }
        assert(t[j] == c[j]);
    }
    let base = slug_base(lower);
    reveal_strlit("untitled");
    assert(base.len() > 0 && base.len() <= 80 && base[0] != '-' && base.last() != '-');
    assert forall|j: int| 0 <= j < base.len() implies slug_ok_char(#[trigger] base[j]) by {}
    lemma_alnum_only(id);
    let suffix = id_suffix(id);
    assert forall|j: int| 0 <= j < suffix.len() implies is_ascii_alnum(#[trigger] suffix[j]) by {
        let a = alnum_only(id);
        assert(suffix[j] == ascii_lower(a[j]));
    }
    let r = slugify_spec(name, id);
    if suffix.len() > 0 {
        assert(r.last() == suffix.last());
        assert forall|j: int| 0 <= j < r.len() implies slug_ok_char(#[trigger] r[j]) by {
            if j < base.len() {
                assert(r[j] == base[j]);
            } else if j > base.len() {
                assert(r[j] == suffix[j - base.len() - 1]);
            }
        }
    }
}

/// A character a slug may hold: a lowercase ASCII letter, a digit or a hyphen.
pub open spec fn slug_lower_char(c: char) -> bool {
    is_lower(c) || ('0' <= c && c <= '9') || c == '-'
}

/// No two hyphens stand side by side.
pub open spec fn no_double_hyphen(s: Seq<char>) -> bool {
    forall|j: int| 0 <= j && j + 1 < s.len() ==> !(#[trigger] s[j] == '-' && s[j + 1] == '-')
}

/// The form of every slug: non-empty, of lowercase letters, digits and single
/// hyphens, with no hyphen at either end.
pub open spec fn slug_form(s: Seq<char>) -> bool {
    &&& s.len() > 0
    &&& forall|j: int| 0 <= j < s.len() ==> slug_lower_char(#[trigger] s[j])
    &&& s[0] != '-'
    &&& s.last() != '-'
    &&& no_double_hyphen(s)
}

proof fn lemma_collapse_form(s: Seq<char>)
    requires
        forall|j: int| 0 <= j < s.len() ==> slug_lower_char(#[trigger] s[j]),
    ensures
        forall|j: int| 0 <= j < collapse_hyphens(s).len() ==> slug_lower_char(#[trigger] collapse_hyphens(s)[j]),
        no_double_hyphen(collapse_hyphens(s)),
        collapse_hyphens(s).len() > 0 ==> collapse_hyphens(s)[0] != '-',
        s.len() > 0 && s.last() != '-' ==> collapse_hyphens(s).len() > 0 && collapse_hyphens(s).last() == s.last(),
    decreases s.len(),
{
    if s.len() > 0 {
        let i = s.len() - 1;
        let t = s.drop_last();
        lemma_collapse_form(t);
        let c = collapse_hyphens(s);
        let ct = collapse_hyphens(t);
        let keep = s[i] != '-' || (i > 0 && s[i - 1] != '-');
        if i > 0 {
            assert(t.last() == s[i - 1]);
        }
        assert forall|j: int| 0 <= j < c.len() implies slug_lower_char(#[trigger] c[j]) by {
            if j < ct.len() {
                assert(c[j] == ct[j]);
            }
        }
        assert forall|j: int| 0 <= j && j + 1 < c.len() implies !(#[trigger] c[j] == '-' && c[j + 1] == '-') by {
            if j + 1 < ct.len() {
                assert(c[j] == ct[j] && c[j + 1] == ct[j + 1]);
            } else {
                assert(keep && c[j + 1] == s[i] && c[j] == ct.last());
            }
        }
        if ct.len() > 0 {
            assert(c[0] == ct[0]);
        }
    }
}

proof fn lemma_prefix_form(s: Seq<char>, n: int)
    requires
        0 <= n <= s.len(),
        forall|j: int| 0 <= j < s.len() ==> slug_lower_char(#[trigger] s[j]),
        no_double_hyphen(s),
        s.len() > 0 ==> s[0] != '-',
    ensures
        forall|j: int| 0 <= j < s.take(n).len() ==> slug_lower_char(#[trigger] s.take(n)[j]),
        no_double_hyphen(s.take(n)),
        n > 0 ==> s.take(n)[0] != '-',
{
    let p = s.take(n);
    assert forall|j: int| 0 <= j < p.len() implies slug_lower_char(#[trigger] p[j]) by {
        assert(p[j] == s[j]);
    }
    assert forall|j: int| 0 <= j && j + 1 < p.len() implies !(#[trigger] p[j] == '-' && p[j + 1] == '-') by {
        assert(p[j] == s[j] && p[j + 1] == s[j + 1]);
    }
}

/// The name part of a slug has the form of a slug and at most 80 characters,
/// where the lowercased name holds no capital letter.
proof fn lemma_slug_base_form(lower: Seq<char>)
    requires
        forall|i: int| 0 <= i < lower.len() ==> !is_upper(#[trigger] lower[i]),
    ensures
        slug_form(slug_base(lower)),
        slug_base(lower).len() <= 80,
{
    let mapped = lower.map_values(|c: char| slug_char(c));
    assert forall|j: int| 0 <= j < mapped.len() implies slug_lower_char(#[trigger] mapped[j]) by {
        assert(!is_upper(lower[j]));
    }
    lemma_collapse_form(mapped);
    let c = collapse_hyphens(mapped);
    lemma_strip_trailing(c);
    let t = strip_trailing_hyphens(c);
    lemma_prefix_form(c, t.len() as int);
    assert(t == c.take(t.len() as int));
    if t.len() > 80 {
        lemma_prefix_form(t, 80);
        let t80 = t.take(80);
        lemma_strip_trailing(t80);
        let t2 = strip_trailing_hyphens(t80);
        lemma_prefix_form(t80, t2.len() as int);
        assert(t2 == t80.take(t2.len() as int));
    }
    reveal_strlit("untitled");
    let u = "untitled"@;
    assert(u =~= seq!['u', 'n', 't', 'i', 't', 'l', 'e', 'd']);
}

proof fn lemma_collapse_fixed(s: Seq<char>)
    requires
        no_double_hyphen(s),
        s.len() > 0 ==> s[0] != '-',
    ensures
        collapse_hyphens(s) == s,
    decreases s.len(),
{
    if s.len() > 0 {
        let t = s.drop_last();
        assert forall|j: int| 0 <= j && j + 1 < t.len() implies !(#[trigger] t[j] == '-' && t[j + 1] == '-') by {
            assert(t[j] == s[j] && t[j + 1] == s[j + 1]);
        }
        lemma_collapse_fixed(t);
        let i = s.len() - 1;
        if s[i] == '-' && i > 0 {
            assert(!(s[i - 1] == '-' && s[i] == '-'));
        }
        assert(t.push(s[i]) =~= s);
    }
}

/// A slug's name part is its own name part: slugifying it again, lowercased
/// as ASCII text is, gives it back.
proof fn lemma_slug_base_fixed(b: Seq<char>)
    requires
        slug_form(b),
        b.len() <= 80,
    ensures
        slug_base(b.map_values(|c: char| ascii_lower(c))) == b,
{
    let low = b.map_values(|c: char| ascii_lower(c));
    assert(low =~= b);
    let mapped = low.map_values(|c: char| slug_char(c));
    assert(mapped =~= b);
    lemma_collapse_fixed(b);
    assert(strip_trailing_hyphens(b) == b);
}

proof fn lemma_slug_join(b: Seq<char>, x: Seq<char>)
    requires
        slug_form(b),
        x.len() > 0,
        forall|j: int| 0 <= j < x.len() ==> (is_lower(#[trigger] x[j]) || ('0' <= x[j] && x[j] <= '9')),
    ensures
        slug_form(b + seq!['-'] + x),
{
    let r = b + seq!['-'] + x;
    assert forall|j: int| 0 <= j < r.len() implies slug_lower_char(#[trigger] r[j]) by {
        if j < b.len() {
            assert(r[j] == b[j]);
        } else if j > b.len() {
            assert(r[j] == x[j - b.len() - 1]);
        }
    }
    assert forall|j: int| 0 <= j && j + 1 < r.len() implies !(#[trigger] r[j] == '-' && r[j + 1] == '-') by {
        if j + 1 < b.len() {
            assert(r[j] == b[j] && r[j + 1] == b[j + 1]);
        } else if j + 1 == b.len() {
            assert(r[j] == b.last());
        } else {
            assert(r[j + 1] == x[j + 1 - b.len() - 1]);
        }
    }
    assert(r[0] == b[0]);
    assert(r.last() == x.last());
}

proof fn lemma_id_suffix_chars(id: Seq<char>)
    ensures
        forall|j: int| 0 <= j < id_suffix(id).len() ==>
            (is_lower(#[trigger] id_suffix(id)[j]) || ('0' <= id_suffix(id)[j] && id_suffix(id)[j] <= '9')),
{
    lemma_alnum_only(id);
    let a = alnum_only(id);
    let t = if a.len() > 6 { a.take(6) } else { a };
    assert forall|j: int| 0 <= j < id_suffix(id).len() implies
        (is_lower(#[trigger] id_suffix(id)[j]) || ('0' <= id_suffix(id)[j] && id_suffix(id)[j] <= '9')) by {
        assert(t[j] == a[j]);
        assert(is_ascii_alnum(a[j]));
    }
}

proof fn lemma_collapse_no_double(s: Seq<char>)
    ensures
        no_double_hyphen(collapse_hyphens(s)),
        s.len() > 0 && s.last() != '-' ==> collapse_hyphens(s).len() > 0 && collapse_hyphens(s).last() == s.last(),
    decreases s.len(),
{
    if s.len() > 0 {
        let i = s.len() - 1;
        let t = s.drop_last();
        lemma_collapse_no_double(t);
        let c = collapse_hyphens(s);
        let ct = collapse_hyphens(t);
        let keep = s[i] != '-' || (i > 0 && s[i - 1] != '-');
        if i > 0 {
            assert(t.last() == s[i - 1]);
        }
        assert forall|j: int| 0 <= j && j + 1 < c.len() implies !(#[trigger] c[j] == '-' && c[j + 1] == '-') by {
            if j + 1 < ct.len() {
                assert(c[j] == ct[j] && c[j + 1] == ct[j + 1]);
            } else {
                assert(keep && c[j + 1] == s[i] && c[j] == ct.last());
            }
        }
    }
}

proof fn lemma_prefix_no_double(s: Seq<char>, n: int)
    requires
        0 <= n <= s.len(),
        no_double_hyphen(s),
    ensures
        no_double_hyphen(s.take(n)),
{
    let p = s.take(n);
    assert forall|j: int| 0 <= j && j + 1 < p.len() implies !(#[trigger] p[j] == '-' && p[j + 1] == '-') by {
        assert(p[j] == s[j] && p[j + 1] == s[j + 1]);
    }
}

/// No slug holds two hyphens side by side.
pub proof fn law_slug_single_hyphens(name: Seq<char>, id: Seq<char>)
    ensures
        no_double_hyphen(slugify_spec(name, id)),
{
    law_slug_shape(name, id);
    let lower = lowercase(name);
    let mapped = lower.map_values(|c: char| slug_char(c));
    lemma_collapse_no_double(mapped);
    let c = collapse_hyphens(mapped);
    lemma_strip_trailing(c);
    let t = strip_trailing_hyphens(c);
    lemma_prefix_no_double(c, t.len() as int);
    if t.len() > 80 {
        lemma_prefix_no_double(t, 80);
        let t80 = t.take(80);
        lemma_strip_trailing(t80);
        let t2 = strip_trailing_hyphens(t80);
        lemma_prefix_no_double(t80, t2.len() as int);
    }
    reveal_strlit("untitled");
    assert("untitled"@ =~= seq!['u', 'n', 't', 'i', 't', 'l', 'e', 'd']);
    let b = slug_base(lower);
    assert(no_double_hyphen(b));
    let x = id_suffix(id);
    if x.len() > 0 {
        lemma_alnum_only(id);
        let a = alnum_only(id);
        let r = b + seq!['-'] + x;
        assert forall|j: int| 0 <= j < x.len() implies #[trigger] x[j] != '-' by {
            assert(x[j] == ascii_lower(if a.len() > 6 { a.take(6) } else { a }[j]));
            assert(is_ascii_alnum(a[j]));
        }
        assert(b.len() > 0 && b.last() != '-');
        assert forall|j: int| 0 <= j && j + 1 < r.len() implies !(#[trigger] r[j] == '-' && r[j + 1] == '-') by {
            if j + 1 < b.len() {
                assert(r[j] == b[j] && r[j + 1] == b[j + 1]);
            } else if j + 1 == b.len() {
                assert(r[j] == b.last());
            } else {
                assert(r[j + 1] == x[j + 1 - b.len() - 1]);
            }
        }
    }
}

/// A slug's name part is its own slug: slugifying it again, with no id, gives
/// it back. The premises are the two facts `str::to_lowercase` is stated to
/// give (see `to_lowercase`): its result holds no capital letter, and ASCII
/// text lowercases as ASCII does.
pub proof fn law_slug_base_idempotent(name: Seq<char>)
    requires
        forall|i: int| 0 <= i < lowercase(name).len() ==> !is_upper(#[trigger] lowercase(name)[i]),
        crate::text::all_ascii(slugify_spec(name, ""@))
            ==> lowercase(slugify_spec(name, ""@)) == slugify_spec(name, ""@).map_values(|c: char| ascii_lower(c)),
    ensures
        slugify_spec(slugify_spec(name, ""@), ""@) == slugify_spec(name, ""@),
{
    reveal_strlit("");
    assert(alnum_only(""@) == Seq::<char>::empty());
    assert(id_suffix(""@) =~= Seq::<char>::empty());
    let b = slug_base(lowercase(name));
    assert(slugify_spec(name, ""@) == b);
    lemma_slug_base_form(lowercase(name));
    assert forall|i: int| 0 <= i < b.len() implies (#[trigger] b[i] as u32) < 0x80 by {
        assert(slug_lower_char(b[i]));
    }
    lemma_slug_base_fixed(b);
    assert(slugify_spec(b, ""@) == slug_base(lowercase(b)));
}

} // verus!
