//! Redaction of prompt-injection patterns in the strings of API responses.
//!
//! A string is checked case-insensitively against a fixed list of patterns;
//! each occurrence of a pattern is replaced with `[REDACTED]`. An occurrence
//! is a run of as many characters as the pattern has, whose lowercase form is
//! the lowercase form of the pattern.
use vstd::prelude::*;
use crate::json::{Json, JsonV, entries_view, items_view, lemma_object_view, lemma_array_view};
use crate::text::{all_ascii, ascii_lower, chars_eq, chars_of, contains, contains_exec, extend_str, lowercase, slice_vec, string_of, to_lowercase};

verus! {

/// Prompt injection patterns to detect and redact in API response strings:
/// instruction overrides, tool hijacking, data exfiltration and delimiter
/// attacks.
pub open spec fn injection_patterns() -> Seq<Seq<char>> {
    seq![
        "ignore all previous"@, "ignore prior instructions"@, "ignore your instructions"@,
        "ignore above instructions"@, "disregard all previous"@, "disregard prior instructions"@,
        "forget your instructions"@, "forget all previous"@, "override your instructions"@,
        "new instructions:"@, "system prompt:"@, "you are now"@, "act as if"@, "pretend you are"@,
        "from now on you"@, "execute the following"@, "run this command"@, "call this tool"@,
        "call this function"@, "use this tool"@, "send this to"@, "forward this to"@, "email this to"@,
        "post this to"@, "</system>"@, "<|im_start|>"@, "<|im_end|>"@, "[INST]"@, "[/INST]"@,
        "<<SYS>>"@, "<</SYS>>"@,
    ]
}

fn injection_patterns_exec() -> (r: Vec<&'static str>)
    ensures
        r@.map_values(|p: &str| p@) == injection_patterns(),
{
    let r = vec![
        "ignore all previous", "ignore prior instructions", "ignore your instructions",
        "ignore above instructions", "disregard all previous", "disregard prior instructions",
        "forget your instructions", "forget all previous", "override your instructions",
        "new instructions:", "system prompt:", "you are now", "act as if", "pretend you are",
        "from now on you", "execute the following", "run this command", "call this tool",
        "call this function", "use this tool", "send this to", "forward this to", "email this to",
        "post this to", "</system>", "<|im_start|>", "<|im_end|>", "[INST]", "[/INST]",
        "<<SYS>>", "<</SYS>>",
    ];
    assert(r@.map_values(|p: &str| p@) =~= injection_patterns());
    r
}

/// The lowercase form of a run of text: ASCII text lowered as ASCII is (which
/// is what `str::to_lowercase` makes of it), any other by `str::to_lowercase`.
pub open spec fn window_lower(w: Seq<char>) -> Seq<char> {
    if all_ascii(w) { ascii_lowered(w) } else { lowercase(w) }
}

/// Whether the pattern occurs at `i` of the text, ignoring case: the
/// characters there, as many as the pattern has, lowercase to what the
/// pattern lowercases to.
pub open spec fn occurs_ci(s: Seq<char>, p: Seq<char>, i: int) -> bool {
    &&& p.len() > 0
    &&& 0 <= i
    &&& i + p.len() <= s.len()
    &&& window_lower(s.subrange(i, i + p.len())) == lowercase(p)
}

/// The ASCII lowercase of a run of characters, where all of them are ASCII.
fn ascii_lowered_exec(w: &[char]) -> (r: Option<Vec<char>>)
    ensures
        match r {
            Some(v) => all_ascii(w@) && v@ == ascii_lowered(w@),
            None => !all_ascii(w@),
        },
{
    let mut v: Vec<char> = Vec::new();
    let mut i: usize = 0;
    while i < w.len()
        invariant
            i <= w.len(),
            v@ == ascii_lowered(w@.take(i as int)),
            forall|j: int| 0 <= j < i ==> (#[trigger] w@[j] as u32) < 0x80,
        decreases w.len() - i,
    {
        if (w[i] as u32) >= 0x80 {
            return None;
        }
        v.push(crate::text::to_ascii_lower(w[i]));
        i = i + 1;
        assert(v@ =~= ascii_lowered(w@.take(i as int)));
    }
    assert(w@.take(i as int) =~= w@);
    Some(v)
}

/// The text from `i` on, with each leftmost occurrence of the pattern, taken
/// in turn and without overlap, replaced by `[REDACTED]`, and every other
/// character kept in order.
pub open spec fn redact_from(s: Seq<char>, p: Seq<char>, i: int) -> Seq<char>
    decreases s.len() - i,
{
    if !(0 <= i < s.len()) {
        Seq::empty()
    } else if occurs_ci(s, p, i) {
        "[REDACTED]"@ + redact_from(s, p, i + p.len())
    } else {
        seq![s[i]] + redact_from(s, p, i + 1)
    }
}

/// Replace all case-insensitive occurrences of a pattern with [REDACTED].
pub open spec fn redact_spec(input: Seq<char>, pattern: Seq<char>) -> Seq<char> {
    redact_from(input, pattern, 0)
}

/// Whether the pattern `p`, lowercased to `pl`, occurs at `i`.
fn occurs_ci_exec(s: &[char], p: &[char], pl: &[char], i: usize) -> (r: bool)
    requires
        i <= s.len(),
        pl@ == lowercase(p@),
    ensures
        r == occurs_ci(s@, p@, i as int),
{
    if p.len() == 0 || p.len() > s.len() - i {
        return false;
    }
    let w = slice_vec(s, i, i + p.len());
    match ascii_lowered_exec(w.as_slice()) {
        Some(wc) => chars_eq(wc.as_slice(), pl),
        None => {
            let ws = string_of(w.as_slice());
            let wl = to_lowercase(ws.as_str());
            let wc = chars_of(wl.as_str());
            chars_eq(wc.as_slice(), pl)
        },
    }
}

/// Replace all case-insensitive occurrences of a pattern with [REDACTED]. In
/// ASCII text, for a pattern that cannot be found across a `[REDACTED]` (as no
/// injection pattern can), no occurrence of the pattern is left, ignoring case.
pub fn redact_pattern(input: &str, pattern: &str) -> (r: String)
    requires
        pattern@.len() > 0,
    ensures
        r@ == redact_spec(input@, pattern@),
        all_ascii(input@) && redactable(pattern@) ==>
            all_ascii(r@) && !contains(ascii_lowered(r@), ascii_lowered(pattern@)),
{
    let s = chars_of(input);
    let p = chars_of(pattern);
    let pl_text = to_lowercase(pattern);
    let pl = chars_of(pl_text.as_str());
    let mut out: Vec<char> = Vec::new();
    let mut i: usize = 0;
    assert(out@ + redact_from(s@, p@, 0) =~= redact_from(s@, p@, 0));
    while i < s.len()
        invariant
            i <= s.len(),
            s@ == input@,
            p@ == pattern@,
            p@.len() > 0,
            pl@ == lowercase(pattern@),
            out@ + redact_from(s@, p@, i as int) == redact_from(s@, p@, 0),
        decreases s.len() - i,
    {
        let ghost before = out@;
        if occurs_ci_exec(s.as_slice(), p.as_slice(), pl.as_slice(), i) {
            extend_str(&mut out, "[REDACTED]");
            assert(before + redact_from(s@, p@, i as int)
                =~= out@ + redact_from(s@, p@, i + p@.len()));
            i = i + p.len();
        } else {
            out.push(s[i]);
            assert(before + redact_from(s@, p@, i as int)
                =~= out@ + redact_from(s@, p@, i + 1));
            i = i + 1;
        }
    }
    assert(out@ + redact_from(s@, p@, i as int) =~= out@);
    proof {
        if all_ascii(input@) && redactable(pattern@) {
            lemma_no_window(input@, pattern@, 0);
            let r = redact_from(input@, pattern@, 0);
            let plv = ascii_lowered(pattern@);
            if contains(ascii_lowered(r), plv) {
                let q = choose|q: int| crate::text::occurs_at(ascii_lowered(r), plv, q);
                assert(ascii_lowered(r).subrange(q, q + plv.len()) != plv);
            }
        }
    }
    string_of(out.as_slice())
}

/// The text after each pattern whose lowercase form the lowercase text
/// contains has been redacted, in order, and how many such patterns there were.
pub open spec fn apply_patterns(cur: Seq<char>, lower: Seq<char>, pats: Seq<Seq<char>>) -> (Seq<char>, nat)
    decreases pats.len(),
{
    if pats.len() == 0 {
        (cur, 0)
    } else {
        let (c, k) = apply_patterns(cur, lower, pats.drop_last());
        if contains(lower, lowercase(pats.last())) {
            (redact_spec(c, pats.last()), k + 1)
        } else {
            (c, k)
        }
    }
}

/// A string with the injection patterns found in its lowercase form redacted,
/// and how many patterns were found.
pub open spec fn sanitize_str(s: Seq<char>) -> (Seq<char>, nat) {
    apply_patterns(s, lowercase(s), injection_patterns())
}

/// Every string of a value sanitized, and the number of (string, pattern)
/// pairs redacted over all of them.
pub open spec fn sanitize_spec(v: JsonV) -> (JsonV, nat)
    decreases v, 0nat,
{
    match v {
        JsonV::Str(s) => (JsonV::Str(sanitize_str(s).0), sanitize_str(s).1),
        JsonV::Array(items) => (JsonV::Array(sanitize_items(items).0), sanitize_items(items).1),
        JsonV::Object(es) => (JsonV::Object(sanitize_entries(es).0), sanitize_entries(es).1),
        _ => (v, 0),
    }
}

pub open spec fn sanitize_items(items: Seq<JsonV>) -> (Seq<JsonV>, nat)
    decreases items, 1nat,
{
    if items.len() == 0 {
        (Seq::empty(), 0)
    } else {
        proof {
            assert(decreases_to!(items => items[items.len() - 1]));
            assert(decreases_to!(items => items.subrange(0, items.len() - 1)));
        }
        let (t, k) = sanitize_items(items.subrange(0, items.len() - 1));
        let (x, m) = sanitize_spec(items[items.len() - 1]);
        (t.push(x), k + m)
    }
}

pub open spec fn sanitize_entries(es: Seq<(Seq<char>, JsonV)>) -> (Seq<(Seq<char>, JsonV)>, nat)
    decreases es, 1nat,
{
    if es.len() == 0 {
        (Seq::empty(), 0)
    } else {
        proof {
            assert(decreases_to!(es => es[es.len() - 1]));
            assert(decreases_to!(es[es.len() - 1] => es[es.len() - 1].1));
            assert(decreases_to!(es => es.subrange(0, es.len() - 1)));
        }
        let (t, k) = sanitize_entries(es.subrange(0, es.len() - 1));
        let (x, m) = sanitize_spec(es[es.len() - 1].1);
        (t.push((es[es.len() - 1].0, x)), k + m)
    }
}

/// A count held in 32 bits: the count itself, or the largest such number.
pub open spec fn capped(n: nat) -> u32 {
    if n > u32::MAX { u32::MAX } else { n as u32 }
}

fn sanitize_string(s: &str) -> (r: (String, u32))
    ensures
        r.0@ == sanitize_str(s@).0,
        r.1 == capped(sanitize_str(s@).1),
        all_ascii(s@) ==> (r.0@ == s@ <==> r.1 == 0),
{
    let lower = to_lowercase(s);
    let lc = chars_of(lower.as_str());
    let pats = injection_patterns_exec();
    let ghost pv = pats@.map_values(|p: &str| p@);
    proof { lemma_patterns_nonempty(); lemma_patterns_redactable(); }
    let mut cur = s.to_owned();
    let mut k: u32 = 0;
    let mut i: usize = 0;
    assert(pv.take(0) =~= Seq::<Seq<char>>::empty());
    while i < pats.len()
        invariant
            i <= pats.len(),
            pv == pats@.map_values(|p: &str| p@),
            pv == injection_patterns(),
            lc@ == lowercase(s@),
            apply_patterns(s@, lowercase(s@), pv.take(i as int)).0 == cur@,
            k == capped(apply_patterns(s@, lowercase(s@), pv.take(i as int)).1),
            forall|j: int| 0 <= j < pv.len() ==> redactable(#[trigger] pv[j]),
            forall|j: int| 0 <= j < i ==> lowercase(#[trigger] pv[j]) == ascii_lowered(pv[j]),
        decreases pats.len() - i,
    {
        let p = pats[i];
        assert(redactable(pv[i as int]));
        assert(pv.take(i + 1).drop_last() =~= pv.take(i as int));
        assert(pv.take(i + 1).last() == p@);
        let pl = to_lowercase(p);
        let pc = chars_of(pl.as_str());
        if contains_exec(lc.as_slice(), pc.as_slice()) {
            proof {
                lemma_patterns_nonempty();
                assert(pv[i as int].len() > 0);
            }
            cur = redact_pattern(cur.as_str(), p);
            k = k.saturating_add(1);
        }
        i = i + 1;
    }
    assert(pv.take(pats.len() as int) =~= pv);
    proof {
        lemma_apply_zero(s@, lowercase(s@), pv);
        if all_ascii(s@) {
            lemma_str_changes(s@);
        }
    }
    (cur, k)
}

/// Every string of a value sanitized, and the number of patterns redacted,
/// capped at the largest 32-bit number.
#[verifier::loop_isolation(false)]
pub fn sanitized(v: &Json) -> (r: (Json, u32))
    ensures
        r.0@ == sanitize_spec(v@).0,
        r.1 == capped(sanitize_spec(v@).1),
        ascii_value(v@) ==> (r.0@ == v@ <==> r.1 == 0),
    decreases v,
{
    match v {
        Json::Str(s) => {
            let (t, k) = sanitize_string(s.as_str());
            proof { if JsonV::Str(t@) == JsonV::Str(s@) { assert(t@ == s@); } }
            (Json::Str(t), k)
        },
        Json::Array(items) => {
            proof { lemma_array_view(*items); }
            let ghost iv = items_view(items@);
            let mut out: Vec<Json> = Vec::new();
            let mut k: u32 = 0;
            let mut i: usize = 0;
            assert(iv.take(0) =~= Seq::<JsonV>::empty());
            while i < items.len()
                invariant
                    i <= items.len(),
                    iv == items_view(items@),
                    v@ == JsonV::Array(iv),
                    sanitize_items(iv.take(i as int)).0 == items_view(out@),
                    k == capped(sanitize_items(iv.take(i as int)).1),
                    ascii_items(iv.take(i as int)) ==> (sanitize_items(iv.take(i as int)).0 == iv.take(i as int)
                        <==> sanitize_items(iv.take(i as int)).1 == 0),
                decreases items.len() - i,
            {
                proof {
                    assert(decreases_to!(*v => *items));
                    assert(decreases_to!(*items => items@));
                    assert(decreases_to!(items@ => items@[i as int]));
                }
                let ghost t1 = iv.take(i + 1);
                assert(t1.subrange(0, t1.len() - 1) =~= iv.take(i as int));
                assert(t1[t1.len() - 1] == items@[i as int]@);
                let (x, m) = sanitized(&items[i]);
                proof {
                    let pre = iv.take(i as int);
                    lemma_push_eq(sanitize_items(pre).0, x@, pre, iv[i as int]);
                    assert(t1 == pre.push(iv[i as int]));
                }
                crate::json::push_item(&mut out, x);
                k = k.saturating_add(m);
                i = i + 1;
            }
            assert(iv.take(items.len() as int) =~= iv);
            (crate::json::array_of(out), k)
        },
        Json::Object(es) => {
            proof { lemma_object_view(*es); }
            let ghost ev = entries_view(es@);
            let mut out: Vec<(String, Json)> = Vec::new();
            let mut k: u32 = 0;
            let mut i: usize = 0;
            assert(ev.take(0) =~= Seq::<(Seq<char>, JsonV)>::empty());
            while i < es.len()
                invariant
                    i <= es.len(),
                    ev == entries_view(es@),
                    v@ == JsonV::Object(ev),
                    sanitize_entries(ev.take(i as int)).0 == entries_view(out@),
                    k == capped(sanitize_entries(ev.take(i as int)).1),
                    ascii_entries(ev.take(i as int)) ==> (sanitize_entries(ev.take(i as int)).0 == ev.take(i as int)
                        <==> sanitize_entries(ev.take(i as int)).1 == 0),
                decreases es.len() - i,
            {
                proof {
                    assert(decreases_to!(*v => *es));
                    assert(decreases_to!(*es => es@));
                    assert(decreases_to!(es@ => es@[i as int]));
                    assert(decreases_to!(es@[i as int] => es@[i as int].1));
                }
                let ghost t1 = ev.take(i + 1);
                assert(t1.subrange(0, t1.len() - 1) =~= ev.take(i as int));
                assert(t1[t1.len() - 1] == (es@[i as int].0@, es@[i as int].1@));
                let (x, m) = sanitized(&es[i].1);
                proof {
                    let pre = ev.take(i as int);
                    let key = es@[i as int].0@;
                    lemma_push_eq(sanitize_entries(pre).0, (key, x@), pre, ev[i as int]);
                    assert(t1 == pre.push(ev[i as int]));
                    assert(ev[i as int] == (key, es@[i as int].1@));
                }
                crate::json::push_entry(&mut out, es[i].0.as_str(), x);
                k = k.saturating_add(m);
                i = i + 1;
            }
            assert(ev.take(es.len() as int) =~= ev);
            (crate::json::object_of(out), k)
        },
        Json::Null => (Json::Null, 0),
        Json::Bool(b) => (Json::Bool(*b), 0),
        Json::Number(n) => (Json::Number(n.clone()), 0),
    }
}

proof fn lemma_push_eq<T>(a: Seq<T>, x: T, b: Seq<T>, y: T)
    ensures
        a.push(x) == b.push(y) <==> (a == b && x == y),
{
    if a.push(x) == b.push(y) {
        assert(a.push(x).len() == b.push(y).len());
        assert(a =~= a.push(x).drop_last());
        assert(b =~= b.push(y).drop_last());
        assert(a.push(x).last() == x);
    }
}

/// Sanitize all string values in a JSON value tree: detected prompt injection
/// patterns are replaced with [REDACTED]. Returns how many (string, pattern)
/// pairs were redacted, capped at the largest 32-bit number. A value whose
/// strings are ASCII comes back unchanged exactly when that count is zero.
pub fn sanitize_value(value: &mut Json) -> (r: u32)
    ensures
        final(value)@ == sanitize_spec(old(value)@).0,
        r == capped(sanitize_spec(old(value)@).1),
        ascii_value(old(value)@) ==> (final(value)@ == old(value)@ <==> r == 0),
{
    let (j, k) = sanitized(value);
    *value = j;
    k
}

proof fn lemma_patterns_nonempty()
    ensures
        forall|i: int| 0 <= i < injection_patterns().len() ==> (#[trigger] injection_patterns()[i]).len() > 0,
{
    reveal_strlit("ignore all previous");
    reveal_strlit("ignore prior instructions");
    reveal_strlit("ignore your instructions");
    reveal_strlit("ignore above instructions");
    reveal_strlit("disregard all previous");
    reveal_strlit("disregard prior instructions");
    reveal_strlit("forget your instructions");
    reveal_strlit("forget all previous");
    reveal_strlit("override your instructions");
    reveal_strlit("new instructions:");
    reveal_strlit("system prompt:");
    reveal_strlit("you are now");
    reveal_strlit("act as if");
    reveal_strlit("pretend you are");
    reveal_strlit("from now on you");
    reveal_strlit("execute the following");
    reveal_strlit("run this command");
    reveal_strlit("call this tool");
    reveal_strlit("call this function");
    reveal_strlit("use this tool");
    reveal_strlit("send this to");
    reveal_strlit("forward this to");
    reveal_strlit("email this to");
    reveal_strlit("post this to");
    reveal_strlit("</system>");
    reveal_strlit("<|im_start|>");
    reveal_strlit("<|im_end|>");
    reveal_strlit("[INST]");
    reveal_strlit("[/INST]");
    reveal_strlit("<<SYS>>");
    reveal_strlit("<</SYS>>");
}

/// The notice after a sanitized response.
pub open spec fn sanitize_notice_spec(count: nat) -> Option<Seq<char>> {
    if count == 0 {
        None
    } else {
        Some("[sanitize] Redacted "@ + crate::text::decimal(count) + " potential prompt injection pattern(s) in response."@)
    }
}

pub fn sanitize_notice(count: u32) -> (r: Option<String>)
    ensures
        match r { Some(s) => Some(s@), None => None } == sanitize_notice_spec(count as nat),
{
    if count == 0 {
        return None;
    }
    let mut v: Vec<char> = Vec::new();
    extend_str(&mut v, "[sanitize] Redacted ");
    crate::text::push_decimal(&mut v, count as u64);
    extend_str(&mut v, " potential prompt injection pattern(s) in response.");
    assert(v@ =~= "[sanitize] Redacted "@ + crate::text::decimal(count as nat) + " potential prompt injection pattern(s) in response."@);
    Some(string_of(v.as_slice()))
}

/// A text whose lowercase form holds the lowercase form of none of the
/// injection patterns.
pub open spec fn clean_text(s: Seq<char>) -> bool {
    forall|i: int| 0 <= i < injection_patterns().len()
        ==> !contains(lowercase(s), lowercase(#[trigger] injection_patterns()[i]))
}

/// A value all of whose strings are clean.
pub open spec fn clean_value(v: JsonV) -> bool
    decreases v, 0nat,
{
    match v {
        JsonV::Str(s) => clean_text(s),
        JsonV::Array(items) => clean_items(items),
        JsonV::Object(es) => clean_entries(es),
        _ => true,
    }
}

pub open spec fn clean_items(items: Seq<JsonV>) -> bool
    decreases items, 1nat,
{
    if items.len() == 0 {
        true
    } else {
        proof {
            assert(decreases_to!(items => items[items.len() - 1]));
            assert(decreases_to!(items => items.subrange(0, items.len() - 1)));
        }
        clean_items(items.subrange(0, items.len() - 1)) && clean_value(items[items.len() - 1])
    }
}

pub open spec fn clean_entries(es: Seq<(Seq<char>, JsonV)>) -> bool
    decreases es, 1nat,
{
    if es.len() == 0 {
        true
    } else {
        proof {
            assert(decreases_to!(es => es[es.len() - 1]));
            assert(decreases_to!(es[es.len() - 1] => es[es.len() - 1].1));
            assert(decreases_to!(es => es.subrange(0, es.len() - 1)));
        }
        clean_entries(es.subrange(0, es.len() - 1)) && clean_value(es[es.len() - 1].1)
    }
}

proof fn lemma_clean_patterns(s: Seq<char>, n: int)
    requires
        0 <= n <= injection_patterns().len(),
        clean_text(s),
    ensures
        apply_patterns(s, lowercase(s), injection_patterns().take(n)) == (s, 0nat),
    decreases n,
{
    if n > 0 {
        let pats = injection_patterns().take(n);
        assert(pats.drop_last() =~= injection_patterns().take(n - 1));
        assert(pats.last() == injection_patterns()[n - 1]);
        lemma_clean_patterns(s, n - 1);
    }
}

proof fn lemma_clean_value(v: JsonV)
    requires
        clean_value(v),
    ensures
        sanitize_spec(v) == (v, 0nat),
    decreases v, 0nat,
{
    match v {
        JsonV::Str(s) => {
            lemma_clean_patterns(s, injection_patterns().len() as int);
            assert(injection_patterns().take(injection_patterns().len() as int) =~= injection_patterns());
        },
        JsonV::Array(items) => {
            lemma_clean_items(items);
        },
        JsonV::Object(es) => {
            lemma_clean_entries(es);
        },
        _ => {},
    }
}

proof fn lemma_clean_items(items: Seq<JsonV>)
    requires
        clean_items(items),
    ensures
        sanitize_items(items) == (items, 0nat),
    decreases items, 1nat,
{
    if items.len() > 0 {
        assert(decreases_to!(items => items[items.len() - 1]));
        assert(decreases_to!(items => items.subrange(0, items.len() - 1)));
        lemma_clean_items(items.subrange(0, items.len() - 1));
        lemma_clean_value(items[items.len() - 1]);
        assert(items.subrange(0, items.len() - 1).push(items[items.len() - 1]) =~= items);
    }
}

proof fn lemma_clean_entries(es: Seq<(Seq<char>, JsonV)>)
    requires
        clean_entries(es),
    ensures
        sanitize_entries(es) == (es, 0nat),
    decreases es, 1nat,
{
    if es.len() > 0 {
        assert(decreases_to!(es => es[es.len() - 1]));
        assert(decreases_to!(es[es.len() - 1] => es[es.len() - 1].1));
        assert(decreases_to!(es => es.subrange(0, es.len() - 1)));
        lemma_clean_entries(es.subrange(0, es.len() - 1));
        lemma_clean_value(es[es.len() - 1].1);
        assert(es.subrange(0, es.len() - 1).push((es[es.len() - 1].0, es[es.len() - 1].1)) =~= es);
    }
}

/// Clean data is left untouched: sanitizing a value none of whose strings
/// holds an injection pattern (ignoring case) gives the value back with a
/// count of zero.
pub proof fn law_sanitize_clean(v: JsonV)
    requires
        clean_value(v),
    ensures
        sanitize_spec(v) == (v, 0nat),
{
    lemma_clean_value(v);
}

/// The shape of a value: every string emptied, everything else kept.
pub open spec fn blank(v: JsonV) -> JsonV
    decreases v, 0nat,
{
    match v {
        JsonV::Str(_) => JsonV::Str(Seq::empty()),
        JsonV::Array(items) => JsonV::Array(blank_items(items)),
        JsonV::Object(es) => JsonV::Object(blank_entries(es)),
        _ => v,
    }
}

pub open spec fn blank_items(items: Seq<JsonV>) -> Seq<JsonV>
    decreases items, 1nat,
{
    if items.len() == 0 {
        Seq::empty()
    } else {
        proof {
            assert(decreases_to!(items => items[items.len() - 1]));
            assert(decreases_to!(items => items.subrange(0, items.len() - 1)));
        }
        blank_items(items.subrange(0, items.len() - 1)).push(blank(items[items.len() - 1]))
    }
}

pub open spec fn blank_entries(es: Seq<(Seq<char>, JsonV)>) -> Seq<(Seq<char>, JsonV)>
    decreases es, 1nat,
{
    if es.len() == 0 {
        Seq::empty()
    } else {
        proof {
            assert(decreases_to!(es => es[es.len() - 1]));
            assert(decreases_to!(es[es.len() - 1] => es[es.len() - 1].1));
            assert(decreases_to!(es => es.subrange(0, es.len() - 1)));
        }
        blank_entries(es.subrange(0, es.len() - 1)).push((es[es.len() - 1].0, blank(es[es.len() - 1].1)))
    }
}

proof fn lemma_apply_zero(cur: Seq<char>, lower: Seq<char>, pats: Seq<Seq<char>>)
    ensures
        apply_patterns(cur, lower, pats).1 == 0 ==> apply_patterns(cur, lower, pats).0 == cur,
    decreases pats.len(),
{
    if pats.len() > 0 {
        lemma_apply_zero(cur, lower, pats.drop_last());
    }
}

proof fn lemma_shape_value(v: JsonV)
    ensures
        blank(sanitize_spec(v).0) == blank(v),
        sanitize_spec(v).1 == 0 ==> sanitize_spec(v).0 == v,
    decreases v, 0nat,
{
    match v {
        JsonV::Str(s) => {
            lemma_apply_zero(s, lowercase(s), injection_patterns());
        },
        JsonV::Array(items) => {
            lemma_shape_items(items);
        },
        JsonV::Object(es) => {
            lemma_shape_entries(es);
        },
        _ => {},
    }
}

proof fn lemma_shape_items(items: Seq<JsonV>)
    ensures
        blank_items(sanitize_items(items).0) == blank_items(items),
        sanitize_items(items).1 == 0 ==> sanitize_items(items).0 == items,
    decreases items, 1nat,
{
    if items.len() > 0 {
        assert(decreases_to!(items => items[items.len() - 1]));
        assert(decreases_to!(items => items.subrange(0, items.len() - 1)));
        let pre = items.subrange(0, items.len() - 1);
        let last = items[items.len() - 1];
        lemma_shape_items(pre);
        lemma_shape_value(last);
        let t = sanitize_items(pre).0;
        let x = sanitize_spec(last).0;
        assert(t.push(x).subrange(0, t.push(x).len() - 1) =~= t);
        assert(t.push(x)[t.push(x).len() - 1] == x);
        assert(pre.push(last) =~= items);
    }
}

proof fn lemma_shape_entries(es: Seq<(Seq<char>, JsonV)>)
    ensures
        blank_entries(sanitize_entries(es).0) == blank_entries(es),
        sanitize_entries(es).1 == 0 ==> sanitize_entries(es).0 == es,
    decreases es, 1nat,
{
    if es.len() > 0 {
        assert(decreases_to!(es => es[es.len() - 1]));
        assert(decreases_to!(es[es.len() - 1] => es[es.len() - 1].1));
        assert(decreases_to!(es => es.subrange(0, es.len() - 1)));
        let pre = es.subrange(0, es.len() - 1);
        let last = es[es.len() - 1];
        lemma_shape_entries(pre);
        lemma_shape_value(last.1);
        let t = sanitize_entries(pre).0;
        let e = (last.0, sanitize_spec(last.1).0);
        assert(t.push(e).subrange(0, t.push(e).len() - 1) =~= t);
        assert(t.push(e)[t.push(e).len() - 1] == e);
        assert(pre.push((last.0, last.1)) =~= es);
    }
}

/// Sanitizing keeps a value's shape: the same keys in the same order, the same
/// array lengths and the same values other than strings; and where it counts
/// nothing redacted, the value comes back unchanged.
pub proof fn law_sanitize_shape(v: JsonV)
    ensures
        blank(sanitize_spec(v).0) == blank(v),
        sanitize_spec(v).1 == 0 ==> sanitize_spec(v).0 == v,
{
    lemma_shape_value(v);
}

/// How many of the patterns the lowercase text holds, each by its lowercase form.
pub open spec fn patterns_found(lower: Seq<char>, pats: Seq<Seq<char>>) -> nat
    decreases pats.len(),
{
    if pats.len() == 0 {
        0
    } else {
        patterns_found(lower, pats.drop_last()) + if contains(lower, lowercase(pats.last())) { 1nat } else { 0nat }
    }
}

/// The (string, pattern) pairs of a value: over every string in it, at any
/// depth, how many injection patterns its lowercase form holds.
pub open spec fn pairs_found(v: JsonV) -> nat
    decreases v, 0nat,
{
    match v {
        JsonV::Str(s) => patterns_found(lowercase(s), injection_patterns()),
        JsonV::Array(items) => pairs_found_items(items),
        JsonV::Object(es) => pairs_found_entries(es),
        _ => 0,
    }
}

pub open spec fn pairs_found_items(items: Seq<JsonV>) -> nat
    decreases items, 1nat,
{
    if items.len() == 0 {
        0
    } else {
        proof {
            assert(decreases_to!(items => items[items.len() - 1]));
            assert(decreases_to!(items => items.subrange(0, items.len() - 1)));
        }
        pairs_found_items(items.subrange(0, items.len() - 1)) + pairs_found(items[items.len() - 1])
    }
}

pub open spec fn pairs_found_entries(es: Seq<(Seq<char>, JsonV)>) -> nat
    decreases es, 1nat,
{
    if es.len() == 0 {
        0
    } else {
        proof {
            assert(decreases_to!(es => es[es.len() - 1]));
            assert(decreases_to!(es[es.len() - 1] => es[es.len() - 1].1));
            assert(decreases_to!(es => es.subrange(0, es.len() - 1)));
        }
        pairs_found_entries(es.subrange(0, es.len() - 1)) + pairs_found(es[es.len() - 1].1)
    }
}

proof fn lemma_apply_count(cur: Seq<char>, lower: Seq<char>, pats: Seq<Seq<char>>)
    ensures
        apply_patterns(cur, lower, pats).1 == patterns_found(lower, pats),
    decreases pats.len(),
{
    if pats.len() > 0 {
        lemma_apply_count(cur, lower, pats.drop_last());
    }
}

proof fn lemma_count_value(v: JsonV)
    ensures
        sanitize_spec(v).1 == pairs_found(v),
    decreases v, 0nat,
{
    match v {
        JsonV::Str(s) => lemma_apply_count(s, lowercase(s), injection_patterns()),
        JsonV::Array(items) => lemma_count_items(items),
        JsonV::Object(es) => lemma_count_entries(es),
        _ => {},
    }
}

proof fn lemma_count_items(items: Seq<JsonV>)
    ensures
        sanitize_items(items).1 == pairs_found_items(items),
    decreases items, 1nat,
{
    if items.len() > 0 {
        assert(decreases_to!(items => items[items.len() - 1]));
        assert(decreases_to!(items => items.subrange(0, items.len() - 1)));
        lemma_count_items(items.subrange(0, items.len() - 1));
        lemma_count_value(items[items.len() - 1]);
    }
}

proof fn lemma_count_entries(es: Seq<(Seq<char>, JsonV)>)
    ensures
        sanitize_entries(es).1 == pairs_found_entries(es),
    decreases es, 1nat,
{
    if es.len() > 0 {
        assert(decreases_to!(es => es[es.len() - 1]));
        assert(decreases_to!(es[es.len() - 1] => es[es.len() - 1].1));
        assert(decreases_to!(es => es.subrange(0, es.len() - 1)));
        lemma_count_entries(es.subrange(0, es.len() - 1));
        lemma_count_value(es[es.len() - 1].1);
    }
}

/// The count of a sanitizing is the number of (string, pattern) pairs found:
/// over every string of the value, at any depth, each injection pattern whose
/// lowercase form the string's lowercase form holds counts once.
pub proof fn law_sanitize_count(v: JsonV)
    ensures
        sanitize_spec(v).1 == pairs_found(v),
{
    lemma_count_value(v);
}

/// A text lowercased as ASCII text is.
pub open spec fn ascii_lowered(s: Seq<char>) -> Seq<char> {
    s.map_values(|c: char| ascii_lower(c))
}

/// `[REDACTED]`, lowercased.
pub open spec fn redacted_lower() -> Seq<char> {
    seq!['[', 'r', 'e', 'd', 'a', 'c', 't', 'e', 'd', ']']
}

/// A lowercased pattern that cannot be found across a `[REDACTED]`: it holds
/// no `[` after its first character, and from no place of `[redacted]` on does
/// it agree with it as far as both go.
pub open spec fn apart_from_redacted(pl: Seq<char>) -> bool {
    &&& forall|t: int| 1 <= t < pl.len() ==> #[trigger] pl[t] != '['
    &&& forall|o: int| 0 <= o < 10 ==> #[trigger] disagrees_from(pl, o)
}

/// Whether the pattern, laid over `[redacted]` from place `o`, differs from it
/// somewhere both reach.
pub open spec fn disagrees_from(pl: Seq<char>, o: int) -> bool {
    exists|t: int| 0 <= t < pl.len() && t < 10 - o && #[trigger] pl[t] != redacted_lower()[o + t]
}

/// Whether the lowercased text holds the lowercased pattern nowhere.
pub open spec fn no_window(x: Seq<char>, pl: Seq<char>) -> bool {
    forall|q: int| 0 <= q && q + pl.len() <= x.len() ==> #[trigger] ascii_lowered(x).subrange(q, q + pl.len()) != pl
}

proof fn lemma_redacted_text()
    ensures
        "[REDACTED]"@.len() == 10,
        ascii_lowered("[REDACTED]"@) == redacted_lower(),
        all_ascii("[REDACTED]"@),
{
    reveal_strlit("[REDACTED]");
    assert(ascii_lowered("[REDACTED]"@) =~= redacted_lower());
}

/// Where the first `n` characters of the redacted text from `j` hold no `[`,
/// they are the text's own, none of them starting an occurrence.
proof fn lemma_kept_prefix(s: Seq<char>, p: Seq<char>, j: int, n: int)
    requires
        0 <= j <= s.len(),
        0 <= n <= redact_from(s, p, j).len(),
        forall|t: int| 0 <= t < n ==> #[trigger] ascii_lowered(redact_from(s, p, j))[t] != '[',
    ensures
        j + n <= s.len(),
        redact_from(s, p, j).subrange(0, n) == s.subrange(j, j + n),
    decreases n,
{
    if n > 0 {
        lemma_redacted_text();
        let out = redact_from(s, p, j);
        assert(j < s.len());
        if occurs_ci(s, p, j) {
            assert(out[0] == '[');
            assert(ascii_lowered(out)[0] == '[');
        } else {
            let rest = redact_from(s, p, j + 1);
            assert(out == seq![s[j]] + rest);
            assert forall|t: int| 0 <= t < n - 1 implies #[trigger] ascii_lowered(rest)[t] != '[' by {
                assert(ascii_lowered(rest)[t] == ascii_lowered(out)[t + 1]);
            }
            lemma_kept_prefix(s, p, j + 1, n - 1);
            assert(out.subrange(0, n) =~= seq![s[j]] + rest.subrange(0, n - 1));
            assert(s.subrange(j, j + n) =~= seq![s[j]] + s.subrange(j + 1, j + n));
        }
    }
}

/// Redacting `q` from ASCII text adds no window of a pattern `pl` apart from
/// `[REDACTED]`, where the text has no such window at any place the scan keeps.
proof fn lemma_keeps_absent(s: Seq<char>, q: Seq<char>, pl: Seq<char>, i: int)
    requires
        0 <= i,
        all_ascii(s),
        pl.len() > 0,
        apart_from_redacted(pl),
        forall|x: int| 0 <= x && x + pl.len() <= s.len() && !occurs_ci(s, q, x)
            ==> #[trigger] ascii_lowered(s).subrange(x, x + pl.len()) != pl,
    ensures
        all_ascii(redact_from(s, q, i)),
        no_window(redact_from(s, q, i), pl),
    decreases s.len() - i,
{
    let k = pl.len() as int;
    let out = redact_from(s, q, i);
    lemma_redacted_text();
    if 0 <= i < s.len() {
        if occurs_ci(s, q, i) {
            let rest = redact_from(s, q, i + q.len());
            lemma_keeps_absent(s, q, pl, i + q.len());
            let r = "[REDACTED]"@;
            assert(out == r + rest);
            assert(ascii_lowered(out) =~= redacted_lower() + ascii_lowered(rest));
            assert forall|j: int| 0 <= j < out.len() implies (#[trigger] out[j] as u32) < 0x80 by {
                if j < 10 { assert(out[j] == r[j]); } else { assert(out[j] == rest[j - 10]); }
            }
            assert forall|x: int| 0 <= x && x + k <= out.len()
                implies #[trigger] ascii_lowered(out).subrange(x, x + k) != pl by {
                let w = ascii_lowered(out).subrange(x, x + k);
                if x < 10 {
                    assert(disagrees_from(pl, x));
                    let t = choose|t: int| 0 <= t < pl.len() && t < 10 - x && #[trigger] pl[t] != redacted_lower()[x + t];
                    assert(w[t] == redacted_lower()[x + t]);
                } else {
                    assert(w =~= ascii_lowered(rest).subrange(x - 10, x - 10 + k));
                }
            }
        } else {
            let rest = redact_from(s, q, i + 1);
            lemma_keeps_absent(s, q, pl, i + 1);
            assert(out == seq![s[i]] + rest);
            assert(ascii_lowered(out) =~= seq![ascii_lower(s[i])] + ascii_lowered(rest));
            assert forall|j: int| 0 <= j < out.len() implies (#[trigger] out[j] as u32) < 0x80 by {
                if j == 0 { assert(out[j] == s[i]); } else { assert(out[j] == rest[j - 1]); }
            }
            assert forall|x: int| 0 <= x && x + k <= out.len()
                implies #[trigger] ascii_lowered(out).subrange(x, x + k) != pl by {
                let w = ascii_lowered(out).subrange(x, x + k);
                if x >= 1 {
                    assert(w =~= ascii_lowered(rest).subrange(x - 1, x - 1 + k));
                } else if w == pl {
                    assert forall|t: int| 0 <= t < k - 1 implies #[trigger] ascii_lowered(rest)[t] != '[' by {
                        assert(ascii_lowered(rest)[t] == w[t + 1]);
                        assert(pl[t + 1] != '[');
                    }
                    lemma_kept_prefix(s, q, i + 1, k - 1);
                    assert(out.subrange(0, k) =~= seq![s[i]] + rest.subrange(0, k - 1));
                    assert(s.subrange(i, i + k) =~= seq![s[i]] + s.subrange(i + 1, i + k));
                    assert(out.subrange(0, k) =~= s.subrange(i, i + k));
                    assert(ascii_lowered(out).subrange(0, k) =~= ascii_lowered(out.subrange(0, k)));
                    assert(ascii_lowered(s).subrange(i, i + k) =~= ascii_lowered(s.subrange(i, i + k)));
                    assert(ascii_lowered(s).subrange(i, i + k) =~= w);
                }
            }
        }
    } else {
        assert(out.len() == 0);
    }
}

proof fn lemma_no_window(s: Seq<char>, p: Seq<char>, i: int)
    requires
        0 <= i,
        all_ascii(s),
        all_ascii(p),
        p.len() > 0,
        lowercase(p) == ascii_lowered(p),
        apart_from_redacted(ascii_lowered(p)),
    ensures
        all_ascii(redact_from(s, p, i)),
        no_window(redact_from(s, p, i), ascii_lowered(p)),
{
    let pl = ascii_lowered(p);
    assert(lowercase(p) == pl);
    assert forall|x: int| 0 <= x && x + pl.len() <= s.len() && !occurs_ci(s, p, x)
        implies #[trigger] ascii_lowered(s).subrange(x, x + pl.len()) != pl by {
        let win = s.subrange(x, x + p.len());
        assert(all_ascii(win));
        assert(window_lower(win) == ascii_lowered(win));
        assert(ascii_lowered(win) =~= ascii_lowered(s).subrange(x, x + pl.len()));
    }
    lemma_keeps_absent(s, p, pl, i);
}

/// Whether a text holds no `[`.
pub open spec fn bracket_free(s: Seq<char>) -> bool
    decreases s.len(),
{
    s.len() == 0 || (s.last() != '[' && bracket_free(s.drop_last()))
}

/// Whether the pattern, laid over `[redacted]` from place `o`, differs from it
/// at some place from `t` on that both reach.
pub open spec fn differs_on(pl: Seq<char>, o: int, t: int) -> bool
    decreases 10 - o - t,
{
    if t < 0 || t >= pl.len() || o + t >= 10 {
        false
    } else {
        pl[t] != redacted_lower()[o + t] || differs_on(pl, o, t + 1)
    }
}

/// Whether the pattern differs from `[redacted]` laid from every place `o` on.
pub open spec fn differs_from_all(pl: Seq<char>, o: int) -> bool
    decreases 10 - o,
{
    if o < 0 || o >= 10 { true } else { differs_on(pl, o, 0) && differs_from_all(pl, o + 1) }
}

proof fn lemma_bracket_free(s: Seq<char>)
    requires
        bracket_free(s),
    ensures
        forall|t: int| 0 <= t < s.len() ==> #[trigger] s[t] != '[',
    decreases s.len(),
{
    if s.len() > 0 {
        lemma_bracket_free(s.drop_last());
        assert forall|t: int| 0 <= t < s.len() implies #[trigger] s[t] != '[' by {
            if t < s.len() - 1 {
                assert(s[t] == s.drop_last()[t]);
            }
        }
    }
}

proof fn lemma_differs_on(pl: Seq<char>, o: int, t: int)
    requires
        0 <= t,
        differs_on(pl, o, t),
    ensures
        disagrees_from(pl, o),
    decreases 10 - o - t,
{
    if pl[t] != redacted_lower()[o + t] {
        assert(0 <= t < pl.len() && t < 10 - o && pl[t] != redacted_lower()[o + t]);
    } else {
        lemma_differs_on(pl, o, t + 1);
    }
}

proof fn lemma_differs_from_all(pl: Seq<char>, o: int)
    requires
        0 <= o,
        differs_from_all(pl, o),
    ensures
        forall|x: int| o <= x < 10 ==> #[trigger] disagrees_from(pl, x),
    decreases 10 - o,
{
    if o < 10 {
        lemma_differs_on(pl, o, 0);
        lemma_differs_from_all(pl, o + 1);
    }
}

/// A pattern that passes the two checks above cannot be found across a
/// `[REDACTED]`.
proof fn lemma_apart_checked(p: Seq<char>)
    requires
        p.len() > 0,
        bracket_free(ascii_lowered(p).drop_first()),
        differs_from_all(ascii_lowered(p), 0),
    ensures
        apart_from_redacted(ascii_lowered(p)),
{
    let pl = ascii_lowered(p);
    lemma_bracket_free(pl.drop_first());
    assert forall|t: int| 1 <= t < pl.len() implies #[trigger] pl[t] != '[' by {
        assert(pl[t] == pl.drop_first()[t - 1]);
    }
    lemma_differs_from_all(pl, 0);
}

/// Whether every character of a text is ASCII, checked one by one.
pub open spec fn ascii_checked(s: Seq<char>) -> bool
    decreases s.len(),
{
    s.len() == 0 || ((s.last() as u32) < 0x80 && ascii_checked(s.drop_last()))
}

proof fn lemma_ascii_checked(s: Seq<char>)
    requires
        ascii_checked(s),
    ensures
        all_ascii(s),
    decreases s.len(),
{
    if s.len() > 0 {
        lemma_ascii_checked(s.drop_last());
        assert forall|t: int| 0 <= t < s.len() implies (#[trigger] s[t] as u32) < 0x80 by {
            if t < s.len() - 1 {
                assert(s[t] == s.drop_last()[t]);
            }
        }
    }
}

/// What the redaction law needs of a pattern: ASCII, non-empty, and apart from `[REDACTED]`.
pub open spec fn redactable(p: Seq<char>) -> bool {
    &&& p.len() > 0
    &&& all_ascii(p)
    &&& apart_from_redacted(ascii_lowered(p))
}

proof fn lemma_redactable_lit(p: Seq<char>, pl: Seq<char>)
    requires
        p.len() > 0,
        ascii_checked(p),
        ascii_lowered(p) == pl,
        bracket_free(pl.drop_first()),
        differs_from_all(pl, 0),
    ensures
        redactable(p),
{
    lemma_ascii_checked(p);
    lemma_apart_checked(p);
}

#[verifier::spinoff_prover]
#[verifier::rlimit(60)]
proof fn lemma_pattern_0()
    ensures
        redactable("ignore all previous"@),
{
    reveal_strlit("ignore all previous");
    reveal_with_fuel(ascii_checked, 30);
    reveal_with_fuel(bracket_free, 30);
    reveal_with_fuel(differs_on, 11);
    reveal_with_fuel(differs_from_all, 11);
    let p = "ignore all previous"@;
    assert(p =~= seq!['i', 'g', 'n', 'o', 'r', 'e', ' ', 'a', 'l', 'l', ' ', 'p', 'r', 'e', 'v', 'i', 'o', 'u', 's']);
    let pl = seq!['i', 'g', 'n', 'o', 'r', 'e', ' ', 'a', 'l', 'l', ' ', 'p', 'r', 'e', 'v', 'i', 'o', 'u', 's'];
    assert(ascii_lowered(p) =~= pl);
    assert(pl.drop_first() =~= seq!['g', 'n', 'o', 'r', 'e', ' ', 'a', 'l', 'l', ' ', 'p', 'r', 'e', 'v', 'i', 'o', 'u', 's']);
    lemma_redactable_lit(p, pl);
}

#[verifier::spinoff_prover]
#[verifier::rlimit(60)]
proof fn lemma_pattern_1()
    ensures
        redactable("ignore prior instructions"@),
{
    reveal_strlit("ignore prior instructions");
    reveal_with_fuel(ascii_checked, 30);
    reveal_with_fuel(bracket_free, 30);
    reveal_with_fuel(differs_on, 11);
    reveal_with_fuel(differs_from_all, 11);
    let p = "ignore prior instructions"@;
    assert(p =~= seq!['i', 'g', 'n', 'o', 'r', 'e', ' ', 'p', 'r', 'i', 'o', 'r', ' ', 'i', 'n', 's', 't', 'r', 'u', 'c', 't', 'i', 'o', 'n', 's']);
    let pl = seq!['i', 'g', 'n', 'o', 'r', 'e', ' ', 'p', 'r', 'i', 'o', 'r', ' ', 'i', 'n', 's', 't', 'r', 'u', 'c', 't', 'i', 'o', 'n', 's'];
    assert(ascii_lowered(p) =~= pl);
    assert(pl.drop_first() =~= seq!['g', 'n', 'o', 'r', 'e', ' ', 'p', 'r', 'i', 'o', 'r', ' ', 'i', 'n', 's', 't', 'r', 'u', 'c', 't', 'i', 'o', 'n', 's']);
    lemma_redactable_lit(p, pl);
}

#[verifier::spinoff_prover]
#[verifier::rlimit(60)]
proof fn lemma_pattern_2()
    ensures
        redactable("ignore your instructions"@),
{
    reveal_strlit("ignore your instructions");
    reveal_with_fuel(ascii_checked, 30);
    reveal_with_fuel(bracket_free, 30);
    reveal_with_fuel(differs_on, 11);
    reveal_with_fuel(differs_from_all, 11);
    let p = "ignore your instructions"@;
    assert(p =~= seq!['i', 'g', 'n', 'o', 'r', 'e', ' ', 'y', 'o', 'u', 'r', ' ', 'i', 'n', 's', 't', 'r', 'u', 'c', 't', 'i', 'o', 'n', 's']);
    let pl = seq!['i', 'g', 'n', 'o', 'r', 'e', ' ', 'y', 'o', 'u', 'r', ' ', 'i', 'n', 's', 't', 'r', 'u', 'c', 't', 'i', 'o', 'n', 's'];
    assert(ascii_lowered(p) =~= pl);
    assert(pl.drop_first() =~= seq!['g', 'n', 'o', 'r', 'e', ' ', 'y', 'o', 'u', 'r', ' ', 'i', 'n', 's', 't', 'r', 'u', 'c', 't', 'i', 'o', 'n', 's']);
    lemma_redactable_lit(p, pl);
}

#[verifier::spinoff_prover]
#[verifier::rlimit(60)]
proof fn lemma_pattern_3()
    ensures
        redactable("ignore above instructions"@),
{
    reveal_strlit("ignore above instructions");
    reveal_with_fuel(ascii_checked, 30);
    reveal_with_fuel(bracket_free, 30);
    reveal_with_fuel(differs_on, 11);
    reveal_with_fuel(differs_from_all, 11);
    let p = "ignore above instructions"@;
    assert(p =~= seq!['i', 'g', 'n', 'o', 'r', 'e', ' ', 'a', 'b', 'o', 'v', 'e', ' ', 'i', 'n', 's', 't', 'r', 'u', 'c', 't', 'i', 'o', 'n', 's']);
    let pl = seq!['i', 'g', 'n', 'o', 'r', 'e', ' ', 'a', 'b', 'o', 'v', 'e', ' ', 'i', 'n', 's', 't', 'r', 'u', 'c', 't', 'i', 'o', 'n', 's'];
    assert(ascii_lowered(p) =~= pl);
    assert(pl.drop_first() =~= seq!['g', 'n', 'o', 'r', 'e', ' ', 'a', 'b', 'o', 'v', 'e', ' ', 'i', 'n', 's', 't', 'r', 'u', 'c', 't', 'i', 'o', 'n', 's']);
    lemma_redactable_lit(p, pl);
}

#[verifier::spinoff_prover]
#[verifier::rlimit(60)]
proof fn lemma_pattern_4()
    ensures
        redactable("disregard all previous"@),
{
    reveal_strlit("disregard all previous");
    reveal_with_fuel(ascii_checked, 30);
    reveal_with_fuel(bracket_free, 30);
    reveal_with_fuel(differs_on, 11);
    reveal_with_fuel(differs_from_all, 11);
    let p = "disregard all previous"@;
    assert(p =~= seq!['d', 'i', 's', 'r', 'e', 'g', 'a', 'r', 'd', ' ', 'a', 'l', 'l', ' ', 'p', 'r', 'e', 'v', 'i', 'o', 'u', 's']);
    let pl = seq!['d', 'i', 's', 'r', 'e', 'g', 'a', 'r', 'd', ' ', 'a', 'l', 'l', ' ', 'p', 'r', 'e', 'v', 'i', 'o', 'u', 's'];
    assert(ascii_lowered(p) =~= pl);
    assert(pl.drop_first() =~= seq!['i', 's', 'r', 'e', 'g', 'a', 'r', 'd', ' ', 'a', 'l', 'l', ' ', 'p', 'r', 'e', 'v', 'i', 'o', 'u', 's']);
    lemma_redactable_lit(p, pl);
}

#[verifier::spinoff_prover]
#[verifier::rlimit(60)]
proof fn lemma_pattern_5()
    ensures
        redactable("disregard prior instructions"@),
{
    reveal_strlit("disregard prior instructions");
    reveal_with_fuel(ascii_checked, 30);
    reveal_with_fuel(bracket_free, 30);
    reveal_with_fuel(differs_on, 11);
    reveal_with_fuel(differs_from_all, 11);
    let p = "disregard prior instructions"@;
    assert(p =~= seq!['d', 'i', 's', 'r', 'e', 'g', 'a', 'r', 'd', ' ', 'p', 'r', 'i', 'o', 'r', ' ', 'i', 'n', 's', 't', 'r', 'u', 'c', 't', 'i', 'o', 'n', 's']);
    let pl = seq!['d', 'i', 's', 'r', 'e', 'g', 'a', 'r', 'd', ' ', 'p', 'r', 'i', 'o', 'r', ' ', 'i', 'n', 's', 't', 'r', 'u', 'c', 't', 'i', 'o', 'n', 's'];
    assert(ascii_lowered(p) =~= pl);
    assert(pl.drop_first() =~= seq!['i', 's', 'r', 'e', 'g', 'a', 'r', 'd', ' ', 'p', 'r', 'i', 'o', 'r', ' ', 'i', 'n', 's', 't', 'r', 'u', 'c', 't', 'i', 'o', 'n', 's']);
    lemma_redactable_lit(p, pl);
}

#[verifier::spinoff_prover]
#[verifier::rlimit(60)]
proof fn lemma_pattern_6()
    ensures
        redactable("forget your instructions"@),
{
    reveal_strlit("forget your instructions");
    reveal_with_fuel(ascii_checked, 30);
    reveal_with_fuel(bracket_free, 30);
    reveal_with_fuel(differs_on, 11);
    reveal_with_fuel(differs_from_all, 11);
    let p = "forget your instructions"@;
    assert(p =~= seq!['f', 'o', 'r', 'g', 'e', 't', ' ', 'y', 'o', 'u', 'r', ' ', 'i', 'n', 's', 't', 'r', 'u', 'c', 't', 'i', 'o', 'n', 's']);
    let pl = seq!['f', 'o', 'r', 'g', 'e', 't', ' ', 'y', 'o', 'u', 'r', ' ', 'i', 'n', 's', 't', 'r', 'u', 'c', 't', 'i', 'o', 'n', 's'];
    assert(ascii_lowered(p) =~= pl);
    assert(pl.drop_first() =~= seq!['o', 'r', 'g', 'e', 't', ' ', 'y', 'o', 'u', 'r', ' ', 'i', 'n', 's', 't', 'r', 'u', 'c', 't', 'i', 'o', 'n', 's']);
    lemma_redactable_lit(p, pl);
}

#[verifier::spinoff_prover]
#[verifier::rlimit(60)]
proof fn lemma_pattern_7()
    ensures
        redactable("forget all previous"@),
{
    reveal_strlit("forget all previous");
    reveal_with_fuel(ascii_checked, 30);
    reveal_with_fuel(bracket_free, 30);
    reveal_with_fuel(differs_on, 11);
    reveal_with_fuel(differs_from_all, 11);
    let p = "forget all previous"@;
    assert(p =~= seq!['f', 'o', 'r', 'g', 'e', 't', ' ', 'a', 'l', 'l', ' ', 'p', 'r', 'e', 'v', 'i', 'o', 'u', 's']);
    let pl = seq!['f', 'o', 'r', 'g', 'e', 't', ' ', 'a', 'l', 'l', ' ', 'p', 'r', 'e', 'v', 'i', 'o', 'u', 's'];
    assert(ascii_lowered(p) =~= pl);
    assert(pl.drop_first() =~= seq!['o', 'r', 'g', 'e', 't', ' ', 'a', 'l', 'l', ' ', 'p', 'r', 'e', 'v', 'i', 'o', 'u', 's']);
    lemma_redactable_lit(p, pl);
}

#[verifier::spinoff_prover]
#[verifier::rlimit(60)]
proof fn lemma_pattern_8()
    ensures
        redactable("override your instructions"@),
{
    reveal_strlit("override your instructions");
    reveal_with_fuel(ascii_checked, 30);
    reveal_with_fuel(bracket_free, 30);
    reveal_with_fuel(differs_on, 11);
    reveal_with_fuel(differs_from_all, 11);
    let p = "override your instructions"@;
    assert(p =~= seq!['o', 'v', 'e', 'r', 'r', 'i', 'd', 'e', ' ', 'y', 'o', 'u', 'r', ' ', 'i', 'n', 's', 't', 'r', 'u', 'c', 't', 'i', 'o', 'n', 's']);
    let pl = seq!['o', 'v', 'e', 'r', 'r', 'i', 'd', 'e', ' ', 'y', 'o', 'u', 'r', ' ', 'i', 'n', 's', 't', 'r', 'u', 'c', 't', 'i', 'o', 'n', 's'];
    assert(ascii_lowered(p) =~= pl);
    assert(pl.drop_first() =~= seq!['v', 'e', 'r', 'r', 'i', 'd', 'e', ' ', 'y', 'o', 'u', 'r', ' ', 'i', 'n', 's', 't', 'r', 'u', 'c', 't', 'i', 'o', 'n', 's']);
    lemma_redactable_lit(p, pl);
}

#[verifier::spinoff_prover]
#[verifier::rlimit(60)]
proof fn lemma_pattern_9()
    ensures
        redactable("new instructions:"@),
{
    reveal_strlit("new instructions:");
    reveal_with_fuel(ascii_checked, 30);
    reveal_with_fuel(bracket_free, 30);
    reveal_with_fuel(differs_on, 11);
    reveal_with_fuel(differs_from_all, 11);
    let p = "new instructions:"@;
    assert(p =~= seq!['n', 'e', 'w', ' ', 'i', 'n', 's', 't', 'r', 'u', 'c', 't', 'i', 'o', 'n', 's', ':']);
    let pl = seq!['n', 'e', 'w', ' ', 'i', 'n', 's', 't', 'r', 'u', 'c', 't', 'i', 'o', 'n', 's', ':'];
    assert(ascii_lowered(p) =~= pl);
    assert(pl.drop_first() =~= seq!['e', 'w', ' ', 'i', 'n', 's', 't', 'r', 'u', 'c', 't', 'i', 'o', 'n', 's', ':']);
    lemma_redactable_lit(p, pl);
}

#[verifier::spinoff_prover]
#[verifier::rlimit(60)]
proof fn lemma_pattern_10()
    ensures
        redactable("system prompt:"@),
{
    reveal_strlit("system prompt:");
    reveal_with_fuel(ascii_checked, 30);
    reveal_with_fuel(bracket_free, 30);
    reveal_with_fuel(differs_on, 11);
    reveal_with_fuel(differs_from_all, 11);
    let p = "system prompt:"@;
    assert(p =~= seq!['s', 'y', 's', 't', 'e', 'm', ' ', 'p', 'r', 'o', 'm', 'p', 't', ':']);
    let pl = seq!['s', 'y', 's', 't', 'e', 'm', ' ', 'p', 'r', 'o', 'm', 'p', 't', ':'];
    assert(ascii_lowered(p) =~= pl);
    assert(pl.drop_first() =~= seq!['y', 's', 't', 'e', 'm', ' ', 'p', 'r', 'o', 'm', 'p', 't', ':']);
    lemma_redactable_lit(p, pl);
}

#[verifier::spinoff_prover]
#[verifier::rlimit(60)]
proof fn lemma_pattern_11()
    ensures
        redactable("you are now"@),
{
    reveal_strlit("you are now");
    reveal_with_fuel(ascii_checked, 30);
    reveal_with_fuel(bracket_free, 30);
    reveal_with_fuel(differs_on, 11);
    reveal_with_fuel(differs_from_all, 11);
    let p = "you are now"@;
    assert(p =~= seq!['y', 'o', 'u', ' ', 'a', 'r', 'e', ' ', 'n', 'o', 'w']);
    let pl = seq!['y', 'o', 'u', ' ', 'a', 'r', 'e', ' ', 'n', 'o', 'w'];
    assert(ascii_lowered(p) =~= pl);
    assert(pl.drop_first() =~= seq!['o', 'u', ' ', 'a', 'r', 'e', ' ', 'n', 'o', 'w']);
    lemma_redactable_lit(p, pl);
}

#[verifier::spinoff_prover]
#[verifier::rlimit(60)]
proof fn lemma_pattern_12()
    ensures
        redactable("act as if"@),
{
    reveal_strlit("act as if");
    reveal_with_fuel(ascii_checked, 30);
    reveal_with_fuel(bracket_free, 30);
    reveal_with_fuel(differs_on, 11);
    reveal_with_fuel(differs_from_all, 11);
    let p = "act as if"@;
    assert(p =~= seq!['a', 'c', 't', ' ', 'a', 's', ' ', 'i', 'f']);
    let pl = seq!['a', 'c', 't', ' ', 'a', 's', ' ', 'i', 'f'];
    assert(ascii_lowered(p) =~= pl);
    assert(pl.drop_first() =~= seq!['c', 't', ' ', 'a', 's', ' ', 'i', 'f']);
    lemma_redactable_lit(p, pl);
}

#[verifier::spinoff_prover]
#[verifier::rlimit(60)]
proof fn lemma_pattern_13()
    ensures
        redactable("pretend you are"@),
{
    reveal_strlit("pretend you are");
    reveal_with_fuel(ascii_checked, 30);
    reveal_with_fuel(bracket_free, 30);
    reveal_with_fuel(differs_on, 11);
    reveal_with_fuel(differs_from_all, 11);
    let p = "pretend you are"@;
    assert(p =~= seq!['p', 'r', 'e', 't', 'e', 'n', 'd', ' ', 'y', 'o', 'u', ' ', 'a', 'r', 'e']);
    let pl = seq!['p', 'r', 'e', 't', 'e', 'n', 'd', ' ', 'y', 'o', 'u', ' ', 'a', 'r', 'e'];
    assert(ascii_lowered(p) =~= pl);
    assert(pl.drop_first() =~= seq!['r', 'e', 't', 'e', 'n', 'd', ' ', 'y', 'o', 'u', ' ', 'a', 'r', 'e']);
    lemma_redactable_lit(p, pl);
}

#[verifier::spinoff_prover]
#[verifier::rlimit(60)]
proof fn lemma_pattern_14()
    ensures
        redactable("from now on you"@),
{
    reveal_strlit("from now on you");
    reveal_with_fuel(ascii_checked, 30);
    reveal_with_fuel(bracket_free, 30);
    reveal_with_fuel(differs_on, 11);
    reveal_with_fuel(differs_from_all, 11);
    let p = "from now on you"@;
    assert(p =~= seq!['f', 'r', 'o', 'm', ' ', 'n', 'o', 'w', ' ', 'o', 'n', ' ', 'y', 'o', 'u']);
    let pl = seq!['f', 'r', 'o', 'm', ' ', 'n', 'o', 'w', ' ', 'o', 'n', ' ', 'y', 'o', 'u'];
    assert(ascii_lowered(p) =~= pl);
    assert(pl.drop_first() =~= seq!['r', 'o', 'm', ' ', 'n', 'o', 'w', ' ', 'o', 'n', ' ', 'y', 'o', 'u']);
    lemma_redactable_lit(p, pl);
}

#[verifier::spinoff_prover]
#[verifier::rlimit(60)]
proof fn lemma_pattern_15()
    ensures
        redactable("execute the following"@),
{
    reveal_strlit("execute the following");
    reveal_with_fuel(ascii_checked, 30);
    reveal_with_fuel(bracket_free, 30);
    reveal_with_fuel(differs_on, 11);
    reveal_with_fuel(differs_from_all, 11);
    let p = "execute the following"@;
    assert(p =~= seq!['e', 'x', 'e', 'c', 'u', 't', 'e', ' ', 't', 'h', 'e', ' ', 'f', 'o', 'l', 'l', 'o', 'w', 'i', 'n', 'g']);
    let pl = seq!['e', 'x', 'e', 'c', 'u', 't', 'e', ' ', 't', 'h', 'e', ' ', 'f', 'o', 'l', 'l', 'o', 'w', 'i', 'n', 'g'];
    assert(ascii_lowered(p) =~= pl);
    assert(pl.drop_first() =~= seq!['x', 'e', 'c', 'u', 't', 'e', ' ', 't', 'h', 'e', ' ', 'f', 'o', 'l', 'l', 'o', 'w', 'i', 'n', 'g']);
    lemma_redactable_lit(p, pl);
}

#[verifier::spinoff_prover]
#[verifier::rlimit(60)]
proof fn lemma_pattern_16()
    ensures
        redactable("run this command"@),
{
    reveal_strlit("run this command");
    reveal_with_fuel(ascii_checked, 30);
    reveal_with_fuel(bracket_free, 30);
    reveal_with_fuel(differs_on, 11);
    reveal_with_fuel(differs_from_all, 11);
    let p = "run this command"@;
    assert(p =~= seq!['r', 'u', 'n', ' ', 't', 'h', 'i', 's', ' ', 'c', 'o', 'm', 'm', 'a', 'n', 'd']);
    let pl = seq!['r', 'u', 'n', ' ', 't', 'h', 'i', 's', ' ', 'c', 'o', 'm', 'm', 'a', 'n', 'd'];
    assert(ascii_lowered(p) =~= pl);
    assert(pl.drop_first() =~= seq!['u', 'n', ' ', 't', 'h', 'i', 's', ' ', 'c', 'o', 'm', 'm', 'a', 'n', 'd']);
    lemma_redactable_lit(p, pl);
}

#[verifier::spinoff_prover]
#[verifier::rlimit(60)]
proof fn lemma_pattern_17()
    ensures
        redactable("call this tool"@),
{
    reveal_strlit("call this tool");
    reveal_with_fuel(ascii_checked, 30);
    reveal_with_fuel(bracket_free, 30);
    reveal_with_fuel(differs_on, 11);
    reveal_with_fuel(differs_from_all, 11);
    let p = "call this tool"@;
    assert(p =~= seq!['c', 'a', 'l', 'l', ' ', 't', 'h', 'i', 's', ' ', 't', 'o', 'o', 'l']);
    let pl = seq!['c', 'a', 'l', 'l', ' ', 't', 'h', 'i', 's', ' ', 't', 'o', 'o', 'l'];
    assert(ascii_lowered(p) =~= pl);
    assert(pl.drop_first() =~= seq!['a', 'l', 'l', ' ', 't', 'h', 'i', 's', ' ', 't', 'o', 'o', 'l']);
    lemma_redactable_lit(p, pl);
}

#[verifier::spinoff_prover]
#[verifier::rlimit(60)]
proof fn lemma_pattern_18()
    ensures
        redactable("call this function"@),
{
    reveal_strlit("call this function");
    reveal_with_fuel(ascii_checked, 30);
    reveal_with_fuel(bracket_free, 30);
    reveal_with_fuel(differs_on, 11);
    reveal_with_fuel(differs_from_all, 11);
    let p = "call this function"@;
    assert(p =~= seq!['c', 'a', 'l', 'l', ' ', 't', 'h', 'i', 's', ' ', 'f', 'u', 'n', 'c', 't', 'i', 'o', 'n']);
    let pl = seq!['c', 'a', 'l', 'l', ' ', 't', 'h', 'i', 's', ' ', 'f', 'u', 'n', 'c', 't', 'i', 'o', 'n'];
    assert(ascii_lowered(p) =~= pl);
    assert(pl.drop_first() =~= seq!['a', 'l', 'l', ' ', 't', 'h', 'i', 's', ' ', 'f', 'u', 'n', 'c', 't', 'i', 'o', 'n']);
    lemma_redactable_lit(p, pl);
}

#[verifier::spinoff_prover]
#[verifier::rlimit(60)]
proof fn lemma_pattern_19()
    ensures
        redactable("use this tool"@),
{
    reveal_strlit("use this tool");
    reveal_with_fuel(ascii_checked, 30);
    reveal_with_fuel(bracket_free, 30);
    reveal_with_fuel(differs_on, 11);
    reveal_with_fuel(differs_from_all, 11);
    let p = "use this tool"@;
    assert(p =~= seq!['u', 's', 'e', ' ', 't', 'h', 'i', 's', ' ', 't', 'o', 'o', 'l']);
    let pl = seq!['u', 's', 'e', ' ', 't', 'h', 'i', 's', ' ', 't', 'o', 'o', 'l'];
    assert(ascii_lowered(p) =~= pl);
    assert(pl.drop_first() =~= seq!['s', 'e', ' ', 't', 'h', 'i', 's', ' ', 't', 'o', 'o', 'l']);
    lemma_redactable_lit(p, pl);
}

#[verifier::spinoff_prover]
#[verifier::rlimit(60)]
proof fn lemma_pattern_20()
    ensures
        redactable("send this to"@),
{
    reveal_strlit("send this to");
    reveal_with_fuel(ascii_checked, 30);
    reveal_with_fuel(bracket_free, 30);
    reveal_with_fuel(differs_on, 11);
    reveal_with_fuel(differs_from_all, 11);
    let p = "send this to"@;
    assert(p =~= seq!['s', 'e', 'n', 'd', ' ', 't', 'h', 'i', 's', ' ', 't', 'o']);
    let pl = seq!['s', 'e', 'n', 'd', ' ', 't', 'h', 'i', 's', ' ', 't', 'o'];
    assert(ascii_lowered(p) =~= pl);
    assert(pl.drop_first() =~= seq!['e', 'n', 'd', ' ', 't', 'h', 'i', 's', ' ', 't', 'o']);
    lemma_redactable_lit(p, pl);
}

#[verifier::spinoff_prover]
#[verifier::rlimit(60)]
proof fn lemma_pattern_21()
    ensures
        redactable("forward this to"@),
{
    reveal_strlit("forward this to");
    reveal_with_fuel(ascii_checked, 30);
    reveal_with_fuel(bracket_free, 30);
    reveal_with_fuel(differs_on, 11);
    reveal_with_fuel(differs_from_all, 11);
    let p = "forward this to"@;
    assert(p =~= seq!['f', 'o', 'r', 'w', 'a', 'r', 'd', ' ', 't', 'h', 'i', 's', ' ', 't', 'o']);
    let pl = seq!['f', 'o', 'r', 'w', 'a', 'r', 'd', ' ', 't', 'h', 'i', 's', ' ', 't', 'o'];
    assert(ascii_lowered(p) =~= pl);
    assert(pl.drop_first() =~= seq!['o', 'r', 'w', 'a', 'r', 'd', ' ', 't', 'h', 'i', 's', ' ', 't', 'o']);
    lemma_redactable_lit(p, pl);
}

#[verifier::spinoff_prover]
#[verifier::rlimit(60)]
proof fn lemma_pattern_22()
    ensures
        redactable("email this to"@),
{
    reveal_strlit("email this to");
    reveal_with_fuel(ascii_checked, 30);
    reveal_with_fuel(bracket_free, 30);
    reveal_with_fuel(differs_on, 11);
    reveal_with_fuel(differs_from_all, 11);
    let p = "email this to"@;
    assert(p =~= seq!['e', 'm', 'a', 'i', 'l', ' ', 't', 'h', 'i', 's', ' ', 't', 'o']);
    let pl = seq!['e', 'm', 'a', 'i', 'l', ' ', 't', 'h', 'i', 's', ' ', 't', 'o'];
    assert(ascii_lowered(p) =~= pl);
    assert(pl.drop_first() =~= seq!['m', 'a', 'i', 'l', ' ', 't', 'h', 'i', 's', ' ', 't', 'o']);
    lemma_redactable_lit(p, pl);
}

#[verifier::spinoff_prover]
#[verifier::rlimit(60)]
proof fn lemma_pattern_23()
    ensures
        redactable("post this to"@),
{
    reveal_strlit("post this to");
    reveal_with_fuel(ascii_checked, 30);
    reveal_with_fuel(bracket_free, 30);
    reveal_with_fuel(differs_on, 11);
    reveal_with_fuel(differs_from_all, 11);
    let p = "post this to"@;
    assert(p =~= seq!['p', 'o', 's', 't', ' ', 't', 'h', 'i', 's', ' ', 't', 'o']);
    let pl = seq!['p', 'o', 's', 't', ' ', 't', 'h', 'i', 's', ' ', 't', 'o'];
    assert(ascii_lowered(p) =~= pl);
    assert(pl.drop_first() =~= seq!['o', 's', 't', ' ', 't', 'h', 'i', 's', ' ', 't', 'o']);
    lemma_redactable_lit(p, pl);
}

#[verifier::spinoff_prover]
#[verifier::rlimit(60)]
proof fn lemma_pattern_24()
    ensures
        redactable("</system>"@),
{
    reveal_strlit("</system>");
    reveal_with_fuel(ascii_checked, 30);
    reveal_with_fuel(bracket_free, 30);
    reveal_with_fuel(differs_on, 11);
    reveal_with_fuel(differs_from_all, 11);
    let p = "</system>"@;
    assert(p =~= seq!['<', '/', 's', 'y', 's', 't', 'e', 'm', '>']);
    let pl = seq!['<', '/', 's', 'y', 's', 't', 'e', 'm', '>'];
    assert(ascii_lowered(p) =~= pl);
    assert(pl.drop_first() =~= seq!['/', 's', 'y', 's', 't', 'e', 'm', '>']);
    lemma_redactable_lit(p, pl);
}

#[verifier::spinoff_prover]
#[verifier::rlimit(60)]
proof fn lemma_pattern_25()
    ensures
        redactable("<|im_start|>"@),
{
    reveal_strlit("<|im_start|>");
    reveal_with_fuel(ascii_checked, 30);
    reveal_with_fuel(bracket_free, 30);
    reveal_with_fuel(differs_on, 11);
    reveal_with_fuel(differs_from_all, 11);
    let p = "<|im_start|>"@;
    assert(p =~= seq!['<', '|', 'i', 'm', '_', 's', 't', 'a', 'r', 't', '|', '>']);
    let pl = seq!['<', '|', 'i', 'm', '_', 's', 't', 'a', 'r', 't', '|', '>'];
    assert(ascii_lowered(p) =~= pl);
    assert(pl.drop_first() =~= seq!['|', 'i', 'm', '_', 's', 't', 'a', 'r', 't', '|', '>']);
    lemma_redactable_lit(p, pl);
}

#[verifier::spinoff_prover]
#[verifier::rlimit(60)]
proof fn lemma_pattern_26()
    ensures
        redactable("<|im_end|>"@),
{
    reveal_strlit("<|im_end|>");
    reveal_with_fuel(ascii_checked, 30);
    reveal_with_fuel(bracket_free, 30);
    reveal_with_fuel(differs_on, 11);
    reveal_with_fuel(differs_from_all, 11);
    let p = "<|im_end|>"@;
    assert(p =~= seq!['<', '|', 'i', 'm', '_', 'e', 'n', 'd', '|', '>']);
    let pl = seq!['<', '|', 'i', 'm', '_', 'e', 'n', 'd', '|', '>'];
    assert(ascii_lowered(p) =~= pl);
    assert(pl.drop_first() =~= seq!['|', 'i', 'm', '_', 'e', 'n', 'd', '|', '>']);
    lemma_redactable_lit(p, pl);
}

#[verifier::spinoff_prover]
#[verifier::rlimit(60)]
proof fn lemma_pattern_27()
    ensures
        redactable("[INST]"@),
{
    reveal_strlit("[INST]");
    reveal_with_fuel(ascii_checked, 30);
    reveal_with_fuel(bracket_free, 30);
    reveal_with_fuel(differs_on, 11);
    reveal_with_fuel(differs_from_all, 11);
    let p = "[INST]"@;
    assert(p =~= seq!['[', 'I', 'N', 'S', 'T', ']']);
    let pl = seq!['[', 'i', 'n', 's', 't', ']'];
    assert(ascii_lowered(p) =~= pl);
    assert(pl.drop_first() =~= seq!['i', 'n', 's', 't', ']']);
    lemma_redactable_lit(p, pl);
}

#[verifier::spinoff_prover]
#[verifier::rlimit(60)]
proof fn lemma_pattern_28()
    ensures
        redactable("[/INST]"@),
{
    reveal_strlit("[/INST]");
    reveal_with_fuel(ascii_checked, 30);
    reveal_with_fuel(bracket_free, 30);
    reveal_with_fuel(differs_on, 11);
    reveal_with_fuel(differs_from_all, 11);
    let p = "[/INST]"@;
    assert(p =~= seq!['[', '/', 'I', 'N', 'S', 'T', ']']);
    let pl = seq!['[', '/', 'i', 'n', 's', 't', ']'];
    assert(ascii_lowered(p) =~= pl);
    assert(pl.drop_first() =~= seq!['/', 'i', 'n', 's', 't', ']']);
    lemma_redactable_lit(p, pl);
}

#[verifier::spinoff_prover]
#[verifier::rlimit(60)]
proof fn lemma_pattern_29()
    ensures
        redactable("<<SYS>>"@),
{
    reveal_strlit("<<SYS>>");
    reveal_with_fuel(ascii_checked, 30);
    reveal_with_fuel(bracket_free, 30);
    reveal_with_fuel(differs_on, 11);
    reveal_with_fuel(differs_from_all, 11);
    let p = "<<SYS>>"@;
    assert(p =~= seq!['<', '<', 'S', 'Y', 'S', '>', '>']);
    let pl = seq!['<', '<', 's', 'y', 's', '>', '>'];
    assert(ascii_lowered(p) =~= pl);
    assert(pl.drop_first() =~= seq!['<', 's', 'y', 's', '>', '>']);
    lemma_redactable_lit(p, pl);
}

#[verifier::spinoff_prover]
#[verifier::rlimit(60)]
proof fn lemma_pattern_30()
    ensures
        redactable("<</SYS>>"@),
{
    reveal_strlit("<</SYS>>");
    reveal_with_fuel(ascii_checked, 30);
    reveal_with_fuel(bracket_free, 30);
    reveal_with_fuel(differs_on, 11);
    reveal_with_fuel(differs_from_all, 11);
    let p = "<</SYS>>"@;
    assert(p =~= seq!['<', '<', '/', 'S', 'Y', 'S', '>', '>']);
    let pl = seq!['<', '<', '/', 's', 'y', 's', '>', '>'];
    assert(ascii_lowered(p) =~= pl);
    assert(pl.drop_first() =~= seq!['<', '/', 's', 'y', 's', '>', '>']);
    lemma_redactable_lit(p, pl);
}

/// Every injection pattern is ASCII and cannot be found across a `[REDACTED]`.
proof fn lemma_patterns_redactable()
    ensures
        forall|i: int| 0 <= i < injection_patterns().len() ==> redactable(#[trigger] injection_patterns()[i]),
{
    lemma_pattern_0();
    lemma_pattern_1();
    lemma_pattern_2();
    lemma_pattern_3();
    lemma_pattern_4();
    lemma_pattern_5();
    lemma_pattern_6();
    lemma_pattern_7();
    lemma_pattern_8();
    lemma_pattern_9();
    lemma_pattern_10();
    lemma_pattern_11();
    lemma_pattern_12();
    lemma_pattern_13();
    lemma_pattern_14();
    lemma_pattern_15();
    lemma_pattern_16();
    lemma_pattern_17();
    lemma_pattern_18();
    lemma_pattern_19();
    lemma_pattern_20();
    lemma_pattern_21();
    lemma_pattern_22();
    lemma_pattern_23();
    lemma_pattern_24();
    lemma_pattern_25();
    lemma_pattern_26();
    lemma_pattern_27();
    lemma_pattern_28();
    lemma_pattern_29();
    lemma_pattern_30();
    let ps = injection_patterns();
    assert forall|i: int| 0 <= i < ps.len() implies redactable(#[trigger] ps[i]) by {
        if i == 0 { assert(ps[i] == "ignore all previous"@); } else if i == 1 { assert(ps[i] == "ignore prior instructions"@); } else if i == 2 { assert(ps[i] == "ignore your instructions"@); } else if i == 3 { assert(ps[i] == "ignore above instructions"@); } else if i == 4 { assert(ps[i] == "disregard all previous"@); } else if i == 5 { assert(ps[i] == "disregard prior instructions"@); } else if i == 6 { assert(ps[i] == "forget your instructions"@); } else if i == 7 { assert(ps[i] == "forget all previous"@); } else if i == 8 { assert(ps[i] == "override your instructions"@); } else if i == 9 { assert(ps[i] == "new instructions:"@); } else if i == 10 { assert(ps[i] == "system prompt:"@); } else if i == 11 { assert(ps[i] == "you are now"@); } else if i == 12 { assert(ps[i] == "act as if"@); } else if i == 13 { assert(ps[i] == "pretend you are"@); } else if i == 14 { assert(ps[i] == "from now on you"@); } else if i == 15 { assert(ps[i] == "execute the following"@); } else if i == 16 { assert(ps[i] == "run this command"@); } else if i == 17 { assert(ps[i] == "call this tool"@); } else if i == 18 { assert(ps[i] == "call this function"@); } else if i == 19 { assert(ps[i] == "use this tool"@); } else if i == 20 { assert(ps[i] == "send this to"@); } else if i == 21 { assert(ps[i] == "forward this to"@); } else if i == 22 { assert(ps[i] == "email this to"@); } else if i == 23 { assert(ps[i] == "post this to"@); } else if i == 24 { assert(ps[i] == "</system>"@); } else if i == 25 { assert(ps[i] == "<|im_start|>"@); } else if i == 26 { assert(ps[i] == "<|im_end|>"@); } else if i == 27 { assert(ps[i] == "[INST]"@); } else if i == 28 { assert(ps[i] == "[/INST]"@); } else if i == 29 { assert(ps[i] == "<<SYS>>"@); } else if i == 30 { assert(ps[i] == "<</SYS>>"@); } else { }
    }
}

proof fn lemma_apply_found(s0: Seq<char>, pats: Seq<Seq<char>>)
    requires
        all_ascii(s0),
        forall|i: int| 0 <= i < pats.len() ==> redactable(#[trigger] pats[i]),
        forall|i: int| 0 <= i < pats.len() ==> lowercase(#[trigger] pats[i]) == ascii_lowered(pats[i]),
    ensures
        all_ascii(apply_patterns(s0, lowercase(s0), pats).0),
        apply_patterns(s0, lowercase(s0), pats).1 > 0 ==> exists|j: int| 0 <= j < pats.len()
            && contains(lowercase(s0), lowercase(#[trigger] pats[j]))
            && no_window(apply_patterns(s0, lowercase(s0), pats).0, ascii_lowered(pats[j])),
    decreases pats.len(),
{
    if pats.len() > 0 {
        let pre = pats.drop_last();
        assert forall|i: int| 0 <= i < pre.len() implies redactable(#[trigger] pre[i]) by {
            assert(pre[i] == pats[i]);
        }
        assert forall|i: int| 0 <= i < pre.len() implies lowercase(#[trigger] pre[i]) == ascii_lowered(pre[i]) by {
            assert(pre[i] == pats[i]);
        }
        lemma_apply_found(s0, pre);
        assert(lowercase(pats[pats.len() - 1]) == ascii_lowered(pats[pats.len() - 1]));
        lemma_apply_zero(s0, lowercase(s0), pre);
        let (c, k) = apply_patterns(s0, lowercase(s0), pre);
        let last = pats.last();
        assert(redactable(pats[pats.len() - 1]));
        if contains(lowercase(s0), lowercase(last)) {
            if k > 0 {
                let j = choose|j: int| 0 <= j < pre.len()
                    && contains(lowercase(s0), lowercase(#[trigger] pre[j]))
                    && no_window(c, ascii_lowered(pre[j]));
                assert(pre[j] == pats[j]);
                let pl = ascii_lowered(pats[j]);
                assert(redactable(pats[j]));
                lemma_keeps_absent(c, last, pl, 0);
            } else {
                lemma_no_window(s0, last, 0);
                let j = pats.len() - 1;
                assert(contains(lowercase(s0), lowercase(pats[j])));
            }
        } else {
            if k > 0 {
                let j = choose|j: int| 0 <= j < pre.len()
                    && contains(lowercase(s0), lowercase(#[trigger] pre[j]))
                    && no_window(c, ascii_lowered(pre[j]));
                assert(pre[j] == pats[j]);
            }
        }
    }
}

proof fn lemma_str_changes(s0: Seq<char>)
    requires
        all_ascii(s0),
        lowercase(s0) == ascii_lowered(s0),
        forall|i: int| 0 <= i < injection_patterns().len() ==>
            lowercase(#[trigger] injection_patterns()[i]) == ascii_lowered(injection_patterns()[i]),
    ensures
        sanitize_str(s0).1 > 0 ==> sanitize_str(s0).0 != s0,
{
    let pats = injection_patterns();
    lemma_patterns_redactable();
    lemma_apply_found(s0, pats);
    if sanitize_str(s0).1 > 0 {
        let j = choose|j: int| 0 <= j < pats.len()
            && contains(lowercase(s0), lowercase(#[trigger] pats[j]))
            && no_window(sanitize_str(s0).0, ascii_lowered(pats[j]));
        let pl = ascii_lowered(pats[j]);
        assert(redactable(pats[j]));
        assert(lowercase(s0) == ascii_lowered(s0));
        assert(lowercase(pats[j]) == pl);
        let x = choose|x: int| crate::text::occurs_at(ascii_lowered(s0), pl, x);
        assert(ascii_lowered(s0).subrange(x, x + pl.len()) == pl);
        if sanitize_str(s0).0 == s0 {
            assert(ascii_lowered(s0).subrange(x, x + pl.len()) != pl);
        }
    }
}

/// Whether every string of a value, at any depth, is ASCII.
pub open spec fn ascii_value(v: JsonV) -> bool
    decreases v, 0nat,
{
    match v {
        JsonV::Str(s) => all_ascii(s),
        JsonV::Array(items) => ascii_items(items),
        JsonV::Object(es) => ascii_entries(es),
        _ => true,
    }
}

pub open spec fn ascii_items(items: Seq<JsonV>) -> bool
    decreases items, 1nat,
{
    if items.len() == 0 {
        true
    } else {
        proof {
            assert(decreases_to!(items => items[items.len() - 1]));
            assert(decreases_to!(items => items.subrange(0, items.len() - 1)));
        }
        ascii_items(items.subrange(0, items.len() - 1)) && ascii_value(items[items.len() - 1])
    }
}

pub open spec fn ascii_entries(es: Seq<(Seq<char>, JsonV)>) -> bool
    decreases es, 1nat,
{
    if es.len() == 0 {
        true
    } else {
        proof {
            assert(decreases_to!(es => es[es.len() - 1]));
            assert(decreases_to!(es[es.len() - 1] => es[es.len() - 1].1));
            assert(decreases_to!(es => es.subrange(0, es.len() - 1)));
        }
        ascii_entries(es.subrange(0, es.len() - 1)) && ascii_value(es[es.len() - 1].1)
    }
}

} // verus!
