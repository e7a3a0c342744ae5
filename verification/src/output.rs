//! What the command line prints: output formats, picked fields, table cells.
use vstd::prelude::*;
use crate::json::{Json, JsonV, obj_insert, keys_of, lookup};
use crate::text::{
    after_last, after_last_exec, chars_of, chars_eq, decimal, extend_chars, extend_str,
    lowercase, push_decimal, string_of, to_lowercase, slice_vec,
};

verus! {

/// The switches that govern output: sanitizing responses against prompt
/// injection, and suppressing informational messages.
pub struct OutputSettings {
    pub sanitize: bool,
    pub quiet: bool,
}

impl OutputSettings {
    /// Neither switch set.
    pub fn new() -> (r: OutputSettings)
        ensures
            !r.sanitize,
            !r.quiet,
    {
        OutputSettings { sanitize: false, quiet: false }
    }

    pub fn set_sanitize(&mut self, enabled: bool)
        ensures
            final(self).sanitize == enabled,
            final(self).quiet == old(self).quiet,
    {
        self.sanitize = enabled;
    }

    pub fn set_quiet(&mut self, enabled: bool)
        ensures
            final(self).quiet == enabled,
            final(self).sanitize == old(self).sanitize,
    {
        self.quiet = enabled;
    }

    pub fn should_sanitize(&self) -> (r: bool)
        ensures
            r == self.sanitize,
    {
        self.sanitize
    }

    /// Whether informational messages are printed.
    pub fn shows_info(&self) -> (r: bool)
        ensures
            r == !self.quiet,
    {
        !self.quiet
    }
}

#[derive(Debug, Clone, Copy, PartialEq, Eq, Structural)]
pub enum OutputFormat {
    Json,
    Table,
    Ndjson,
}

/// The format a name selects, case-insensitively, or the message for an unknown name.
pub open spec fn output_format_spec(s: Seq<char>) -> Result<OutputFormat, Seq<char>> {
    let l = lowercase(s);
    if l == "json"@ {
        Ok(OutputFormat::Json)
    } else if l == "table"@ {
        Ok(OutputFormat::Table)
    } else if l == "ndjson"@ {
        Ok(OutputFormat::Ndjson)
    } else {
        Err("Unknown output format: "@ + s + ". Use json, table, or ndjson."@)
    }
}

impl OutputFormat {
    pub fn from_str_opt(s: &str) -> (r: Result<OutputFormat, String>)
        ensures
            output_format_spec(s@) matches Ok(f) ==> r == Ok::<OutputFormat, String>(f),
            output_format_spec(s@) matches Err(m) ==> r matches Err(e) && e@ == m,
    {
        let lower = to_lowercase(s);
        let l = chars_of(lower.as_str());
        if chars_eq(l.as_slice(), chars_of("json").as_slice()) {
            Ok(OutputFormat::Json)
        } else if chars_eq(l.as_slice(), chars_of("table").as_slice()) {
            Ok(OutputFormat::Table)
        } else if chars_eq(l.as_slice(), chars_of("ndjson").as_slice()) {
            Ok(OutputFormat::Ndjson)
        } else {
            let mut v: Vec<char> = Vec::new();
            extend_str(&mut v, "Unknown output format: ");
            extend_str(&mut v, s);
            extend_str(&mut v, ". Use json, table, or ndjson.");
            Err(string_of(v.as_slice()))
        }
    }
}

/// Whether two of the keys are equal.
pub open spec fn has_duplicate(ks: Seq<Seq<char>>) -> bool {
    exists|i: int, j: int| 0 <= i < j < ks.len() && ks[i] == ks[j]
}

/// The entries that inserting the first `n` values under their keys gives.
pub open spec fn insert_all(ks: Seq<Seq<char>>, vs: Seq<JsonV>, n: nat) -> Seq<(Seq<char>, JsonV)>
    decreases n,
{
    if n == 0 {
        Seq::empty()
    } else {
        obj_insert(insert_all(ks, vs, (n - 1) as nat), ks[n - 1], vs[n - 1])
    }
}

/// The last segment of each path.
pub open spec fn last_segments(paths: Seq<Seq<char>>) -> Seq<Seq<char>> {
    paths.map_values(|p: Seq<char>| after_last(p, '.'))
}

/// The object of picked values: each under its path's last segment, or under its
/// full path when two last segments coincide.
pub open spec fn picked_object_spec(paths: Seq<Seq<char>>, vals: Seq<JsonV>) -> JsonV {
    let keys = last_segments(paths);
    let chosen = if has_duplicate(keys) { paths } else { keys };
    JsonV::Object(insert_all(chosen, vals, vals.len()))
}

pub open spec fn str_views(v: Seq<&str>) -> Seq<Seq<char>> {
    v.map_values(|p: &str| p@)
}

pub open spec fn ref_views(v: Seq<&Json>) -> Seq<JsonV> {
    v.map_values(|x: &Json| x@)
}

fn any_duplicate(keys: &Vec<Vec<char>>) -> (r: bool)
    ensures
        r == has_duplicate(crate::text::views(keys@)),
{
    let ghost ks = crate::text::views(keys@);
    let mut i: usize = 0;
    while i < keys.len()
        invariant
            i <= keys.len(),
            ks == crate::text::views(keys@),
            forall|a: int, b: int| 0 <= a < b < ks.len() && a < i ==> ks[a] != ks[b],
        decreases keys.len() - i,
    {
        let mut j: usize = i + 1;
        while j < keys.len()
            invariant
                i < keys.len(),
                i + 1 <= j <= keys.len(),
                ks == crate::text::views(keys@),
                forall|a: int, b: int| 0 <= a < b < ks.len() && a < i ==> ks[a] != ks[b],
                forall|b: int| i < b < j ==> ks[i as int] != ks[b],
            decreases keys.len() - j,
        {
            if chars_eq(keys[i].as_slice(), keys[j].as_slice()) {
                assert(ks[i as int] == ks[j as int]);
                return true;
            }
            j = j + 1;
        }
        i = i + 1;
    }
    false
}

/// Build a JSON object from picked paths and values.
/// Uses the last segment of each path as key (e.g., "pages.0.title" → "title").
/// When two paths have the same last segment, falls back to full dot-paths for all keys.
pub fn build_picked_object(paths: &[&str], values: &[&Json]) -> (r: Json)
    requires
        values.len() <= paths.len(),
    ensures
        r@ == picked_object_spec(str_views(paths@), ref_views(values@)),
{
    let ghost ps = str_views(paths@);
    let ghost vs = ref_views(values@);
    let mut keys: Vec<Vec<char>> = Vec::new();
    let mut i: usize = 0;
    while i < paths.len()
        invariant
            i <= paths.len(),
            ps == str_views(paths@),
            crate::text::views(keys@) == last_segments(ps).take(i as int),
        decreases paths.len() - i,
    {
        let pc = chars_of(paths[i]);
        let k = after_last_exec(pc.as_slice(), '.');
        let ghost before = keys@;
        assert(ps[i as int] == paths@[i as int]@);
        assert(k@ == last_segments(ps)[i as int]);
        keys.push(k);
        assert(crate::text::views(keys@) =~= crate::text::views(before).push(k@));
        assert(last_segments(ps).take(i + 1) =~= last_segments(ps).take(i as int).push(k@));
        i = i + 1;
    }
    assert(last_segments(ps).take(i as int) =~= last_segments(ps));
    let collision = any_duplicate(&keys);
    let ghost chosen = if collision { ps } else { last_segments(ps) };
    let mut obj = Json::empty_object();
    let mut n: usize = 0;
    while n < values.len()
        invariant
            n <= values.len(),
            values.len() <= paths.len(),
            keys.len() == paths.len(),
            ps == str_views(paths@),
            vs == ref_views(values@),
            crate::text::views(keys@) == last_segments(ps),
            chosen == (if collision { ps } else { last_segments(ps) }),
            obj@ == JsonV::Object(insert_all(chosen, vs, n as nat)),
        decreases values.len() - n,
    {
        let v = values[n].duplicate();
        if collision {
            obj.insert(paths[n], v);
        } else {
            let key = string_of(keys[n].as_slice());
            assert(key@ == chosen[n as int]);
            obj.insert(key.as_str(), v);
        }
        n = n + 1;
    }
    obj
}

/// How a value shows in a table cell: strings of more than sixty characters cut
/// to fifty-seven and an ellipsis, arrays by their length, objects elided.
pub open spec fn cell_text(v: JsonV) -> Seq<char> {
    match v {
        JsonV::Null => Seq::empty(),
        JsonV::Str(s) => if s.len() > 60 { s.take(57) + "..."@ } else { s },
        JsonV::Bool(b) => if b { "true"@ } else { "false"@ },
        JsonV::Number(n) => n,
        JsonV::Array(a) => "["@ + decimal(a.len()) + " items]"@,
        JsonV::Object(_) => "{...}"@,
    }
}

pub fn format_cell_value(val: &Json) -> (r: String)
    ensures
        r@ == cell_text(val@),
{
    match val {
        Json::Null => String::new(),
        Json::Str(s) => {
            let c = chars_of(s.as_str());
            if c.len() > 60 {
                let mut t = slice_vec(c.as_slice(), 0, 57);
                extend_str(&mut t, "...");
                assert(t@ =~= s@.take(57) + "..."@);
                string_of(t.as_slice())
            } else {
                s.clone()
            }
        },
        Json::Bool(b) => {
            if *b {
                "true".to_owned()
            } else {
                "false".to_owned()
            }
        },
        Json::Number(n) => n.clone(),
        Json::Array(a) => {
            let mut t: Vec<char> = Vec::new();
            extend_str(&mut t, "[");
            push_decimal(&mut t, a.len() as u64);
            extend_str(&mut t, " items]");
            assert(t@ =~= "["@ + decimal(val@->Array_0.len()) + " items]"@);
            string_of(t.as_slice())
        },
        Json::Object(_) => "{...}".to_owned(),
    }
}

/// How a picked value is printed: a string without quotes, anything else as
/// compact JSON.
pub open spec fn picked_text_spec(v: JsonV) -> Seq<char> {
    match v {
        JsonV::Str(s) => s,
        _ => crate::json_text::json_text(v),
    }
}

pub fn picked_text(value: &Json) -> (r: String)
    ensures
        r@ == picked_text_spec(value@),
{
    match value {
        Json::Str(s) => s.clone(),
        _ => value.to_text(),
    }
}

/// The key a picked value stands under.
pub open spec fn picked_key(paths: Seq<Seq<char>>, i: int) -> Seq<char> {
    if has_duplicate(last_segments(paths)) { paths[i] } else { last_segments(paths)[i] }
}

proof fn lemma_insert_all_distinct(ks: Seq<Seq<char>>, vs: Seq<JsonV>, n: nat)
    requires
        n <= ks.len(),
        n <= vs.len(),
        forall|i: int, j: int| 0 <= i < j < n ==> ks[i] != ks[j],
    ensures
        insert_all(ks, vs, n) == Seq::new(n, |i: int| (ks[i], vs[i])),
    decreases n,
{
    if n > 0 {
        lemma_insert_all_distinct(ks, vs, (n - 1) as nat);
        let pre = insert_all(ks, vs, (n - 1) as nat);
        assert forall|j: int| 0 <= j < keys_of(pre).len() implies keys_of(pre)[j] != ks[n - 1] by {
            assert(keys_of(pre)[j] == ks[j]);
        }
        crate::json::lemma_key_index_none(keys_of(pre), ks[n - 1]);
        assert(pre.push((ks[n - 1], vs[n - 1])) =~= Seq::new(n, |i: int| (ks[i], vs[i])));
    }
}

/// No picked value is lost: for distinct paths, the object holds one entry
/// per value, each under the key it was picked under.
pub proof fn law_pick_keeps_every_value(paths: Seq<Seq<char>>, vals: Seq<JsonV>)
    requires
        paths.len() == vals.len(),
        forall|i: int, j: int| 0 <= i < j < paths.len() ==> paths[i] != paths[j],
    ensures
        picked_object_spec(paths, vals) matches JsonV::Object(es) && es.len() == vals.len()
            && forall|i: int| 0 <= i < vals.len() ==> lookup(es, #[trigger] picked_key(paths, i)) == Some(vals[i]),
{
    let keys = last_segments(paths);
    let chosen = if has_duplicate(keys) { paths } else { keys };
    assert forall|i: int, j: int| 0 <= i < j < chosen.len() implies chosen[i] != chosen[j] by {
        if !has_duplicate(keys) {
            assert(!(keys[i] == keys[j]));
        }
    }
    lemma_insert_all_distinct(chosen, vals, vals.len());
    let es = insert_all(chosen, vals, vals.len());
    assert forall|i: int| 0 <= i < vals.len() implies lookup(es, #[trigger] picked_key(paths, i)) == Some(vals[i]) by {
        assert(picked_key(paths, i) == chosen[i]);
        assert(es[i] == (chosen[i], vals[i]));
        crate::json::lemma_lookup_at(es, chosen[i], i);
    }
}

} // verus!
