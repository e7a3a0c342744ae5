//! Discovery of the tools the Coda endpoint offers: the one-line listing, the
//! filter, and the compact, agent-friendly view of one tool's schema.
use vstd::prelude::*;
use crate::client::strings_in;
use crate::json::{Json, JsonV, items_view, lookup, keys_of, lemma_lookup_decreases, lemma_at_decreases, lemma_object_view, entries_view};
use crate::text::{
    chars_of, contains, contains_exec, decimal, ends_with, ends_with_exec, extend_str, extend_chars, join, join_strings,
    lowercase, slice_vec, starts_with, starts_with_exec, string_of, string_views, to_lowercase, str_contains,
    str_starts_with,
};
use crate::json::str_eq;

verus! {

/// A more descriptive type label read from a field's description: `uri` for
/// URIs and URLs, `id` for identifiers, when the description says so.
pub open spec fn infer_semantic_spec(desc: Seq<char>) -> Option<Seq<char>> {
    let l = lowercase(desc);
    if contains(l, "uri"@) || starts_with(l, "url"@) {
        Some("uri"@)
    } else if contains(l, " id "@) || contains(l, " ids "@) || contains(l, " id("@) || ends_with(l, " id"@)
        || ends_with(l, " ids"@) || starts_with(l, "id "@) || starts_with(l, "ids "@) {
        Some("id"@)
    } else {
        None
    }
}

/// Infer a more descriptive type label from a field's description.
/// Returns None if no strong semantic signal is found.
pub fn infer_semantic_type(desc: &str) -> (r: Option<String>)
    ensures
        match r { Some(s) => Some(s@), None => None } == infer_semantic_spec(desc@),
{
    let lower = to_lowercase(desc);
    let l = lower.as_str();
    if str_contains(l, "uri") || str_starts_with(l, "url") {
        return Some("uri".to_owned());
    }
    if str_contains(l, " id ") || str_contains(l, " ids ") || str_contains(l, " id(")
        || crate::text::str_ends_with(l, " id") || crate::text::str_ends_with(l, " ids")
        || str_starts_with(l, "id ") || str_starts_with(l, "ids ") {
        return Some("id".to_owned());
    }
    None
}

/// The union a property offers: its `anyOf`, else its `oneOf`.
pub open spec fn union_of(prop: JsonV) -> Option<JsonV> {
    match prop.get("anyOf"@) {
        Some(x) => Some(x),
        None => prop.get("oneOf"@),
    }
}

/// The hint a property's description gives.
pub open spec fn hint_of(prop: JsonV) -> Option<Seq<char>> {
    match prop.get_str("description"@) {
        Some(d) => infer_semantic_spec(d),
        None => None,
    }
}

/// The short types of the first `n` variants.
pub open spec fn compact_types(vs: Seq<JsonV>, n: nat) -> Seq<Seq<char>>
    decreases JsonV::Array(vs), n,
{
    if n == 0 || n > vs.len() {
        Seq::empty()
    } else {
        proof { lemma_at_decreases(vs, n - 1); }
        compact_types(vs, (n - 1) as nat).push(compact_type_spec(vs[n - 1]))
    }
}

/// The strings among the first `n` values.
pub open spec fn first_strings(vals: Seq<JsonV>, n: int) -> Seq<Seq<char>> {
    strings_in(if vals.len() <= n { vals } else { vals.take(n) })
}

/// A JSON Schema property summarized as a short type: a union as its first four
/// variants, a constant quoted, an enumeration as its first five values, an
/// array by its items, an object by its first four required keys, a string by
/// its semantic hint where there is one.
pub open spec fn compact_type_spec(prop: JsonV) -> Seq<char>
    decreases prop, 1nat,
{
    let hint = hint_of(prop);
    let union = match union_of(prop) {
        Some(u) => u.as_array(),
        None => None,
    };
    match union {
        Some(vs) => {
            let n: int = if vs.len() <= 4 { vs.len() as int } else { 4 };
            proof {
                match prop.get("anyOf"@) {
                    Some(x) => {
                        lemma_lookup_decreases(prop->Object_0, "anyOf"@);
                    },
                    None => {
                        lemma_lookup_decreases(prop->Object_0, "oneOf"@);
                    },
                }
            }
            let ts = compact_types(vs, n as nat);
            let joined = join(ts, "|"@);
            if vs.len() > 4 { joined + "|..."@ } else { joined }
        },
        None => match prop.get_str("const"@) {
            Some(c) => "\""@ + c + "\""@,
            None => match prop.get_array("enum"@) {
                Some(vals) => {
                    let strs = first_strings(vals, 5);
                    if vals.len() > 5 {
                        "enum("@ + join(strs, "|"@) + "|...)"@
                    } else {
                        "enum("@ + join(strs, "|"@) + ")"@
                    }
                },
                None => match prop.get_str("type"@) {
                    Some(t) => {
                        if t == "array"@ {
                            let items = match prop.get("items"@) {
                                Some(i) => {
                                    proof { lemma_lookup_decreases(prop->Object_0, "items"@); }
                                    compact_type_spec(i)
                                },
                                None => "any"@,
                            };
                            if items == "string"@ && hint is Some {
                                "["@ + hint->0 + "]"@
                            } else {
                                "["@ + items + "]"@
                            }
                        } else if t == "object"@ {
                            match prop.get_array("required"@) {
                                Some(r) => "{"@ + join(first_strings(r, 4), ", "@) + "}"@,
                                None => "object"@,
                            }
                        } else if t == "string"@ {
                            match hint {
                                Some(h) => h,
                                None => "string"@,
                            }
                        } else {
                            t
                        }
                    },
                    None => "any"@,
                },
            },
        },
    }
}

fn first_strings_exec(vals: &Vec<Json>, n: usize) -> (r: Vec<String>)
    ensures
        string_views(r@) == first_strings(items_view(vals@), n as int),
{
    let m = if vals.len() <= n { vals.len() } else { n };
    let ghost vv = items_view(vals@);
    let ghost src = if vv.len() <= n { vv } else { vv.take(n as int) };
    assert(src =~= vv.take(m as int));
    let mut out: Vec<String> = Vec::new();
    let mut i: usize = 0;
    assert(src.take(0) =~= Seq::<JsonV>::empty());
    assert(string_views(out@) =~= Seq::<Seq<char>>::empty());
    while i < m
        invariant
            i <= m,
            m <= vals.len(),
            vv == items_view(vals@),
            src == vv.take(m as int),
            string_views(out@) == strings_in(src.take(i as int)),
        decreases m - i,
    {
        assert(src.take(i + 1).drop_last() =~= src.take(i as int));
        assert(src.take(i + 1).last() == vals@[i as int]@);
        match vals[i].as_str() {
            Some(s) => {
                let ghost before = out@;
                out.push(s.to_owned());
                assert(string_views(out@) =~= string_views(before).push(s@));
            },
            None => {},
        }
        i = i + 1;
    }
    assert(src.take(i as int) =~= src);
    out
}


fn wrap(a: &str, b: &str, c: &str) -> (r: String)
    ensures
        r@ == a@ + b@ + c@,
{
    let mut v: Vec<char> = Vec::new();
    extend_str(&mut v, a);
    extend_str(&mut v, b);
    extend_str(&mut v, c);
    assert(v@ =~= a@ + b@ + c@);
    string_of(v.as_slice())
}

/// Summarize a JSON Schema property into a short type string.
pub fn compact_type(prop: &Json) -> (r: String)
    ensures
        r@ == compact_type_spec(prop@),
    decreases prop@,
{
    let hint = match prop.get_str("description") {
        Some(d) => infer_semantic_type(d),
        None => None,
    };
    let ghost hv = hint_of(prop@);
    assert(match hint { Some(s) => Some(s@), None => None } == hv);
    let union = match prop.get("anyOf") {
        Some(x) => Some(x),
        None => prop.get("oneOf"),
    };
    let variants = match union {
        Some(u) => u.as_array(),
        None => None,
    };
    match variants {
        Some(vs) => {
            let ghost vv = items_view(vs@);
            let n: usize = if vs.len() <= 4 { vs.len() } else { 4 };
            let mut types: Vec<String> = Vec::new();
            let mut i: usize = 0;
            assert(string_views(types@) =~= Seq::<Seq<char>>::empty());
            proof {
                match prop@.get("anyOf"@) {
                    Some(x) => { lemma_lookup_decreases(prop@->Object_0, "anyOf"@); },
                    None => { lemma_lookup_decreases(prop@->Object_0, "oneOf"@); },
                }
            }
            while i < n
                invariant
                    i <= n,
                    n <= vs.len(),
                    n == (if vv.len() <= 4 { vv.len() as int } else { 4 }),
                    vv == items_view(vs@),
                    decreases_to!(prop@ => JsonV::Array(vv)),
                    string_views(types@) == compact_types(vv, i as nat),
                decreases n - i,
            {
                proof { lemma_at_decreases(vv, i as int); }
                let t = compact_type(&vs[i]);
                let ghost before = types@;
                types.push(t);
                assert(string_views(types@) =~= string_views(before).push(t@));
                i = i + 1;
            }
            let joined = join_strings(&types, "|");
            let r = if vs.len() > 4 { wrap(joined.as_str(), "|...", "") } else { joined };
            proof {
                reveal_strlit("");
                if vs.len() > 4 {
                    assert(r@ =~= join(compact_types(vv, n as nat), "|"@) + "|..."@);
                }
            }
            r
        },
        None => {
            match prop.get_str("const") {
                Some(c) => wrap("\"", c, "\""),
                None => match prop.get_array("enum") {
                    Some(vals) => {
                        let strs = first_strings_exec(vals, 5);
                        let j = join_strings(&strs, "|");
                        if vals.len() > 5 {
                            wrap("enum(", j.as_str(), "|...)")
                        } else {
                            wrap("enum(", j.as_str(), ")")
                        }
                    },
                    None => match prop.get_str("type") {
                        Some(t) => {
                            if str_eq(t, "array") {
                                let items = match prop.get("items") {
                                    Some(i) => {
                                        proof { lemma_lookup_decreases(prop@->Object_0, "items"@); }
                                        compact_type(i)
                                    },
                                    None => "any".to_owned(),
                                };
                                if str_eq(items.as_str(), "string") && hint.is_some() {
                                    match hint {
                                        Some(h) => wrap("[", h.as_str(), "]"),
                                        None => wrap("[", items.as_str(), "]"),
                                    }
                                } else {
                                    wrap("[", items.as_str(), "]")
                                }
                            } else if str_eq(t, "object") {
                                match prop.get_array("required") {
                                    Some(r) => {
                                        let keys = first_strings_exec(r, 4);
                                        let j = join_strings(&keys, ", ");
                                        wrap("{", j.as_str(), "}")
                                    },
                                    None => "object".to_owned(),
                                }
                            } else if str_eq(t, "string") {
                                match hint {
                                    Some(h) => h,
                                    None => "string".to_owned(),
                                }
                            } else {
                                t.to_owned()
                            }
                        },
                        None => "any".to_owned(),
                    },
                },
            }
        },
    }
}

/// A text cut to `keep` characters and an ellipsis when longer than `max`.
pub open spec fn short_text(s: Seq<char>, max: nat, keep: nat) -> Seq<char> {
    if s.len() > max { s.take(keep as int) + "..."@ } else { s }
}

fn short_text_exec(s: &str, max: usize, keep: usize) -> (r: String)
    requires
        keep <= max,
    ensures
        r@ == short_text(s@, max as nat, keep as nat),
{
    let c = chars_of(s);
    if c.len() > max {
        let mut t = slice_vec(c.as_slice(), 0, keep);
        extend_str(&mut t, "...");
        assert(t@ =~= s@.take(keep as int) + "..."@);
        string_of(t.as_slice())
    } else {
        s.to_owned()
    }
}

/// The topic of the usage guide a tool belongs to, by its name.
pub open spec fn topic_of(name: Seq<char>) -> Seq<char> {
    if starts_with(name, "table"@) || starts_with(name, "view"@) {
        "table"@
    } else if starts_with(name, "page"@) {
        "page"@
    } else if starts_with(name, "content"@) {
        "content"@
    } else if starts_with(name, "formula"@) {
        "formula"@
    } else if starts_with(name, "comment"@) {
        "comment"@
    } else {
        "document"@
    }
}

/// A required field's line: its type, and its description cut to sixty
/// characters, where the schema describes it.
pub open spec fn required_line(field: Seq<char>, props: Seq<(Seq<char>, JsonV)>) -> Seq<char> {
    match lookup(props, field) {
        Some(prop) => {
            let t = compact_type_spec(prop);
            let d = short_text(match prop.get_str("description"@) { Some(x) => x, None => Seq::empty() }, 60, 57);
            if d.len() == 0 {
                "    "@ + field + ": "@ + t
            } else {
                "    "@ + field + ": "@ + t + " — "@ + d
            }
        },
        None => "    "@ + field,
    }
}

/// The optional fields: the properties that are not required, each with its type.
pub open spec fn optional_fields(keys: Seq<Seq<char>>, props: Seq<(Seq<char>, JsonV)>, required: Seq<Seq<char>>) -> Seq<Seq<char>>
    decreases keys.len(),
{
    if keys.len() == 0 {
        Seq::empty()
    } else {
        let rest = optional_fields(keys.drop_last(), props, required);
        let k = keys.last();
        if required.contains(k) {
            rest
        } else {
            rest.push(k + "("@ + match lookup(props, k) { Some(p) => compact_type_spec(p), None => Seq::empty() } + ")"@)
        }
    }
}

/// The lines of the compact view of a tool's schema.
pub open spec fn compact_schema_spec(tool: JsonV) -> Seq<Seq<char>> {
    let name = match tool.get_str("name"@) { Some(n) => n, None => "?"@ };
    let desc = match tool.get_str("description"@) { Some(d) => d, None => Seq::empty() };
    let head = seq![name, "  "@ + desc];
    match tool.get("inputSchema"@) {
        None => head.push("  (no input schema)"@),
        Some(schema) => {
            let required = strings_in(match schema.get_array("required"@) { Some(r) => r, None => Seq::empty() });
            let props = schema.get_object("properties"@);
            let req_lines = if required.len() == 0 {
                seq!["  required: (none)"@]
            } else {
                seq!["  required:"@] + match props {
                    Some(ps) => required.map_values(|f: Seq<char>| required_line(f, ps)),
                    None => seq!["    "@ + join(required, ", "@)],
                }
            };
            let opt_lines = match props {
                Some(ps) => {
                    let opt = optional_fields(keys_of(ps), ps, required);
                    if opt.len() > 0 { seq!["  optional: "@ + join(opt, ", "@)] } else { Seq::empty() }
                },
                None => Seq::empty(),
            };
            let tip = if contains(desc, "tool_guide"@) || contains(desc, "Call tool_guide"@) {
                seq!["  tip: run `shd tool_guide --json '{\"topic\":\""@ + topic_of(name) + "\"}'` for usage examples"@]
            } else {
                Seq::empty()
            };
            head + req_lines + opt_lines + tip
        },
    }
}

fn topic_exec(name: &str) -> (r: &'static str)
    ensures
        r@ == topic_of(name@),
{
    if str_starts_with(name, "table") || str_starts_with(name, "view") {
        "table"
    } else if str_starts_with(name, "page") {
        "page"
    } else if str_starts_with(name, "content") {
        "content"
    } else if str_starts_with(name, "formula") {
        "formula"
    } else if str_starts_with(name, "comment") {
        "comment"
    } else {
        "document"
    }
}

fn required_line_exec(field: &str, props: &Vec<(String, Json)>) -> (r: String)
    ensures
        r@ == required_line(field@, Json::Object(*props)@->Object_0),
{
    proof { crate::json::lemma_object_keys(*props); }
    match crate::json::find_key(props, field) {
        Some(i) => {
            let prop = &props[i].1;
            let t = compact_type(prop);
            let d = match prop.get_str("description") {
                Some(x) => short_text_exec(x, 60, 57),
                None => {
                    proof { reveal_strlit(""); }
                    short_text_exec("", 60, 57)
                },
            };
            let mut v: Vec<char> = Vec::new();
            extend_str(&mut v, "    ");
            extend_str(&mut v, field);
            extend_str(&mut v, ": ");
            extend_str(&mut v, t.as_str());
            if d.as_str().is_empty() {
            } else {
                extend_str(&mut v, " — ");
                extend_str(&mut v, d.as_str());
            }
            string_of(v.as_slice())
        },
        None => {
            let mut v: Vec<char> = Vec::new();
            extend_str(&mut v, "    ");
            extend_str(&mut v, field);
            string_of(v.as_slice())
        },
    }
}

fn contains_string(v: &Vec<String>, k: &str) -> (r: bool)
    ensures
        r == string_views(v@).contains(k@),
{
    let mut i: usize = 0;
    while i < v.len()
        invariant
            i <= v.len(),
            forall|j: int| 0 <= j < i ==> string_views(v@)[j] != k@,
        decreases v.len() - i,
    {
        if str_eq(v[i].as_str(), k) {
            assert(string_views(v@)[i as int] == k@);
            return true;
        }
        i = i + 1;
    }
    false
}

fn push_line(lines: &mut Vec<String>, l: String)
    ensures
        string_views(final(lines)@) == string_views(old(lines)@).push(l@),
        final(lines)@.len() == old(lines)@.len() + 1,
{
    let ghost before = lines@;
    lines.push(l);
    assert(string_views(lines@) =~= string_views(before).push(l@));
}

/// Print a compact, agent-friendly schema: name, description, required fields with types.
/// These are the lines it prints.
pub fn compact_schema_lines(tool: &Json) -> (r: Vec<String>)
    ensures
        string_views(r@) == compact_schema_spec(tool@),
{
    let name: &str = match tool.get_str("name") { Some(n) => n, None => "?" };
    let desc: &str = match tool.get_str("description") {
        Some(d) => d,
        None => {
            proof { reveal_strlit(""); }
            ""
        },
    };
    let mut lines: Vec<String> = Vec::new();
    assert(string_views(lines@) =~= Seq::<Seq<char>>::empty());
    push_line(&mut lines, name.to_owned());
    push_line(&mut lines, wrap("  ", desc, ""));
    proof { reveal_strlit(""); }
    let schema = match tool.get("inputSchema") {
        Some(s) => s,
        None => {
            push_line(&mut lines, "  (no input schema)".to_owned());
            return lines;
        },
    };
    let required: Vec<String> = match schema.get_array("required") {
        Some(r) => crate::client::strings_in_exec(r),
        None => {
            let e: Vec<String> = Vec::new();
            assert(string_views(e@) =~= strings_in(Seq::<JsonV>::empty()));
            e
        },
    };
    let ghost rv = string_views(required@);
    let props = schema.get_object("properties");
    let ghost head = string_views(lines@);
    if required.len() == 0 {
        push_line(&mut lines, "  required: (none)".to_owned());
    } else {
        push_line(&mut lines, "  required:".to_owned());
        match props {
            Some(ps) => {
                let ghost h2 = string_views(lines@);
                let ghost psv = Json::Object(*ps)@->Object_0;
                let mut i: usize = 0;
                while i < required.len()
                    invariant
                        i <= required.len(),
                        rv == string_views(required@),
                        psv == Json::Object(*ps)@->Object_0,
                        string_views(lines@) == h2 + rv.take(i as int).map_values(|f: Seq<char>| required_line(f, psv)),
                    decreases required.len() - i,
                {
                    let l = required_line_exec(required[i].as_str(), ps);
                    push_line(&mut lines, l);
                    i = i + 1;
                    assert(h2 + rv.take(i as int).map_values(|f: Seq<char>| required_line(f, psv))
                        =~= (h2 + rv.take(i - 1).map_values(|f: Seq<char>| required_line(f, psv))).push(l@));
                }
                assert(rv.take(i as int) =~= rv);
            },
            None => {
                let j = join_strings(&required, ", ");
                push_line(&mut lines, wrap("    ", j.as_str(), ""));
            },
        }
    }
    let ghost after_req = string_views(lines@);
    proof {
        let name_s = match tool@.get_str("name"@) { Some(n) => n, None => "?"@ };
        let desc_s = match tool@.get_str("description"@) { Some(d) => d, None => Seq::empty() };
        assert(head =~= seq![name_s, "  "@ + desc_s]);
        let req_lines = if rv.len() == 0 {
            seq!["  required: (none)"@]
        } else {
            seq!["  required:"@] + match schema@.get_object("properties"@) {
                Some(ps) => rv.map_values(|f: Seq<char>| required_line(f, ps)),
                None => seq!["    "@ + join(rv, ", "@)],
            }
        };
        assert(after_req =~= head + req_lines);
    }
    match props {
        Some(ps) => {
            proof { crate::json::lemma_object_keys(*ps); }
            let ghost psv = Json::Object(*ps)@->Object_0;
            let ghost ks = keys_of(psv);
            let mut opt: Vec<String> = Vec::new();
            let mut k: usize = 0;
            assert(ks.take(0) =~= Seq::<Seq<char>>::empty());
            assert(string_views(opt@) =~= Seq::<Seq<char>>::empty());
            while k < ps.len()
                invariant
                    k <= ps.len(),
                    psv == Json::Object(*ps)@->Object_0,
                    ks == keys_of(psv),
                    ks == crate::json::exec_keys(ps@),
                    ks.len() == ps.len(),
                    rv == string_views(required@),
                    string_views(opt@) == optional_fields(ks.take(k as int), psv, rv),
                decreases ps.len() - k,
            {
                assert(ks.take(k + 1).drop_last() =~= ks.take(k as int));
                assert(ks[k as int] == ps@[k as int].0@);
                let key = ps[k].0.as_str();
                if !contains_string(&required, key) {
                    let t = match crate::json::find_key(ps, key) {
                        Some(idx) => {
                            assert(lookup(psv, key@) == Some(ps@[idx as int].1@));
                            compact_type(&ps[idx].1)
                        },
                        None => {
                            assert(lookup(psv, key@) is None);
                            String::new()
                        },
                    };
                    let mut v: Vec<char> = Vec::new();
                    extend_str(&mut v, key);
                    extend_str(&mut v, "(");
                    extend_str(&mut v, t.as_str());
                    extend_str(&mut v, ")");
                    assert(v@ =~= key@ + "("@ + match lookup(psv, key@) { Some(p) => compact_type_spec(p), None => Seq::empty() } + ")"@);
                    push_line(&mut opt, string_of(v.as_slice()));
                }
                k = k + 1;
            }
            assert(ks.take(k as int) =~= ks);
            if opt.len() > 0 {
                let j = join_strings(&opt, ", ");
                push_line(&mut lines, wrap("  optional: ", j.as_str(), ""));
            }
        },
        None => {},
    }
    let ghost after_opt = string_views(lines@);
    proof {
        let opt_lines = match schema@.get_object("properties"@) {
            Some(ps) => {
                let opt = optional_fields(keys_of(ps), ps, rv);
                if opt.len() > 0 { seq!["  optional: "@ + join(opt, ", "@)] } else { Seq::<Seq<char>>::empty() }
            },
            None => Seq::<Seq<char>>::empty(),
        };
        assert(after_opt =~= after_req + opt_lines);
    }
    if str_contains(desc, "tool_guide") || str_contains(desc, "Call tool_guide") {
        let topic = topic_exec(name);
        push_line(&mut lines, wrap("  tip: run `shd tool_guide --json '{\"topic\":\"", topic, "\"}'` for usage examples"));
    }
    proof {
        let desc_s = match tool@.get_str("description"@) { Some(d) => d, None => Seq::empty() };
        let name_s = match tool@.get_str("name"@) { Some(n) => n, None => "?"@ };
        assert(desc@ == desc_s);
        assert(name@ == name_s);
        let tip = if contains(desc_s, "tool_guide"@) || contains(desc_s, "Call tool_guide"@) {
            seq!["  tip: run `shd tool_guide --json '{\"topic\":\""@ + topic_of(name_s) + "\"}'` for usage examples"@]
        } else {
            Seq::<Seq<char>>::empty()
        };
        assert(string_views(lines@) =~= after_opt + tip);
    }
    assert(string_views(lines@) =~= compact_schema_spec(tool@));
    lines
}

/// A text padded with spaces to at least `w` characters.
pub open spec fn pad_to(s: Seq<char>, w: nat) -> Seq<char> {
    if s.len() >= w { s } else { s + Seq::new((w - s.len()) as nat, |i: int| ' ') }
}

pub fn push_padded(v: &mut Vec<char>, s: &str, w: usize)
    ensures
        final(v)@ == old(v)@ + pad_to(s@, w as nat),
{
    let c = chars_of(s);
    extend_chars(v, c.as_slice());
    let ghost mid = v@;
    if c.len() < w {
        let mut k: usize = c.len();
        while k < w
            invariant
                c.len() <= k <= w,
                v@ == mid + Seq::new((k - c.len()) as nat, |i: int| ' '),
            decreases w - k,
        {
            v.push(' ');
            k = k + 1;
            assert(v@ =~= mid + Seq::new((k - c.len()) as nat, |i: int| ' '));
        }
        assert(v@ =~= old(v)@ + pad_to(s@, w as nat));
    } else {
        assert(v@ =~= old(v)@ + pad_to(s@, w as nat));
    }
}

/// A tool's line in the listing: its name, its description cut to fifty
/// characters, and its required fields.
pub open spec fn tool_line_spec(tool: JsonV) -> Seq<char> {
    let name = match tool.get_str("name"@) { Some(n) => n, None => "?"@ };
    let desc = match tool.get_str("description"@) { Some(d) => d, None => Seq::empty() };
    let req = match tool.get("inputSchema"@) {
        Some(s) => s.get_array("required"@),
        None => None,
    };
    let required = match req {
        Some(arr) => join(strings_in(arr), ", "@),
        None => "(none)"@,
    };
    "  "@ + pad_to(name, 30) + " "@ + pad_to(short_text(desc, 50, 47), 52) + " required: ["@ + required + "]"@
}

/// Whether a tool matches a lower-case filter by its name or description.
pub open spec fn tool_matches(tool: JsonV, f: Seq<char>) -> bool {
    let name = match tool.get_str("name"@) { Some(n) => n, None => "?"@ };
    let desc = match tool.get_str("description"@) { Some(d) => d, None => Seq::empty() };
    contains(lowercase(name), f) || contains(lowercase(desc), f)
}

/// The listing's lines for the tools that pass the filter.
pub open spec fn listing_spec(tools: Seq<JsonV>, f: Option<Seq<char>>) -> Seq<Seq<char>>
    decreases tools.len(),
{
    if tools.len() == 0 {
        Seq::empty()
    } else {
        let rest = listing_spec(tools.drop_last(), f);
        let t = tools.last();
        let shown = match f {
            Some(x) => tool_matches(t, x),
            None => true,
        };
        if shown { rest.push(tool_line_spec(t)) } else { rest }
    }
}

/// The closing line of the listing.
pub open spec fn listing_summary(count: nat, total: nat, filtered: bool) -> Seq<char> {
    if filtered {
        "\n"@ + decimal(count) + " tools matched (of "@ + decimal(total) + " total)."@
    } else {
        "\n"@ + decimal(count) + " tools available."@
    }
}

fn tool_line(tool: &Json) -> (r: String)
    ensures
        r@ == tool_line_spec(tool@),
{
    let name: &str = match tool.get_str("name") { Some(n) => n, None => "?" };
    let desc_short = match tool.get_str("description") {
        Some(d) => short_text_exec(d, 50, 47),
        None => {
            proof { reveal_strlit(""); }
            short_text_exec("", 50, 47)
        },
    };
    let req = match tool.get("inputSchema") {
        Some(s) => s.get_array("required"),
        None => None,
    };
    let required = match req {
        Some(arr) => {
            let names = crate::client::strings_in_exec(arr);
            join_strings(&names, ", ")
        },
        None => "(none)".to_owned(),
    };
    let mut v: Vec<char> = Vec::new();
    extend_str(&mut v, "  ");
    push_padded(&mut v, name, 30);
    extend_str(&mut v, " ");
    push_padded(&mut v, desc_short.as_str(), 52);
    extend_str(&mut v, " required: [");
    extend_str(&mut v, required.as_str());
    extend_str(&mut v, "]");
    assert(v@ =~= tool_line_spec(tool@));
    string_of(v.as_slice())
}

/// The listing of the tools that pass the filter (matched case-insensitively
/// against name and description), and its closing line.
pub fn tool_listing(tools: &Vec<Json>, filter: Option<&str>) -> (r: (Vec<String>, String))
    ensures
        string_views(r.0@) == listing_spec(items_view(tools@), match filter { Some(x) => Some(lowercase(x@)), None => None }),
        r.1@ == listing_summary(r.0@.len() as nat, tools@.len() as nat, filter is Some),
{
    let lower = match filter {
        Some(x) => Some(to_lowercase(x)),
        None => None,
    };
    let ghost fv = match filter { Some(x) => Some(lowercase(x@)), None => None };
    let ghost tv = items_view(tools@);
    let mut lines: Vec<String> = Vec::new();
    let mut i: usize = 0;
    assert(tv.take(0) =~= Seq::<JsonV>::empty());
    assert(string_views(lines@) =~= Seq::<Seq<char>>::empty());
    while i < tools.len()
        invariant
            i <= tools.len(),
            lines.len() <= i,
            tv == items_view(tools@),
            fv == match lower { Some(x) => Some(x@), None => None },
            string_views(lines@) == listing_spec(tv.take(i as int), fv),
        decreases tools.len() - i,
    {
        let t = &tools[i];
        assert(tv.take(i + 1).drop_last() =~= tv.take(i as int));
        assert(tv.take(i + 1).last() == t@);
        let shown = match &lower {
            Some(f) => {
                let name: &str = match t.get_str("name") { Some(n) => n, None => "?" };
                let desc: &str = match t.get_str("description") {
                    Some(d) => d,
                    None => {
                        proof { reveal_strlit(""); }
                        ""
                    },
                };
                assert(name@ == match t@.get_str("name"@) { Some(n) => n, None => "?"@ });
                assert(desc@ == match t@.get_str("description"@) { Some(d) => d, None => Seq::<char>::empty() });
                let ln = to_lowercase(name);
                let ld = to_lowercase(desc);
                let m = str_contains(ln.as_str(), f.as_str()) || str_contains(ld.as_str(), f.as_str());
                assert(m == tool_matches(t@, f@));
                m
            },
            None => true,
        };
        assert(shown == match fv { Some(x) => tool_matches(t@, x), None => true });
        if shown {
            let l = tool_line(t);
            push_line(&mut lines, l);
        }
        i = i + 1;
    }
    assert(tv.take(i as int) =~= tv);
    let mut v: Vec<char> = Vec::new();
    extend_str(&mut v, "\n");
    crate::text::push_decimal(&mut v, lines.len() as u64);
    if filter.is_some() {
        extend_str(&mut v, " tools matched (of ");
        crate::text::push_decimal(&mut v, tools.len() as u64);
        extend_str(&mut v, " total).");
    } else {
        extend_str(&mut v, " tools available.");
    }
    assert(v@ =~= listing_summary(lines@.len() as nat, tools@.len() as nat, filter is Some));
    (lines, string_of(v.as_slice()))
}


/// The names of the tools that have one, in order.
pub open spec fn tool_names(tools: Seq<JsonV>) -> Seq<Seq<char>>
    decreases tools.len(),
{
    if tools.len() == 0 {
        Seq::empty()
    } else {
        let rest = tool_names(tools.drop_last());
        match tools.last().get_str("name"@) {
            Some(n) => rest.push(n),
            None => rest,
        }
    }
}

/// What is said when a tool asked for by name is not among the tools.
pub open spec fn missing_tool_spec(tools: Seq<JsonV>, name: Seq<char>) -> Seq<char> {
    "Tool '"@ + name + "' not found.\n"@ + "Available tools: "@ + join(tool_names(tools), ", "@) + "\n"@
}

/// The message for a tool name that none of the tools carries: the name, and
/// the names of all the tools there are.
pub fn missing_tool_message(tools: &Vec<Json>, tool_name: &str) -> (r: String)
    ensures
        r@ == missing_tool_spec(items_view(tools@), tool_name@),
{
    let ghost tv = items_view(tools@);
    let mut names: Vec<String> = Vec::new();
    let mut i: usize = 0;
    while i < tools.len()
        invariant
            i <= tools.len(),
            tv == items_view(tools@),
            string_views(names@) == tool_names(tv.take(i as int)),
        decreases tools.len() - i,
    {
        assert(tv.take(i + 1).drop_last() =~= tv.take(i as int));
        assert(tv.take(i + 1).last() == tools@[i as int]@);
        match tools[i].get_str("name") {
            Some(n) => {
                let o = n.to_owned();
                push_line(&mut names, o);
            },
            None => {},
        }
        i = i + 1;
    }
    assert(tv.take(tools.len() as int) =~= tv);
    let joined = join_strings(&names, ", ");
    let mut v: Vec<char> = Vec::new();
    extend_str(&mut v, "Tool '");
    extend_str(&mut v, tool_name);
    extend_str(&mut v, "' not found.\n");
    extend_str(&mut v, "Available tools: ");
    extend_str(&mut v, joined.as_str());
    extend_str(&mut v, "\n");
    assert(v@ =~= missing_tool_spec(tv, tool_name@));
    string_of(v.as_slice())
}

} // verus!
