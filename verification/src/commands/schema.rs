//! Introspection of the Coda REST API description: the resources it names,
//! the methods of one resource, and the parameters and schemas of one method.
use vstd::prelude::*;
use crate::error::{CodaError, CodaErrorV};
use crate::json::{Json, JsonV, lookup, or_null, entries_view, items_view, keys_of};
use crate::text::{
    string_views,
    chars_of, string_of, extend_chars, extend_str, char_uppercase, to_uppercase_char, ends_with, ends_with_exec,
    split_char, split_exec, views, uppercase, to_uppercase, eq_ignore_ascii_case, str_eq_ignore_ascii_case,
};

use crate::commands::sync::{lex_lt, text_lt, lemma_lex_total, lemma_lex_trans};

verus! {

/// The text with its first character in upper case.
pub open spec fn capitalize_spec(s: Seq<char>) -> Seq<char> {
    if s.len() == 0 { Seq::empty() } else { char_uppercase(s[0]) + s.drop_first() }
}

/// The singular of an English plural as the API's operation names use it:
/// `-ies` becomes `-y`, a final `s` (but not `ss`) goes.
pub open spec fn singularize_spec(s: Seq<char>) -> Seq<char> {
    if ends_with(s, "ies"@) {
        s.take(s.len() - 3) + "y"@
    } else if ends_with(s, "s"@) && !ends_with(s, "ss"@) {
        s.drop_last()
    } else {
        s
    }
}

/// The operation name of the API for a resource and a method.
pub open spec fn operation_id_spec(resource: Seq<char>, method: Seq<char>) -> Seq<char> {
    if method == "list"@ {
        "list"@ + capitalize_spec(resource)
    } else if method == "get"@ {
        "get"@ + capitalize_spec(singularize_spec(resource))
    } else if method == "create"@ {
        "create"@ + capitalize_spec(singularize_spec(resource))
    } else if method == "update"@ {
        "update"@ + capitalize_spec(singularize_spec(resource))
    } else if method == "delete"@ {
        "delete"@ + capitalize_spec(singularize_spec(resource))
    } else if method == "upsert"@ {
        "upsert"@ + capitalize_spec(resource)
    } else {
        method
    }
}

fn capitalize(s: &str) -> (r: Vec<char>)
    ensures
        r@ == capitalize_spec(s@),
{
    let c = chars_of(s);
    if c.len() == 0 {
        return Vec::new();
    }
    let mut v = to_uppercase_char(c[0]);
    let rest = crate::text::slice_vec(c.as_slice(), 1, c.len());
    extend_chars(&mut v, rest.as_slice());
    assert(v@ =~= capitalize_spec(s@));
    v
}

fn singularize(s: &str) -> (r: String)
    ensures
        r@ == singularize_spec(s@),
{
    let c = chars_of(s);
    proof {
        reveal_strlit("ies");
        reveal_strlit("s");
        reveal_strlit("ss");
        reveal_strlit("y");
    }
    if ends_with_exec(c.as_slice(), chars_of("ies").as_slice()) {
        let mut v = crate::text::slice_vec(c.as_slice(), 0, c.len() - 3);
        v.push('y');
        assert(v@ =~= singularize_spec(s@));
        string_of(v.as_slice())
    } else if ends_with_exec(c.as_slice(), chars_of("s").as_slice())
        && !ends_with_exec(c.as_slice(), chars_of("ss").as_slice()) {
        let v = crate::text::slice_vec(c.as_slice(), 0, c.len() - 1);
        assert(v@ =~= singularize_spec(s@));
        string_of(v.as_slice())
    } else {
        s.to_owned()
    }
}

/// Build the expected operationId from a resource name and method name.
/// Used by both the schema command and the MCP server's schema tool.
pub fn build_operation_id(resource: &str, method_name: &str) -> (r: String)
    ensures
        r@ == operation_id_spec(resource@, method_name@),
{
    let m = method_name;
    let (prefix, singular): (&str, bool) = if crate::json::str_eq(m, "list") {
        ("list", false)
    } else if crate::json::str_eq(m, "get") {
        ("get", true)
    } else if crate::json::str_eq(m, "create") {
        ("create", true)
    } else if crate::json::str_eq(m, "update") {
        ("update", true)
    } else if crate::json::str_eq(m, "delete") {
        ("delete", true)
    } else if crate::json::str_eq(m, "upsert") {
        ("upsert", false)
    } else {
        return m.to_owned();
    };
    let cap = if singular {
        let one = singularize(resource);
        capitalize(one.as_str())
    } else {
        capitalize(resource)
    };
    let mut v: Vec<char> = Vec::new();
    extend_str(&mut v, prefix);
    extend_chars(&mut v, cap.as_slice());
    assert(v@ =~= operation_id_spec(resource@, method_name@));
    string_of(v.as_slice())
}

/// The text with every leading `c` removed, as `trim_start_matches(c)` gives it.
pub open spec fn trim_start_char(s: Seq<char>, c: char) -> Seq<char>
    decreases s.len(),
{
    if s.len() > 0 && s[0] == c { trim_start_char(s.drop_first(), c) } else { s }
}

/// The text with every trailing `c` removed, as `trim_end_matches(c)` gives it.
pub open spec fn trim_end_char(s: Seq<char>, c: char) -> Seq<char>
    decreases s.len(),
{
    if s.len() > 0 && s.last() == c { trim_end_char(s.drop_last(), c) } else { s }
}

fn trim_start_char_exec(s: &[char], c: char) -> (r: Vec<char>)
    ensures
        r@ == trim_start_char(s@, c),
{
    let mut i: usize = 0;
    assert(s@.skip(0) =~= s@);
    while i < s.len() && s[i] == c
        invariant
            i <= s.len(),
            trim_start_char(s@, c) == trim_start_char(s@.skip(i as int), c),
        decreases s.len() - i,
    {
        assert(s@.skip(i as int).drop_first() =~= s@.skip(i + 1));
        i = i + 1;
    }
    crate::text::slice_vec(s, i, s.len())
}

fn trim_end_char_exec(s: &[char], c: char) -> (r: Vec<char>)
    ensures
        r@ == trim_end_char(s@, c),
{
    let mut n: usize = s.len();
    assert(s@.take(n as int) =~= s@);
    while n > 0 && s[n - 1] == c
        invariant
            n <= s.len(),
            trim_end_char(s@, c) == trim_end_char(s@.take(n as int), c),
        decreases n,
    {
        assert(s@.take(n as int).drop_last() =~= s@.take(n - 1));
        n = n - 1;
    }
    crate::text::slice_vec(s, 0, n)
}

/// The non-empty pieces of a list of pieces, in order.
pub open spec fn nonempty_parts(parts: Seq<Seq<char>>) -> Seq<Seq<char>>
    decreases parts.len(),
{
    if parts.len() == 0 {
        Seq::empty()
    } else if parts.last().len() == 0 {
        nonempty_parts(parts.drop_last())
    } else {
        nonempty_parts(parts.drop_last()).push(parts.last())
    }
}

fn nonempty_parts_exec(parts: Vec<Vec<char>>) -> (r: Vec<Vec<char>>)
    ensures
        views(r@) == nonempty_parts(views(parts@)),
{
    let ghost pv = views(parts@);
    let mut out: Vec<Vec<char>> = Vec::new();
    let mut i: usize = 0;
    while i < parts.len()
        invariant
            i <= parts.len(),
            pv == views(parts@),
            views(out@) == nonempty_parts(pv.take(i as int)),
        decreases parts.len() - i,
    {
        assert(pv.take(i + 1).drop_last() =~= pv.take(i as int));
        assert(pv.take(i + 1).last() == parts@[i as int]@);
        if parts[i].len() > 0 {
            let p = parts[i].clone();
            proof { assert(p@ == parts@[i as int]@); }
            out.push(p);
            assert(views(out@) =~= nonempty_parts(pv.take(i as int)).push(parts@[i as int]@));
        }
        i = i + 1;
    }
    assert(pv.take(parts.len() as int) =~= pv);
    out
}

/// Follows the keys of a reference from the root of the description; a key
/// that is missing leads to null.
pub open spec fn walk_ref(v: JsonV, parts: Seq<Seq<char>>) -> JsonV
    decreases parts.len(),
{
    if parts.len() == 0 { v } else { walk_ref(or_null(v.get(parts[0])), parts.drop_first()) }
}

/// The keys that a `$ref` text names: `#/components/schemas/Foo` names
/// `components`, `schemas`, `Foo`.
pub open spec fn ref_parts(r: Seq<char>) -> Seq<Seq<char>> {
    nonempty_parts(split_char(trim_start_char(r, '#'), '/'))
}

/// A value with its `$ref` resolved one level: the value that the reference
/// names, when it names one that is not null; the value itself otherwise.
pub open spec fn resolve_ref_spec(spec: JsonV, value: JsonV) -> JsonV {
    match value.get_str("$ref"@) {
        Some(r) => {
            let t = walk_ref(spec, ref_parts(r));
            if t is Null { value } else { t }
        },
        None => value,
    }
}

/// Resolve a JSON $ref pointer one level deep.
pub fn resolve_ref(spec: &Json, value: &Json) -> (r: Json)
    ensures
        r@ == resolve_ref_spec(spec@, value@),
{
    match value.get_str("$ref") {
        Some(ref_path) => {
            let rc = chars_of(ref_path);
            let trimmed = trim_start_char_exec(rc.as_slice(), '#');
            let pieces = split_exec(trimmed.as_slice(), '/');
            let parts = nonempty_parts_exec(pieces);
            let ghost pv = views(parts@);
            let mut current: &Json = spec;
            let mut missing = false;
            let mut i: usize = 0;
            assert(pv.skip(0) =~= pv);
            while i < parts.len()
                invariant
                    i <= parts.len(),
                    pv == views(parts@),
                    walk_ref(spec@, pv) == walk_ref(if missing { JsonV::Null } else { current@ }, pv.skip(i as int)),
                decreases parts.len() - i,
            {
                assert(pv.skip(i as int).drop_first() =~= pv.skip(i + 1));
                assert(pv.skip(i as int)[0] == parts@[i as int]@);
                if !missing {
                    let key = string_of(parts[i].as_slice());
                    match current.get(key.as_str()) {
                        Some(next) => {
                            current = next;
                        },
                        None => {
                            missing = true;
                        },
                    }
                }
                i = i + 1;
            }
            assert(pv.skip(parts.len() as int) =~= Seq::<Seq<char>>::empty());
            if !missing && !current.is_null() {
                return current.duplicate();
            }
            value.duplicate()
        },
        None => value.duplicate(),
    }
}


/// Whether a piece of a path names a resource: it is not empty and is not a
/// `{parameter}`.
pub open spec fn names_resource(seg: Seq<char>) -> bool {
    seg.len() > 0 && seg[0] != '{'
}

/// The last piece that names a resource.
pub open spec fn last_resource(parts: Seq<Seq<char>>) -> Option<Seq<char>>
    decreases parts.len(),
{
    if parts.len() == 0 {
        None
    } else if names_resource(parts.last()) {
        Some(parts.last())
    } else {
        last_resource(parts.drop_last())
    }
}

/// The resource a path of the API belongs to: `/docs/{docId}/tables` belongs
/// to `tables`.
pub open spec fn path_resource(path: Seq<char>) -> Option<Seq<char>> {
    last_resource(split_char(path, '/'))
}

fn path_resource_exec(path: &str) -> (r: Option<Vec<char>>)
    ensures
        match r { Some(v) => Some(v@), None => None } == path_resource(path@),
{
    let pc = chars_of(path);
    let parts = split_exec(pc.as_slice(), '/');
    let ghost pv = views(parts@);
    let mut n: usize = parts.len();
    assert(pv.take(n as int) =~= pv);
    while n > 0 && !(parts[n - 1].len() > 0 && parts[n - 1][0] != '{')
        invariant
            n <= parts.len(),
            pv == views(parts@),
            last_resource(pv) == last_resource(pv.take(n as int)),
        decreases n,
    {
        assert(pv.take(n as int).drop_last() =~= pv.take(n - 1));
        assert(pv.take(n as int).last() == parts@[n - 1]@);
        n = n - 1;
    }
    if n == 0 {
        None
    } else {
        assert(pv.take(n as int).last() == parts@[n - 1]@);
        Some(parts[n - 1].clone())
    }
}

/// A sequence of texts in strictly increasing order.
pub open spec fn strictly_sorted(q: Seq<Seq<char>>) -> bool {
    forall|i: int, j: int| 0 <= i < j < q.len() ==> lex_lt(#[trigger] q[i], #[trigger] q[j])
}

/// Whether some path among `keys` belongs to the resource `x`.
pub open spec fn is_resource_of(keys: Seq<Seq<char>>, x: Seq<char>) -> bool {
    exists|i: int| 0 <= i < keys.len() && path_resource(#[trigger] keys[i]) == Some(x)
}

fn insert_sorted(v: &mut Vec<String>, x: String)
    requires
        strictly_sorted(string_views(old(v)@)),
    ensures
        strictly_sorted(string_views(final(v)@)),
        forall|y: Seq<char>| string_views(final(v)@).contains(y) <==> (string_views(old(v)@).contains(y) || y == x@),
{
    let ghost q = string_views(v@);
    let mut p: usize = 0;
    while p < v.len() && text_lt(v[p].as_str(), x.as_str())
        invariant
            p <= v.len(),
            q == string_views(v@),
            forall|a: int| 0 <= a < p ==> lex_lt(#[trigger] q[a], x@),
        decreases v.len() - p,
    {
        p = p + 1;
    }
    if p < v.len() && crate::json::str_eq(v[p].as_str(), x.as_str()) {
        assert forall|y: Seq<char>| q.contains(y) <==> (q.contains(y) || y == x@) by {
            if y == x@ {
                assert(q[p as int] == y);
            }
        }
        return;
    }
    let ghost xv = x@;
    proof {
        if p < q.len() {
            lemma_lex_total(q[p as int], xv);
        }
    }
    v.insert(p, x);
    let ghost r = string_views(v@);
    assert(r =~= q.insert(p as int, xv));
    assert forall|i: int, j: int| 0 <= i < j < r.len() implies lex_lt(#[trigger] r[i], #[trigger] r[j]) by {
        if j < p {
        } else if j == p {
            assert(r[i] == q[i]);
        } else if i == p {
            assert(r[j] == q[j - 1]);
            if j - 1 > p {
                assert(lex_lt(q[p as int], q[j - 1]));
                lemma_lex_trans(xv, q[p as int], q[j - 1]);
            }
        } else if i < p {
            assert(r[i] == q[i]);
            assert(r[j] == q[j - 1]);
            if i < j - 1 {
            } else {
                assert(i == j - 1);
            }
        } else {
            assert(r[i] == q[i - 1]);
            assert(r[j] == q[j - 1]);
        }
    }
    assert forall|y: Seq<char>| r.contains(y) <==> (q.contains(y) || y == xv) by {
        if r.contains(y) {
            let k = choose|k: int| 0 <= k < r.len() && r[k] == y;
            if k < p {
                assert(q[k] == y);
            } else if k > p {
                assert(q[k - 1] == y);
            }
        }
        if q.contains(y) {
            let k = choose|k: int| 0 <= k < q.len() && q[k] == y;
            if k < p {
                assert(r[k] == y);
            } else {
                assert(r[k + 1] == y);
            }
        }
        if y == xv {
            assert(r[p as int] == y);
        }
    }
}

/// The resources of the paths among the entries, each once, in sorted order.
pub fn resource_names(paths: &Vec<(String, Json)>) -> (r: Vec<String>)
    ensures
        strictly_sorted(string_views(r@)),
        forall|x: Seq<char>| string_views(r@).contains(x) <==> is_resource_of(keys_of(entries_view(paths@)), x),
{
    let ghost keys = keys_of(entries_view(paths@));
    let mut out: Vec<String> = Vec::new();
    let mut i: usize = 0;
    while i < paths.len()
        invariant
            i <= paths.len(),
            keys == keys_of(entries_view(paths@)),
            strictly_sorted(string_views(out@)),
            forall|x: Seq<char>| string_views(out@).contains(x) <==> is_resource_of(keys.take(i as int), x),
        decreases paths.len() - i,
    {
        assert(keys[i as int] == paths@[i as int].0@);
        let ghost before = string_views(out@);
        match path_resource_exec(paths[i].0.as_str()) {
            Some(name) => {
                let ns = string_of(name.as_slice());
                insert_sorted(&mut out, ns);
                assert forall|x: Seq<char>| string_views(out@).contains(x) <==> is_resource_of(keys.take(i + 1), x) by {
                    if is_resource_of(keys.take(i + 1), x) {
                        let k = choose|k: int| 0 <= k < i + 1 && path_resource(#[trigger] keys.take(i + 1)[k]) == Some(x);
                        if k < i {
                            assert(keys.take(i as int)[k] == keys.take(i + 1)[k]);
                        }
                    }
                    if is_resource_of(keys.take(i as int), x) {
                        let k = choose|k: int| 0 <= k < i && path_resource(#[trigger] keys.take(i as int)[k]) == Some(x);
                        assert(keys.take(i as int)[k] == keys.take(i + 1)[k]);
                    }
                    if x == name@ {
                        assert(keys.take(i + 1)[i as int] == keys[i as int]);
                    }
                }
            },
            None => {
                assert forall|x: Seq<char>| string_views(out@).contains(x) <==> is_resource_of(keys.take(i + 1), x) by {
                    if is_resource_of(keys.take(i + 1), x) {
                        let k = choose|k: int| 0 <= k < i + 1 && path_resource(#[trigger] keys.take(i + 1)[k]) == Some(x);
                        if k < i {
                            assert(keys.take(i as int)[k] == keys.take(i + 1)[k]);
                        } else {
                            assert(keys.take(i + 1)[k] == keys[i as int]);
                        }
                    }
                    if is_resource_of(keys.take(i as int), x) {
                        let k = choose|k: int| 0 <= k < i && path_resource(#[trigger] keys.take(i as int)[k]) == Some(x);
                        assert(keys.take(i as int)[k] == keys.take(i + 1)[k]);
                    }
                }
            },
        }
        i = i + 1;
    }
    assert(keys.take(paths.len() as int) =~= keys);
    out
}


/// The text that tells how to go on from the list of resources.
pub open spec fn usage_text() -> Seq<char> {
    "coda schema <resource> — list methods for a resource\ncoda schema <resource>.<method> — show parameters and schemas"@
}

/// Texts as JSON strings.
pub open spec fn str_items(q: Seq<Seq<char>>) -> Seq<JsonV> {
    q.map_values(|s: Seq<char>| JsonV::Str(s))
}

/// The answer to `schema list` for the given resource names.
pub open spec fn resource_listing(q: Seq<Seq<char>>) -> JsonV {
    JsonV::Object(seq![("resources"@, JsonV::Array(str_items(q))), ("usage"@, JsonV::Str(usage_text()))])
}

/// The error for a description without paths.
pub open spec fn no_paths_error() -> CodaErrorV {
    CodaErrorV::Other("No paths in OpenAPI spec"@)
}

fn no_paths() -> (e: CodaError)
    ensures
        e@ == no_paths_error(),
{
    CodaError::Other("No paths in OpenAPI spec".to_owned())
}

fn str_array(names: &Vec<String>) -> (r: Json)
    ensures
        r@ == JsonV::Array(str_items(string_views(names@))),
{
    let mut items: Vec<Json> = Vec::new();
    let mut i: usize = 0;
    while i < names.len()
        invariant
            i <= names.len(),
            items_view(items@) == str_items(string_views(names@)).take(i as int),
        decreases names.len() - i,
    {
        crate::json::push_item(&mut items, Json::str(names[i].as_str()));
        assert(items_view(items@) =~= str_items(string_views(names@)).take(i + 1));
        i = i + 1;
    }
    assert(str_items(string_views(names@)).take(names.len() as int) =~= str_items(string_views(names@)));
    crate::json::array_of(items)
}

/// What `schema list` answers for a description: the sorted resources of
/// its paths, or the error for a description without paths.
pub open spec fn listed(spec: JsonV, r: Result<Json, CodaError>) -> bool {
    match spec.get_object("paths"@) {
        None => r matches Err(e) && e@ == no_paths_error(),
        Some(es) => r matches Ok(j) && exists|q: Seq<Seq<char>>|
            strictly_sorted(q) && (forall|x: Seq<char>| q.contains(x) <==> is_resource_of(keys_of(es), x))
                && j@ == #[trigger] resource_listing(q),
    }
}

/// The resources that the description's paths name, sorted, with a line on
/// how to go on.
pub fn list_resources(spec: &Json) -> (r: Result<Json, CodaError>)
    ensures
        listed(spec@, r),
{
    let paths = match spec.get_object("paths") {
        Some(p) => p,
        None => return Err(no_paths()),
    };
    proof { crate::json::lemma_object_view(*paths); }
    let names = resource_names(paths);
    let arr = str_array(&names);
    let mut es: Vec<(String, Json)> = Vec::new();
    crate::json::push_entry(&mut es, "resources", arr);
    crate::json::push_entry(&mut es, "usage", Json::str("coda schema <resource> — list methods for a resource\ncoda schema <resource>.<method> — show parameters and schemas"));
    assert(entries_view(es@) =~= seq![("resources"@, JsonV::Array(str_items(string_views(names@)))), ("usage"@, JsonV::Str(usage_text()))]);
    let j = crate::json::object_of(es);
    assert(j@ == resource_listing(string_views(names@)));
    Ok(j)
}

/// The HTTP methods under which a path item holds operations.
pub open spec fn is_http_method(m: Seq<char>) -> bool {
    m == "get"@ || m == "post"@ || m == "put"@ || m == "patch"@ || m == "delete"@
}

/// A piece of a path without the braces of a `{parameter}`.
pub open spec fn trim_braces(s: Seq<char>) -> Seq<char> {
    trim_end_char(trim_start_char(s, '{'), '}')
}

/// Whether a piece of the path, braces taken off, names the resource up to
/// ASCII case.
pub open spec fn path_mentions(path: Seq<char>, resource: Seq<char>) -> bool {
    let parts = nonempty_parts(split_char(path, '/'));
    exists|i: int| 0 <= i < parts.len() && eq_ignore_ascii_case(trim_braces(#[trigger] parts[i]), resource)
}

/// One method of a resource as `schema <resource>` lists it.
pub open spec fn method_entry(path: Seq<char>, m: Seq<char>, op: JsonV) -> JsonV {
    JsonV::Object(seq![
        ("method"@, JsonV::Str(uppercase(m))),
        ("operationId"@, JsonV::Str(match op.get_str("operationId"@) { Some(t) => t, None => "unknown"@ })),
        ("path"@, JsonV::Str(path)),
        ("summary"@, JsonV::Str(match op.get_str("summary"@) { Some(t) => t, None => Seq::empty() })),
    ])
}

/// The entries for the operations of one path item, in order.
pub open spec fn operation_entries(path: Seq<char>, ops: Seq<(Seq<char>, JsonV)>) -> Seq<JsonV>
    decreases ops.len(),
{
    if ops.len() == 0 {
        Seq::empty()
    } else {
        let rest = operation_entries(path, ops.drop_last());
        if is_http_method(ops.last().0) { rest.push(method_entry(path, ops.last().0, ops.last().1)) } else { rest }
    }
}

/// The methods of a resource over all paths that mention it, in order.
pub open spec fn resource_methods(paths: Seq<(Seq<char>, JsonV)>, resource: Seq<char>) -> Seq<JsonV>
    decreases paths.len(),
{
    if paths.len() == 0 {
        Seq::empty()
    } else {
        let rest = resource_methods(paths.drop_last(), resource);
        let (p, item) = paths.last();
        if path_mentions(p, resource) {
            match item.as_object() {
                Some(ops) => rest + operation_entries(p, ops),
                None => rest,
            }
        } else {
            rest
        }
    }
}

/// The message when a resource has no methods.
pub open spec fn no_methods_message(resource: Seq<char>) -> Seq<char> {
    "No methods found for resource '"@ + resource + "'. Run `coda schema list` to see available resources."@
}

/// The answer to `schema <resource>`.
pub open spec fn resource_description(resource: Seq<char>, ms: Seq<JsonV>) -> JsonV {
    JsonV::Object(seq![("methods"@, JsonV::Array(ms)), ("resource"@, JsonV::Str(resource))])
}

fn path_mentions_exec(path: &str, resource: &str) -> (r: bool)
    ensures
        r == path_mentions(path@, resource@),
{
    let pc = chars_of(path);
    let parts = nonempty_parts_exec(split_exec(pc.as_slice(), '/'));
    let ghost pv = views(parts@);
    let mut i: usize = 0;
    while i < parts.len()
        invariant
            i <= parts.len(),
            pv == views(parts@),
            pv == nonempty_parts(split_char(path@, '/')),
            forall|k: int| 0 <= k < i ==> !eq_ignore_ascii_case(trim_braces(#[trigger] pv[k]), resource@),
        decreases parts.len() - i,
    {
        let a = trim_start_char_exec(parts[i].as_slice(), '{');
        let b = trim_end_char_exec(a.as_slice(), '}');
        let t = string_of(b.as_slice());
        assert(t@ == trim_braces(pv[i as int]));
        if str_eq_ignore_ascii_case(t.as_str(), resource) {
            return true;
        }
        i = i + 1;
    }
    false
}

fn operation_entries_exec(out: &mut Vec<Json>, path: &str, ops: &Vec<(String, Json)>)
    ensures
        items_view(final(out)@) == items_view(old(out)@) + operation_entries(path@, entries_view(ops@)),
{
    let ghost ov = entries_view(ops@);
    let ghost start = items_view(out@);
    let mut i: usize = 0;
    assert(start =~= start + operation_entries(path@, ov.take(0)));
    while i < ops.len()
        invariant
            i <= ops.len(),
            ov == entries_view(ops@),
            items_view(out@) == start + operation_entries(path@, ov.take(i as int)),
        decreases ops.len() - i,
    {
        assert(ov.take(i + 1).drop_last() =~= ov.take(i as int));
        assert(ov.take(i + 1).last() == (ops@[i as int].0@, ops@[i as int].1@));
        let m = ops[i].0.as_str();
        let op = &ops[i].1;
        proof {
            reveal_strlit("get");
            reveal_strlit("post");
            reveal_strlit("put");
            reveal_strlit("patch");
            reveal_strlit("delete");
        }
        let known = crate::json::str_eq(m, "get") || crate::json::str_eq(m, "post") || crate::json::str_eq(m, "put")
            || crate::json::str_eq(m, "patch") || crate::json::str_eq(m, "delete");
        if known {
            let op_id: &str = match op.get_str("operationId") { Some(t) => t, None => "unknown" };
            let summary: &str = match op.get_str("summary") {
                Some(t) => t,
                None => {
                    proof { reveal_strlit(""); }
                    ""
                },
            };
            assert(op_id@ == match op@.get_str("operationId"@) { Some(t) => t, None => "unknown"@ });
            assert(summary@ == match op@.get_str("summary"@) { Some(t) => t, None => Seq::<char>::empty() });
            let mut es: Vec<(String, Json)> = Vec::new();
            crate::json::push_entry(&mut es, "method", Json::Str(to_uppercase(m)));
            crate::json::push_entry(&mut es, "operationId", Json::str(op_id));
            crate::json::push_entry(&mut es, "path", Json::str(path));
            crate::json::push_entry(&mut es, "summary", Json::str(summary));
            assert(entries_view(es@) =~= method_entry(path@, m@, op@)->Object_0);
            let e = crate::json::object_of(es);
            assert(e@ == method_entry(path@, m@, op@));
            crate::json::push_item(out, e);
        }
        assert(items_view(out@) =~= start + operation_entries(path@, ov.take(i + 1)));
        i = i + 1;
    }
    assert(ov.take(ops.len() as int) =~= ov);
}

/// What `schema <resource>` answers: the methods of the resource, or the
/// error when it has none or the description has no paths.
pub open spec fn resource_described(spec: JsonV, resource: Seq<char>, r: Result<Json, CodaError>) -> bool {
    match spec.get_object("paths"@) {
        None => r matches Err(e) && e@ == no_paths_error(),
        Some(es) => {
            let ms = resource_methods(es, resource);
            if ms.len() == 0 {
                r matches Err(e) && e@ == CodaErrorV::Validation(no_methods_message(resource))
            } else {
                r matches Ok(j) && j@ == resource_description(resource, ms)
            }
        },
    }
}

/// The methods of one resource: each operation under a path that names the
/// resource, with its HTTP method, path, operation name and summary.
pub fn describe_resource(spec: &Json, resource: &str) -> (r: Result<Json, CodaError>)
    ensures
        resource_described(spec@, resource@, r),
{
    let paths = match spec.get_object("paths") {
        Some(p) => p,
        None => return Err(no_paths()),
    };
    proof { crate::json::lemma_object_view(*paths); }
    let ghost pv = entries_view(paths@);
    let mut methods: Vec<Json> = Vec::new();
    let mut i: usize = 0;
    while i < paths.len()
        invariant
            i <= paths.len(),
            pv == entries_view(paths@),
            items_view(methods@) == resource_methods(pv.take(i as int), resource@),
        decreases paths.len() - i,
    {
        assert(pv.take(i + 1).drop_last() =~= pv.take(i as int));
        assert(pv.take(i + 1).last() == (paths@[i as int].0@, paths@[i as int].1@));
        let path = paths[i].0.as_str();
        if path_mentions_exec(path, resource) {
            match paths[i].1.as_object() {
                Some(ops) => {
                    proof { crate::json::lemma_object_view(*ops); }
                    operation_entries_exec(&mut methods, path, ops);
                },
                None => {},
            }
        }
        i = i + 1;
    }
    assert(pv.take(paths.len() as int) =~= pv);
    if methods.len() == 0 {
        let mut v: Vec<char> = Vec::new();
        extend_str(&mut v, "No methods found for resource '");
        extend_str(&mut v, resource);
        extend_str(&mut v, "'. Run `coda schema list` to see available resources.");
        assert(v@ =~= no_methods_message(resource@));
        return Err(CodaError::Validation(string_of(v.as_slice())));
    }
    let ghost methods_view = methods@;
    let mut es: Vec<(String, Json)> = Vec::new();
    crate::json::push_entry(&mut es, "methods", crate::json::array_of(methods));
    crate::json::push_entry(&mut es, "resource", Json::str(resource));
    assert(entries_view(es@) =~= resource_description(resource@, items_view(methods_view))->Object_0);
    Ok(crate::json::object_of(es))
}


/// The operation name an operation carries, or nothing.
pub open spec fn op_id_of(op: JsonV) -> Seq<char> {
    match op.get_str("operationId"@) { Some(t) => t, None => Seq::empty() }
}

/// The first operation of a path item whose name is the target up to ASCII
/// case: its HTTP method and the operation.
pub open spec fn first_in_ops(ops: Seq<(Seq<char>, JsonV)>, target: Seq<char>) -> Option<(Seq<char>, JsonV)>
    decreases ops.len(),
{
    if ops.len() == 0 {
        None
    } else if eq_ignore_ascii_case(op_id_of(ops[0].1), target) {
        Some(ops[0])
    } else {
        first_in_ops(ops.drop_first(), target)
    }
}

/// The first operation over all paths, in order, whose name is the target up
/// to ASCII case: its path, its HTTP method and the operation.
pub open spec fn find_operation(paths: Seq<(Seq<char>, JsonV)>, target: Seq<char>) -> Option<(Seq<char>, Seq<char>, JsonV)>
    decreases paths.len(),
{
    if paths.len() == 0 {
        None
    } else {
        let here = match paths[0].1.as_object() {
            Some(ops) => first_in_ops(ops, target),
            None => None,
        };
        match here {
            Some((m, op)) => Some((paths[0].0, m, op)),
            None => find_operation(paths.drop_first(), target),
        }
    }
}

/// A parameter of an operation as `schema <resource>.<method>` shows it.
pub open spec fn param_info(spec: JsonV, p: JsonV) -> JsonV {
    let r = resolve_ref_spec(spec, p);
    JsonV::Object(seq![
        ("description"@, JsonV::Str(match r.get_str("description"@) { Some(t) => t, None => Seq::empty() })),
        ("in"@, JsonV::Str(match r.get_str("in"@) { Some(t) => t, None => "?"@ })),
        ("name"@, JsonV::Str(match r.get_str("name"@) { Some(t) => t, None => "?"@ })),
        ("required"@, JsonV::Bool(match r.get("required"@) { Some(b) => match b.as_bool() { Some(x) => x, None => false }, None => false })),
        ("schema"@, or_null(r.get("schema"@))),
    ])
}

/// The JSON schema of a body or a response: `content` → `application/json` → `schema`.
pub open spec fn json_schema_of(v: JsonV) -> Option<JsonV> {
    match v.get("content"@) {
        Some(c) => match c.get("application/json"@) {
            Some(a) => a.get("schema"@),
            None => None,
        },
        None => None,
    }
}

/// The first success response of an operation: `200`, else `201`, else `202`.
pub open spec fn success_response(op: JsonV) -> Option<JsonV> {
    match op.get_object("responses"@) {
        Some(rs) => match lookup(rs, "200"@) {
            Some(x) => Some(x),
            None => match lookup(rs, "201"@) {
                Some(x) => Some(x),
                None => lookup(rs, "202"@),
            },
        },
        None => None,
    }
}

/// What `schema <resource>.<method>` shows of an operation found under
/// `path` and the HTTP method `m`.
pub open spec fn method_description(spec: JsonV, path: Seq<char>, m: Seq<char>, op: JsonV) -> JsonV {
    let base = seq![
        ("operationId"@, JsonV::Str(op_id_of(op))),
        ("httpMethod"@, JsonV::Str(uppercase(m))),
        ("path"@, JsonV::Str(path)),
    ];
    let a = match op.get_array("parameters"@) {
        Some(ps) => crate::json::obj_insert(base, "parameters"@, JsonV::Array(ps.map_values(|p: JsonV| param_info(spec, p)))),
        None => base,
    };
    let b = match op.get("requestBody"@) {
        Some(body) => match json_schema_of(resolve_ref_spec(spec, body)) {
            Some(sc) => crate::json::obj_insert(a, "requestBody"@, resolve_ref_spec(spec, sc)),
            None => a,
        },
        None => a,
    };
    let c = match success_response(op) {
        Some(resp) => match json_schema_of(resp) {
            Some(sc) => crate::json::obj_insert(b, "responseSchema"@, resolve_ref_spec(spec, sc)),
            None => b,
        },
        None => b,
    };
    let d = match op.get_str("summary"@) {
        Some(t) => crate::json::obj_insert(c, "summary"@, JsonV::Str(t)),
        None => c,
    };
    JsonV::Object(d)
}

/// The message when no operation has the name looked for.
pub open spec fn no_operation_message(resource: Seq<char>, method: Seq<char>) -> Seq<char> {
    "No operation found for '"@ + resource + "."@ + method + "'. Run `coda schema "@ + resource
        + "` to see available methods."@
}

fn param_info_exec(spec: &Json, p: &Json) -> (r: Json)
    ensures
        r@ == param_info(spec@, p@),
{
    let res = resolve_ref(spec, p);
    let desc: &str = match res.get_str("description") {
        Some(t) => t,
        None => {
            proof { reveal_strlit(""); }
            ""
        },
    };
    let place: &str = match res.get_str("in") { Some(t) => t, None => "?" };
    let name: &str = match res.get_str("name") { Some(t) => t, None => "?" };
    let required = match res.get("required") {
        Some(b) => match b.as_bool() { Some(x) => x, None => false },
        None => false,
    };
    let schema = match res.get("schema") { Some(x) => x.duplicate(), None => Json::Null };
    assert(desc@ == match res@.get_str("description"@) { Some(t) => t, None => Seq::<char>::empty() });
    assert(place@ == match res@.get_str("in"@) { Some(t) => t, None => "?"@ });
    assert(name@ == match res@.get_str("name"@) { Some(t) => t, None => "?"@ });
    let mut es: Vec<(String, Json)> = Vec::new();
    crate::json::push_entry(&mut es, "description", Json::str(desc));
    crate::json::push_entry(&mut es, "in", Json::str(place));
    crate::json::push_entry(&mut es, "name", Json::str(name));
    crate::json::push_entry(&mut es, "required", Json::Bool(required));
    crate::json::push_entry(&mut es, "schema", schema);
    assert(entries_view(es@) =~= param_info(spec@, p@)->Object_0);
    crate::json::object_of(es)
}

fn json_schema_of_exec(v: &Json) -> (r: Option<&Json>)
    ensures
        match r { Some(x) => Some(x@), None => None } == json_schema_of(v@),
{
    match v.get("content") {
        Some(c) => match c.get("application/json") {
            Some(a) => a.get("schema"),
            None => None,
        },
        None => None,
    }
}

fn success_response_exec(op: &Json) -> (r: Option<&Json>)
    ensures
        match r { Some(x) => Some(x@), None => None } == success_response(op@),
{
    match op.get("responses") {
        Some(rs) => {
            if rs.as_object().is_none() {
                return None;
            }
            match rs.get("200") {
                Some(x) => Some(x),
                None => match rs.get("201") {
                    Some(x) => Some(x),
                    None => rs.get("202"),
                },
            }
        },
        None => None,
    }
}

fn method_description_exec(spec: &Json, path: &str, m: &str, op: &Json) -> (r: Json)
    ensures
        r@ == method_description(spec@, path@, m@, op@),
{
    let op_id: &str = match op.get_str("operationId") {
        Some(t) => t,
        None => {
            proof { reveal_strlit(""); }
            ""
        },
    };
    assert(op_id@ == op_id_of(op@));
    let mut es: Vec<(String, Json)> = Vec::new();
    crate::json::push_entry(&mut es, "operationId", Json::str(op_id));
    crate::json::push_entry(&mut es, "httpMethod", Json::Str(to_uppercase(m)));
    crate::json::push_entry(&mut es, "path", Json::str(path));
    let ghost base = seq![
        ("operationId"@, JsonV::Str(op_id_of(op@))),
        ("httpMethod"@, JsonV::Str(uppercase(m@))),
        ("path"@, JsonV::Str(path@)),
    ];
    assert(entries_view(es@) =~= base);
    let mut result = crate::json::object_of(es);
    let ghost a = match op@.get_array("parameters"@) {
        Some(ps) => crate::json::obj_insert(base, "parameters"@, JsonV::Array(ps.map_values(|p: JsonV| param_info(spec@, p)))),
        None => base,
    };
    match op.get_array("parameters") {
        Some(ps) => {
            let ghost want = items_view(ps@).map_values(|p: JsonV| param_info(spec@, p));
            let mut items: Vec<Json> = Vec::new();
            let mut i: usize = 0;
            while i < ps.len()
                invariant
                    i <= ps.len(),
                    want == items_view(ps@).map_values(|p: JsonV| param_info(spec@, p)),
                    items_view(items@) == want.take(i as int),
                decreases ps.len() - i,
            {
                let x = param_info_exec(spec, &ps[i]);
                crate::json::push_item(&mut items, x);
                assert(items_view(items@) =~= want.take(i + 1));
                i = i + 1;
            }
            assert(want.take(ps.len() as int) =~= want);
            result.insert("parameters", crate::json::array_of(items));
        },
        None => {},
    }
    assert(result@ == JsonV::Object(a));
    let ghost b = match op@.get("requestBody"@) {
        Some(body) => match json_schema_of(resolve_ref_spec(spec@, body)) {
            Some(sc) => crate::json::obj_insert(a, "requestBody"@, resolve_ref_spec(spec@, sc)),
            None => a,
        },
        None => a,
    };
    match op.get("requestBody") {
        Some(body) => {
            let resolved = resolve_ref(spec, body);
            match json_schema_of_exec(&resolved) {
                Some(sc) => {
                    let x = resolve_ref(spec, sc);
                    result.insert("requestBody", x);
                },
                None => {},
            }
        },
        None => {},
    }
    assert(result@ == JsonV::Object(b));
    let ghost c = match success_response(op@) {
        Some(resp) => match json_schema_of(resp) {
            Some(sc) => crate::json::obj_insert(b, "responseSchema"@, resolve_ref_spec(spec@, sc)),
            None => b,
        },
        None => b,
    };
    match success_response_exec(op) {
        Some(resp) => match json_schema_of_exec(resp) {
            Some(sc) => {
                let x = resolve_ref(spec, sc);
                result.insert("responseSchema", x);
            },
            None => {},
        },
        None => {},
    }
    assert(result@ == JsonV::Object(c));
    match op.get_str("summary") {
        Some(t) => {
            result.insert("summary", Json::str(t));
        },
        None => {},
    }
    result
}

/// What `schema <resource>.<method>` answers: the description of the first
/// operation with the expected name, or the error when there is none.
pub open spec fn method_described(spec: JsonV, resource: Seq<char>, method: Seq<char>, r: Result<Json, CodaError>) -> bool {
    match spec.get_object("paths"@) {
        None => r matches Err(e) && e@ == no_paths_error(),
        Some(es) => match find_operation(es, operation_id_spec(resource, method)) {
            Some((p, m, op)) => r matches Ok(j) && j@ == method_description(spec, p, m, op),
            None => r matches Err(e) && e@ == CodaErrorV::Validation(no_operation_message(resource, method)),
        },
    }
}

/// The parameters, request body schema and response schema of the operation
/// that `<resource>.<method>` names, `$ref`s resolved one level.
pub fn describe_method(spec: &Json, resource: &str, method_name: &str) -> (r: Result<Json, CodaError>)
    ensures
        method_described(spec@, resource@, method_name@, r),
{
    let paths = match spec.get_object("paths") {
        Some(p) => p,
        None => return Err(no_paths()),
    };
    proof { crate::json::lemma_object_view(*paths); }
    let target = build_operation_id(resource, method_name);
    let ghost tv = target@;
    let ghost pv = entries_view(paths@);
    let mut i: usize = 0;
    assert(pv.skip(0) =~= pv);
    while i < paths.len()
        invariant
            i <= paths.len(),
            pv == entries_view(paths@),
            tv == target@,
            tv == operation_id_spec(resource@, method_name@),
            spec@.get_object("paths"@) == Some(pv),
            find_operation(pv, tv) == find_operation(pv.skip(i as int), tv),
        decreases paths.len() - i,
    {
        assert(pv.skip(i as int).drop_first() =~= pv.skip(i + 1));
        assert(pv.skip(i as int)[0] == (paths@[i as int].0@, paths@[i as int].1@));
        match paths[i].1.as_object() {
            Some(ops) => {
                proof { crate::json::lemma_object_view(*ops); }
                let ghost ov = entries_view(ops@);
                let mut k: usize = 0;
                assert(ov.skip(0) =~= ov);
                while k < ops.len()
                    invariant
                        k <= ops.len(),
                        i < paths.len(),
                        pv == entries_view(paths@),
                        ov == entries_view(ops@),
                        tv == target@,
                        tv == operation_id_spec(resource@, method_name@),
                        spec@.get_object("paths"@) == Some(pv),
                        paths@[i as int].1@.as_object() == Some(ov),
                        pv.skip(i as int)[0] == (paths@[i as int].0@, paths@[i as int].1@),
                        find_operation(pv, tv) == find_operation(pv.skip(i as int), tv),
                        first_in_ops(ov, tv) == first_in_ops(ov.skip(k as int), tv),
                    decreases ops.len() - k,
                {
                    assert(ov.skip(k as int).drop_first() =~= ov.skip(k + 1));
                    assert(ov.skip(k as int)[0] == (ops@[k as int].0@, ops@[k as int].1@));
                    let op = &ops[k].1;
                    let op_id: &str = match op.get_str("operationId") {
                        Some(t) => t,
                        None => {
                            proof { reveal_strlit(""); }
                            ""
                        },
                    };
                    assert(op_id@ == op_id_of(op@));
                    if str_eq_ignore_ascii_case(op_id, target.as_str()) {
                        assert(first_in_ops(ov.skip(k as int), tv) == Some((ops@[k as int].0@, op@)));
                        assert(find_operation(pv.skip(i as int), tv) == Some((paths@[i as int].0@, ops@[k as int].0@, op@)));
                        let j = method_description_exec(spec, paths[i].0.as_str(), ops[k].0.as_str(), op);
                        return Ok(j);
                    }
                    k = k + 1;
                }
                assert(ov.skip(ops.len() as int) =~= Seq::<(Seq<char>, JsonV)>::empty());
            },
            None => {},
        }
        i = i + 1;
    }
    let mut v: Vec<char> = Vec::new();
    extend_str(&mut v, "No operation found for '");
    extend_str(&mut v, resource);
    extend_str(&mut v, ".");
    extend_str(&mut v, method_name);
    extend_str(&mut v, "'. Run `coda schema ");
    extend_str(&mut v, resource);
    extend_str(&mut v, "` to see available methods.");
    assert(v@ =~= no_operation_message(resource@, method_name@));
    Err(CodaError::Validation(string_of(v.as_slice())))
}

/// The message for a schema path of another shape.
pub open spec fn schema_path_message(path: Seq<char>) -> Seq<char> {
    "Schema path must be 'list', '<resource>', or '<resource>.<method>'. Got: '"@ + path + "'"@
}

/// Handle `coda schema <path>`: `list`, `<resource>` or `<resource>.<method>`,
/// answered from the given API description.
pub fn handle(spec: &Json, path: &str) -> (r: Result<Json, CodaError>)
    ensures
        ({
            let parts = split_char(path@, '.');
            if parts.len() == 1 && parts[0] == "list"@ {
                listed(spec@, r)
            } else if parts.len() == 1 {
                resource_described(spec@, parts[0], r)
            } else if parts.len() == 2 {
                method_described(spec@, parts[0], parts[1], r)
            } else {
                r matches Err(e) && e@ == CodaErrorV::Validation(schema_path_message(path@))
            }
        }),
{
    let pc = chars_of(path);
    let parts = split_exec(pc.as_slice(), '.');
    proof { crate::text::lemma_split_char_nonempty(path@, '.'); }
    assert(views(parts@)[0] == parts@[0]@);
    if parts.len() == 1 {
        let first = string_of(parts[0].as_slice());
        if crate::json::str_eq(first.as_str(), "list") {
            return list_resources(spec);
        }
        return describe_resource(spec, first.as_str());
    }
    if parts.len() == 2 {
        assert(views(parts@)[1] == parts@[1]@);
        let res = string_of(parts[0].as_slice());
        let m = string_of(parts[1].as_slice());
        return describe_method(spec, res.as_str(), m.as_str());
    }
    let mut v: Vec<char> = Vec::new();
    extend_str(&mut v, "Schema path must be 'list', '<resource>', or '<resource>.<method>'. Got: '");
    extend_str(&mut v, path);
    extend_str(&mut v, "'");
    assert(v@ =~= schema_path_message(path@));
    Err(CodaError::Validation(string_of(v.as_slice())))
}

} // verus!
