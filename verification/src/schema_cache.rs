//! The cache of tool schemas: which cached list is still fresh, finding a
//! tool in it, and checking a payload against a tool's required fields. Where
//! the cache lives on disk, and reading and writing it, is the caller's part.
use vstd::prelude::*;
use crate::error::{CodaError, CodaErrorV};
use crate::json::{Json, JsonV, lookup, items_view, str_eq};
use crate::text::{extend_str, join, join_strings, string_of, string_views};

verus! {

/// The tools cached, and when they were fetched (an RFC 3339 timestamp).
pub struct CachedTools {
    pub tools: Vec<Json>,
    pub fetched_at: String,
}

/// How long a cached list stays fresh, in hours.
pub const CACHE_TTL_HOURS: i64 = 24;

/// The instant an RFC 3339 timestamp stands for, as seconds since the Unix
/// epoch and nanoseconds within that second, when the text is one.
pub uninterp spec fn rfc3339_instant(s: Seq<char>) -> Option<(int, int)>;

/// The instant of an RFC 3339 timestamp; `DateTime::parse_from_rfc3339` from
/// chrono, read by `timestamp` and `timestamp_subsec_nanos`. What it parses is
/// named by `rfc3339_instant`.
#[verifier::external_body]
fn parse_rfc3339(s: &str) -> (r: Option<(i64, u32)>)
    ensures
        match r {
            Some((secs, nanos)) => rfc3339_instant(s@) == Some((secs as int, nanos as int)),
            None => rfc3339_instant(s@) is None,
        },
{
    chrono::DateTime::parse_from_rfc3339(s).ok().map(|d| (d.timestamp(), d.timestamp_subsec_nanos()))
}

/// Whether a list fetched at `fetched` is stale at `now`: older than the
/// time to live, or fetched at no instant that can be read.
pub open spec fn expired_spec(fetched: Option<(int, int)>, now: (int, int)) -> bool {
    match fetched {
        None => true,
        Some((s, n)) => (now.0 - s) * 1_000_000_000 + (now.1 - n) > 24 * 3600 * 1_000_000_000,
    }
}

/// Whether a list fetched at the given instant is stale at `now`.
pub fn expired_at(fetched: Option<(i64, u32)>, now_secs: i64, now_nanos: u32) -> (r: bool)
    ensures
        r == expired_spec(
            match fetched { Some((s, n)) => Some((s as int, n as int)), None => None },
            (now_secs as int, now_nanos as int),
        ),
{
    match fetched {
        None => true,
        Some((s, n)) => {
            let age: i128 = (now_secs as i128 - s as i128) * 1_000_000_000 + (now_nanos as i128 - n as i128);
            age > (CACHE_TTL_HOURS as i128) * 3600 * 1_000_000_000
        },
    }
}

/// Returns true if the cache is older than its time to live at `now`, or its
/// timestamp cannot be read.
pub fn is_expired(cached: &CachedTools, now_secs: i64, now_nanos: u32) -> (r: bool)
    ensures
        r == expired_spec(rfc3339_instant(cached.fetched_at@), (now_secs as int, now_nanos as int)),
{
    let fetched = parse_rfc3339(cached.fetched_at.as_str());
    expired_at(fetched, now_secs, now_nanos)
}

/// The first tool of the given name.
pub open spec fn find_tool_spec(tools: Seq<JsonV>, name: Seq<char>) -> Option<int>
    decreases tools.len(),
{
    if tools.len() == 0 {
        None
    } else if tools[0].get_str("name"@) == Some(name) {
        Some(0)
    } else {
        match find_tool_spec(tools.drop_first(), name) {
            Some(i) => Some(i + 1),
            None => None,
        }
    }
}

pub proof fn lemma_find_tool_bounds(tools: Seq<JsonV>, name: Seq<char>)
    ensures
        find_tool_spec(tools, name) matches Some(i) ==> 0 <= i < tools.len(),
    decreases tools.len(),
{
    if tools.len() > 0 {
        lemma_find_tool_bounds(tools.drop_first(), name);
    }
}

/// The first tool of the given name.
pub fn find_tool<'a>(tools: &'a [Json], name: &str) -> (r: Option<&'a Json>)
    ensures
        match find_tool_spec(items_view(tools@), name@) {
            Some(i) => r matches Some(t) && t@ == tools@[i]@,
            None => r is None,
        },
{
    let ghost tv = items_view(tools@);
    let mut i: usize = 0;
    assert(tv.skip(0) =~= tv);
    while i < tools.len()
        invariant
            i <= tools.len(),
            tv == items_view(tools@),
            find_tool_spec(tv, name@) == match find_tool_spec(tv.skip(i as int), name@) {
                Some(k) => Some(k + i),
                None => None,
            },
        decreases tools.len() - i,
    {
        assert(tv.skip(i as int)[0] == tools@[i as int]@);
        assert(tv.skip(i as int).drop_first() =~= tv.skip(i + 1));
        let hit = match tools[i].get_str("name") {
            Some(n) => str_eq(n, name),
            None => false,
        };
        if hit {
            return Some(&tools[i]);
        }
        i = i + 1;
    }
    assert(tv.skip(i as int) =~= Seq::<JsonV>::empty());
    None
}

/// How a missing field is named: with its type ("unknown" when the schema
/// gives none) and description where the schema describes it, else by its name.
pub open spec fn field_hint(name: Seq<char>, props: Option<Seq<(Seq<char>, JsonV)>>) -> Seq<char> {
    let prop = match props {
        Some(ps) => lookup(ps, name),
        None => None,
    };
    match prop {
        Some(p) => {
            let ty = match p.get_str("type"@) { Some(t) => t, None => "unknown"@ };
            let desc = match p.get_str("description"@) { Some(d) => d, None => Seq::empty() };
            if desc.len() == 0 {
                name + " ("@ + ty + ")"@
            } else {
                name + " ("@ + ty + "): "@ + desc
            }
        },
        None => name,
    }
}

/// The hints of the required fields the payload lacks, in order.
pub open spec fn missing_hints(
    required: Seq<JsonV>,
    payload: JsonV,
    props: Option<Seq<(Seq<char>, JsonV)>>,
) -> Seq<Seq<char>>
    decreases required.len(),
{
    if required.len() == 0 {
        Seq::empty()
    } else {
        let rest = missing_hints(required.drop_last(), payload, props);
        match required.last().as_str() {
            Some(name) => {
                if payload.get(name) is Some {
                    rest
                } else {
                    rest.push(field_hint(name, props))
                }
            },
            None => rest,
        }
    }
}

/// Lightweight validation: check that all required fields from the tool's
/// inputSchema are present in the payload. Not a full JSON Schema validator.
pub open spec fn validate_spec(tool: JsonV, payload: JsonV) -> Result<(), CodaErrorV> {
    let input = tool.get("inputSchema"@);
    let required = match input {
        Some(s) => s.get_array("required"@),
        None => None,
    };
    match required {
        None => Ok(()),
        Some(req) => {
            let props = match input {
                Some(s) => s.get_object("properties"@),
                None => None,
            };
            let missing = missing_hints(req, payload, props);
            if missing.len() == 0 {
                Ok(())
            } else {
                Err(CodaErrorV::Validation("Missing required field(s):\n  "@ + join(missing, "\n  "@)))
            }
        },
    }
}

fn field_hint_exec(name: &str, props: Option<&Vec<(String, Json)>>) -> (r: String)
    ensures
        r@ == field_hint(name@, match props { Some(p) => Some(Json::Object(*p)@->Object_0), None => None }),
{
    let prop = match props {
        Some(ps) => {
            match crate::json::find_key(ps, name) {
                Some(i) => {
                    proof { crate::json::lemma_object_keys(*ps); }
                    Some(&ps[i].1)
                },
                None => {
                    proof { crate::json::lemma_object_keys(*ps); }
                    None
                },
            }
        },
        None => None,
    };
    match prop {
        Some(p) => {
            let mut v: Vec<char> = Vec::new();
            extend_str(&mut v, name);
            extend_str(&mut v, " (");
            match p.get_str("type") {
                Some(t) => extend_str(&mut v, t),
                None => extend_str(&mut v, "unknown"),
            }
            let has_desc = match p.get_str("description") {
                Some(d) => !d.is_empty(),
                None => false,
            };
            if has_desc {
                extend_str(&mut v, "): ");
                match p.get_str("description") {
                    Some(d) => extend_str(&mut v, d),
                    None => {},
                }
            } else {
                extend_str(&mut v, ")");
            }
            string_of(v.as_slice())
        },
        None => name.to_owned(),
    }
}

/// Checks that a payload has every field the tool's schema requires; the
/// error lists each missing field with what the schema says of it.
pub fn validate_payload(tool_schema: &Json, payload: &Json) -> (r: Result<(), CodaError>)
    ensures
        validate_spec(tool_schema@, payload@) is Ok ==> r is Ok,
        validate_spec(tool_schema@, payload@) matches Err(e) ==> r matches Err(x) && x@ == e,
{
    let input = tool_schema.get("inputSchema");
    let required = match input {
        Some(s) => s.get_array("required"),
        None => None,
    };
    let req = match required {
        Some(r) => r,
        None => {
            return Ok(());
        },
    };
    let props = match input {
        Some(s) => s.get_object("properties"),
        None => None,
    };
    let ghost pv = match props { Some(p) => Some(Json::Object(*p)@->Object_0), None => None };
    let ghost rv = items_view(req@);
    let mut missing: Vec<String> = Vec::new();
    let mut i: usize = 0;
    assert(rv.take(0) =~= Seq::<JsonV>::empty());
    assert(string_views(missing@) =~= Seq::<Seq<char>>::empty());
    while i < req.len()
        invariant
            i <= req.len(),
            rv == items_view(req@),
            pv == match props { Some(p) => Some(Json::Object(*p)@->Object_0), None => None },
            string_views(missing@) == missing_hints(rv.take(i as int), payload@, pv),
        decreases req.len() - i,
    {
        assert(rv.take(i + 1).drop_last() =~= rv.take(i as int));
        assert(rv.take(i + 1).last() == req@[i as int]@);
        match req[i].as_str() {
            Some(name) => {
                let present = match payload {
                    Json::Object(_) => payload.get(name).is_some(),
                    _ => false,
                };
                if !present {
                    let h = field_hint_exec(name, props);
                    let ghost before = missing@;
                    missing.push(h);
                    assert(string_views(missing@) =~= string_views(before).push(h@));
                }
            },
            None => {},
        }
        i = i + 1;
    }
    assert(rv.take(i as int) =~= rv);
    if missing.len() == 0 {
        Ok(())
    } else {
        let mut v: Vec<char> = Vec::new();
        extend_str(&mut v, "Missing required field(s):\n  ");
        let joined = join_strings(&missing, "\n  ");
        extend_str(&mut v, joined.as_str());
        Err(CodaError::Validation(string_of(v.as_slice())))
    }
}

/// Whether a required entry names a field the payload lacks.
pub open spec fn required_absent(item: JsonV, payload: JsonV) -> bool {
    match item {
        JsonV::Str(n) => payload.get(n) is None,
        _ => false,
    }
}

proof fn lemma_missing_hints(required: Seq<JsonV>, payload: JsonV, props: Option<Seq<(Seq<char>, JsonV)>>)
    ensures
        missing_hints(required, payload, props).len() == 0
            <==> forall|i: int| 0 <= i < required.len() ==> !required_absent(#[trigger] required[i], payload),
        forall|i: int| 0 <= i < required.len() && required_absent(#[trigger] required[i], payload) ==>
            exists|j: int| 0 <= j < missing_hints(required, payload, props).len()
                && missing_hints(required, payload, props)[j] == field_hint(required[i]->Str_0, props),
    decreases required.len(),
{
    if required.len() > 0 {
        let pre = required.drop_last();
        lemma_missing_hints(pre, payload, props);
        let m = missing_hints(required, payload, props);
        let mp = missing_hints(pre, payload, props);
        assert forall|i: int| 0 <= i < pre.len() implies #[trigger] pre[i] == required[i] by {}
        assert forall|i: int| 0 <= i < required.len() && required_absent(#[trigger] required[i], payload) implies
            exists|j: int| 0 <= j < m.len() && m[j] == field_hint(required[i]->Str_0, props) by {
            if i < pre.len() {
                assert(required_absent(pre[i], payload));
                let j = choose|j: int| 0 <= j < mp.len() && mp[j] == field_hint(pre[i]->Str_0, props);
                assert(m[j] == mp[j]);
            } else {
                assert(m[mp.len() as int] == field_hint(required[i]->Str_0, props));
            }
        }
        if m.len() == 0 {
            assert forall|i: int| 0 <= i < required.len() implies !required_absent(#[trigger] required[i], payload) by {
                if i < pre.len() {
                    assert(pre[i] == required[i]);
                }
            }
        }
        if forall|i: int| 0 <= i < required.len() ==> !required_absent(#[trigger] required[i], payload) {
            assert forall|i: int| 0 <= i < pre.len() implies !required_absent(#[trigger] pre[i], payload) by {
                assert(pre[i] == required[i]);
                assert(!required_absent(required[i], payload));
            }
            assert(!required_absent(required[required.len() - 1], payload));
        }
    }
}

proof fn lemma_join_contains(parts: Seq<Seq<char>>, sep: Seq<char>, j: int)
    requires
        0 <= j < parts.len(),
    ensures
        exists|k: int| crate::text::occurs_at(join(parts, sep), parts[j], k),
    decreases parts.len(),
{
    let jn = join(parts, sep);
    if parts.len() == 1 {
        assert(jn.subrange(0, parts[0].len() as int) =~= parts[0]);
        assert(crate::text::occurs_at(jn, parts[j], 0));
    } else {
        let pre = join(parts.drop_last(), sep);
        if j == parts.len() - 1 {
            let k: int = (pre.len() + sep.len()) as int;
            assert(jn.subrange(k, k + parts[j].len()) =~= parts[j]);
            assert(crate::text::occurs_at(jn, parts[j], k));
        } else {
            lemma_join_contains(parts.drop_last(), sep, j);
            let k = choose|k: int| crate::text::occurs_at(pre, parts.drop_last()[j], k);
            assert(jn.subrange(k, k + parts[j].len()) =~= pre.subrange(k, k + parts[j].len()));
            assert(crate::text::occurs_at(jn, parts[j], k));
        }
    }
}

/// A payload passes validation exactly when the tool's schema requires no
/// fields (it lists none) or the payload has every field it requires; a
/// failure is a validation error whose message names every missing field.
pub proof fn law_validate_payload(tool: JsonV, payload: JsonV)
    ensures
        validate_spec(tool, payload) is Ok <==> match tool.get("inputSchema"@) {
            Some(s) => match s.get_array("required"@) {
                Some(req) => forall|i: int| 0 <= i < req.len() ==> !required_absent(#[trigger] req[i], payload),
                None => true,
            },
            None => true,
        },
        validate_spec(tool, payload) matches Err(e) ==> e is Validation && forall|i: int|
            0 <= i < tool.get("inputSchema"@)->0.get_array("required"@)->0.len()
            && required_absent(#[trigger] tool.get("inputSchema"@)->0.get_array("required"@)->0[i], payload)
            ==> crate::text::contains(e->Validation_0, tool.get("inputSchema"@)->0.get_array("required"@)->0[i]->Str_0),
{
    let input = tool.get("inputSchema"@);
    if let Some(sch) = input {
        if let Some(req) = sch.get_array("required"@) {
            let props = sch.get_object("properties"@);
            lemma_missing_hints(req, payload, props);
            let missing = missing_hints(req, payload, props);
            let prefix = "Missing required field(s):\n  "@;
            let m = prefix + join(missing, "\n  "@);
            assert forall|i: int| 0 <= i < req.len() && required_absent(#[trigger] req[i], payload)
                implies crate::text::contains(m, req[i]->Str_0) by {
                let n = req[i]->Str_0;
                let j = choose|j: int| 0 <= j < missing.len() && missing[j] == field_hint(n, props);
                lemma_join_contains(missing, "\n  "@, j);
                let k = choose|k: int| crate::text::occurs_at(join(missing, "\n  "@), missing[j], k);
                let h = field_hint(n, props);
                assert(h.subrange(0, n.len() as int) =~= n);
                let at: int = prefix.len() as int + k;
                assert(m.subrange(at, at + n.len()) =~= join(missing, "\n  "@).subrange(k, k + n.len()));
                assert(join(missing, "\n  "@).subrange(k, k + n.len()) =~= h.subrange(0, n.len() as int));
                assert(crate::text::occurs_at(m, n, at));
            }
        }
    }
}

} // verus!
