//! The persistent shell: one JSON request per line, one JSON reply per line.
use vstd::prelude::*;
use crate::commands::{resolve_path, resolve_path_spec};
use crate::error::{CodaError, error_type_spec, message_spec};
use crate::json::{Json, JsonV, obj_insert};
use crate::text::{
    after_last, after_last_exec, chars_of, contains, split_char, split_exec, str_contains,
    string_of, trim, trim_chars, views,
};

verus! {

/// Picks the trimmed paths in order into an object, each under its last segment;
/// the first path that fails decides the error.
pub open spec fn pick_into(
    v: JsonV,
    parts: Seq<Seq<char>>,
    es: Seq<(Seq<char>, JsonV)>,
) -> Result<Seq<(Seq<char>, JsonV)>, Seq<char>>
    decreases parts.len(),
{
    if parts.len() == 0 {
        Ok(es)
    } else {
        let p = trim(parts[0]);
        match resolve_path_spec(v, p) {
            Err(m) => Err(m),
            Ok(x) => pick_into(v, parts.drop_first(), obj_insert(es, after_last(p, '.'), x)),
        }
    }
}

/// What the shell's pick gives: with a comma, an object of the values under
/// their paths' last segments; without, the one value the path reaches.
pub open spec fn shell_pick_spec(v: JsonV, paths: Seq<char>) -> Result<JsonV, Seq<char>> {
    if contains(paths, ","@) {
        match pick_into(v, split_char(paths, ','), Seq::empty()) {
            Ok(es) => Ok(JsonV::Object(es)),
            Err(m) => Err(m),
        }
    } else {
        resolve_path_spec(v, paths)
    }
}

/// Pick fields from a Value, returning the extracted value(s).
/// Multi-field returns a JSON object keyed by each path's last segment.
pub fn pick_from_value(value: &Json, paths: &str) -> (r: Result<Json, CodaError>)
    ensures
        shell_pick_spec(value@, paths@) matches Ok(x) ==> r matches Ok(y) && y@ == x,
        shell_pick_spec(value@, paths@) matches Err(m) ==> r matches Err(CodaError::Validation(e)) && e@ == m,
{
    if str_contains(paths, ",") {
        let pc = chars_of(paths);
        let segs = split_exec(pc.as_slice(), ',');
        let ghost ss = split_char(paths@, ',');
        let mut obj = Json::empty_object();
        let mut i: usize = 0;
        assert(ss.skip(0) =~= ss);
        while i < segs.len()
            invariant
                i <= segs.len(),
                views(segs@) == ss,
                ss == split_char(paths@, ','),
                contains(paths@, ","@),
                obj@ is Object,
                pick_into(value@, ss, Seq::empty()) == pick_into(value@, ss.skip(i as int), obj@->Object_0),
            decreases segs.len() - i,
        {
            assert(ss[i as int] == segs@[i as int]@);
            assert(ss.skip(i as int).drop_first() =~= ss.skip(i + 1));
            let t = trim_chars(segs[i].as_slice());
            let p = string_of(t.as_slice());
            match resolve_path(value, p.as_str()) {
                Ok(x) => {
                    let key = after_last_exec(t.as_slice(), '.');
                    let k = string_of(key.as_slice());
                    obj.insert(k.as_str(), x.duplicate());
                },
                Err(e) => {
                    return Err(e);
                },
            }
            i = i + 1;
        }
        assert(ss.skip(i as int) =~= Seq::<Seq<char>>::empty());
        Ok(obj)
    } else {
        match resolve_path(value, paths) {
            Ok(x) => Ok(x.duplicate()),
            Err(e) => Err(e),
        }
    }
}

/// One request of the shell protocol.
pub struct ShellRequest {
    pub tool: String,
    pub payload: Json,
    pub pick: Option<String>,
}

/// The tool a request names, when its `tool` field is a string.
pub open spec fn request_tool(req: JsonV) -> Option<Seq<char>> {
    req.get_str("tool"@)
}

/// The payload a request carries; an empty object when it has none.
pub open spec fn request_payload(req: JsonV) -> JsonV {
    match req.get("payload"@) {
        Some(p) => p,
        None => JsonV::Object(Seq::empty()),
    }
}

/// Reads a request of the shell protocol: `{"tool": ..., "payload": ..., "pick": ...}`.
pub fn parse_shell_request(req: &Json) -> (r: Result<ShellRequest, CodaError>)
    ensures
        request_tool(req@) matches Some(t) ==> (r matches Ok(sr) && sr.tool@ == t
            && sr.payload@ == request_payload(req@)
            && (match req@.get_str("pick"@) {
                Some(p) => sr.pick matches Some(q) && q@ == p,
                None => sr.pick is None,
            })),
        request_tool(req@) is None ==> (r matches Err(CodaError::Validation(m)) && m@ == "Missing 'tool' field"@),
{
    let tool = match req.get_str("tool") {
        Some(t) => t.to_owned(),
        None => {
            return Err(CodaError::Validation("Missing 'tool' field".to_owned()));
        },
    };
    let payload = match req.get("payload") {
        Some(p) => p.duplicate(),
        None => Json::empty_object(),
    };
    let pick = match req.get_str("pick") {
        Some(p) => Some(p.to_owned()),
        None => None,
    };
    Ok(ShellRequest { tool, payload, pick })
}

/// The reply line's value for a result: `{"ok": true, "result": ...}`, or
/// `{"error": {"message": ..., "type": ...}, "ok": false}`.
pub open spec fn reply_spec(r: Result<JsonV, CodaError>) -> JsonV {
    match r {
        Ok(v) => JsonV::Object(seq![("ok"@, JsonV::Bool(true)), ("result"@, v)]),
        Err(e) => JsonV::Object(seq![
            ("error"@, JsonV::Object(seq![
                ("message"@, JsonV::Str(message_spec(e))),
                ("type"@, JsonV::Str(error_type_spec(e))),
            ])),
            ("ok"@, JsonV::Bool(false)),
        ]),
    }
}

/// The value of the reply line to a request.
pub fn shell_reply(result: Result<Json, CodaError>) -> (r: Json)
    ensures
        r@ == reply_spec(match result {
            Ok(v) => Ok(v@),
            Err(e) => Err(e),
        }),
{
    match result {
        Ok(val) => {
            let mut entries: Vec<(String, Json)> = Vec::new();
            entries.push(("ok".to_owned(), Json::Bool(true)));
            entries.push(("result".to_owned(), val));
            assert(entries@.len() == 2);
            assert(entries@[0].0@ == "ok"@);
            assert(entries@[0].1@ == JsonV::Bool(true));
            let r = Json::Object(entries);
            assert(r@->Object_0.len() == 2);
            assert(r@->Object_0[0] == ("ok"@, JsonV::Bool(true)));
            assert(r@->Object_0 =~= seq![("ok"@, JsonV::Bool(true)), ("result"@, entries@[1].1@)]);
            r
        },
        Err(e) => {
            let mut inner: Vec<(String, Json)> = Vec::new();
            inner.push(("message".to_owned(), Json::Str(e.message())));
            inner.push(("type".to_owned(), Json::Str(e.error_type().to_owned())));
            assert(inner@.len() == 2);
            assert(inner@[0].1@ == JsonV::Str(message_spec(e)));
            assert(inner@[1].1@ == JsonV::Str(error_type_spec(e)));
            let inner_obj = Json::Object(inner);
            assert(inner_obj@->Object_0[0] == ("message"@, JsonV::Str(message_spec(e))));
            assert(inner_obj@->Object_0[1] == ("type"@, JsonV::Str(error_type_spec(e))));
            assert(inner_obj@->Object_0 =~= seq![
                ("message"@, JsonV::Str(message_spec(e))),
                ("type"@, JsonV::Str(error_type_spec(e))),
            ]);
            let mut entries: Vec<(String, Json)> = Vec::new();
            entries.push(("error".to_owned(), inner_obj));
            entries.push(("ok".to_owned(), Json::Bool(false)));
            assert(entries@.len() == 2);
            assert(entries@[1].1@ == JsonV::Bool(false));
            let r = Json::Object(entries);
            assert(r@->Object_0[1] == ("ok"@, JsonV::Bool(false)));
            assert(r@->Object_0 =~= seq![("error"@, entries@[0].1@), ("ok"@, JsonV::Bool(false))]);
            r
        },
    }
}

} // verus!
