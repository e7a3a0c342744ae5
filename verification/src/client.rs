//! The tool endpoint of the Coda API: where a call goes, what its request and
//! its reply look like, how an error reply reads, and how pages are followed.
//! The HTTP transport itself belongs to whoever runs the calls.
use vstd::prelude::*;
use crate::commands::compound::{jstr, str_array};
use crate::error::{CodaError, CodaErrorV};
use crate::json::{
    Json, JsonV, entries_view, items_view, push_entry, push_item, object_of, array_of, obj_insert,
    obj_remove, str_eq,
};
use crate::json_text::json_text;
use crate::text::{
    chars_of, extend_str, join, join_strings, split_char, split_exec, starts_with, starts_with_exec,
    string_of, string_views, trim, trim_chars, views, slice_vec,
};
use crate::validate::{encode_path_segment, percent_encoding, resource_id_problem, validate_resource_id};

verus! {

/// The base of the tool endpoint.
pub open spec fn tool_api_base() -> Seq<char> {
    "https://coda.io/apis/mcp/vbeta"@
}

/// The endpoint a client calls; the HTTP transport is held by whoever runs the calls.
pub struct CodaClient {
    pub tool_base_url: String,
}

/// The document a payload names, when it names one by a non-empty `docId` string.
pub open spec fn payload_doc_id(payload: JsonV) -> Option<Seq<char>> {
    match payload.get_str("docId"@) {
        Some(d) => if d.len() > 0 { Some(d) } else { None },
        None => None,
    }
}

/// Where a tool call goes: the document's tool endpoint when the payload names a
/// valid document, the docless one when it names none, and an error when the
/// document it names is not a valid identifier.
pub open spec fn tool_url_spec(base: Seq<char>, payload: JsonV) -> Result<Seq<char>, CodaErrorV> {
    match payload_doc_id(payload) {
        Some(d) => match resource_id_problem(d, "docId"@) {
            Some(m) => Err(CodaErrorV::Validation(m)),
            None => Ok(base + "/docs/"@ + percent_encoding(crate::text::utf8_bytes(d)) + "/tool"@),
        },
        None => Ok(base + "/tool"@),
    }
}

/// The body of a tool call.
pub open spec fn call_body_spec(tool: Seq<char>, payload: JsonV) -> JsonV {
    JsonV::Object(seq![("payload"@, payload), ("toolName"@, jstr(tool))])
}

/// What a dry run of a call shows.
pub open spec fn dry_run_spec(url: Seq<char>, tool: Seq<char>, payload: JsonV) -> JsonV {
    JsonV::Object(seq![
        ("body"@, call_body_spec(tool, payload)),
        ("method"@, jstr("POST"@)),
        ("url"@, jstr(url)),
    ])
}

impl CodaClient {
    /// A client of the Coda tool endpoint.
    pub fn new() -> (r: CodaClient)
        ensures
            r.tool_base_url@ == tool_api_base(),
    {
        CodaClient { tool_base_url: "https://coda.io/apis/mcp/vbeta".to_owned() }
    }

    /// Build the tool endpoint URL, validating the docId if present.
    pub fn build_tool_url(&self, payload: &Json) -> (r: Result<String, CodaError>)
        ensures
            tool_url_spec(self.tool_base_url@, payload@) matches Ok(u) ==> r matches Ok(s) && s@ == u,
            tool_url_spec(self.tool_base_url@, payload@) matches Err(e) ==> r matches Err(x) && x@ == e,
    {
        let mut v: Vec<char> = Vec::new();
        extend_str(&mut v, self.tool_base_url.as_str());
        match payload.get_str("docId") {
            Some(doc_id) => {
                if !doc_id.is_empty() {
                    match validate_resource_id(doc_id, "docId") {
                        Ok(_) => {},
                        Err(e) => {
                            return Err(e);
                        },
                    }
                    extend_str(&mut v, "/docs/");
                    let enc = encode_path_segment(doc_id);
                    extend_str(&mut v, enc.as_str());
                    extend_str(&mut v, "/tool");
                    return Ok(string_of(v.as_slice()));
                }
            },
            None => {},
        }
        extend_str(&mut v, "/tool");
        Ok(string_of(v.as_slice()))
    }

    /// Build a dry-run representation of a tool call.
    pub fn dry_run_tool(&self, tool_name: &str, payload: &Json) -> (r: Result<Json, CodaError>)
        ensures
            tool_url_spec(self.tool_base_url@, payload@) matches Ok(u) ==> r matches Ok(x) && x@ == dry_run_spec(u, tool_name@, payload@),
            tool_url_spec(self.tool_base_url@, payload@) matches Err(e) ==> r matches Err(x) && x@ == e,
    {
        let url = match self.build_tool_url(payload) {
            Ok(u) => u,
            Err(e) => {
                return Err(e);
            },
        };
        let body = call_body(tool_name, payload.duplicate());
        let mut es: Vec<(String, Json)> = Vec::new();
        push_entry(&mut es, "body", body);
        push_entry(&mut es, "method", Json::str("POST"));
        push_entry(&mut es, "url", Json::Str(url));
        assert(entries_view(es@) =~= dry_run_spec(url@, tool_name@, payload@)->Object_0);
        Ok(object_of(es))
    }
}

/// The body of a tool call: the tool's name and its payload.
pub fn call_body(tool_name: &str, payload: Json) -> (r: Json)
    ensures
        r@ == call_body_spec(tool_name@, payload@),
{
    let mut es: Vec<(String, Json)> = Vec::new();
    push_entry(&mut es, "payload", payload);
    push_entry(&mut es, "toolName", Json::str(tool_name));
    assert(entries_view(es@) =~= call_body_spec(tool_name@, entries_view(es@)[0].1)->Object_0);
    object_of(es)
}

/// Whether an issue names the tool itself as the field in error.
pub open spec fn names_tool(issue: JsonV) -> bool {
    issue.get_str("discriminator"@) == Some("toolName"@)
}

/// The strings of a sequence of values, where they are strings.
pub open spec fn strings_in(v: Seq<JsonV>) -> Seq<Seq<char>>
    decreases v.len(),
{
    if v.len() == 0 {
        Seq::empty()
    } else {
        let rest = strings_in(v.drop_last());
        match v.last().as_str() {
            Some(s) => rest.push(s),
            None => rest,
        }
    }
}

/// Whether any of the issues names the tool itself.
pub open spec fn any_names_tool(is: Seq<JsonV>) -> bool
    decreases is.len(),
{
    if is.len() == 0 {
        false
    } else {
        any_names_tool(is.drop_last()) || names_tool(is.last())
    }
}

/// One issue as a line: its path joined by dots, a colon, and its message
/// ("invalid" where it has none).
pub open spec fn issue_line(issue: JsonV) -> Seq<char> {
    let path = match issue.get_array("path"@) {
        Some(p) => join(strings_in(p), "."@),
        None => Seq::empty(),
    };
    let msg = match issue.get_str("message"@) {
        Some(m) => m,
        None => "invalid"@,
    };
    path + ": "@ + msg
}

/// The lines of all issues.
pub open spec fn issue_lines(is: Seq<JsonV>) -> Seq<Seq<char>> {
    is.map_values(|i: JsonV| issue_line(i))
}

/// The message of an error reply that is not a contract violation: the
/// result's error, else the message, else the status message, else the body
/// itself as JSON.
pub open spec fn generic_message(body: JsonV) -> Seq<char> {
    let from_result = match body.get("result"@) {
        Some(r) => r.get_str("error"@),
        None => None,
    };
    match from_result {
        Some(m) => m,
        None => match body.get_str("message"@) {
            Some(m) => m,
            None => match body.get_str("statusMessage"@) {
                Some(m) => m,
                None => json_text(body),
            },
        },
    }
}

/// The structured error an error reply of the tool endpoint stands for.
pub open spec fn tool_error_spec(status: u16, body: JsonV, tool: Seq<char>) -> CodaErrorV {
    let issues = match body.get("codaDetail"@) {
        Some(d) => d.get_array("issues"@),
        None => None,
    };
    match issues {
        Some(is) => {
            if any_names_tool(is) {
                CodaErrorV::ContractChanged {
                    tool: tool,
                    message: "Tool '"@ + tool + "' not found. It may have been renamed or removed. Run `coda discover` to see available tools."@,
                }
            } else {
                CodaErrorV::ContractChanged {
                    tool: tool,
                    message: "Validation error for '"@ + tool + "':\n"@
                        + join(issue_lines(is), "\n"@)
                        + "\nRun `coda discover "@ + tool + "` to see current schema."@,
                }
            }
        },
        None => CodaErrorV::Api { status: status, message: generic_message(body) },
    }
}

pub fn strings_in_exec(v: &Vec<Json>) -> (r: Vec<String>)
    ensures
        string_views(r@) == strings_in(items_view(v@)),
{
    let ghost vv = items_view(v@);
    let mut out: Vec<String> = Vec::new();
    let mut i: usize = 0;
    assert(vv.take(0) =~= Seq::<JsonV>::empty());
    assert(string_views(out@) =~= Seq::<Seq<char>>::empty());
    while i < v.len()
        invariant
            i <= v.len(),
            vv == items_view(v@),
            string_views(out@) == strings_in(vv.take(i as int)),
        decreases v.len() - i,
    {
        assert(vv.take(i + 1).drop_last() =~= vv.take(i as int));
        assert(vv.take(i + 1).last() == v@[i as int]@);
        match v[i].as_str() {
            Some(s) => {
                let ghost before = out@;
                out.push(s.to_owned());
                assert(string_views(out@) =~= string_views(before).push(s@));
            },
            None => {},
        }
        i = i + 1;
    }
    assert(vv.take(i as int) =~= vv);
    out
}

fn issue_line_exec(issue: &Json) -> (r: String)
    ensures
        r@ == issue_line(issue@),
{
    let mut v: Vec<char> = Vec::new();
    match issue.get_array("path") {
        Some(p) => {
            let parts = strings_in_exec(p);
            let joined = join_strings(&parts, ".");
            extend_str(&mut v, joined.as_str());
        },
        None => {},
    }
    extend_str(&mut v, ": ");
    match issue.get_str("message") {
        Some(m) => extend_str(&mut v, m),
        None => extend_str(&mut v, "invalid"),
    }
    string_of(v.as_slice())
}

/// Parse a tool endpoint error into a structured, agent-friendly CodaError.
pub fn parse_tool_error(status: u16, body: &Json, tool_name: &str) -> (r: CodaError)
    ensures
        r@ == tool_error_spec(status, body@, tool_name@),
{
    let issues = match body.get("codaDetail") {
        Some(d) => d.get_array("issues"),
        None => None,
    };
    match issues {
        Some(is) => {
            let ghost iv = items_view(is@);
            let mut found = false;
            let mut i: usize = 0;
            assert(iv.take(0) =~= Seq::<JsonV>::empty());
            while i < is.len()
                invariant
                    i <= is.len(),
                    iv == items_view(is@),
                    found == any_names_tool(iv.take(i as int)),
                decreases is.len() - i,
            {
                let hit = match is[i].get_str("discriminator") {
                    Some(d) => str_eq(d, "toolName"),
                    None => false,
                };
                assert(hit == names_tool(iv[i as int]));
                assert(iv.take(i + 1).drop_last() =~= iv.take(i as int));
                found = found || hit;
                i = i + 1;
            }
            let mut v: Vec<char> = Vec::new();
            assert(iv == match body@.get("codaDetail"@) { Some(d) => d.get_array("issues"@), None => None }->0);
            if found {
                extend_str(&mut v, "Tool '");
                extend_str(&mut v, tool_name);
                extend_str(&mut v, "' not found. It may have been renamed or removed. Run `coda discover` to see available tools.");
                assert(v@ =~= "Tool '"@ + tool_name@ + "' not found. It may have been renamed or removed. Run `coda discover` to see available tools."@);
            } else {
                let mut lines: Vec<String> = Vec::new();
                let mut k: usize = 0;
                while k < is.len()
                    invariant
                        k <= is.len(),
                        iv == items_view(is@),
                        string_views(lines@) == issue_lines(iv.take(k as int)),
                    decreases is.len() - k,
                {
                    let l = issue_line_exec(&is[k]);
                    let ghost before = lines@;
                    lines.push(l);
                    assert(string_views(lines@) =~= string_views(before).push(l@));
                    assert(iv.take(k + 1) =~= iv.take(k as int).push(iv[k as int]));
                    k = k + 1;
                    assert(string_views(lines@) =~= issue_lines(iv.take(k as int)));
                }
                assert(iv.take(k as int) =~= iv);
                extend_str(&mut v, "Validation error for '");
                extend_str(&mut v, tool_name);
                extend_str(&mut v, "':\n");
                let joined = join_strings(&lines, "\n");
                extend_str(&mut v, joined.as_str());
                extend_str(&mut v, "\nRun `coda discover ");
                extend_str(&mut v, tool_name);
                extend_str(&mut v, "` to see current schema.");
                assert(v@ =~= "Validation error for '"@ + tool_name@ + "':\n"@
                    + join(issue_lines(iv), "\n"@)
                    + "\nRun `coda discover "@ + tool_name@ + "` to see current schema."@);
            }
            let r = CodaError::ContractChanged { tool: tool_name.to_owned(), message: string_of(v.as_slice()) };
            proof {
                assert(iv.take(i as int) =~= iv);
            }
            r
        },
        None => {
            let from_result = match body.get("result") {
                Some(r) => r.get_str("error"),
                None => None,
            };
            let message = match from_result {
                Some(m) => m.to_owned(),
                None => match body.get_str("message") {
                    Some(m) => m.to_owned(),
                    None => match body.get_str("statusMessage") {
                        Some(m) => m.to_owned(),
                        None => body.to_text(),
                    },
                },
            };
            CodaError::Api { status, message }
        },
    }
}

/// What a reply of the tool endpoint gives: an error for a status of 400 or
/// more; otherwise the `result` the endpoint wraps the tool's answer in, or the
/// whole body where there is none.
pub open spec fn tool_reply_spec(status: u16, body: JsonV, tool: Seq<char>) -> Result<JsonV, CodaErrorV> {
    if status >= 400 {
        Err(tool_error_spec(status, body, tool))
    } else {
        match body.get("result"@) {
            Some(r) => Ok(r),
            None => Ok(body),
        }
    }
}

/// Reads a reply of the tool endpoint.
pub fn tool_reply(status: u16, body: Json, tool_name: &str) -> (r: Result<Json, CodaError>)
    ensures
        tool_reply_spec(status, body@, tool_name@) matches Ok(v) ==> r matches Ok(x) && x@ == v,
        tool_reply_spec(status, body@, tool_name@) matches Err(e) ==> r matches Err(x) && x@ == e,
{
    if status >= 400 {
        return Err(parse_tool_error(status, &body, tool_name));
    }
    match body.get("result") {
        Some(r) => Ok(r.duplicate()),
        None => Ok(body),
    }
}

/// What probing a tool with an empty payload tells: an authorization failure is
/// an error; a validation reply with details shows the tool exists and its
/// schema; success shows it needs no fields; anything else, that it does not exist.
pub open spec fn probe_spec(status: u16, body: JsonV, tool: Seq<char>) -> Result<JsonV, CodaErrorV> {
    if status == 401 {
        Err(CodaErrorV::Api {
            status: status,
            message: match body.get_str("message"@) { Some(m) => m, None => "Unauthorized"@ },
        })
    } else if status == 400 && body.get("codaDetail"@) is Some {
        Ok(JsonV::Object(seq![
            ("exists"@, JsonV::Bool(true)),
            ("schema"@, body.get("codaDetail"@)->0),
            ("tool"@, jstr(tool)),
        ]))
    } else if status == 200 {
        Ok(JsonV::Object(seq![
            ("exists"@, JsonV::Bool(true)),
            ("note"@, jstr("No required fields"@)),
            ("schema"@, JsonV::Object(seq![("issues"@, JsonV::Array(Seq::empty()))])),
            ("tool"@, jstr(tool)),
        ]))
    } else {
        Ok(JsonV::Object(seq![
            ("error"@, jstr(match body.get_str("message"@) { Some(m) => m, None => "Unknown"@ })),
            ("exists"@, JsonV::Bool(false)),
            ("tool"@, jstr(tool)),
        ]))
    }
}

/// Reads the reply to probing a tool with an empty payload.
pub fn probe_outcome(status: u16, body: &Json, tool_name: &str) -> (r: Result<Json, CodaError>)
    ensures
        probe_spec(status, body@, tool_name@) matches Ok(v) ==> r matches Ok(x) && x@ == v,
        probe_spec(status, body@, tool_name@) matches Err(e) ==> r matches Err(x) && x@ == e,
{
    if status == 401 {
        let message = match body.get_str("message") {
            Some(m) => m.to_owned(),
            None => "Unauthorized".to_owned(),
        };
        return Err(CodaError::Api { status, message });
    }
    let mut es: Vec<(String, Json)> = Vec::new();
    if status == 400 && body.get("codaDetail").is_some() {
        push_entry(&mut es, "exists", Json::Bool(true));
        push_entry(&mut es, "schema", body.get_or_null("codaDetail"));
        push_entry(&mut es, "tool", Json::str(tool_name));
    } else if status == 200 {
        let mut schema: Vec<(String, Json)> = Vec::new();
        let empty: Vec<Json> = Vec::new();
        assert(items_view(empty@) =~= Seq::<JsonV>::empty());
        push_entry(&mut schema, "issues", array_of(empty));
        assert(entries_view(schema@) =~= seq![("issues"@, JsonV::Array(Seq::empty()))]);
        push_entry(&mut es, "exists", Json::Bool(true));
        push_entry(&mut es, "note", Json::str("No required fields"));
        push_entry(&mut es, "schema", object_of(schema));
        push_entry(&mut es, "tool", Json::str(tool_name));
    } else {
        match body.get_str("message") {
            Some(m) => push_entry(&mut es, "error", Json::str(m)),
            None => push_entry(&mut es, "error", Json::str("Unknown")),
        }
        push_entry(&mut es, "exists", Json::Bool(false));
        push_entry(&mut es, "tool", Json::str(tool_name));
    }
    assert(entries_view(es@) =~= probe_spec(status, body@, tool_name@)->Ok_0->Object_0);
    Ok(object_of(es))
}

/// The request that lists the tools of the MCP endpoint.
pub fn tools_list_request() -> (r: Json)
    ensures
        r@ == JsonV::Object(seq![
            ("id"@, JsonV::Number(seq!['1'])),
            ("jsonrpc"@, jstr("2.0"@)),
            ("method"@, jstr("tools/list"@)),
            ("params"@, JsonV::Object(Seq::empty())),
        ]),
{
    let mut es: Vec<(String, Json)> = Vec::new();
    push_entry(&mut es, "id", Json::Number("1".to_owned()));
    push_entry(&mut es, "jsonrpc", Json::str("2.0"));
    push_entry(&mut es, "method", Json::str("tools/list"));
    push_entry(&mut es, "params", Json::empty_object());
    proof {
        reveal_strlit("1");
        assert("1"@ =~= seq!['1']);
    }
    assert(entries_view(es@) =~= seq![
        ("id"@, JsonV::Number(seq!['1'])),
        ("jsonrpc"@, jstr("2.0"@)),
        ("method"@, jstr("tools/list"@)),
        ("params"@, JsonV::Object(Seq::empty())),
    ]);
    object_of(es)
}

/// The data of the server-sent events in a stream: each line that starts with
/// `data:`, without that prefix and trimmed.
pub open spec fn sse_data(lines: Seq<Seq<char>>) -> Seq<Seq<char>>
    decreases lines.len(),
{
    if lines.len() == 0 {
        Seq::empty()
    } else {
        let rest = sse_data(lines.drop_last());
        let l = lines.last();
        if starts_with(l, "data:"@) {
            rest.push(trim(l.skip(5)))
        } else {
            rest
        }
    }
}

/// The data of the server-sent events in a response body.
pub fn sse_data_payloads(text: &str) -> (r: Vec<String>)
    ensures
        string_views(r@) == sse_data(split_char(text@, '\n')),
{
    let tc = chars_of(text);
    let lines = split_exec(tc.as_slice(), '\n');
    let ghost lv = views(lines@);
    let prefix = chars_of("data:");
    proof { reveal_strlit("data:"); }
    let mut out: Vec<String> = Vec::new();
    let mut i: usize = 0;
    assert(lv.take(0) =~= Seq::<Seq<char>>::empty());
    assert(string_views(out@) =~= Seq::<Seq<char>>::empty());
    while i < lines.len()
        invariant
            i <= lines.len(),
            lv == views(lines@),
            prefix@ == "data:"@,
            prefix@.len() == 5,
            string_views(out@) == sse_data(lv.take(i as int)),
        decreases lines.len() - i,
    {
        let l = &lines[i];
        assert(lv.take(i + 1).drop_last() =~= lv.take(i as int));
        assert(lv.take(i + 1).last() == l@);
        if starts_with_exec(l.as_slice(), prefix.as_slice()) {
            let rest = slice_vec(l.as_slice(), 5, l.len());
            assert(rest@ =~= l@.skip(5));
            let t = trim_chars(rest.as_slice());
            let ghost before = out@;
            out.push(string_of(t.as_slice()));
            assert(string_views(out@) =~= string_views(before).push(t@));
        }
        i = i + 1;
    }
    assert(lv.take(i as int) =~= lv);
    out
}

/// The tools a message of the MCP endpoint lists, when it lists them.
pub open spec fn message_tools(msg: JsonV) -> Option<Seq<JsonV>> {
    match msg.get("result"@) {
        Some(r) => r.get_array("tools"@),
        None => None,
    }
}

/// The tools listed by the first of the messages that lists any; the messages
/// that could not be read as JSON count for nothing.
pub open spec fn first_tools(msgs: Seq<Option<JsonV>>) -> Option<Seq<JsonV>>
    decreases msgs.len(),
{
    if msgs.len() == 0 {
        None
    } else {
        match msgs[0] {
            Some(m) => match message_tools(m) {
                Some(t) => Some(t),
                None => first_tools(msgs.drop_first()),
            },
            None => first_tools(msgs.drop_first()),
        }
    }
}

pub open spec fn opt_json_views(v: Seq<Option<Json>>) -> Seq<Option<JsonV>> {
    v.map_values(|m: Option<Json>| match m { Some(x) => Some(x@), None => None })
}

/// The tool list of a `tools/list` reply, from its events' messages in order.
pub fn tools_from_messages(status: u16, msgs: &Vec<Option<Json>>) -> (r: Result<Vec<Json>, CodaError>)
    ensures
        status == 401 ==> (r matches Err(e) && e@ == CodaErrorV::Api {
            status: 401,
            message: "Invalid token. Generate an MCP-scoped token at https://coda.io/account"@,
        }),
        status != 401 ==> match first_tools(opt_json_views(msgs@)) {
            Some(t) => r matches Ok(v) && items_view(v@) == t,
            None => r matches Err(e) && e@ == CodaErrorV::Other("Failed to fetch tool list from MCP endpoint"@),
        },
{
    if status == 401 {
        return Err(CodaError::Api {
            status,
            message: "Invalid token. Generate an MCP-scoped token at https://coda.io/account".to_owned(),
        });
    }
    let ghost mv = opt_json_views(msgs@);
    let mut i: usize = 0;
    assert(mv.skip(0) =~= mv);
    while i < msgs.len()
        invariant
            i <= msgs.len(),
            status != 401,
            mv == opt_json_views(msgs@),
            first_tools(mv) == first_tools(mv.skip(i as int)),
        decreases msgs.len() - i,
    {
        assert(mv.skip(i as int).drop_first() =~= mv.skip(i + 1));
        assert(mv.skip(i as int)[0] == match msgs@[i as int] { Some(x) => Some(x@), None => None });
        match &msgs[i] {
            Some(m) => {
                let tools = match m.get("result") {
                    Some(r) => r.get_array("tools"),
                    None => None,
                };
                match tools {
                    Some(t) => {
                        let mut copy: Vec<Json> = Vec::new();
                        let mut k: usize = 0;
                        while k < t.len()
                            invariant
                                k <= t.len(),
                                items_view(copy@) == items_view(t@).take(k as int),
                            decreases t.len() - k,
                        {
                            push_item(&mut copy, t[k].duplicate());
                            k = k + 1;
                            assert(items_view(copy@) =~= items_view(t@).take(k as int));
                        }
                        assert(items_view(t@).take(k as int) =~= items_view(t@));
                        return Ok(copy);
                    },
                    None => {},
                }
            },
            None => {},
        }
        i = i + 1;
    }
    assert(mv.skip(i as int) =~= Seq::<Option<JsonV>>::empty());
    Err(CodaError::Other("Failed to fetch tool list from MCP endpoint".to_owned()))
}

/// The number of pages a result is followed to at most.
pub const MAX_PAGES: usize = 50;

/// What following pages tells the user, if anything.
#[derive(PartialEq, Eq, Structural, Clone, Copy)]
pub enum PageNotice {
    Nothing,
    /// Stopped at the page limit; the result may be partial.
    Stopped,
    /// A next page could not be fetched; the result may be partial.
    FetchFailed,
}

impl PageNotice {
    /// The informational message of the notice; empty for none.
    pub fn message(&self) -> (r: &'static str)
        ensures
            *self == PageNotice::Nothing ==> r@ == Seq::<char>::empty(),
            *self == PageNotice::Stopped ==> r@ == "[paginate] Stopped after 50 pages. Results may be partial.\n"@,
            *self == PageNotice::FetchFailed ==> r@ == "[paginate] Error fetching next page. Results may be partial.\n"@,
    {
        match self {
            PageNotice::Nothing => {
                proof { reveal_strlit(""); }
                ""
            },
            PageNotice::Stopped => "[paginate] Stopped after 50 pages. Results may be partial.\n",
            PageNotice::FetchFailed => "[paginate] Error fetching next page. Results may be partial.\n",
        }
    }
}

/// The state of following the pages of one result.
pub struct Paginator {
    pub payload: Json,
    pub result: Json,
    pub pages: usize,
    pub done: bool,
}

pub struct PaginatorV {
    pub payload: JsonV,
    pub result: JsonV,
    pub pages: nat,
    pub done: bool,
}

impl View for Paginator {
    type V = PaginatorV;

    open spec fn view(&self) -> PaginatorV {
        PaginatorV { payload: self.payload@, result: self.result@, pages: self.pages as nat, done: self.done }
    }
}

/// What to do next: fetch a page with this payload, or stop with this result.
pub enum PageStep {
    Fetch(Json),
    Done(Json, PageNotice),
}

pub enum PageStepV {
    Fetch(JsonV),
    Done(JsonV, PageNotice),
}

impl View for PageStep {
    type V = PageStepV;

    open spec fn view(&self) -> PageStepV {
        match self {
            PageStep::Fetch(p) => PageStepV::Fetch(p@),
            PageStep::Done(r, n) => PageStepV::Done(r@, *n),
        }
    }
}

/// The token of the next page, when a result has a non-empty one.
pub open spec fn next_token(r: JsonV) -> Option<Seq<char>> {
    match r.get_str("nextPageToken"@) {
        Some(t) => if t.len() > 0 { Some(t) } else { None },
        None => None,
    }
}

/// An object with a key set; anything else as it is.
pub open spec fn set_key(v: JsonV, key: Seq<char>, x: JsonV) -> JsonV {
    match v {
        JsonV::Object(es) => JsonV::Object(obj_insert(es, key, x)),
        _ => v,
    }
}

/// An object without a key; anything else as it is.
pub open spec fn drop_key(v: JsonV, key: Seq<char>) -> JsonV {
    match v {
        JsonV::Object(es) => JsonV::Object(obj_remove(es, key)),
        _ => v,
    }
}

/// The result with a next page's items appended to its own, where both have
/// an array of items.
pub open spec fn merged_items(result: JsonV, next: JsonV) -> JsonV {
    match next.get_array("items"@) {
        Some(b) => match result.get_array("items"@) {
            Some(a) => set_key(result, "items"@, JsonV::Array(a + b)),
            None => result,
        },
        None => result,
    }
}

/// The final result: without its token once pages were followed.
pub open spec fn final_result(result: JsonV, pages: nat) -> JsonV {
    if pages > 0 { drop_key(result, "nextPageToken"@) } else { result }
}

/// From a result, the next page to fetch, or the end.
pub open spec fn page_check(s: PaginatorV) -> (PaginatorV, PageStepV) {
    match next_token(s.result) {
        None => (PaginatorV { done: true, ..s }, PageStepV::Done(final_result(s.result, s.pages), PageNotice::Nothing)),
        Some(t) => {
            if s.pages + 1 >= 50 {
                (
                    PaginatorV { done: true, pages: s.pages + 1, ..s },
                    PageStepV::Done(final_result(s.result, s.pages + 1), PageNotice::Stopped),
                )
            } else {
                (
                    PaginatorV { pages: s.pages + 1, ..s },
                    PageStepV::Fetch(set_key(s.payload, "pageToken"@, JsonV::Str(t))),
                )
            }
        },
    }
}

/// What a fetched page, or its failure, leads to.
pub open spec fn page_next(s: PaginatorV, outcome: Result<JsonV, CodaError>) -> (PaginatorV, PageStepV) {
    match outcome {
        Err(_) => (PaginatorV { done: true, ..s }, PageStepV::Done(final_result(s.result, s.pages), PageNotice::FetchFailed)),
        Ok(n) => {
            let r1 = merged_items(s.result, n);
            match next_token(n) {
                Some(t) => page_check(PaginatorV { result: set_key(r1, "nextPageToken"@, JsonV::Str(t)), ..s }),
                None => {
                    let r2 = drop_key(r1, "nextPageToken"@);
                    (PaginatorV { done: true, result: r2, ..s }, PageStepV::Done(final_result(r2, s.pages), PageNotice::Nothing))
                },
            }
        },
    }
}

/// The paging run from a state and its step, handed the pages in turn for as
/// long as it asks for more: the state and step it ends with, and how many of
/// the pages it took.
pub open spec fn page_run(s: PaginatorV, st: PageStepV, replies: Seq<JsonV>) -> (PaginatorV, PageStepV, nat)
    decreases replies.len(),
{
    if replies.len() == 0 || !(st is Fetch) {
        (s, st, 0)
    } else {
        let (s2, st2) = page_next(s, Ok(replies[0]));
        let (s3, st3, n) = page_run(s2, st2, replies.drop_first());
        (s3, st3, n + 1)
    }
}

/// The items of the pages, in order.
pub open spec fn items_concat(rs: Seq<JsonV>) -> Seq<JsonV>
    decreases rs.len(),
{
    if rs.len() == 0 {
        Seq::empty()
    } else {
        items_concat(rs.drop_last()) + match rs.last().get_array("items"@) { Some(b) => b, None => Seq::empty() }
    }
}

proof fn lemma_key_names()
    ensures
        "items"@ != "nextPageToken"@,
{
    reveal_strlit("items");
    reveal_strlit("nextPageToken");
    assert("items"@[0] != "nextPageToken"@[0]);
}

proof fn lemma_items_set_other(v: JsonV, key: Seq<char>, x: JsonV)
    requires
        key != "items"@,
    ensures
        set_key(v, key, x).get_array("items"@) == v.get_array("items"@),
        drop_key(v, key).get_array("items"@) == v.get_array("items"@),
{
    if let JsonV::Object(es) = v {
        crate::json::lemma_lookup_insert_other(es, key, x, "items"@);
        crate::json::lemma_lookup_remove_other(es, key, "items"@);
    }
}

/// An object none of whose keys stands twice.
pub open spec fn distinct_object(v: JsonV) -> bool {
    match v {
        JsonV::Object(es) => crate::json::keys_distinct(es),
        _ => false,
    }
}

proof fn lemma_set_key_distinct(v: JsonV, key: Seq<char>, x: JsonV)
    requires
        distinct_object(v),
    ensures
        distinct_object(set_key(v, key, x)),
{
    crate::json::lemma_insert_distinct(v->Object_0, key, x);
}

proof fn lemma_token_dropped(v: JsonV)
    requires
        distinct_object(v),
    ensures
        drop_key(v, "nextPageToken"@).get("nextPageToken"@) is None,
        drop_key(drop_key(v, "nextPageToken"@), "nextPageToken"@) == drop_key(v, "nextPageToken"@),
{
    let es = v->Object_0;
    crate::json::lemma_remove_gone(es, "nextPageToken"@);
    crate::json::lemma_remove_absent(crate::json::obj_remove(es, "nextPageToken"@), "nextPageToken"@);
}

proof fn lemma_page_check_items(s: PaginatorV)
    requires
        !s.done,
    ensures
        ({
            let (s2, st2) = page_check(s);
            &&& s2.result == s.result
            &&& s2.payload == s.payload
            &&& (st2 matches PageStepV::Done(r, _) ==> r.get_array("items"@) == s.result.get_array("items"@))
            &&& (st2 is Fetch ==> s2.pages == s.pages + 1 && s2.pages < 50 && !s2.done)
            &&& (st2 matches PageStepV::Fetch(p) ==> next_token(s.result) matches Some(t)
                    && p == set_key(s.payload, "pageToken"@, JsonV::Str(t)))
            &&& (distinct_object(s.result) && (s.pages > 0 || next_token(s.result) is Some) ==>
                    (st2 matches PageStepV::Done(r, _) ==> r.get("nextPageToken"@) is None))
        }),
{
    lemma_key_names();
    lemma_items_set_other(s.result, "nextPageToken"@, JsonV::Null);
    if distinct_object(s.result) {
        lemma_token_dropped(s.result);
    }
}

proof fn lemma_page_step_items(s: PaginatorV, reply: JsonV, a: Seq<JsonV>, b: Seq<JsonV>)
    requires
        !s.done,
        s.result.get_array("items"@) == Some(a),
        reply.get_array("items"@) == Some(b),
    ensures
        ({
            let (s2, st2) = page_next(s, Ok(reply));
            &&& s2.result.get_array("items"@) == Some(a + b)
            &&& s2.payload == s.payload
            &&& (st2 matches PageStepV::Done(r, _) ==> r.get_array("items"@) == Some(a + b))
            &&& (st2 is Fetch ==> s2.pages == s.pages + 1 && s2.pages < 50 && !s2.done)
            &&& (st2 matches PageStepV::Fetch(p) ==> next_token(s2.result) matches Some(t)
                    && p == set_key(s.payload, "pageToken"@, JsonV::Str(t)))
            &&& (distinct_object(s.result) && s.pages >= 1 ==>
                    (st2 is Fetch ==> distinct_object(s2.result))
                    && (st2 matches PageStepV::Done(r, _) ==> r.get("nextPageToken"@) is None))
        }),
{
    lemma_key_names();
    if distinct_object(s.result) {
        lemma_set_key_distinct(s.result, "items"@, JsonV::Array(a + b));
        let r1 = merged_items(s.result, reply);
        match next_token(reply) {
            Some(t) => {
                lemma_set_key_distinct(r1, "nextPageToken"@, JsonV::Str(t));
            },
            None => {
                lemma_token_dropped(r1);
            },
        }
    }
    let es = s.result->Object_0;
    crate::json::lemma_lookup_insert_same(es, "items"@, JsonV::Array(a + b));
    let r1 = merged_items(s.result, reply);
    assert(r1.get_array("items"@) == Some(a + b));
    match next_token(reply) {
        Some(t) => {
            let r2 = set_key(r1, "nextPageToken"@, JsonV::Str(t));
            lemma_items_set_other(r1, "nextPageToken"@, JsonV::Str(t));
            lemma_page_check_items(PaginatorV { result: r2, ..s });
        },
        None => {
            lemma_items_set_other(r1, "nextPageToken"@, JsonV::Null);
            let r2 = drop_key(r1, "nextPageToken"@);
            lemma_items_set_other(r2, "nextPageToken"@, JsonV::Null);
        },
    }
}

proof fn lemma_page_run(s: PaginatorV, st: PageStepV, replies: Seq<JsonV>, a: Seq<JsonV>)
    requires
        s.result.get_array("items"@) == Some(a),
        forall|i: int| 0 <= i < replies.len() ==> (#[trigger] replies[i]).get_array("items"@) is Some,
        st is Fetch ==> 1 <= s.pages < 50 && !s.done,
        st matches PageStepV::Done(r, _) ==> r.get_array("items"@) == Some(a),
        st matches PageStepV::Fetch(p) ==> next_token(s.result) matches Some(t)
            && p == set_key(s.payload, "pageToken"@, JsonV::Str(t)),
    ensures
        ({
            let (s2, st2, n) = page_run(s, st, replies);
            &&& n <= replies.len()
            &&& (st is Fetch ==> n <= 50 - s.pages)
            &&& (!(st is Fetch) ==> n == 0)
            &&& s2.payload == s.payload
            &&& s2.result.get_array("items"@) == Some(a + items_concat(replies.take(n as int)))
            &&& (st2 matches PageStepV::Done(r, _) ==> r.get_array("items"@) == Some(a + items_concat(replies.take(n as int))))
            &&& (st2 matches PageStepV::Fetch(p) ==> n == replies.len() && (next_token(s2.result) matches Some(t)
                    && p == set_key(s.payload, "pageToken"@, JsonV::Str(t))))
            &&& (distinct_object(s.result) && st is Fetch ==>
                    (st2 matches PageStepV::Done(r, _) ==> r.get("nextPageToken"@) is None))
        }),
    decreases replies.len(),
{
    if replies.len() == 0 || !(st is Fetch) {
        assert(replies.take(0) =~= Seq::<JsonV>::empty());
        assert(a + Seq::<JsonV>::empty() =~= a);
    } else {
        let b = replies[0].get_array("items"@)->0;
        lemma_page_step_items(s, replies[0], a, b);
        let (s2, st2) = page_next(s, Ok(replies[0]));
        let rest = replies.drop_first();
        assert forall|i: int| 0 <= i < rest.len() implies (#[trigger] rest[i]).get_array("items"@) is Some by {
            assert(rest[i] == replies[i + 1]);
        }
        lemma_page_run(s2, st2, rest, a + b);
        let n = page_run(s2, st2, rest).2;
        lemma_items_concat_front(replies, n as int);
        assert((a + b) + items_concat(rest.take(n as int)) =~= a + (b + items_concat(rest.take(n as int))));
    }
}

/// Taking `n + 1` pages concatenates the first page's items with those of the
/// `n` after it.
proof fn lemma_items_concat_front(rs: Seq<JsonV>, n: int)
    requires
        0 <= n < rs.len(),
        rs[0].get_array("items"@) is Some,
    ensures
        items_concat(rs.take(n + 1)) == rs[0].get_array("items"@)->0 + items_concat(rs.drop_first().take(n)),
    decreases n,
{
    let b = rs[0].get_array("items"@)->0;
    if n == 0 {
        let t = rs.take(1);
        assert(t.drop_last() =~= Seq::<JsonV>::empty());
        assert(rs.drop_first().take(0) =~= Seq::<JsonV>::empty());
        assert(b + Seq::<JsonV>::empty() =~= b);
        assert(Seq::<JsonV>::empty() + b =~= b);
    } else {
        lemma_items_concat_front(rs, n - 1);
        let t = rs.take(n + 1);
        assert(t.drop_last() =~= rs.take(n));
        assert(t.last() == rs[n]);
        let u = rs.drop_first().take(n);
        assert(u.drop_last() =~= rs.drop_first().take(n - 1));
        assert(u.last() == rs[n]);
        let tail = match rs[n].get_array("items"@) { Some(x) => x, None => Seq::<JsonV>::empty() };
        assert((b + items_concat(rs.drop_first().take(n - 1))) + tail
            =~= b + (items_concat(rs.drop_first().take(n - 1)) + tail));
    }
}

/// A whole paging run: handed a first page and then the pages it asks for, it
/// asks at most 49 times, each time with the payload and the token of the page
/// before, and ends with a result whose items are the first page's followed by
/// every page's taken, in order, and, where pages were followed, no token. A
/// first page with no token is the result as it is.
pub proof fn law_pagination_run(payload: JsonV, first: JsonV, replies: Seq<JsonV>)
    requires
        first.get_array("items"@) is Some,
        forall|i: int| 0 <= i < replies.len() ==> (#[trigger] replies[i]).get_array("items"@) is Some,
    ensures
        ({
            let (s0, st0) = page_check(PaginatorV { payload: payload, result: first, pages: 0, done: false });
            let (s, st, n) = page_run(s0, st0, replies);
            &&& n <= 49
            &&& n <= replies.len()
            &&& (next_token(first) is None ==> n == 0 && st == PageStepV::Done(first, PageNotice::Nothing))
            &&& (st matches PageStepV::Done(r, _) ==> r.get_array("items"@)
                    == Some(first.get_array("items"@)->0 + items_concat(replies.take(n as int))))
            &&& (st matches PageStepV::Fetch(p) ==> n == replies.len() && (next_token(s.result) matches Some(t)
                    && p == set_key(payload, "pageToken"@, JsonV::Str(t))))
            &&& (distinct_object(first) && next_token(first) is Some ==>
                    (st matches PageStepV::Done(r, _) ==> r.get("nextPageToken"@) is None))
        }),
{
    let a = first.get_array("items"@)->0;
    let init = PaginatorV { payload: payload, result: first, pages: 0, done: false };
    lemma_page_check_items(init);
    let (s0, st0) = page_check(init);
    lemma_page_run(s0, st0, replies, a);
}

fn next_token_exec(r: &Json) -> (t: Option<String>)
    ensures
        match t { Some(x) => Some(x@), None => None } == next_token(r@),
{
    match r.get_str("nextPageToken") {
        Some(t) => {
            if t.is_empty() {
                None
            } else {
                Some(t.to_owned())
            }
        },
        None => None,
    }
}

pub fn set_key_exec(v: &mut Json, key: &str, x: Json)
    ensures
        final(v)@ == set_key(old(v)@, key@, x@),
{
    match v {
        Json::Object(_) => v.insert(key, x),
        _ => {},
    }
}

fn drop_key_exec(v: &mut Json, key: &str)
    ensures
        final(v)@ == drop_key(old(v)@, key@),
{
    match v {
        Json::Object(_) => v.remove(key),
        _ => {},
    }
}

impl Paginator {
    fn check(&mut self) -> (r: PageStep)
        requires
            !old(self).done,
            old(self).pages < 50,
        ensures
            (final(self)@, r@) == page_check(old(self)@),
    {
        match next_token_exec(&self.result) {
            None => {
                self.done = true;
                let mut out = self.result.duplicate();
                if self.pages > 0 {
                    drop_key_exec(&mut out, "nextPageToken");
                }
                PageStep::Done(out, PageNotice::Nothing)
            },
            Some(t) => {
                self.pages = self.pages + 1;
                if self.pages >= MAX_PAGES {
                    self.done = true;
                    let mut out = self.result.duplicate();
                    drop_key_exec(&mut out, "nextPageToken");
                    PageStep::Done(out, PageNotice::Stopped)
                } else {
                    let mut p = self.payload.duplicate();
                    set_key_exec(&mut p, "pageToken", Json::Str(t));
                    PageStep::Fetch(p)
                }
            },
        }
    }

    /// Starts following the pages of a first result, fetched with `payload`.
    pub fn start(payload: Json, first: Json) -> (r: (Paginator, PageStep))
        ensures
            (r.0@, r.1@) == page_check(PaginatorV { payload: payload@, result: first@, pages: 0, done: false }),
            r.0.pages <= 50,
            r.1 is Fetch ==> !r.0.done && r.0.pages < 50,
    {
        let mut p = Paginator { payload, result: first, pages: 0, done: false };
        let step = p.check();
        (p, step)
    }

    /// Hands back the page fetched, or its failure, and says what comes next.
    pub fn next(&mut self, outcome: Result<Json, CodaError>) -> (r: PageStep)
        requires
            !old(self).done,
            old(self).pages < 50,
        ensures
            (final(self)@, r@) == page_next(old(self)@, crate::commands::compound::outcome_view(outcome)),
            final(self).pages <= 50,
            r is Fetch ==> !final(self).done && final(self).pages < 50,
    {
        match outcome {
            Err(_) => {
                self.done = true;
                let mut out = self.result.duplicate();
                if self.pages > 0 {
                    drop_key_exec(&mut out, "nextPageToken");
                }
                PageStep::Done(out, PageNotice::FetchFailed)
            },
            Ok(n) => {
                match n.get_array("items") {
                    Some(b) => {
                        match self.result.get_array("items") {
                            Some(a) => {
                                let mut all: Vec<Json> = Vec::new();
                                let mut i: usize = 0;
                                while i < a.len()
                                    invariant
                                        i <= a.len(),
                                        items_view(all@) == items_view(a@).take(i as int),
                                    decreases a.len() - i,
                                {
                                    push_item(&mut all, a[i].duplicate());
                                    i = i + 1;
                                    assert(items_view(all@) =~= items_view(a@).take(i as int));
                                }
                                let mut k: usize = 0;
                                while k < b.len()
                                    invariant
                                        k <= b.len(),
                                        items_view(all@) == items_view(a@) + items_view(b@).take(k as int),
                                    decreases b.len() - k,
                                {
                                    push_item(&mut all, b[k].duplicate());
                                    k = k + 1;
                                    assert(items_view(all@) =~= items_view(a@) + items_view(b@).take(k as int));
                                }
                                assert(items_view(a@).take(i as int) =~= items_view(a@));
                                assert(items_view(b@).take(k as int) =~= items_view(b@));
                                set_key_exec(&mut self.result, "items", array_of(all));
                            },
                            None => {},
                        }
                    },
                    None => {},
                }
                match next_token_exec(&n) {
                    Some(t) => {
                        set_key_exec(&mut self.result, "nextPageToken", Json::Str(t));
                        self.check()
                    },
                    None => {
                        drop_key_exec(&mut self.result, "nextPageToken");
                        self.done = true;
                        let mut out = self.result.duplicate();
                        if self.pages > 0 {
                            drop_key_exec(&mut out, "nextPageToken");
                        }
                        PageStep::Done(out, PageNotice::Nothing)
                    },
                }
            },
        }
    }
}

} // verus!
