//! The decisions of the MCP server over stdio: what a JSON-RPC request asks
//! for, what is answered, and the envelopes the answers travel in.
use vstd::prelude::*;
use crate::error::{CodaError, CodaErrorV, error_type_spec, message_spec};
use crate::json::{Json, JsonV, entries_view, items_view, push_entry, push_item, object_of, array_of, str_eq};
use crate::json_text::json_text;
use crate::schema_cache::{find_tool, find_tool_spec, validate_payload, validate_spec};
use crate::text::{extend_str, string_of};

verus! {

/// The MCP protocol version the server speaks.
pub const PROTOCOL_VERSION: &'static str = "2024-11-05";

/// The JSON-RPC error code of an error: invalid parameters, authentication
/// required, a changed tool contract, or an internal error.
pub open spec fn error_code_spec(e: CodaErrorV) -> int {
    match e {
        CodaErrorV::Validation(_) => -32602,
        CodaErrorV::NoToken => -32001,
        CodaErrorV::ContractChanged { .. } => -32002,
        _ => -32603,
    }
}

pub fn error_code(e: &CodaError) -> (r: i32)
    ensures
        r == error_code_spec(e@),
{
    match e {
        CodaError::Validation(_) => -32602,
        CodaError::NoToken => -32001,
        CodaError::ContractChanged { .. } => -32002,
        _ => -32603,
    }
}

/// The decimal text of a JSON-RPC error code.
pub open spec fn code_text(code: int) -> Seq<char> {
    if code == -32602 {
        "-32602"@
    } else if code == -32001 {
        "-32001"@
    } else if code == -32002 {
        "-32002"@
    } else if code == -32700 {
        "-32700"@
    } else {
        "-32603"@
    }
}

fn code_json(code: i32) -> (r: Json)
    ensures
        r@ == JsonV::Number(code_text(code as int)),
{
    let t = if code == -32602 {
        "-32602"
    } else if code == -32001 {
        "-32001"
    } else if code == -32002 {
        "-32002"
    } else if code == -32700 {
        "-32700"
    } else {
        "-32603"
    };
    Json::Number(t.to_owned())
}

/// A request as the server reads it: whether it is a notification (it has no
/// `id`), its id, its method and its parameters.
pub struct McpRequest {
    pub notification: bool,
    pub id: Json,
    pub method: String,
    pub params: Json,
}

/// The fields of a JSON-RPC request: a missing method reads as empty, missing
/// parameters as an empty object, a missing id as null.
pub open spec fn read_request_spec(req: JsonV) -> (bool, JsonV, Seq<char>, JsonV) {
    (
        req.get("id"@) is None,
        match req.get("id"@) { Some(i) => i, None => JsonV::Null },
        match req.get_str("method"@) { Some(m) => m, None => Seq::empty() },
        match req.get("params"@) { Some(p) => p, None => JsonV::Object(Seq::empty()) },
    )
}

pub fn read_request(req: &Json) -> (r: McpRequest)
    ensures
        (r.notification, r.id@, r.method@, r.params@) == read_request_spec(req@),
{
    let id = req.get("id");
    let notification = id.is_none();
    let id_value = match id { Some(i) => i.duplicate(), None => Json::Null };
    let method = match req.get_str("method") {
        Some(m) => m.to_owned(),
        None => {
            proof { reveal_strlit(""); }
            "".to_owned()
        },
    };
    let params = match req.get("params") { Some(p) => p.duplicate(), None => Json::empty_object() };
    McpRequest { notification, id: id_value, method, params }
}

/// What the server does with a request.
pub enum McpAction {
    /// Answer at once.
    Reply(Result<Json, CodaError>),
    /// Answer with the tools, refreshed first when the cache has expired.
    ListTools,
    /// Call the tool with the arguments, then answer with the outcome.
    CallTool { name: String, args: Json },
}

/// The answer to `initialize`.
pub open spec fn initialize_result(version: Seq<char>) -> JsonV {
    JsonV::Object(seq![
        ("capabilities"@, JsonV::Object(seq![("tools"@, JsonV::Object(Seq::empty()))])),
        ("protocolVersion"@, JsonV::Str("2024-11-05"@)),
        ("serverInfo"@, JsonV::Object(seq![("name"@, JsonV::Str("coda-mcp"@)), ("version"@, JsonV::Str(version))])),
    ])
}

fn initialize_reply(version: &str) -> (r: Json)
    ensures
        r@ == initialize_result(version@),
{
    let mut tools: Vec<(String, Json)> = Vec::new();
    push_entry(&mut tools, "tools", Json::empty_object());
    let mut info: Vec<(String, Json)> = Vec::new();
    push_entry(&mut info, "name", Json::str("coda-mcp"));
    push_entry(&mut info, "version", Json::str(version));
    assert(entries_view(tools@) =~= seq![("tools"@, JsonV::Object(Seq::empty()))]);
    assert(entries_view(info@) =~= seq![("name"@, JsonV::Str("coda-mcp"@)), ("version"@, JsonV::Str(version@))]);
    let mut es: Vec<(String, Json)> = Vec::new();
    push_entry(&mut es, "capabilities", object_of(tools));
    push_entry(&mut es, "protocolVersion", Json::str(PROTOCOL_VERSION));
    push_entry(&mut es, "serverInfo", object_of(info));
    assert(entries_view(es@) =~= initialize_result(version@)->Object_0);
    object_of(es)
}

/// The model of an action.
pub enum McpActionV {
    Reply(Result<JsonV, CodaErrorV>),
    ListTools,
    CallTool { name: Seq<char>, args: JsonV },
}

impl View for McpAction {
    type V = McpActionV;

    open spec fn view(&self) -> McpActionV {
        match self {
            McpAction::Reply(Ok(j)) => McpActionV::Reply(Ok(j@)),
            McpAction::Reply(Err(e)) => McpActionV::Reply(Err(e@)),
            McpAction::ListTools => McpActionV::ListTools,
            McpAction::CallTool { name, args } => McpActionV::CallTool { name: name@, args: args@ },
        }
    }
}

/// What a `tools/call` asks: an error for a missing name or for arguments
/// that the tool's cached schema refuses; the call otherwise.
pub open spec fn tool_call_spec(params: JsonV, tools: Seq<JsonV>) -> McpActionV {
    match params.get_str("name"@) {
        None => McpActionV::Reply(Err(CodaErrorV::Validation("Missing 'name' in tools/call"@))),
        Some(name) => {
            let args = match params.get("arguments"@) { Some(a) => a, None => JsonV::Object(Seq::empty()) };
            let checked = match find_tool_spec(tools, name) {
                Some(i) => validate_spec(tools[i], args),
                None => Ok(()),
            };
            match checked {
                Err(e) => McpActionV::Reply(Err(e)),
                Ok(_) => McpActionV::CallTool { name, args },
            }
        },
    }
}

/// What the server does with a request of the given method.
pub open spec fn route_spec(method: Seq<char>, params: JsonV, tools: Seq<JsonV>, version: Seq<char>) -> McpActionV {
    if method == "initialize"@ {
        McpActionV::Reply(Ok(initialize_result(version)))
    } else if method == "notifications/initialized"@ {
        McpActionV::Reply(Ok(JsonV::Object(Seq::empty())))
    } else if method == "tools/list"@ {
        McpActionV::ListTools
    } else if method == "tools/call"@ {
        tool_call_spec(params, tools)
    } else {
        McpActionV::Reply(Err(CodaErrorV::Other("Method not supported: "@ + method)))
    }
}

/// Decides what to do with a request: answer the handshake, list the tools,
/// check and call a tool, or refuse an unknown method.
pub fn route(method: &str, params: &Json, tools: &Vec<Json>, version: &str) -> (r: McpAction)
    ensures
        r@ == route_spec(method@, params@, items_view(tools@), version@),
{
    if str_eq(method, "initialize") {
        return McpAction::Reply(Ok(initialize_reply(version)));
    }
    if str_eq(method, "notifications/initialized") {
        return McpAction::Reply(Ok(Json::empty_object()));
    }
    if str_eq(method, "tools/list") {
        return McpAction::ListTools;
    }
    if str_eq(method, "tools/call") {
        let name = match params.get_str("name") {
            Some(n) => n,
            None => return McpAction::Reply(Err(CodaError::Validation("Missing 'name' in tools/call".to_owned()))),
        };
        let args = match params.get("arguments") { Some(a) => a.duplicate(), None => Json::empty_object() };
        match find_tool(tools.as_slice(), name) {
            Some(schema) => {
                proof { crate::schema_cache::lemma_find_tool_bounds(items_view(tools@), name@); }
                match validate_payload(schema, &args) {
                    Err(e) => return McpAction::Reply(Err(e)),
                    Ok(_) => {},
                }
            },
            None => {},
        }
        return McpAction::CallTool { name: name.to_owned(), args };
    }
    let mut v: Vec<char> = Vec::new();
    extend_str(&mut v, "Method not supported: ");
    extend_str(&mut v, method);
    McpAction::Reply(Err(CodaError::Other(string_of(v.as_slice()))))
}

/// The answer to `tools/list`.
pub open spec fn tools_result_spec(tools: Seq<JsonV>) -> JsonV {
    JsonV::Object(seq![("tools"@, JsonV::Array(tools))])
}

pub fn tools_result(tools: &Vec<Json>) -> (r: Json)
    ensures
        r@ == tools_result_spec(items_view(tools@)),
{
    let mut items: Vec<Json> = Vec::new();
    let mut i: usize = 0;
    while i < tools.len()
        invariant
            i <= tools.len(),
            items_view(items@) == items_view(tools@).take(i as int),
        decreases tools.len() - i,
    {
        push_item(&mut items, tools[i].duplicate());
        assert(items_view(items@) =~= items_view(tools@).take(i + 1));
        i = i + 1;
    }
    assert(items_view(tools@).take(tools.len() as int) =~= items_view(tools@));
    let mut es: Vec<(String, Json)> = Vec::new();
    push_entry(&mut es, "tools", array_of(items));
    assert(entries_view(es@) =~= tools_result_spec(items_view(tools@))->Object_0);
    object_of(es)
}

/// The error of a failed tool call as an agent reads it.
pub open spec fn error_report(e: CodaErrorV, kind: Seq<char>, message: Seq<char>) -> JsonV {
    JsonV::Object(seq![
        ("error"@, JsonV::Bool(true)),
        ("message"@, JsonV::Str(message)),
        ("type"@, JsonV::Str(kind)),
    ])
}

/// The answer to a tool call: the pretty JSON text of the result, or the
/// compact JSON text of the error report, flagged as an error.
pub open spec fn tool_call_result_spec(text: Seq<char>, is_error: bool) -> JsonV {
    JsonV::Object(seq![
        ("content"@, JsonV::Array(seq![JsonV::Object(seq![("text"@, JsonV::Str(text)), ("type"@, JsonV::Str("text"@))])])),
        ("isError"@, JsonV::Bool(is_error)),
    ])
}

fn content_reply(text: String, is_error: bool) -> (r: Json)
    ensures
        r@ == tool_call_result_spec(text@, is_error),
{
    let mut item: Vec<(String, Json)> = Vec::new();
    push_entry(&mut item, "text", Json::Str(text));
    push_entry(&mut item, "type", Json::str("text"));
    let mut content: Vec<Json> = Vec::new();
    assert(entries_view(item@) =~= seq![("text"@, JsonV::Str(text@)), ("type"@, JsonV::Str("text"@))]);
    push_item(&mut content, object_of(item));
    assert(items_view(content@) =~= seq![JsonV::Object(seq![("text"@, JsonV::Str(text@)), ("type"@, JsonV::Str("text"@))])]);
    let mut es: Vec<(String, Json)> = Vec::new();
    push_entry(&mut es, "content", array_of(content));
    push_entry(&mut es, "isError", Json::Bool(is_error));
    assert(entries_view(es@) =~= tool_call_result_spec(text@, is_error)->Object_0);
    object_of(es)
}

/// The answer to a tool call, given the pretty text of its result or its
/// error.
pub fn tool_call_result(outcome: Result<String, CodaError>) -> (r: Json)
    ensures
        match outcome {
            Ok(text) => r@ == tool_call_result_spec(text@, false),
            Err(e) => r@ == tool_call_result_spec(
                json_text(error_report(e@, error_type_spec(e), message_spec(e))), true),
        },
{
    match outcome {
        Ok(text) => content_reply(text, false),
        Err(e) => {
            let mut es: Vec<(String, Json)> = Vec::new();
            push_entry(&mut es, "error", Json::Bool(true));
            push_entry(&mut es, "message", Json::Str(e.message()));
            push_entry(&mut es, "type", Json::str(e.error_type()));
            assert(entries_view(es@) =~= error_report(e@, error_type_spec(e), message_spec(e))->Object_0);
            let report = object_of(es);
            content_reply(report.to_text(), true)
        },
    }
}

/// The payload that the trace records for a failed call.
pub open spec fn error_payload_spec(message: Seq<char>) -> JsonV {
    JsonV::Object(seq![("error"@, JsonV::Str(message))])
}

pub fn error_payload(e: &CodaError) -> (r: Json)
    ensures
        r@ == error_payload_spec(message_spec(*e)),
{
    let mut es: Vec<(String, Json)> = Vec::new();
    push_entry(&mut es, "error", Json::Str(e.message()));
    assert(entries_view(es@) =~= error_payload_spec(message_spec(*e))->Object_0);
    object_of(es)
}

/// The JSON-RPC envelope of an answer: the result, or the error with its
/// code, message and type.
pub open spec fn rpc_response_spec(id: JsonV, result: Result<JsonV, CodaErrorV>, kind: Seq<char>, message: Seq<char>) -> JsonV {
    match result {
        Ok(res) => JsonV::Object(seq![("id"@, id), ("jsonrpc"@, JsonV::Str("2.0"@)), ("result"@, res)]),
        Err(e) => JsonV::Object(seq![
            ("error"@, JsonV::Object(seq![
                ("code"@, JsonV::Number(code_text(error_code_spec(e)))),
                ("data"@, JsonV::Object(seq![("type"@, JsonV::Str(kind))])),
                ("message"@, JsonV::Str(message)),
            ])),
            ("id"@, id),
            ("jsonrpc"@, JsonV::Str("2.0"@)),
        ]),
    }
}

pub fn rpc_response(id: Json, result: Result<Json, CodaError>) -> (r: Json)
    ensures
        match result {
            Ok(res) => r@ == rpc_response_spec(id@, Ok(res@), Seq::empty(), Seq::empty()),
            Err(e) => r@ == rpc_response_spec(id@, Err(e@), error_type_spec(e), message_spec(e)),
        },
{
    let ghost idv = id@;
    match result {
        Ok(res) => {
            let ghost rv = res@;
            let mut es: Vec<(String, Json)> = Vec::new();
            push_entry(&mut es, "id", id);
            push_entry(&mut es, "jsonrpc", Json::str("2.0"));
            push_entry(&mut es, "result", res);
            assert(entries_view(es@) =~= rpc_response_spec(idv, Ok(rv), Seq::empty(), Seq::empty())->Object_0);
            object_of(es)
        },
        Err(e) => {
            let mut data: Vec<(String, Json)> = Vec::new();
            push_entry(&mut data, "type", Json::str(e.error_type()));
            let mut err: Vec<(String, Json)> = Vec::new();
            let code = error_code(&e);
            push_entry(&mut err, "code", code_json(code));
            push_entry(&mut err, "data", object_of(data));
            push_entry(&mut err, "message", Json::Str(e.message()));
            assert(entries_view(data@) =~= seq![("type"@, JsonV::Str(error_type_spec(e)))]);
            assert(entries_view(err@) =~= seq![
                ("code"@, JsonV::Number(code_text(error_code_spec(e@)))),
                ("data"@, JsonV::Object(seq![("type"@, JsonV::Str(error_type_spec(e)))])),
                ("message"@, JsonV::Str(message_spec(e))),
            ]);
            let mut es: Vec<(String, Json)> = Vec::new();
            push_entry(&mut es, "error", object_of(err));
            push_entry(&mut es, "id", id);
            push_entry(&mut es, "jsonrpc", Json::str("2.0"));
            assert(entries_view(es@) =~= rpc_response_spec(idv, Err(e@), error_type_spec(e), message_spec(e))->Object_0);
            object_of(es)
        },
    }
}

/// The answer to a line that is not JSON.
pub open spec fn parse_error_spec() -> JsonV {
    JsonV::Object(seq![
        ("error"@, JsonV::Object(seq![("code"@, JsonV::Number("-32700"@)), ("message"@, JsonV::Str("Parse error"@))])),
        ("id"@, JsonV::Null),
        ("jsonrpc"@, JsonV::Str("2.0"@)),
    ])
}

pub fn parse_error_response() -> (r: Json)
    ensures
        r@ == parse_error_spec(),
{
    let mut err: Vec<(String, Json)> = Vec::new();
    push_entry(&mut err, "code", code_json(-32700));
    push_entry(&mut err, "message", Json::str("Parse error"));
    assert(entries_view(err@) =~= seq![("code"@, JsonV::Number("-32700"@)), ("message"@, JsonV::Str("Parse error"@))]);
    let mut es: Vec<(String, Json)> = Vec::new();
    push_entry(&mut es, "error", object_of(err));
    push_entry(&mut es, "id", Json::Null);
    push_entry(&mut es, "jsonrpc", Json::str("2.0"));
    assert(entries_view(es@) =~= parse_error_spec()->Object_0);
    object_of(es)
}

} // verus!
