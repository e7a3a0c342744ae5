use coda_cli::commands::mcp::{
    error_code, error_payload, parse_error_response, read_request, route, rpc_response, tool_call_result, tools_result,
    McpAction,
};
use coda_cli::error::CodaError;
use coda_cli::json::Json;

fn to_json(v: &serde_json::Value) -> Json {
    match v {
        serde_json::Value::Null => Json::Null,
        serde_json::Value::Bool(b) => Json::Bool(*b),
        serde_json::Value::Number(n) => Json::Number(n.to_string()),
        serde_json::Value::String(s) => Json::Str(s.clone()),
        serde_json::Value::Array(a) => Json::Array(a.iter().map(to_json).collect()),
        serde_json::Value::Object(m) => Json::Object(m.iter().map(|(k, x)| (k.clone(), to_json(x))).collect()),
    }
}

/// A value written as JSON text.
fn j(text: &str) -> Json {
    to_json(&serde_json::from_str::<serde_json::Value>(text).expect("test JSON"))
}

fn field<'a>(v: &'a Json, key: &str) -> &'a Json {
    v.get(key).unwrap_or_else(|| panic!("no field {key} in {v:?}"))
}

#[test]
fn error_codes() {
    assert_eq!(error_code(&CodaError::Validation("x".into())), -32602);
    assert_eq!(error_code(&CodaError::NoToken), -32001);
    assert_eq!(error_code(&CodaError::ContractChanged { tool: "t".into(), message: "m".into() }), -32002);
    assert_eq!(error_code(&CodaError::Other("o".into())), -32603);
}

#[test]
fn requests_and_notifications() {
    let r = read_request(&j(r#"{"jsonrpc": "2.0", "id": 7, "method": "tools/list"}"#));
    assert!(!r.notification);
    assert_eq!(r.id, j("7"));
    assert_eq!(r.method, "tools/list");
    assert_eq!(r.params, j("{}"));
    let n = read_request(&j(r#"{"method": "notifications/initialized"}"#));
    assert!(n.notification);
    assert_eq!(n.id, Json::Null);
}

#[test]
fn routing() {
    let tools = vec![j(r#"{"name": "doc_create", "inputSchema": {"required": ["title"]}}"#)];
    match route("initialize", &j("{}"), &tools, "0.3.0") {
        McpAction::Reply(Ok(v)) => {
            assert_eq!(field(&v, "protocolVersion"), &j(r#""2024-11-05""#));
            assert_eq!(field(field(&v, "serverInfo"), "version"), &j(r#""0.3.0""#));
        }
        _ => panic!("initialize answers at once"),
    }
    assert!(matches!(route("tools/list", &j("{}"), &tools, "v"), McpAction::ListTools));
    match route("tools/call", &j(r#"{"name": "doc_create", "arguments": {}}"#), &tools, "v") {
        McpAction::Reply(Err(CodaError::Validation(m))) => assert!(m.contains("title")),
        _ => panic!("missing required fields are refused before the call"),
    }
    match route("tools/call", &j(r#"{"name": "doc_create", "arguments": {"title": "T"}}"#), &tools, "v") {
        McpAction::CallTool { name, args } => {
            assert_eq!(name, "doc_create");
            assert_eq!(args, j(r#"{"title": "T"}"#));
        }
        _ => panic!("a valid call goes out"),
    }
    assert!(matches!(route("tools/call", &j("{}"), &tools, "v"), McpAction::Reply(Err(CodaError::Validation(_)))));
    match route("ping", &j("{}"), &tools, "v") {
        McpAction::Reply(Err(CodaError::Other(m))) => assert_eq!(m, "Method not supported: ping"),
        _ => panic!("unknown methods are refused"),
    }
}

#[test]
fn envelopes() {
    let ok = rpc_response(j("1"), Ok(j(r#"{"x": 1}"#)));
    assert_eq!(ok.to_text(), r#"{"id":1,"jsonrpc":"2.0","result":{"x":1}}"#);
    let err = rpc_response(j("2"), Err(CodaError::NoToken));
    assert_eq!(
        err.to_text(),
        r#"{"error":{"code":-32001,"data":{"type":"auth_required"},"message":"Authentication required. Run `shd auth login` or set CODA_API_TOKEN."},"id":2,"jsonrpc":"2.0"}"#
    );
    assert_eq!(parse_error_response().to_text(), r#"{"error":{"code":-32700,"message":"Parse error"},"id":null,"jsonrpc":"2.0"}"#);
    assert_eq!(tools_result(&vec![j("1")]).to_text(), r#"{"tools":[1]}"#);
    assert_eq!(error_payload(&CodaError::Other("boom".into())).to_text(), r#"{"error":"boom"}"#);
}

#[test]
fn tool_call_results() {
    let ok = tool_call_result(Ok("{\n  \"a\": 1\n}".into()));
    assert_eq!(field(&ok, "isError"), &Json::Bool(false));
    let err = tool_call_result(Err(CodaError::Validation("bad".into())));
    assert_eq!(field(&err, "isError"), &Json::Bool(true));
    let content = field(&err, "content").as_array().unwrap();
    assert_eq!(
        field(&content[0], "text"),
        &Json::Str(r#"{"error":true,"message":"Validation error: bad","type":"validation_error"}"#.into())
    );
}
