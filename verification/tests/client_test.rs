use coda_cli::client::{parse_tool_error, tool_reply, CodaClient, PageNotice, PageStep, Paginator};
use coda_cli::error::CodaError;
use coda_cli::json::Json;

fn to_json(v: &serde_json::Value) -> Json {
    match v {
        serde_json::Value::Null => Json::Null,
        serde_json::Value::Bool(b) => Json::Bool(*b),
        serde_json::Value::Number(n) => Json::Number(n.to_string()),
        serde_json::Value::String(s) => Json::Str(s.clone()),
        serde_json::Value::Array(a) => Json::Array(a.iter().map(to_json).collect()),
        serde_json::Value::Object(m) => Json::Object(m.iter().map(|(k, x)| (k.clone(), to_json(x))).collect()),
    }
}

/// A value written as JSON text.
fn j(text: &str) -> Json {
    to_json(&serde_json::from_str::<serde_json::Value>(text).expect("test JSON"))
}

fn field<'a>(v: &'a Json, key: &str) -> &'a Json {
    v.get(key).unwrap_or_else(|| panic!("no field {key} in {v:?}"))
}

#[test]
fn parse_tool_not_found_error() {
    let body = j(r#"{"codaDetail": {"issues": [{"discriminator": "toolName", "message": "not found"}]}}"#);
    let err = parse_tool_error(400, &body, "bad_tool");
    match err {
        CodaError::ContractChanged { tool, message } => {
            assert_eq!(tool, "bad_tool");
            assert!(message.contains("not found"), "{message}");
        }
        _ => panic!("Expected ContractChanged, got: {err:?}"),
    }
}

#[test]
fn parse_schema_validation_error() {
    let body = j(r#"{"codaDetail": {"issues": [{"path": ["payload", "docId"], "message": "Field is required"}]}}"#);
    let err = parse_tool_error(400, &body, "table_create");
    match err {
        CodaError::ContractChanged { tool, message } => {
            assert_eq!(tool, "table_create");
            assert!(message.contains("payload.docId"), "{message}");
            assert!(message.contains("Field is required"), "{message}");
        }
        _ => panic!("Expected ContractChanged, got: {err:?}"),
    }
}

#[test]
fn parse_generic_api_error() {
    let body = j(r#"{"message": "Rate limited"}"#);
    let err = parse_tool_error(429, &body, "whoami");
    match err {
        CodaError::Api { status, message } => {
            assert_eq!(status, 429);
            assert_eq!(message, "Rate limited");
        }
        _ => panic!("Expected Api error, got: {err:?}"),
    }
}

#[test]
fn parse_error_with_result_error_field() {
    let body = j(r#"{"result": {"error": "Doc not found"}}"#);
    let err = parse_tool_error(404, &body, "doc_get");
    match err {
        CodaError::Api { message, .. } => assert_eq!(message, "Doc not found"),
        _ => panic!("Expected Api error, got: {err:?}"),
    }
}

#[test]
fn parse_error_fallback_to_json_body() {
    let body = j(r#"{"unexpected": "format"}"#);
    let err = parse_tool_error(500, &body, "whoami");
    match err {
        CodaError::Api { message, .. } => {
            assert!(message.contains("unexpected"), "{message}");
            assert_eq!(message, r#"{"unexpected":"format"}"#);
        }
        _ => panic!("Expected Api error, got: {err:?}"),
    }
}

fn first_step(result: &str) -> PageStep {
    Paginator::start(j(r#"{"uri": "coda://docs/d/tables/t"}"#), j(result)).1
}

#[test]
fn pagination_token_extraction() {
    match first_step(r#"{"items": [], "nextPageToken": "abc123"}"#) {
        PageStep::Fetch(p) => assert_eq!(field(&p, "pageToken"), &j(r#""abc123""#)),
        _ => panic!("a token should ask for the next page"),
    }
    assert!(matches!(first_step(r#"{"items": [], "nextPageToken": null}"#), PageStep::Done(..)), "null token should be None");
    assert!(matches!(first_step(r#"{"items": [], "nextPageToken": ""}"#), PageStep::Done(..)), "empty token should be None");
    assert!(matches!(first_step(r#"{"items": []}"#), PageStep::Done(..)), "missing token should be None");
}

#[test]
fn pagination_merges_pages_and_drops_the_token() {
    let (mut p, step) = Paginator::start(j(r#"{"uri": "u"}"#), j(r#"{"items": [1, 2], "nextPageToken": "t1"}"#));
    assert!(matches!(step, PageStep::Fetch(_)));
    match p.next(Ok(j(r#"{"items": [3]}"#))) {
        PageStep::Done(result, notice) => {
            assert_eq!(result, j(r#"{"items": [1, 2, 3]}"#));
            assert!(notice == PageNotice::Nothing);
        }
        _ => panic!("the last page ends the walk"),
    }
}

#[test]
fn pagination_stops_after_fifty_pages() {
    let (mut p, mut step) = Paginator::start(j(r#"{"uri": "u"}"#), j(r#"{"items": [0], "nextPageToken": "t"}"#));
    let mut fetched = 0;
    loop {
        match step {
            PageStep::Fetch(_) => {
                fetched += 1;
                step = p.next(Ok(j(r#"{"items": [1], "nextPageToken": "t"}"#)));
            }
            PageStep::Done(result, notice) => {
                assert!(notice == PageNotice::Stopped);
                assert!(result.get("nextPageToken").is_none());
                break;
            }
        }
    }
    assert_eq!(fetched, 49);
}

#[test]
fn tool_reply_maps_error_statuses() {
    let ok = tool_reply(200, j(r#"{"name": "me"}"#), "whoami");
    assert_eq!(ok.unwrap(), j(r#"{"name": "me"}"#));
    let err = tool_reply(503, j(r#"{"message": "busy"}"#), "whoami").unwrap_err();
    assert!(err.is_retriable());
}

#[test]
fn dry_run_tool_shows_the_request() {
    let client = CodaClient::new();
    let preview = client.dry_run_tool("whoami", &j("{}")).unwrap();
    assert_eq!(field(&preview, "url"), &j(r#""https://coda.io/apis/mcp/vbeta/tool""#));
    assert_eq!(field(&preview, "method"), &j(r#""POST""#));
    let scoped = client.dry_run_tool("page_read", &j(r#"{"docId": "abc"}"#)).unwrap();
    assert_eq!(field(&scoped, "url"), &j(r#""https://coda.io/apis/mcp/vbeta/docs/abc/tool""#));
    let refused = client.dry_run_tool("page_read", &j(r#"{"docId": "../etc"}"#));
    assert!(matches!(refused, Err(CodaError::Validation(_))));
}
