use coda_cli::json::Json;
use coda_cli::schema_cache::{expired_at, find_tool, is_expired, validate_payload, CachedTools};

fn to_json(v: &serde_json::Value) -> Json {
    match v {
        serde_json::Value::Null => Json::Null,
        serde_json::Value::Bool(b) => Json::Bool(*b),
        serde_json::Value::Number(n) => Json::Number(n.to_string()),
        serde_json::Value::String(s) => Json::Str(s.clone()),
        serde_json::Value::Array(a) => Json::Array(a.iter().map(to_json).collect()),
        serde_json::Value::Object(m) => Json::Object(m.iter().map(|(k, x)| (k.clone(), to_json(x))).collect()),
    }
}

/// A value written as JSON text.
fn j(text: &str) -> Json {
    to_json(&serde_json::from_str::<serde_json::Value>(text).expect("test JSON"))
}

fn field<'a>(v: &'a Json, key: &str) -> &'a Json {
    v.get(key).unwrap_or_else(|| panic!("no field {key} in {v:?}"))
}

/// 2026-01-02T00:00:00Z as seconds since the epoch.
const NOW: i64 = 1_767_312_000;

#[test]
fn find_tool_by_name() {
    let tools = vec![j(r#"{"name": "whoami"}"#), j(r#"{"name": "doc_create"}"#)];
    assert!(find_tool(&tools, "whoami").is_some());
    assert!(find_tool(&tools, "nonexistent").is_none());
    assert_eq!(find_tool(&tools, "doc_create").unwrap(), &tools[1]);
}

#[test]
fn expired_cache_returns_none() {
    let cached = CachedTools { tools: vec![j(r#"{"name": "whoami"}"#)], fetched_at: "2025-12-31T23:00:00+00:00".to_string() };
    assert!(is_expired(&cached, NOW, 0), "expired cache should return None");
}

#[test]
fn fresh_cache_returns_some() {
    let cached = CachedTools { tools: vec![j(r#"{"name": "whoami"}"#)], fetched_at: "2026-01-01T23:59:00Z".to_string() };
    assert!(!is_expired(&cached, NOW, 0), "fresh cache should return Some");
}

#[test]
fn unreadable_timestamp_counts_as_expired() {
    let cached = CachedTools { tools: vec![], fetched_at: "yesterday".to_string() };
    assert!(is_expired(&cached, NOW, 0));
}

#[test]
fn expiry_boundary_is_exactly_one_day() {
    let day = 24 * 3600;
    assert!(!expired_at(Some((NOW - day, 0)), NOW, 0));
    assert!(expired_at(Some((NOW - day, 0)), NOW, 1));
    assert!(expired_at(None, NOW, 0));
}

#[test]
fn validate_payload_passes_when_all_required_present() {
    let schema = j(r#"{"inputSchema": {"required": ["docId", "name"]}}"#);
    let payload = j(r#"{"docId": "abc", "name": "test", "extra": true}"#);
    assert!(validate_payload(&schema, &payload).is_ok());
}

#[test]
fn validate_payload_fails_on_missing_required() {
    let schema = j(r#"{"inputSchema": {"required": ["docId", "name"]}}"#);
    let payload = j(r#"{"docId": "abc"}"#);
    let err = validate_payload(&schema, &payload).err().unwrap();
    let msg = err.message();
    assert!(msg.contains("name"), "error should mention missing field: {msg}");
}

#[test]
fn validate_payload_includes_schema_hints() {
    let schema = j(r#"{"inputSchema": {"required": ["docId", "name"], "properties": {
        "docId": {"type": "string", "description": "ID of the doc"},
        "name": {"type": "string", "description": "Name of the table"}}}}"#);
    let payload = j("{}");
    let err = validate_payload(&schema, &payload).err().unwrap();
    let msg = err.message();
    assert!(msg.contains("string"), "should include type hint: {msg}");
    assert!(msg.contains("ID of the doc"), "should include description: {msg}");
}

#[test]
fn validate_payload_passes_with_no_required() {
    let schema = j(r#"{"inputSchema": {}}"#);
    assert!(validate_payload(&schema, &j("{}")).is_ok());
    let schema_no_input = j(r#"{"name": "whoami"}"#);
    assert!(validate_payload(&schema_no_input, &j("{}")).is_ok());
}

#[test]
fn validation_names_every_missing_field() {
    let schema = j(r#"{"inputSchema": {"required": ["docId", "name", "rows"], "properties": {"name": {"type": "string"}}}}"#);
    let err = validate_payload(&schema, &j(r#"{"rows": []}"#)).unwrap_err();
    match err {
        coda_cli::error::CodaError::Validation(m) => {
            assert!(m.contains("docId"));
            assert!(m.contains("name (string)"));
            assert!(!m.contains("rows"));
        }
        _ => panic!("a validation error"),
    }
    assert!(validate_payload(&schema, &j(r#"{"docId": 1, "name": 2, "rows": 3, "x": 4}"#)).is_ok());
}
