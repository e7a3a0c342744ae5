use coda_cli::json::Json;
use coda_cli::trace::{request_event, response_event, TraceSettings};

fn to_json(v: &serde_json::Value) -> Json {
    match v {
        serde_json::Value::Null => Json::Null,
        serde_json::Value::Bool(b) => Json::Bool(*b),
        serde_json::Value::Number(n) => Json::Number(n.to_string()),
        serde_json::Value::String(s) => Json::Str(s.clone()),
        serde_json::Value::Array(a) => Json::Array(a.iter().map(to_json).collect()),
        serde_json::Value::Object(m) => Json::Object(m.iter().map(|(k, x)| (k.clone(), to_json(x))).collect()),
    }
}

/// A value written as JSON text.
fn j(text: &str) -> Json {
    to_json(&serde_json::from_str::<serde_json::Value>(text).expect("test JSON"))
}

fn field<'a>(v: &'a Json, key: &str) -> &'a Json {
    v.get(key).unwrap_or_else(|| panic!("no field {key} in {v:?}"))
}

#[test]
fn silent_when_disabled() {
    let mut t = TraceSettings::new();
    t.set_trace(false);
    assert!(!t.is_enabled());
    t.set_trace(true);
    assert!(t.is_enabled());
}

#[test]
fn trace_request_format() {
    let req = request_event("doc_create", &j(r#"{"docId": "abc", "name": "test"}"#), "2026-01-01T00:00:00+00:00");
    assert_eq!(req.to_text(), r#"{"event":"request","payload_keys":["docId","name"],"timestamp":"2026-01-01T00:00:00+00:00","tool":"doc_create"}"#);
    let resp = response_event("doc_create", &j(r#"{"id": "123"}"#), "T", 150, false);
    assert_eq!(resp.to_text(), r#"{"duration_ms":150,"event":"response","is_error":false,"result_type":"object(1)","timestamp":"T","tool":"doc_create"}"#);
}

#[test]
fn response_result_types() {
    assert_eq!(field(&response_event("t", &j("[1,2]"), "T", 0, true), "result_type"), &j(r#""array(2)""#));
    assert_eq!(field(&response_event("t", &Json::Null, "T", 0, true), "result_type"), &j(r#""null""#));
    assert_eq!(field(&response_event("t", &j("3"), "T", 0, true), "result_type"), &j(r#""scalar""#));
    assert_eq!(field(&request_event("t", &j("[1]"), "T"), "payload_keys"), &j("[]"));
}
