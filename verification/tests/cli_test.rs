use coda_cli::cli::{
    background_sync_notice, expand_tilde, extract_doc_uri, fuzzy_notice, parse_tool_args, polish_notice, sync_doc_uri,
    welcome_text,
};
use coda_cli::error::CodaError;
use coda_cli::json::Json;

fn to_json(v: &serde_json::Value) -> Json {
    match v {
        serde_json::Value::Null => Json::Null,
        serde_json::Value::Bool(b) => Json::Bool(*b),
        serde_json::Value::Number(n) => Json::Number(n.to_string()),
        serde_json::Value::String(s) => Json::Str(s.clone()),
        serde_json::Value::Array(a) => Json::Array(a.iter().map(to_json).collect()),
        serde_json::Value::Object(m) => Json::Object(m.iter().map(|(k, x)| (k.clone(), to_json(x))).collect()),
    }
}

/// A value written as JSON text.
fn j(text: &str) -> Json {
    to_json(&serde_json::from_str::<serde_json::Value>(text).expect("test JSON"))
}

fn field<'a>(v: &'a Json, key: &str) -> &'a Json {
    v.get(key).unwrap_or_else(|| panic!("no field {key} in {v:?}"))
}

fn args(v: &[&str]) -> Vec<String> {
    v.iter().map(|s| s.to_string()).collect()
}

#[test]
fn extract_doc_uri_from_doc_uri_field() {
    let val = j(r#"{"docUri": "coda://docs/abc", "title": "Test"}"#);
    assert_eq!(extract_doc_uri(&val), Some("coda://docs/abc".into()));
}

#[test]
fn extract_doc_uri_from_uri_field() {
    let val = j(r#"{"uri": "coda://docs/abc"}"#);
    assert_eq!(extract_doc_uri(&val), Some("coda://docs/abc".into()));
}

#[test]
fn extract_doc_uri_skips_page_uri() {
    let val = j(r#"{"uri": "coda://docs/abc/pages/xyz"}"#);
    assert_eq!(extract_doc_uri(&val), None);
}

#[test]
fn extract_doc_uri_from_doc_id() {
    let val = j(r#"{"docId": "abc123"}"#);
    assert_eq!(extract_doc_uri(&val), Some("coda://docs/abc123".into()));
}

#[test]
fn extract_doc_uri_none_when_missing() {
    let val = j(r#"{"name": "hello"}"#);
    assert_eq!(extract_doc_uri(&val), None);
}

#[test]
fn expand_tilde_home() {
    let expanded = expand_tilde("~/test", Some("/home/agent"));
    assert!(expanded.contains("test"));
    assert!(!expanded.starts_with('~'));
    assert_eq!(expanded, "/home/agent/test");
    assert_eq!(expand_tilde("~", Some("/home/agent")), "/home/agent");
    assert_eq!(expand_tilde("~/x", None), "~/x");
}

#[test]
fn expand_tilde_no_tilde() {
    let expanded = expand_tilde(".coda", Some("/home/agent"));
    assert_eq!(expanded, ".coda");
}

#[test]
fn tool_args_flags_and_values() {
    let a = parse_tool_args(&args(&["table_create", "--json", "{}", "--dry-run", "--pick", "tableUri", "--sync"])).ok().unwrap();
    assert_eq!(a.tool_name, "table_create");
    assert!(a.dry_run && a.sync && !a.fuzzy && !a.polish && !a.quiet && !a.trace && !a.sanitize);
    assert_eq!(a.pick, Some("tableUri".to_string()));
    assert_eq!(a.json, Some(Some("{}".to_string())));
    let b = parse_tool_args(&args(&["whoami", "--json"])).ok().unwrap();
    assert_eq!(b.json, Some(None));
    assert_eq!(b.pick, None);
    let c = parse_tool_args(&args(&["whoami", "--pick"])).ok().unwrap();
    assert_eq!(c.pick, None);
    assert_eq!(c.json, None);
}

#[test]
fn tool_args_require_a_tool() {
    match parse_tool_args(&Vec::new()) {
        Err(CodaError::Validation(m)) => assert!(m.starts_with("Usage: shd <tool_name>")),
        _ => panic!("no tool is a usage error"),
    }
}

#[test]
fn sync_needs_a_document() {
    assert_eq!(sync_doc_uri(Some("coda://docs/x"), None).ok().unwrap(), "coda://docs/x");
    assert_eq!(sync_doc_uri(None, Some("https://coda.io/d/My-Doc_dAbCdEf")).ok().unwrap(), "coda://docs/AbCdEf");
    assert!(matches!(sync_doc_uri(None, None), Err(CodaError::Validation(_))));
    assert!(matches!(sync_doc_uri(None, Some("https://example.com")), Err(CodaError::Validation(_))));
}

#[test]
fn notices() {
    assert_eq!(fuzzy_notice("tbl_create", "table_create").unwrap(), "[fuzzy] Resolved 'tbl_create' -> 'table_create'\n");
    assert_eq!(fuzzy_notice("whoami", "whoami"), None);
    assert_eq!(polish_notice(2).unwrap(), "[polish] Polished 2 text field(s).\n");
    assert_eq!(polish_notice(0), None);
    assert_eq!(
        background_sync_notice(Ok(42), "coda://docs/a"),
        "\n[sync] Syncing in background (pid 42). Files will appear in .coda/ shortly.\n"
    );
    assert!(background_sync_notice(Err("no exe".into()), "coda://docs/a").contains("shd sync --doc-uri \"coda://docs/a\""));
}

#[test]
fn welcome_box_is_aligned() {
    let w = welcome_text("1.2.3");
    let lines: Vec<&str> = w.lines().collect();
    assert_eq!(lines[0].chars().count(), 47);
    assert!(lines[2].contains("Superhuman Docs CLI  v1.2.3"));
    for line in &lines[1..6] {
        assert_eq!(line.chars().count(), 47, "{line}");
    }
    assert!(w.contains("shd discover"));
}
