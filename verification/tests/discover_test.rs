use coda_cli::commands::compound::schemas::synthetic_tool_schemas;
use coda_cli::commands::discover::{
    compact_schema_lines, compact_type, infer_semantic_type, missing_tool_message, tool_listing,
};
use coda_cli::json::Json;
use coda_cli::tool_registry::tools;

fn to_json(v: &serde_json::Value) -> Json {
    match v {
        serde_json::Value::Null => Json::Null,
        serde_json::Value::Bool(b) => Json::Bool(*b),
        serde_json::Value::Number(n) => Json::Number(n.to_string()),
        serde_json::Value::String(s) => Json::Str(s.clone()),
        serde_json::Value::Array(a) => Json::Array(a.iter().map(to_json).collect()),
        serde_json::Value::Object(m) => Json::Object(m.iter().map(|(k, x)| (k.clone(), to_json(x))).collect()),
    }
}

/// A value written as JSON text.
fn j(text: &str) -> Json {
    to_json(&serde_json::from_str::<serde_json::Value>(text).expect("test JSON"))
}

fn field<'a>(v: &'a Json, key: &str) -> &'a Json {
    v.get(key).unwrap_or_else(|| panic!("no field {key} in {v:?}"))
}

#[test]
fn synthetic_schemas_are_valid() {
    let schemas = synthetic_tool_schemas();
    assert_eq!(schemas.len(), 4);
    for schema in &schemas {
        assert!(schema.get("name").is_some());
        assert!(schema.get("inputSchema").is_some());
    }
}

#[test]
fn semantic_types_from_descriptions() {
    assert_eq!(infer_semantic_type("The URI of the doc"), Some("uri".into()));
    assert_eq!(infer_semantic_type("URL to open"), Some("uri".into()));
    assert_eq!(infer_semantic_type("Column IDs to delete"), Some("id".into()));
    assert_eq!(infer_semantic_type("Row ID"), Some("id".into()));
    assert_eq!(infer_semantic_type("A plain name"), None);
}

#[test]
fn compact_types() {
    assert_eq!(compact_type(&j(r#"{"type": "string", "description": "Doc URI"}"#)), "uri");
    assert_eq!(compact_type(&j(r#"{"type": "array", "items": {"type": "string"}, "description": "Row IDs"}"#)), "[id]");
    assert_eq!(compact_type(&j(r#"{"enum": ["a", "b"]}"#)), "enum(a|b)");
    assert_eq!(compact_type(&j(r#"{"enum": ["a", "b", "c", "d", "e", "f"]}"#)), "enum(a|b|c|d|e|...)");
    assert_eq!(compact_type(&j(r#"{"const": "x"}"#)), "\"x\"");
    assert_eq!(compact_type(&j(r#"{"anyOf": [{"type": "string"}, {"type": "number"}]}"#)), "string|number");
    assert_eq!(compact_type(&j(r#"{"type": "object", "required": ["a", "b"]}"#)), "{a, b}");
    assert_eq!(compact_type(&j(r#"{"type": "object"}"#)), "object");
    assert_eq!(compact_type(&j("{}")), "any");
}

#[test]
fn compact_schema_view() {
    let tool = j(r#"{"name": "page_read", "description": "Read a page. Call tool_guide first.",
        "inputSchema": {"required": ["uri"], "properties": {
            "uri": {"type": "string", "description": "Page URI"},
            "limit": {"type": "number"}}}}"#);
    let lines = compact_schema_lines(&tool);
    assert_eq!(lines[0], "page_read");
    assert_eq!(lines[1], "  Read a page. Call tool_guide first.");
    assert!(lines.iter().any(|l| l == "    uri: uri — Page URI"), "{lines:?}");
    assert!(lines.iter().any(|l| l == "  optional: limit(number)"), "{lines:?}");
    assert!(lines.last().unwrap().contains("\"topic\":\"page\""));
    let bare = compact_schema_lines(&j(r#"{"name": "whoami"}"#));
    assert_eq!(bare, vec!["whoami", "  ", "  (no input schema)"]);
}

#[test]
fn listing_and_filter() {
    let all = vec![
        j(r#"{"name": "table_create", "description": "Create a table", "inputSchema": {"required": ["docId", "name"]}}"#),
        j(r#"{"name": "whoami", "description": "Who am I"}"#),
    ];
    let (lines, summary) = tool_listing(&all, None);
    assert_eq!(lines.len(), 2);
    assert!(lines[0].starts_with("  table_create "));
    assert!(lines[0].ends_with("required: [docId, name]"));
    assert!(lines[1].ends_with("required: [(none)]"));
    assert_eq!(summary, "\n2 tools available.");
    let (lines, summary) = tool_listing(&all, Some("TABLE"));
    assert_eq!(lines.len(), 1);
    assert_eq!(summary, "\n1 tools matched (of 2 total).");
}

#[test]
fn unknown_tool_message() {
    let all = vec![j(r#"{"name": "a"}"#), j(r#"{"title": "no name"}"#), j(r#"{"name": "b"}"#)];
    assert_eq!(missing_tool_message(&all, "zzz"), "Tool 'zzz' not found.\nAvailable tools: a, b\n");
}

#[test]
fn registry_lists_known_tools() {
    let t = tools();
    assert_eq!(t.len(), 29);
    assert_eq!(t[0].name, "whoami");
    assert!(t[0].required.is_empty());
    let create = t.iter().find(|x| x.name == "table_create").unwrap();
    assert_eq!(create.required, vec![("docId", "string"), ("canvasId", "string"), ("name", "string"), ("columns", "array")]);
}
