use coda_cli::cell::{build_column_map, flatten_row, pairs_get, unwrap_cell_value};
use coda_cli::json::Json;

fn to_json(v: &serde_json::Value) -> Json {
    match v {
        serde_json::Value::Null => Json::Null,
        serde_json::Value::Bool(b) => Json::Bool(*b),
        serde_json::Value::Number(n) => Json::Number(n.to_string()),
        serde_json::Value::String(s) => Json::Str(s.clone()),
        serde_json::Value::Array(a) => Json::Array(a.iter().map(to_json).collect()),
        serde_json::Value::Object(m) => Json::Object(m.iter().map(|(k, x)| (k.clone(), to_json(x))).collect()),
    }
}

/// A value written as JSON text.
fn j(text: &str) -> Json {
    to_json(&serde_json::from_str::<serde_json::Value>(text).expect("test JSON"))
}

fn field<'a>(v: &'a Json, key: &str) -> &'a Json {
    v.get(key).unwrap_or_else(|| panic!("no field {key} in {v:?}"))
}

fn map_get<'a>(m: &'a Vec<(String, String)>, k: &str) -> Option<&'a String> {
    pairs_get(m, k)
}

#[test]
fn unwrap_string_passthrough() {
    assert_eq!(unwrap_cell_value(&j(r#""hello""#)), j(r#""hello""#));
}

#[test]
fn unwrap_number_passthrough() {
    assert_eq!(unwrap_cell_value(&j("42")), j("42"));
}

#[test]
fn unwrap_bool_passthrough() {
    assert_eq!(unwrap_cell_value(&j("true")), j("true"));
}

#[test]
fn unwrap_null_passthrough() {
    assert_eq!(unwrap_cell_value(&Json::Null), Json::Null);
}

#[test]
fn unwrap_content_wrapper() {
    let cell = j(r#"{"content": "Alice", "@type": "CodaText"}"#);
    assert_eq!(unwrap_cell_value(&cell), j(r#""Alice""#));
}

#[test]
fn unwrap_content_preserves_number() {
    let cell = j(r#"{"content": 42}"#);
    assert_eq!(unwrap_cell_value(&cell), j("42"));
}

#[test]
fn unwrap_url_object() {
    let cell = j(r#"{"url": "https://example.com", "name": "Example"}"#);
    assert_eq!(unwrap_cell_value(&cell), j(r#""https://example.com""#));
}

#[test]
fn unwrap_unknown_object_preserved() {
    let cell = j(r#"{"custom": "data", "nested": true}"#);
    assert_eq!(unwrap_cell_value(&cell), cell);
}

#[test]
fn unwrap_array_of_rich_objects() {
    let cell = j(r#"[{"content": "A"}, {"content": "B"}]"#);
    assert_eq!(unwrap_cell_value(&cell), j(r#"["A", "B"]"#));
}

#[test]
fn unwrap_array_of_primitives() {
    let cell = j(r#"["a", "b", "c"]"#);
    assert_eq!(unwrap_cell_value(&cell), j(r#"["a", "b", "c"]"#));
}

#[test]
fn column_map_basic() {
    let cols = vec![j(r#"{"columnId": "c-1", "name": "Name"}"#), j(r#"{"columnId": "c-2", "name": "Score"}"#)];
    let map = build_column_map(&cols);
    assert_eq!(map_get(&map, "c-1"), Some(&"Name".to_string()));
    assert_eq!(map_get(&map, "c-2"), Some(&"Score".to_string()));
}

#[test]
fn column_map_duplicate_names() {
    let cols = vec![j(r#"{"columnId": "c-1", "name": "Status"}"#), j(r#"{"columnId": "c-2", "name": "Status"}"#)];
    let map = build_column_map(&cols);
    assert_eq!(map_get(&map, "c-1"), Some(&"Status".to_string()));
    assert!(map_get(&map, "c-2").unwrap().contains("(c-2)"));
}

#[test]
fn column_map_uses_id_fallback() {
    let cols = vec![j(r#"{"id": "c-99", "name": "Foo"}"#)];
    let map = build_column_map(&cols);
    assert_eq!(map_get(&map, "c-99"), Some(&"Foo".to_string()));
}

#[test]
fn column_map_skips_empty_id() {
    let cols = vec![j(r#"{"name": "NoId"}"#)];
    let map = build_column_map(&cols);
    assert!(map.is_empty());
}

#[test]
fn column_map_untitled_fallback() {
    let cols = vec![j(r#"{"columnId": "c-1"}"#)];
    let map = build_column_map(&cols);
    assert_eq!(map_get(&map, "c-1"), Some(&"Untitled".to_string()));
}

#[test]
fn flatten_row_basic() {
    let cols = vec![j(r#"{"columnId": "c-1", "name": "Name"}"#), j(r#"{"columnId": "c-2", "name": "Score"}"#)];
    let col_map = build_column_map(&cols);
    let row = j(r#"{"rowId": "r-abc", "values": {"c-1": {"content": "Alice"}, "c-2": 42},
        "browserLink": "https://coda.io/...", "createdAt": "2026-01-01"}"#);
    let flat = flatten_row(&row, &col_map);
    assert_eq!(field(&flat, "_rowId"), &j(r#""r-abc""#));
    assert_eq!(field(&flat, "Name"), &j(r#""Alice""#));
    assert_eq!(field(&flat, "Score"), &j("42"));
    assert!(flat.get("browserLink").is_none());
    assert!(flat.get("createdAt").is_none());
}

#[test]
fn flatten_row_unknown_column_uses_id() {
    let col_map: Vec<(String, String)> = Vec::new();
    let row = j(r#"{"rowId": "r-1", "values": {"c-unknown": "val"}}"#);
    let flat = flatten_row(&row, &col_map);
    assert_eq!(field(&flat, "c-unknown"), &j(r#""val""#));
}

#[test]
fn flatten_row_uses_id_field() {
    let col_map: Vec<(String, String)> = Vec::new();
    let row = j(r#"{"id": "r-xyz", "values": {"c-1": "val"}}"#);
    let flat = flatten_row(&row, &col_map);
    assert_eq!(field(&flat, "_rowId"), &j(r#""r-xyz""#));
}

#[test]
fn flatten_row_no_values() {
    let col_map: Vec<(String, String)> = Vec::new();
    let row = j(r#"{"rowId": "r-1"}"#);
    let flat = flatten_row(&row, &col_map);
    assert_eq!(field(&flat, "_rowId"), &j(r#""r-1""#));
    assert_eq!(flat.as_object().unwrap().len(), 1);
}

#[test]
fn flatten_row_null_cell() {
    let cols = vec![j(r#"{"columnId": "c-1", "name": "Val"}"#)];
    let col_map = build_column_map(&cols);
    let row = j(r#"{"rowId": "r-1", "values": {"c-1": null}}"#);
    let flat = flatten_row(&row, &col_map);
    assert_eq!(field(&flat, "Val"), &Json::Null);
}

#[test]
fn flatten_row_keeps_column_order_of_values() {
    let cols = vec![j(r#"{"columnId": "c-1", "name": "A"}"#), j(r#"{"columnId": "c-2", "name": "B"}"#)];
    let col_map = build_column_map(&cols);
    let row = j(r#"{"rowId": "r-9", "values": {"c-1": {"url": "https://x"}, "c-2": [{"content": "p"}, 3]}}"#);
    let flat = flatten_row(&row, &col_map);
    assert_eq!(field(&flat, "A"), &j(r#""https://x""#));
    assert_eq!(field(&flat, "B"), &j(r#"["p", 3]"#));
}
