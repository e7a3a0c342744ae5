use coda_cli::commands::tools::{pick_fields, Picked};
use coda_cli::json::Json;

fn to_json(v: &serde_json::Value) -> Json {
    match v {
        serde_json::Value::Null => Json::Null,
        serde_json::Value::Bool(b) => Json::Bool(*b),
        serde_json::Value::Number(n) => Json::Number(n.to_string()),
        serde_json::Value::String(s) => Json::Str(s.clone()),
        serde_json::Value::Array(a) => Json::Array(a.iter().map(to_json).collect()),
        serde_json::Value::Object(m) => Json::Object(m.iter().map(|(k, x)| (k.clone(), to_json(x))).collect()),
    }
}

/// A value written as JSON text.
fn j(text: &str) -> Json {
    to_json(&serde_json::from_str::<serde_json::Value>(text).expect("test JSON"))
}

fn field<'a>(v: &'a Json, key: &str) -> &'a Json {
    v.get(key).unwrap_or_else(|| panic!("no field {key} in {v:?}"))
}

#[test]
fn pick_top_level_key() {
    let value = j(r#"{"name": "Alice", "age": 30}"#);
    assert!(pick_fields(&value, "name").is_ok());
}

#[test]
fn pick_dot_path() {
    let value = j(r#"{"user": {"name": "Alice", "email": "a@b.com"}}"#);
    assert!(pick_fields(&value, "user.name").is_ok());
}

#[test]
fn pick_array_index() {
    let value = j(r#"{"items": [{"id": 1}, {"id": 2}]}"#);
    assert!(pick_fields(&value, "items.0.id").is_ok());
}

#[test]
fn pick_missing_field_errors() {
    let value = j(r#"{"name": "Alice"}"#);
    let err = pick_fields(&value, "missing").err().unwrap();
    assert!(err.message().contains("not found"));
}

#[test]
fn pick_deep_missing_errors() {
    let value = j(r#"{"a": {"b": 1}}"#);
    let err = pick_fields(&value, "a.c").err().unwrap();
    assert!(err.message().contains("failed at 'c'"));
}

#[test]
fn pick_multi_fields() {
    let value = j(r#"{"name": "Alice", "id": "abc123"}"#);
    assert!(pick_fields(&value, "name,id").is_ok());
}

#[test]
fn pick_multi_with_missing_errors() {
    let value = j(r#"{"name": "Alice"}"#);
    let err = pick_fields(&value, "name,missing").err().unwrap();
    assert!(err.message().contains("not found"));
}

#[test]
fn pick_values_are_exact() {
    let value = j(r#"{"items": [{"id": 1}, {"id": 2}], "name": "N"}"#);
    match pick_fields(&value, "items.1.id").ok().unwrap() {
        Picked::One(v) => assert_eq!(v, j("2")),
        Picked::Many(_) => panic!("one path picks one value"),
    }
    match pick_fields(&value, "name, items.0.id").ok().unwrap() {
        Picked::Many(v) => {
            assert_eq!(field(&v, "name"), &j(r#""N""#));
            assert_eq!(field(&v, "id"), &j("1"));
            assert_eq!(v.as_object().unwrap().len(), 2);
        }
        Picked::One(_) => panic!("two paths pick an object"),
    }
}

#[test]
fn pick_error_lists_available_keys() {
    let value = j(r#"{"a": 1, "b": 2}"#);
    let err = pick_fields(&value, "c").err().unwrap();
    assert_eq!(err.message(), "Validation error: Field 'c' not found (failed at 'c'). Available: a, b");
}
