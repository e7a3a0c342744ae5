use coda_cli::json::Json;
use coda_cli::output::{build_picked_object, picked_text};

fn to_json(v: &serde_json::Value) -> Json {
    match v {
        serde_json::Value::Null => Json::Null,
        serde_json::Value::Bool(b) => Json::Bool(*b),
        serde_json::Value::Number(n) => Json::Number(n.to_string()),
        serde_json::Value::String(s) => Json::Str(s.clone()),
        serde_json::Value::Array(a) => Json::Array(a.iter().map(to_json).collect()),
        serde_json::Value::Object(m) => Json::Object(m.iter().map(|(k, x)| (k.clone(), to_json(x))).collect()),
    }
}

/// A value written as JSON text.
fn j(text: &str) -> Json {
    to_json(&serde_json::from_str::<serde_json::Value>(text).expect("test JSON"))
}

fn field<'a>(v: &'a Json, key: &str) -> &'a Json {
    v.get(key).unwrap_or_else(|| panic!("no field {key} in {v:?}"))
}

#[test]
fn pick_multi_no_collision_uses_short_keys() {
    let paths = ["name", "email"];
    let vals = [j(r#""Alice""#), j(r#""alice@example.com""#)];
    let refs: Vec<&Json> = vals.iter().collect();
    let result = build_picked_object(&paths, &refs);
    assert_eq!(field(&result, "name"), &j(r#""Alice""#));
    assert_eq!(field(&result, "email"), &j(r#""alice@example.com""#));
}

#[test]
fn pick_multi_collision_uses_full_paths() {
    let paths = ["pages.0.title", "pages.1.title"];
    let vals = [j(r#""Goals""#), j(r#""Tasks""#)];
    let refs: Vec<&Json> = vals.iter().collect();
    let result = build_picked_object(&paths, &refs);
    assert_eq!(field(&result, "pages.0.title"), &j(r#""Goals""#));
    assert_eq!(field(&result, "pages.1.title"), &j(r#""Tasks""#));
}

#[test]
fn picked_strings_print_without_quotes() {
    assert_eq!(picked_text(&j(r#""plain""#)), "plain");
    assert_eq!(picked_text(&j(r#"{"a": [1, "x"]}"#)), r#"{"a":[1,"x"]}"#);
    assert_eq!(picked_text(&j("null")), "null");
}
