use coda_cli::commands::rows::{
    batch_counts, dry_batch, filter_row_fields, import_batches, import_input, import_summary, normalize_row, rows_path,
    ImportInput,
};
use coda_cli::error::CodaError;
use coda_cli::json::Json;

fn to_json(v: &serde_json::Value) -> Json {
    match v {
        serde_json::Value::Null => Json::Null,
        serde_json::Value::Bool(b) => Json::Bool(*b),
        serde_json::Value::Number(n) => Json::Number(n.to_string()),
        serde_json::Value::String(s) => Json::Str(s.clone()),
        serde_json::Value::Array(a) => Json::Array(a.iter().map(to_json).collect()),
        serde_json::Value::Object(m) => Json::Object(m.iter().map(|(k, x)| (k.clone(), to_json(x))).collect()),
    }
}

/// A value written as JSON text.
fn j(text: &str) -> Json {
    to_json(&serde_json::from_str::<serde_json::Value>(text).expect("test JSON"))
}

fn field<'a>(v: &'a Json, key: &str) -> &'a Json {
    v.get(key).unwrap_or_else(|| panic!("no field {key} in {v:?}"))
}

#[test]
fn rows_path_encodes_and_validates() {
    assert_eq!(rows_path("doc1", "grid-x").ok().unwrap(), "/docs/doc1/tables/grid%2Dx/rows");
    assert!(matches!(rows_path("", "t"), Err(CodaError::Validation(_))));
    assert!(matches!(rows_path("d", "a/../b"), Err(CodaError::Validation(_))));
}

#[test]
fn flat_rows_become_cells() {
    let row = normalize_row(j(r#"{"Name": "Ada", "Age": 36}"#));
    assert_eq!(row, j(r#"{"cells": [{"column": "Age", "value": 36}, {"column": "Name", "value": "Ada"}]}"#));
    let given = j(r#"{"cells": [{"column": "c-1", "value": 1}]}"#);
    assert_eq!(normalize_row(j(r#"{"cells": [{"column": "c-1", "value": 1}]}"#)), given);
    assert_eq!(normalize_row(j("[1]")), j("[1]"));
}

#[test]
fn import_input_forms() {
    assert!(matches!(import_input("  \n "), Err(CodaError::Validation(_))));
    match import_input(" [1, 2] ").ok().unwrap() {
        ImportInput::Array(a) => assert_eq!(a, "[1, 2]"),
        ImportInput::Lines(_) => panic!("an array is read whole"),
    }
    match import_input("{\"a\":1}\n\n  \n{\"a\":2}\n").ok().unwrap() {
        ImportInput::Lines(ls) => {
            assert_eq!(ls.len(), 2);
            assert_eq!(ls[0], (1, "{\"a\":1}".to_string()));
            assert_eq!(ls[1], (2, "{\"a\":2}".to_string()));
        }
        ImportInput::Array(_) => panic!("lines are read one by one"),
    }
}

#[test]
fn batches_split_rows_and_carry_keys() {
    let rows = vec![j("1"), j("2"), j("3")];
    let batches = import_batches(&rows, 2, Some("Name, Email"));
    assert_eq!(batches.len(), 2);
    assert_eq!(batches[0], j(r#"{"keyColumns": ["Name", "Email"], "rows": [1, 2]}"#));
    assert_eq!(batches[1], j(r#"{"keyColumns": ["Name", "Email"], "rows": [3]}"#));
    let plain = import_batches(&rows, 5, None);
    assert_eq!(plain, vec![j(r#"{"rows": [1, 2, 3]}"#)]);
}

#[test]
fn batch_replies_are_counted() {
    assert_eq!(batch_counts(&j(r#"{"addedRowIds": ["a", "b"], "updatedRowCount": 3}"#)), (2, 3));
    assert_eq!(batch_counts(&j("{}")), (0, 0));
}

#[test]
fn dry_batches_and_summary() {
    let d = dry_batch(1, 2, "/docs/d/tables/t/rows", None);
    assert_eq!(field(&d, "url"), &j(r#""https://coda.io/apis/v1/docs/d/tables/t/rows""#));
    assert_eq!(field(&d, "rowCount"), &j("2"));
    assert_eq!(field(field(&d, "bodyPreview"), "rows"), &j(r#""[2 rows]""#));
    assert_eq!(field(field(&d, "bodyPreview"), "keyColumns"), &Json::Null);
    let s = import_summary(3, 2, 1, 2);
    assert_eq!(s, j(r#"{"addedRowCount": 1, "batches": 2, "totalRows": 3, "updatedRowCount": 2}"#));
}

#[test]
fn field_filter_keeps_named_values() {
    let resp = j(r#"{"items": [{"id": "r1", "values": {"Name": "A", "Age": 1, "Email": "e"}}]}"#);
    let out = filter_row_fields(&resp, "name, email");
    let items = field(&out, "items").as_array().unwrap();
    let values = field(&items[0], "values");
    assert!(values.get("Name").is_some());
    assert!(values.get("Email").is_some());
    assert!(values.get("Age").is_none());
}
