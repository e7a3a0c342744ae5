use coda_cli::commands::schema::{build_operation_id, handle, resolve_ref};
use coda_cli::error::CodaError;
use coda_cli::json::Json;

fn to_json(v: &serde_json::Value) -> Json {
    match v {
        serde_json::Value::Null => Json::Null,
        serde_json::Value::Bool(b) => Json::Bool(*b),
        serde_json::Value::Number(n) => Json::Number(n.to_string()),
        serde_json::Value::String(s) => Json::Str(s.clone()),
        serde_json::Value::Array(a) => Json::Array(a.iter().map(to_json).collect()),
        serde_json::Value::Object(m) => Json::Object(m.iter().map(|(k, x)| (k.clone(), to_json(x))).collect()),
    }
}

/// A value written as JSON text.
fn j(text: &str) -> Json {
    to_json(&serde_json::from_str::<serde_json::Value>(text).expect("test JSON"))
}

fn field<'a>(v: &'a Json, key: &str) -> &'a Json {
    v.get(key).unwrap_or_else(|| panic!("no field {key} in {v:?}"))
}

fn spec() -> Json {
    j(r##"{
        "paths": {
            "/docs": {"get": {"operationId": "listDocs", "summary": "List docs"}, "post": {"operationId": "createDoc"}},
            "/docs/{docId}": {"get": {"operationId": "getDoc", "parameters": [{"$ref": "#/components/parameters/docId"}]}},
            "/docs/{docId}/tables/{tableIdOrName}/rows": {
                "get": {"operationId": "listRows", "responses": {"200": {"content": {"application/json": {"schema": {"$ref": "#/components/schemas/RowList"}}}}}},
                "post": {"operationId": "upsertRows", "requestBody": {"content": {"application/json": {"schema": {"type": "object"}}}}}
            },
            "/categories": {"get": {"operationId": "listCategories"}}
        },
        "components": {
            "parameters": {"docId": {"name": "docId", "in": "path", "required": true, "description": "ID of the doc.", "schema": {"type": "string"}}},
            "schemas": {"RowList": {"type": "object", "description": "List of rows."}}
        }
    }"##)
}

#[test]
fn operation_ids() {
    assert_eq!(build_operation_id("docs", "list"), "listDocs");
    assert_eq!(build_operation_id("docs", "get"), "getDoc");
    assert_eq!(build_operation_id("categories", "get"), "getCategory");
    assert_eq!(build_operation_id("access", "create"), "createAccess");
    assert_eq!(build_operation_id("rows", "upsert"), "upsertRows");
    assert_eq!(build_operation_id("rows", "pushButton"), "pushButton");
    assert_eq!(build_operation_id("", "list"), "list");
}

#[test]
fn schema_list_sorts_resources_once_each() {
    let out = handle(&spec(), "list").ok().unwrap();
    assert_eq!(field(&out, "resources"), &j(r#"["categories", "docs", "rows"]"#));
    assert!(field(&out, "usage").as_str().unwrap().starts_with("coda schema <resource>"));
}

#[test]
fn schema_resource_lists_its_methods() {
    let out = handle(&spec(), "rows").ok().unwrap();
    assert_eq!(field(&out, "resource"), &j(r#""rows""#));
    let methods = field(&out, "methods").as_array().unwrap();
    assert_eq!(methods.len(), 2);
    assert_eq!(field(&methods[0], "method"), &j(r#""GET""#));
    assert_eq!(field(&methods[0], "operationId"), &j(r#""listRows""#));
    assert_eq!(field(&methods[1], "summary"), &j(r#""""#));
    let docs = handle(&spec(), "DOCS").ok().unwrap();
    assert_eq!(field(&docs, "methods").as_array().unwrap().len(), 5);
}

#[test]
fn schema_method_resolves_references() {
    let out = handle(&spec(), "docs.get").ok().unwrap();
    assert_eq!(field(&out, "httpMethod"), &j(r#""GET""#));
    assert_eq!(field(&out, "path"), &j(r#""/docs/{docId}""#));
    let params = field(&out, "parameters").as_array().unwrap();
    assert_eq!(field(&params[0], "name"), &j(r#""docId""#));
    assert_eq!(field(&params[0], "required"), &Json::Bool(true));
    assert_eq!(field(&params[0], "schema"), &j(r#"{"type": "string"}"#));
    let rows = handle(&spec(), "rows.list").ok().unwrap();
    assert_eq!(field(&rows, "responseSchema"), &j(r#"{"type": "object", "description": "List of rows."}"#));
    let upsert = handle(&spec(), "rows.upsert").ok().unwrap();
    assert_eq!(field(&upsert, "requestBody"), &j(r#"{"type": "object"}"#));
}

#[test]
fn schema_errors() {
    match handle(&spec(), "nothing") {
        Err(CodaError::Validation(m)) => assert_eq!(m, "No methods found for resource 'nothing'. Run `coda schema list` to see available resources."),
        _ => panic!("unknown resource"),
    }
    match handle(&spec(), "docs.frobnicate") {
        Err(CodaError::Validation(m)) => assert!(m.starts_with("No operation found for 'docs.frobnicate'")),
        _ => panic!("unknown method"),
    }
    match handle(&spec(), "a.b.c") {
        Err(CodaError::Validation(m)) => assert!(m.ends_with("Got: 'a.b.c'")),
        _ => panic!("bad path"),
    }
    match handle(&j("{}"), "list") {
        Err(CodaError::Other(m)) => assert_eq!(m, "No paths in OpenAPI spec"),
        _ => panic!("no paths"),
    }
}

#[test]
fn refs_resolve_one_level() {
    let s = spec();
    assert_eq!(resolve_ref(&s, &j(r##"{"$ref": "#/components/schemas/RowList"}"##)), j(r#"{"type": "object", "description": "List of rows."}"#));
    let missing = j(r##"{"$ref": "#/components/schemas/Nope"}"##);
    assert_eq!(resolve_ref(&s, &missing), missing);
    assert_eq!(resolve_ref(&s, &j("[1]")), j("[1]"));
}
