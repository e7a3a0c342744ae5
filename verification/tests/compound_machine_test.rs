use coda_cli::commands::compound::page_content::PageWithContent;
use coda_cli::commands::compound::retry::Retry;
use coda_cli::commands::compound::scaffold::Scaffold;
use coda_cli::commands::compound::summarize::{content_preview, Summarize};
use coda_cli::commands::compound::{dry_run_preview, Step};
use coda_cli::error::CodaError;
use coda_cli::json::Json;
use std::collections::VecDeque;

fn s(x: &str) -> Json {
    Json::Str(x.to_string())
}

fn obj(entries: Vec<(&str, Json)>) -> Json {
    Json::Object(entries.into_iter().map(|(k, v)| (k.to_string(), v)).collect())
}

fn arr(items: Vec<Json>) -> Json {
    Json::Array(items)
}

fn api(status: u16, message: &str) -> CodaError {
    CodaError::Api { status, message: message.to_string() }
}

/// Runs a machine against queued responses, repeating retried calls the way the
/// command line does (without sleeping). Returns the result and the tools called.
fn drive(
    first: Step,
    mut next: impl FnMut(Result<Json, CodaError>) -> Step,
    responses: Vec<Result<Json, CodaError>>,
) -> (Result<Json, CodaError>, Vec<String>) {
    let mut queue: VecDeque<Result<Json, CodaError>> = responses.into_iter().collect();
    let mut calls = Vec::new();
    let mut step = first;
    loop {
        match step {
            Step::Finish(r) => return (r, calls),
            Step::Call { tool, payload: _, retry } => {
                let mut policy = Retry::new(if retry { 3 } else { 0 });
                let outcome = loop {
                    calls.push(tool.clone());
                    let r = queue
                        .pop_front()
                        .unwrap_or_else(|| Err(CodaError::Other(format!("no response queued for {tool}"))));
                    match r {
                        Ok(v) => break Ok(v),
                        Err(e) => match policy.after_failure(&e) {
                            Some(_) => continue,
                            None => break Err(e),
                        },
                    }
                };
                step = next(outcome);
            }
        }
    }
}

fn doc_created() -> Json {
    obj(vec![
        ("docUri", s("coda://docs/abc")),
        ("browserLink", s("https://coda.io/d/abc")),
        ("pages", arr(vec![obj(vec![
            ("canvasUri", s("coda://docs/abc/canvas/c1")),
            ("pageUri", s("coda://docs/abc/pages/p1")),
        ])])),
    ])
}

fn scaffold(payload: Json, responses: Vec<Result<Json, CodaError>>) -> (Result<Json, CodaError>, Vec<String>) {
    let (mut m, first) = Scaffold::start(&payload);
    drive(first, move |o| m.next(o), responses)
}

fn page_with_content(payload: Json, responses: Vec<Result<Json, CodaError>>) -> (Result<Json, CodaError>, Vec<String>) {
    let (mut m, first) = PageWithContent::start(&payload);
    drive(first, move |o| m.next(o), responses)
}

#[test]
fn doc_scaffold_all_success_returns_complete_true() {
    let payload = obj(vec![
        ("title", s("Test Doc")),
        ("pages", arr(vec![obj(vec![("title", s("Page 1")), ("content", s("# Hello"))])])),
    ]);
    let (result, _) = scaffold(payload, vec![
        Ok(doc_created()),
        Ok(obj(vec![("uri", s("coda://docs/abc/pages/p1"))])),
        Ok(obj(vec![("uri", s("coda://docs/abc/pages/p1"))])),
    ]);
    let result = result.unwrap();
    assert!(matches!(result.get("complete"), Some(Json::Bool(true))));
    assert!(result.get_array("errors").unwrap().is_empty());
    assert!(result.get_str("docUri").is_some());
}

#[test]
fn doc_scaffold_doc_creation_fails_returns_error() {
    let payload = obj(vec![("title", s("Test Doc")), ("pages", arr(vec![]))]);
    let (result, _) = scaffold(payload, vec![Err(api(500, "Internal error"))]);
    assert!(result.is_err());
}

#[test]
fn doc_scaffold_content_fails_returns_partial_with_errors() {
    let payload = obj(vec![
        ("title", s("Test Doc")),
        ("pages", arr(vec![obj(vec![("title", s("Page 1")), ("content", s("# Hello"))])])),
    ]);
    let (result, calls) = scaffold(payload, vec![
        Ok(doc_created()),
        Ok(obj(vec![("uri", s("coda://docs/abc/pages/p1"))])),
        Err(api(400, "Content insert failed")),
    ]);
    let result = result.unwrap();
    assert!(matches!(result.get("complete"), Some(Json::Bool(false))));
    assert!(!result.get_array("errors").unwrap().is_empty());
    assert!(result.get_str("docUri").is_some());
    let pages = result.get_array("pages").unwrap();
    assert_eq!(pages[0].get_str("status"), Some("partial"));
    // a non-retriable failure is not repeated
    assert_eq!(calls, vec!["document_create", "page_update", "content_modify"]);
}

#[test]
fn doc_scaffold_page2_fails_is_critical_error() {
    let payload = obj(vec![
        ("title", s("Test Doc")),
        ("pages", arr(vec![
            obj(vec![("title", s("Page 1")), ("content", s("# One"))]),
            obj(vec![("title", s("Page 2")), ("content", s("# Two"))]),
        ])),
    ]);
    let (result, _) = scaffold(payload, vec![
        Ok(doc_created()),
        Ok(obj(vec![("uri", s("coda://docs/abc/pages/p1"))])),
        Ok(obj(vec![("uri", s("coda://docs/abc/pages/p1"))])),
        Err(api(500, "Page creation failed")),
    ]);
    assert!(result.is_err());
}

#[test]
fn doc_scaffold_tables_and_rows_are_counted() {
    let payload = obj(vec![
        ("title", s("Plan")),
        ("pages", arr(vec![obj(vec![
            ("title", s("Tasks")),
            ("tables", arr(vec![obj(vec![
                ("name", s("Todo")),
                ("columns", arr(vec![s("Name")])),
                ("rows", arr(vec![arr(vec![s("a")]), arr(vec![s("b")])])),
            ])])),
        ])])),
    ]);
    let (result, calls) = scaffold(payload, vec![
        Ok(doc_created()),
        Ok(obj(vec![])),
        Ok(obj(vec![
            ("tableUri", s("coda://docs/abc/tables/t1")),
            ("columns", arr(vec![obj(vec![("columnId", s("c-1"))])])),
            ("rowCount", Json::Number("0".to_string())),
        ])),
        Ok(obj(vec![("rowCount", Json::Number("2".to_string()))])),
    ]);
    let result = result.unwrap();
    assert_eq!(calls, vec!["document_create", "page_update", "table_create", "table_add_rows"]);
    assert!(matches!(result.get("totalRows"), Some(Json::Number(n)) if n == "2"));
    let tables = result.get_array("tables").unwrap();
    assert_eq!(tables[0].get_str("tableUri"), Some("coda://docs/abc/tables/t1"));
    assert!(matches!(tables[0].get("columns"), Some(Json::Number(n)) if n == "1"));
    assert!(matches!(result.get("complete"), Some(Json::Bool(true))));
}

#[test]
fn doc_scaffold_retries_transient_failures() {
    let payload = obj(vec![
        ("title", s("Doc")),
        ("pages", arr(vec![obj(vec![("title", s("P")), ("content", s("x"))])])),
    ]);
    let (result, calls) = scaffold(payload, vec![
        Ok(doc_created()),
        Ok(obj(vec![])),
        Err(api(503, "busy")),
        Err(api(503, "busy")),
        Ok(obj(vec![])),
    ]);
    assert!(matches!(result.unwrap().get("complete"), Some(Json::Bool(true))));
    assert_eq!(calls, vec!["document_create", "page_update", "content_modify", "content_modify", "content_modify"]);
}

#[test]
fn doc_scaffold_without_title_is_a_validation_error() {
    let (result, calls) = scaffold(obj(vec![]), vec![]);
    match result {
        Err(CodaError::Validation(m)) => assert_eq!(m, "Missing required field: title"),
        _ => panic!("expected a validation error"),
    }
    assert!(calls.is_empty());
}

#[test]
fn page_create_with_content_page_fails_returns_error() {
    let payload = obj(vec![("uri", s("coda://docs/abc")), ("title", s("New Page")), ("content", s("# Hi"))]);
    let (result, _) = page_with_content(payload, vec![Err(api(404, "Doc not found"))]);
    assert!(result.is_err());
}

#[test]
fn page_create_with_content_content_fails_returns_partial() {
    let payload = obj(vec![("uri", s("coda://docs/abc")), ("title", s("New Page")), ("content", s("# Hi"))]);
    let (result, _) = page_with_content(payload, vec![
        Ok(obj(vec![
            ("canvasUri", s("coda://docs/abc/canvas/c1")),
            ("pageUri", s("coda://docs/abc/pages/p1")),
            ("uri", s("coda://docs/abc/pages/p1")),
        ])),
        Err(api(400, "Content failed")),
    ]);
    let result = result.unwrap();
    assert!(matches!(result.get("complete"), Some(Json::Bool(false))));
    assert!(!result.get_array("errors").unwrap().is_empty());
    assert!(result.get_str("pageUri").is_some() || result.get_str("uri").is_some());
}

#[test]
fn page_create_with_content_success_marks_content_written() {
    let payload = obj(vec![("uri", s("coda://docs/abc")), ("title", s("New Page")), ("content", s("# Hi"))]);
    let (result, calls) = page_with_content(payload, vec![
        Ok(obj(vec![("canvasUri", s("coda://docs/abc/canvas/c1"))])),
        Ok(obj(vec![])),
    ]);
    let result = result.unwrap();
    assert_eq!(calls, vec!["page_create", "content_modify"]);
    assert!(matches!(result.get("contentWritten"), Some(Json::Bool(true))));
    assert!(matches!(result.get("complete"), Some(Json::Bool(true))));
}

#[test]
fn page_create_without_canvas_is_an_error() {
    let payload = obj(vec![("uri", s("coda://docs/abc")), ("title", s("New Page"))]);
    let (result, _) = page_with_content(payload, vec![Ok(obj(vec![("pageUri", s("p"))]))]);
    match result {
        Err(CodaError::Other(m)) => assert_eq!(m, "page_create did not return canvasUri"),
        _ => panic!("expected an error"),
    }
}

#[test]
fn doc_summarize_reads_pages_and_tables() {
    let payload = obj(vec![("uri", s("coda://docs/abc"))]);
    let (mut m, first) = Summarize::start(&payload);
    let long = "x".repeat(250);
    let (result, calls) = drive(first, move |o| m.next(o), vec![
        Ok(obj(vec![
            ("document", obj(vec![("name", s("Doc"))])),
            ("pages", arr(vec![
                obj(vec![("title", s("One")), ("canvasUri", s("c1"))]),
                obj(vec![("title", s("Two"))]),
            ])),
        ])),
        Ok(obj(vec![
            ("content", s(&format!("  {long}  "))),
            ("tables", arr(vec![obj(vec![
                ("name", s("T")),
                ("columns", arr(vec![obj(vec![("name", s("A"))]), obj(vec![])])),
                ("rowCount", Json::Number("7".to_string())),
            ])])),
        ])),
    ]);
    let result = result.unwrap();
    assert_eq!(calls, vec!["document_read", "page_read"]);
    assert!(matches!(result.get("pageCount"), Some(Json::Number(n)) if n == "2"));
    let pages = result.get_array("pages").unwrap();
    let preview = pages[0].get_str("contentPreview").unwrap();
    assert_eq!(preview.len(), 200);
    assert!(preview.ends_with("..."));
    assert_eq!(pages[1].get_str("title"), Some("Two"));
    assert!(pages[1].get("canvasUri").is_none());
    let tables = result.get_array("tables").unwrap();
    assert_eq!(tables[0].get_str("page"), Some("One"));
    assert!(matches!(tables[0].get("rowCount"), Some(Json::Number(n)) if n == "7"));
}

#[test]
fn dry_run_shows_steps() {
    let payload = obj(vec![("uri", s("coda://docs/abc")), ("title", s("Test")), ("content", s("# Hello"))]);
    let preview = dry_run_preview("page_create_with_content", &payload);
    assert!(preview.get("steps").is_some());
    assert_eq!(preview.get_str("compound"), Some("page_create_with_content"));
}

#[test]
fn content_preview_counts_characters() {
    let wide = format!("a{}", "é".repeat(150));
    assert_eq!(content_preview(&format!("  {wide}\n")), wide);
    let long = "é".repeat(201);
    let cut = content_preview(&long);
    assert_eq!(cut.chars().count(), 200);
    assert_eq!(cut, format!("{}...", "é".repeat(197)));
    assert_eq!(content_preview(&"x".repeat(200)), "x".repeat(200));
}

#[test]
fn retry_gives_no_repeat_for_a_final_error() {
    let mut r = Retry::new(3);
    assert_eq!(r.after_failure(&CodaError::Validation("bad".into())), None);
    let mut r = Retry::new(2);
    let busy = CodaError::Api { status: 503, message: "busy".into() };
    assert_eq!(r.after_failure(&busy), Some(1000));
    assert_eq!(r.after_failure(&busy), Some(2000));
    assert_eq!(r.after_failure(&busy), None);
}
