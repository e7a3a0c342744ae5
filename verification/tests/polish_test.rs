use coda_cli::error::CodaError;
use coda_cli::json::Json;
use coda_cli::polish::{
    collect_polish_paths, polish_reply, polish_request, style_guide, PolishStep, Polisher, DEFAULT_STYLE_GUIDE,
};

fn to_json(v: &serde_json::Value) -> Json {
    match v {
        serde_json::Value::Null => Json::Null,
        serde_json::Value::Bool(b) => Json::Bool(*b),
        serde_json::Value::Number(n) => Json::Number(n.to_string()),
        serde_json::Value::String(s) => Json::Str(s.clone()),
        serde_json::Value::Array(a) => Json::Array(a.iter().map(to_json).collect()),
        serde_json::Value::Object(m) => Json::Object(m.iter().map(|(k, x)| (k.clone(), to_json(x))).collect()),
    }
}

/// A value written as JSON text.
fn j(text: &str) -> Json {
    to_json(&serde_json::from_str::<serde_json::Value>(text).expect("test JSON"))
}

fn field<'a>(v: &'a Json, key: &str) -> &'a Json {
    v.get(key).unwrap_or_else(|| panic!("no field {key} in {v:?}"))
}

#[test]
fn paths_content_modify_markdown_only() {
    let payload = j(r#"{"uri": "coda://docs/abc/pages/xyz", "operations": [
        {"operation": "insert_element", "blockType": "markdown", "content": "Hello world, this is a test sentence."},
        {"operation": "insert_element", "blockType": "image", "content": "https://example.com/img.png"},
        {"operation": "insert_element", "blockType": "markdown", "content": "Another paragraph with some text here."}]}"#);
    let paths = collect_polish_paths("content_modify", &payload);
    assert_eq!(paths, vec!["/operations/0/content", "/operations/2/content"]);
}

#[test]
fn paths_content_modify_no_operations() {
    let payload = j(r#"{"uri": "coda://docs/abc"}"#);
    let paths = collect_polish_paths("content_modify", &payload);
    assert!(paths.is_empty());
}

#[test]
fn paths_page_create_with_content() {
    let payload = j(r#"{"uri": "coda://docs/abc", "title": "My Page", "content": "Some markdown content for the page body."}"#);
    let paths = collect_polish_paths("page_create_with_content", &payload);
    assert_eq!(paths, vec!["/content"]);
}

#[test]
fn paths_page_create_no_content() {
    let payload = j(r#"{"uri": "coda://docs/abc", "title": "My Page"}"#);
    let paths = collect_polish_paths("page_create_with_content", &payload);
    assert!(paths.is_empty());
}

#[test]
fn paths_doc_scaffold_multiple_pages() {
    let payload = j(r#"{"title": "My Doc", "pages": [
        {"title": "Intro", "content": "Welcome to this document, it has great info."},
        {"title": "Empty Page"},
        {"title": "Details", "content": "Here are the details about the project plan."}]}"#);
    let paths = collect_polish_paths("doc_scaffold", &payload);
    assert_eq!(paths, vec!["/pages/0/content", "/pages/2/content"]);
}

#[test]
fn paths_doc_scaffold_no_pages() {
    let payload = j(r#"{"title": "My Doc"}"#);
    let paths = collect_polish_paths("doc_scaffold", &payload);
    assert!(paths.is_empty());
}

#[test]
fn paths_unknown_tool_empty() {
    let payload = j(r#"{"uri": "coda://docs/abc", "title": "Test"}"#);
    assert!(collect_polish_paths("whoami", &payload).is_empty());
    assert!(collect_polish_paths("table_create", &payload).is_empty());
    assert!(collect_polish_paths("page_create", &payload).is_empty());
}

#[test]
fn paths_generic_content_field() {
    let payload = j(r#"{"uri": "coda://docs/abc", "content": "Some long enough content to be polished here"}"#);
    let paths = collect_polish_paths("some_unknown_tool", &payload);
    assert_eq!(paths, vec!["/content"]);
}

#[test]
fn paths_generic_no_content_field() {
    let payload = j(r#"{"uri": "coda://docs/abc", "title": "Short"}"#);
    let paths = collect_polish_paths("some_unknown_tool", &payload);
    assert!(paths.is_empty());
}

#[test]
fn paths_generic_short_content_skipped() {
    let payload = j(r#"{"content": "Too short"}"#);
    let paths = collect_polish_paths("unknown_tool", &payload);
    assert!(paths.is_empty());
}

#[test]
fn load_style_guide_returns_default() {
    let guide = style_guide(None);
    assert!(guide.contains("Oxford comma"));
    assert!(guide.contains("surgical"));
    assert_eq!(style_guide(Some("  \n ")), DEFAULT_STYLE_GUIDE);
    assert_eq!(style_guide(Some("House rules")), "House rules");
}

#[test]
fn polish_payload_skips_non_text_tools() {
    let (p, step) = Polisher::start("whoami", j(r#"{"some": "data"}"#));
    assert!(matches!(step, PolishStep::Finish(Ok(0))));
    assert_eq!(p.payload(), &j(r#"{"some": "data"}"#));
}

#[test]
fn polish_payload_skips_short_text() {
    let payload = j(r#"{"uri": "coda://docs/abc", "title": "Page", "content": "Short."}"#);
    let (_, step) = Polisher::start("page_create_with_content", payload);
    assert!(matches!(step, PolishStep::Finish(Ok(0))));
}

#[test]
fn polisher_replaces_changed_text_and_counts_it() {
    let payload = j(r#"{"title": "Doc", "pages": [
        {"content": "this text has a eror in it somewhere"},
        {"content": "this text is already fine as it is"}]}"#);
    let (mut p, step) = Polisher::start("doc_scaffold", payload);
    match step {
        PolishStep::Polish(t) => assert_eq!(t, "this text has a eror in it somewhere"),
        _ => panic!("the first page is polished"),
    }
    let step = p.next(Ok("This text has an error in it somewhere.".to_string()));
    match step {
        PolishStep::Polish(t) => assert_eq!(t, "this text is already fine as it is"),
        _ => panic!("the second page is polished"),
    }
    let step = p.next(Ok("this text is already fine as it is".to_string()));
    assert!(matches!(step, PolishStep::Finish(Ok(1))));
    let pages = field(p.payload(), "pages").as_array().unwrap();
    assert_eq!(field(&pages[0], "content"), &j(r#""This text has an error in it somewhere.""#));
    assert_eq!(field(&pages[1], "content"), &j(r#""this text is already fine as it is""#));
}

#[test]
fn polisher_keeps_text_on_empty_answer_and_stops_on_error() {
    let payload = j(r#"{"content": "a long enough paragraph of text here"}"#);
    let (mut p, _) = Polisher::start("page_create_with_content", payload);
    assert!(matches!(p.next(Ok(String::new())), PolishStep::Finish(Ok(0))));
    let (mut q, _) = Polisher::start("page_create_with_content", j(r#"{"content": "a long enough paragraph of text here"}"#));
    assert!(matches!(q.next(Err(CodaError::Polish("down".into()))), PolishStep::Finish(Err(CodaError::Polish(_)))));
}

#[test]
fn request_and_reply_of_the_model() {
    let req = polish_request("editor-model", "Fix me", "Rules");
    assert_eq!(field(&req, "model"), &j(r#""editor-model""#));
    assert_eq!(field(&req, "max_tokens"), &j("4096"));
    let msgs = field(&req, "messages").as_array().unwrap();
    assert_eq!(field(&msgs[0], "content"), &j(r#""Rules\n\n---\n\nText to polish:\n\nFix me""#));
    assert_eq!(polish_reply(200, &j(r#"{"content": [{"text": "Fixed."}]}"#)).ok().unwrap(), "Fixed.");
    let err = polish_reply(401, &j(r#"{"error": {"message": "bad key"}}"#)).err().unwrap();
    assert_eq!(err.message(), "Polish error: Anthropic API error (401): bad key");
    let err = polish_reply(200, &j(r#"{"content": []}"#)).err().unwrap();
    assert_eq!(err.message(), "Polish error: Unexpected Anthropic response format");
}
