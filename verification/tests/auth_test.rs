use coda_cli::auth::{
    credential_path, credential_path_display, login_token, logout_line, resolve_token, status_line, stored_token,
    whoami_name,
};
use coda_cli::error::CodaError;
use coda_cli::json::Json;

fn to_json(v: &serde_json::Value) -> Json {
    match v {
        serde_json::Value::Null => Json::Null,
        serde_json::Value::Bool(b) => Json::Bool(*b),
        serde_json::Value::Number(n) => Json::Number(n.to_string()),
        serde_json::Value::String(s) => Json::Str(s.clone()),
        serde_json::Value::Array(a) => Json::Array(a.iter().map(to_json).collect()),
        serde_json::Value::Object(m) => Json::Object(m.iter().map(|(k, x)| (k.clone(), to_json(x))).collect()),
    }
}

/// A value written as JSON text.
fn j(text: &str) -> Json {
    to_json(&serde_json::from_str::<serde_json::Value>(text).expect("test JSON"))
}

fn field<'a>(v: &'a Json, key: &str) -> &'a Json {
    v.get(key).unwrap_or_else(|| panic!("no field {key} in {v:?}"))
}

#[test]
fn token_precedence() {
    assert_eq!(resolve_token(Some("flag"), Some("env"), Ok(Some("file".into()))).ok().unwrap(), "flag");
    assert_eq!(resolve_token(None, Some("env"), Ok(Some("file".into()))).ok().unwrap(), "env");
    assert_eq!(resolve_token(None, Some(""), Ok(Some("  file\n".into()))).ok().unwrap(), "file");
    assert!(matches!(resolve_token(None, None, Ok(None)), Err(CodaError::NoToken)));
    assert!(matches!(resolve_token(None, None, Ok(Some(" \n".into()))), Err(CodaError::NoToken)));
    assert!(matches!(resolve_token(None, None, Err(CodaError::Io("denied".into()))), Err(CodaError::Io(_))));
}

#[test]
fn stored_tokens_are_trimmed() {
    assert_eq!(stored_token("  abc  \n"), Some("abc".into()));
    assert_eq!(stored_token("\n"), None);
}

#[test]
fn credential_paths() {
    assert_eq!(credential_path(Some("/home/a/.config")).ok().unwrap(), "/home/a/.config/coda/credentials");
    assert_eq!(credential_path_display(Some("/cfg/")), "/cfg/coda/credentials");
    assert_eq!(credential_path_display(None), "<unknown>");
    assert!(matches!(credential_path(None), Err(CodaError::Other(_))));
}

#[test]
fn login_and_status_lines() {
    assert_eq!(login_token(None, "  tok \n").ok().unwrap(), "tok");
    assert_eq!(login_token(Some(" spaced "), "").ok().unwrap(), " spaced ");
    assert!(matches!(login_token(None, "   "), Err(CodaError::Validation(_))));
    assert_eq!(whoami_name(&j(r#"{"name": "Ada"}"#)), "Ada");
    assert_eq!(whoami_name(&j("{}")), "unknown");
    assert_eq!(status_line(true, true, "p"), "Authenticated via CODA_API_TOKEN environment variable");
    assert_eq!(status_line(true, false, "/c"), "Authenticated via credential file (/c)");
    assert!(status_line(false, false, "/c").starts_with("Not authenticated."));
    assert_eq!(logout_line(true, "/c"), "Token removed from /c");
    assert_eq!(logout_line(false, "/c"), "No stored token found.");
}
