use coda_cli::error::CodaError;
use coda_cli::validate::{encode_path_segment, validate_resource_id};

#[test]
fn valid_ids() {
    assert!(validate_resource_id("AbCdEf123", "docId").is_ok());
    assert!(validate_resource_id("i-row-abc_123", "rowId").is_ok());
}

#[test]
fn rejects_empty() {
    assert!(validate_resource_id("", "docId").is_err());
}

#[test]
fn rejects_control_chars() {
    assert!(validate_resource_id("abc\0def", "docId").is_err());
    assert!(validate_resource_id("abc\ndef", "docId").is_err());
    assert!(validate_resource_id("abc\tdef", "docId").is_err());
}

#[test]
fn rejects_query_injection() {
    assert!(validate_resource_id("abc?fields=name", "docId").is_err());
    assert!(validate_resource_id("abc#fragment", "docId").is_err());
}

#[test]
fn rejects_percent_encoding_bypass() {
    assert!(validate_resource_id("%2e%2e", "docId").is_err());
}

#[test]
fn rejects_path_traversal() {
    assert!(validate_resource_id("../../etc", "docId").is_err());
}

#[test]
fn encodes_path_segment() {
    assert_eq!(encode_path_segment("abc123"), "abc123");
    let encoded = encode_path_segment("has spaces");
    assert!(!encoded.contains(' '));
}

#[test]
fn encodes_every_non_alphanumeric_byte() {
    assert_eq!(encode_path_segment("a b/é"), "a%20b%2F%C3%A9");
}

#[test]
fn validation_messages_name_the_field() {
    match validate_resource_id("", "docId") {
        Err(CodaError::Validation(m)) => assert_eq!(m, "docId must not be empty"),
        _ => panic!("expected a validation error"),
    }
    match validate_resource_id("a?b", "rowId") {
        Err(CodaError::Validation(m)) => assert_eq!(m, "rowId must not contain '?' or '#': a?b"),
        _ => panic!("expected a validation error"),
    }
    match validate_resource_id("a..b", "docId") {
        Err(CodaError::Validation(m)) => assert_eq!(m, "docId must not contain path traversal (..): a..b"),
        _ => panic!("expected a validation error"),
    }
}
