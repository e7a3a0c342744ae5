use coda_cli::commands::compound::{is_compound, match_value};

#[test]
fn is_compound_recognizes_all_tools() {
    assert!(is_compound("page_create_with_content"));
    assert!(is_compound("doc_scaffold"));
    assert!(is_compound("doc_summarize"));
    assert!(is_compound("table_search"));
    assert!(!is_compound("page_create"));
    assert!(!is_compound("table_create"));
    assert!(!is_compound("whoami"));
}

#[test]
fn match_value_eq() {
    assert!(match_value("Active", "active", "eq"));
    assert!(!match_value("Active", "inactive", "eq"));
}

#[test]
fn match_value_ne() {
    assert!(match_value("Active", "inactive", "ne"));
    assert!(!match_value("Active", "active", "ne"));
}

#[test]
fn match_value_contains() {
    assert!(match_value("In Progress", "progress", "contains"));
    assert!(!match_value("Done", "progress", "contains"));
}

#[test]
fn match_value_unknown_operator_means_eq() {
    assert!(match_value("Done", "DONE", "gt"));
    assert!(!match_value("Done", "Open", "gt"));
}
