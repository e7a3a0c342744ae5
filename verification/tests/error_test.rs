use coda_cli::error::CodaError;

#[test]
fn retriable_errors() {
    let cases = [429, 500, 502, 503, 409];
    for status in cases {
        let err = CodaError::Api { status, message: format!("status {status}") };
        assert!(err.is_retriable(), "Expected status {status} to be retriable");
    }
    assert!(CodaError::Http("reset".into()).is_retriable());
}

#[test]
fn non_retriable_errors() {
    let cases = [400, 401, 403, 404];
    for status in cases {
        let err = CodaError::Api { status, message: format!("status {status}") };
        assert!(!err.is_retriable(), "Expected status {status} to NOT be retriable");
    }
    assert!(!CodaError::Validation("bad input".into()).is_retriable());
    assert!(!CodaError::Other("something".into()).is_retriable());
    assert!(!CodaError::NoToken.is_retriable());
    assert!(!CodaError::ContractChanged { tool: "t".into(), message: "m".into() }.is_retriable());
    assert!(!CodaError::Polish("p".into()).is_retriable());
}

#[test]
fn messages_and_types() {
    let e = CodaError::Api { status: 404, message: "gone".into() };
    assert_eq!(e.message(), "API error (404): gone");
    assert_eq!(e.error_type(), "api_error");
    assert_eq!(CodaError::NoToken.error_type(), "auth_required");
    assert_eq!(CodaError::Validation("x".into()).message(), "Validation error: x");
    assert_eq!(CodaError::Other("plain".into()).message(), "plain");
    assert_eq!(CodaError::Io("disk".into()).error_type(), "error");
}
