//! The library's errors, their agent-facing type names and their messages.
use vstd::prelude::*;
use crate::text::{decimal, push_decimal, extend_str, string_of};

verus! {

/// An error of the command line interface. The transport, JSON and I/O
/// variants carry the text of the underlying error.
#[derive(Debug)]
pub enum CodaError {
    NoToken,
    Api { status: u16, message: String },
    Validation(String),
    ContractChanged { tool: String, message: String },
    Http(String),
    Json(String),
    Io(String),
    Polish(String),
    Other(String),
}

/// The model of an error.
pub enum CodaErrorV {
    NoToken,
    Api { status: u16, message: Seq<char> },
    Validation(Seq<char>),
    ContractChanged { tool: Seq<char>, message: Seq<char> },
    Http(Seq<char>),
    Json(Seq<char>),
    Io(Seq<char>),
    Polish(Seq<char>),
    Other(Seq<char>),
}

impl View for CodaError {
    type V = CodaErrorV;

    open spec fn view(&self) -> CodaErrorV {
        match self {
            CodaError::NoToken => CodaErrorV::NoToken,
            CodaError::Api { status, message } => CodaErrorV::Api { status: *status, message: message@ },
            CodaError::Validation(m) => CodaErrorV::Validation(m@),
            CodaError::ContractChanged { tool, message } => CodaErrorV::ContractChanged { tool: tool@, message: message@ },
            CodaError::Http(m) => CodaErrorV::Http(m@),
            CodaError::Json(m) => CodaErrorV::Json(m@),
            CodaError::Io(m) => CodaErrorV::Io(m@),
            CodaError::Polish(m) => CodaErrorV::Polish(m@),
            CodaError::Other(m) => CodaErrorV::Other(m@),
        }
    }
}

/// The agent-facing type name of an error.
pub open spec fn error_type_spec(e: CodaError) -> Seq<char> {
    match e {
        CodaError::ContractChanged { .. } => "contract_changed"@,
        CodaError::Api { .. } => "api_error"@,
        CodaError::Validation(_) => "validation_error"@,
        CodaError::NoToken => "auth_required"@,
        CodaError::Polish(_) => "polish_error"@,
        _ => "error"@,
    }
}

/// The status codes on which a call is worth repeating.
pub open spec fn retriable_status(status: u16) -> bool {
    status == 409 || status == 429 || (500 <= status && status <= 599)
}

/// Transient errors: network failures and the statuses above.
pub open spec fn is_retriable_spec(e: CodaError) -> bool {
    match e {
        CodaError::Api { status, .. } => retriable_status(status),
        CodaError::Http(_) => true,
        _ => false,
    }
}

/// The message of an error, as the command line prints it.
pub open spec fn message_spec(e: CodaError) -> Seq<char> {
    match e {
        CodaError::NoToken => "Authentication required. Run `shd auth login` or set CODA_API_TOKEN."@,
        CodaError::Api { status, message } => "API error ("@ + decimal(status as nat) + "): "@ + message@,
        CodaError::Validation(m) => "Validation error: "@ + m@,
        CodaError::ContractChanged { tool, message } => "Tool contract changed ("@ + tool@ + "): "@ + message@,
        CodaError::Http(m) => "HTTP error: "@ + m@,
        CodaError::Json(m) => "JSON error: "@ + m@,
        CodaError::Io(m) => "IO error: "@ + m@,
        CodaError::Polish(m) => "Polish error: "@ + m@,
        CodaError::Other(m) => m@,
    }
}

impl CodaError {
    pub fn error_type(&self) -> (r: &'static str)
        ensures
            r@ == error_type_spec(*self),
    {
        match self {
            CodaError::ContractChanged { .. } => "contract_changed",
            CodaError::Api { .. } => "api_error",
            CodaError::Validation(_) => "validation_error",
            CodaError::NoToken => "auth_required",
            CodaError::Polish(_) => "polish_error",
            _ => "error",
        }
    }

    /// Whether this error is transient and worth retrying.
    /// Only network errors and specific HTTP status codes are retriable.
    pub fn is_retriable(&self) -> (r: bool)
        ensures
            r == is_retriable_spec(*self),
    {
        match self {
            CodaError::Api { status, .. } => *status == 409 || *status == 429 || (500 <= *status && *status <= 599),
            CodaError::Http(_) => true,
            _ => false,
        }
    }

    /// The error's message.
    pub fn message(&self) -> (r: String)
        ensures
            r@ == message_spec(*self),
    {
        let mut v: Vec<char> = Vec::new();
        match self {
            CodaError::NoToken => {
                extend_str(&mut v, "Authentication required. Run `shd auth login` or set CODA_API_TOKEN.");
            },
            CodaError::Api { status, message } => {
                extend_str(&mut v, "API error (");
                push_decimal(&mut v, *status as u64);
                extend_str(&mut v, "): ");
                extend_str(&mut v, message.as_str());
            },
            CodaError::Validation(m) => {
                extend_str(&mut v, "Validation error: ");
                extend_str(&mut v, m.as_str());
            },
            CodaError::ContractChanged { tool, message } => {
                extend_str(&mut v, "Tool contract changed (");
                extend_str(&mut v, tool.as_str());
                extend_str(&mut v, "): ");
                extend_str(&mut v, message.as_str());
            },
            CodaError::Http(m) => {
                extend_str(&mut v, "HTTP error: ");
                extend_str(&mut v, m.as_str());
            },
            CodaError::Json(m) => {
                extend_str(&mut v, "JSON error: ");
                extend_str(&mut v, m.as_str());
            },
            CodaError::Io(m) => {
                extend_str(&mut v, "IO error: ");
                extend_str(&mut v, m.as_str());
            },
            CodaError::Polish(m) => {
                extend_str(&mut v, "Polish error: ");
                extend_str(&mut v, m.as_str());
            },
            CodaError::Other(m) => {
                extend_str(&mut v, m.as_str());
            },
        }
        assert(v@ =~= message_spec(*self));
        string_of(v.as_slice())
    }
}

} // verus!
