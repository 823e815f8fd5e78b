use vstd::prelude::*;

use crate::json::{Json, JsonV, json_fields_view, lemma_fields_view};
use crate::text::owned;

verus! {

/// The stable machine-readable error classes, one per process exit code.
#[derive(Clone, Copy, Debug, PartialEq, Eq, Structural)]
pub enum ErrorCode {
    Error,
    Network,
    AuthRequired,
    NotFound,
    RateLimited,
    InvalidInput,
    NoAccount,
}

/// The exit code of each error class.
pub open spec fn spec_exit_code(c: ErrorCode) -> i32 {
    match c {
        ErrorCode::Error => 1,
        ErrorCode::Network => 2,
        ErrorCode::AuthRequired => 3,
        ErrorCode::NotFound => 4,
        ErrorCode::RateLimited => 5,
        ErrorCode::InvalidInput => 6,
        ErrorCode::NoAccount => 7,
    }
}

/// The name of each error class in the error envelope.
pub open spec fn spec_code_name(c: ErrorCode) -> Seq<char> {
    match c {
        ErrorCode::Error => "error"@,
        ErrorCode::Network => "network"@,
        ErrorCode::AuthRequired => "auth_required"@,
        ErrorCode::NotFound => "not_found"@,
        ErrorCode::RateLimited => "rate_limited"@,
        ErrorCode::InvalidInput => "invalid_input"@,
        ErrorCode::NoAccount => "no_account"@,
    }
}

impl ErrorCode {
    /// The process exit code for this class.
    pub fn exit_code(&self) -> (r: i32)
        ensures
            r == spec_exit_code(*self),
    {
        match self {
            ErrorCode::Error => 1,
            ErrorCode::Network => 2,
            ErrorCode::AuthRequired => 3,
            ErrorCode::NotFound => 4,
            ErrorCode::RateLimited => 5,
            ErrorCode::InvalidInput => 6,
            ErrorCode::NoAccount => 7,
        }
    }

    /// The name of this class, as the error envelope carries it.
    pub fn as_str(&self) -> (r: &'static str)
        ensures
            r@ == spec_code_name(*self),
    {
        match self {
            ErrorCode::Error => "error",
            ErrorCode::Network => "network",
            ErrorCode::AuthRequired => "auth_required",
            ErrorCode::NotFound => "not_found",
            ErrorCode::RateLimited => "rate_limited",
            ErrorCode::InvalidInput => "invalid_input",
            ErrorCode::NoAccount => "no_account",
        }
    }
}

/// Exit codes tell the error classes apart: no two classes share one, and none is 0.
pub proof fn law_exit_codes_distinct(a: ErrorCode, b: ErrorCode)
    ensures
        spec_exit_code(a) != 0,
        spec_exit_code(a) == spec_exit_code(b) <==> a == b,
{
}

/// A failure with its class, a message, and optional detail and remediation.
#[derive(Clone, Debug)]
pub struct Error {
    pub code: ErrorCode,
    pub message: String,
    pub detail: Option<String>,
    pub remediation: Option<String>,
}

/// The mathematical value of an [`Error`].
pub struct ErrorV {
    pub code: ErrorCode,
    pub message: Seq<char>,
    pub detail: Option<Seq<char>>,
    pub remediation: Option<Seq<char>>,
}

/// The view of an optional string.
pub open spec fn ostr(o: Option<String>) -> Option<Seq<char>> {
    match o {
        Some(s) => Some(s@),
        None => None,
    }
}

impl View for Error {
    type V = ErrorV;

    open spec fn view(&self) -> ErrorV {
        ErrorV {
            code: self.code,
            message: self.message@,
            detail: ostr(self.detail),
            remediation: ostr(self.remediation),
        }
    }
}

/// An error value with the given class and message, and nothing else.
pub open spec fn err(code: ErrorCode, message: Seq<char>) -> ErrorV {
    ErrorV { code, message, detail: None, remediation: None }
}

/// `e` with its detail set.
pub open spec fn with_detail(e: ErrorV, d: Seq<char>) -> ErrorV {
    ErrorV { detail: Some(d), ..e }
}

/// `e` with its remediation set.
pub open spec fn with_fix(e: ErrorV, f: Seq<char>) -> ErrorV {
    ErrorV { remediation: Some(f), ..e }
}

/// The fields of the error envelope.
pub open spec fn spec_envelope(e: ErrorV) -> JsonV {
    let base = seq![("error"@, JsonV::Str(e.message)), ("code"@, JsonV::Str(spec_code_name(e.code)))];
    let with_detail = match e.detail {
        Some(d) => base.push(("detail"@, JsonV::Str(d))),
        None => base,
    };
    JsonV::Object(
        match e.remediation {
            Some(f) => with_detail.push(("remediation"@, JsonV::Str(f))),
            None => with_detail,
        },
    )
}

impl Error {
    pub fn new(code: ErrorCode, message: String) -> (r: Error)
        ensures
            r@ == err(code, message@),
    {
        Error { code, message, detail: None, remediation: None }
    }

    /// An `invalid_input` error.
    pub fn invalid(message: String) -> (r: Error)
        ensures
            r@ == err(ErrorCode::InvalidInput, message@),
    {
        Error::new(ErrorCode::InvalidInput, message)
    }

    /// An unclassified error.
    pub fn other(message: String) -> (r: Error)
        ensures
            r@ == err(ErrorCode::Error, message@),
    {
        Error::new(ErrorCode::Error, message)
    }

    /// Sets the detail.
    pub fn detail(self, d: String) -> (r: Error)
        ensures
            r@ == with_detail(self@, d@),
    {
        Error { detail: Some(d), ..self }
    }

    /// Sets the remediation.
    pub fn fix(self, f: String) -> (r: Error)
        ensures
            r@ == with_fix(self@, f@),
    {
        Error { remediation: Some(f), ..self }
    }

    /// The envelope written to stderr for this error.
    pub fn envelope(&self) -> (r: Json)
        ensures
            r@ == spec_envelope(self@),
    {
        let mut fields: Vec<(String, Json)> = Vec::new();
        fields.push((owned("error"), Json::Str(self.message.clone())));
        fields.push((owned("code"), Json::Str(owned(self.code.as_str()))));
        match &self.detail {
            Some(d) => fields.push((owned("detail"), Json::Str(d.clone()))),
            None => {},
        }
        match &self.remediation {
            Some(f) => fields.push((owned("remediation"), Json::Str(f.clone()))),
            None => {},
        }
        proof {
            lemma_fields_view(fields@);
            assert(json_fields_view(fields@) =~= match spec_envelope(self@) {
                JsonV::Object(f) => f,
                _ => Seq::empty(),
            });
        }
        Json::Object(fields)
    }
}

} // verus!
