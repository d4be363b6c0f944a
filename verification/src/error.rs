//! The library's error type and its messages.

use vstd::prelude::*;
use vstd::string::StringExecFns;

use crate::text::{decimal, push_decimal};

verus! {

/// Everything that can go wrong while configuring, fetching, parsing or caching.
#[derive(Debug, Clone)]
pub enum CoreError {
    Config(String),
    Auth(String),
    NotFound(String),
    Server(u16, String),
    Network(String),
    Parse(String),
    Cache(String),
}

pub type CoreResult<T> = Result<T, CoreError>;

/// A `CoreError` with its messages seen as character sequences.
pub ghost enum ErrorView {
    Config(Seq<char>),
    Auth(Seq<char>),
    NotFound(Seq<char>),
    Server(u16, Seq<char>),
    Network(Seq<char>),
    Parse(Seq<char>),
    Cache(Seq<char>),
}

impl View for CoreError {
    type V = ErrorView;

    open spec fn view(&self) -> ErrorView {
        match self {
            CoreError::Config(m) => ErrorView::Config(m@),
            CoreError::Auth(m) => ErrorView::Auth(m@),
            CoreError::NotFound(m) => ErrorView::NotFound(m@),
            CoreError::Server(code, m) => ErrorView::Server(*code, m@),
            CoreError::Network(m) => ErrorView::Network(m@),
            CoreError::Parse(m) => ErrorView::Parse(m@),
            CoreError::Cache(m) => ErrorView::Cache(m@),
        }
    }
}

/// The human-readable text of an error.
pub open spec fn error_text(e: ErrorView) -> Seq<char> {
    match e {
        ErrorView::Config(m) => "configuration error: "@ + m,
        ErrorView::Auth(m) => "authentication failed: "@ + m,
        ErrorView::NotFound(m) => "not found: "@ + m,
        ErrorView::Server(code, m) => "server error "@ + decimal(code as nat) + ": "@ + m,
        ErrorView::Network(m) => "network error: "@ + m,
        ErrorView::Parse(m) => "failed to parse response: "@ + m,
        ErrorView::Cache(m) => "cache error: "@ + m,
    }
}

/// How a failed HTTP exchange is classified, from the status code that the
/// transport reported (if any) and the transport's own description.
pub open spec fn transport_error(status: Option<u16>, text: Seq<char>) -> ErrorView {
    match status {
        Some(code) => if code == 401 || code == 403 {
            ErrorView::Auth(text)
        } else {
            ErrorView::Server(code, text)
        },
        None => ErrorView::Network(text),
    }
}

impl CoreError {
    /// The human-readable text of this error.
    pub fn to_string(&self) -> (r: String)
        ensures
            r@ == error_text(self@),
    {
        match self {
            CoreError::Config(m) => String::from_str("configuration error: ").concat(m.as_str()),
            CoreError::Auth(m) => String::from_str("authentication failed: ").concat(m.as_str()),
            CoreError::NotFound(m) => String::from_str("not found: ").concat(m.as_str()),
            CoreError::Server(code, m) => {
                let mut s = String::from_str("server error ");
                push_decimal(&mut s, *code as u64);
                s.concat(": ").concat(m.as_str())
            },
            CoreError::Network(m) => String::from_str("network error: ").concat(m.as_str()),
            CoreError::Parse(m) => String::from_str("failed to parse response: ").concat(
                m.as_str(),
            ),
            CoreError::Cache(m) => String::from_str("cache error: ").concat(m.as_str()),
        }
    }

    /// Classifies a failed HTTP exchange: a 401 or 403 status is an
    /// authentication failure, any other status a server error, and no
    /// status at all a network error.
    pub fn from_transport(status: Option<u16>, text: String) -> (r: CoreError)
        ensures
            r@ == transport_error(status, text@),
    {
        match status {
            Some(code) => if code == 401 || code == 403 {
                CoreError::Auth(text)
            } else {
                CoreError::Server(code, text)
            },
            None => CoreError::Network(text),
        }
    }
}

/// `serde_json::Error`, carried as an opaque value.
#[verifier::external_type_specification]
#[verifier::external_body]
pub struct ExJsonError(serde_json::Error);

/// `ureq::Error`, carried as an opaque value.
#[verifier::external_type_specification]
#[verifier::external_body]
pub struct ExUreqError(ureq::Error);

/// The status code of a `ureq::Error`: the code that the variant
/// `ureq::Error::StatusCode` carries, `None` for every other variant.
pub uninterp spec fn ureq_status_of(e: ureq::Error) -> Option<u16>;

/// Calls the `Display` formatting of `serde_json::Error`. Nothing is claimed
/// of the text, which may come from the operating system.
#[verifier::external_body]
fn json_error_text(e: &serde_json::Error) -> String {
    e.to_string()
}

/// Calls the `Display` formatting of `ureq::Error`. Nothing is claimed of the
/// text, which may come from the operating system.
#[verifier::external_body]
fn ureq_error_text(e: &ureq::Error) -> String {
    e.to_string()
}

/// Tells the variants of `ureq::Error` apart. Claimed: the result is
/// `ureq_status_of` of the error, the code of `ureq::Error::StatusCode` and
/// `None` for every other variant.
#[verifier::external_body]
fn ureq_error_status(e: &ureq::Error) -> (r: Option<u16>)
    ensures
        r == ureq_status_of(*e),
{
    match e {
        ureq::Error::StatusCode(code) => Some(*code),
        _ => None,
    }
}

impl CoreError {
    /// A JSON decoding failure becomes a parse error that carries its text.
    pub fn from_json_error(e: &serde_json::Error) -> (r: CoreError)
        ensures
            r is Parse,
    {
        CoreError::Parse(json_error_text(e))
    }

    /// A transport failure of the HTTP client, classified by its status code
    /// as `from_transport` does, with the failure's own description.
    pub fn from_ureq_error(e: &ureq::Error) -> (r: CoreError)
        ensures
            exists|text: Seq<char>| r@ == transport_error(ureq_status_of(*e), text),
    {
        let status = ureq_error_status(e);
        let text = ureq_error_text(e);
        let r = CoreError::from_transport(status, text);
        assert(r@ == transport_error(status, text@));
        r
    }
}

impl From<serde_json::Error> for CoreError {
    fn from(e: serde_json::Error) -> (r: CoreError) {
        CoreError::from_json_error(&e)
    }
}

/// The conversion promises what `from_json_error` states; since the error's
/// text is left open there, no exact result is given here.
impl vstd::std_specs::convert::FromSpecImpl<serde_json::Error> for CoreError {
    open spec fn obeys_from_spec() -> bool {
        false
    }

    open spec fn from_spec(v: serde_json::Error) -> CoreError {
        vstd::pervasive::arbitrary()
    }
}

/// The conversion promises what `from_ureq_error` states; since the error's
/// text is left open there, no exact result is given here.
impl vstd::std_specs::convert::FromSpecImpl<ureq::Error> for CoreError {
    open spec fn obeys_from_spec() -> bool {
        false
    }

    open spec fn from_spec(v: ureq::Error) -> CoreError {
        vstd::pervasive::arbitrary()
    }
}

impl From<ureq::Error> for CoreError {
    fn from(e: ureq::Error) -> (r: CoreError) {
        CoreError::from_ureq_error(&e)
    }
}

} // verus!
