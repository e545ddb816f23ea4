//! The failure classes of the request pipeline.  Every failure is fail-fast:
//! the first one encountered aborts the run.

use vstd::prelude::*;

verus! {

/// One failure class of the pipeline, with the offending input.
#[derive(Debug, Clone, PartialEq, Eq)]
pub enum RqError {
    /// Client construction failed: the proxy URL cannot be parsed.
    ConfigError(String),
    /// The target URL is not an absolute, well-formed URL.
    InvalidUrl(String),
    /// An inline header entry has no `=` separator.
    MalformedHeader(String),
    /// A header file could not be read, or its text is not JSON.
    HeaderFileError(String),
    /// A header file maps the named key to a non-string value.
    BadHeaderValue(String),
    /// A basic-auth credential has no `:` separator.
    MalformedAuth(String),
    /// The form description is not a JSON text.
    BadFormData(String),
    /// A file named by the configuration does not exist.
    FileNotFound(String),
    /// The transport failed: connection or name resolution.
    Transport(String),
    /// The configured deadline expired.
    Timeout(String),
}

/// The mathematical image of an error: the class and the offending text.
pub enum ErrorView {
    ConfigError(Seq<char>),
    InvalidUrl(Seq<char>),
    MalformedHeader(Seq<char>),
    HeaderFileError(Seq<char>),
    BadHeaderValue(Seq<char>),
    MalformedAuth(Seq<char>),
    BadFormData(Seq<char>),
    FileNotFound(Seq<char>),
    Transport(Seq<char>),
    Timeout(Seq<char>),
}

impl View for RqError {
    type V = ErrorView;

    open spec fn view(&self) -> ErrorView {
        match self {
            RqError::ConfigError(s) => ErrorView::ConfigError(s@),
            RqError::InvalidUrl(s) => ErrorView::InvalidUrl(s@),
            RqError::MalformedHeader(s) => ErrorView::MalformedHeader(s@),
            RqError::HeaderFileError(s) => ErrorView::HeaderFileError(s@),
            RqError::BadHeaderValue(s) => ErrorView::BadHeaderValue(s@),
            RqError::MalformedAuth(s) => ErrorView::MalformedAuth(s@),
            RqError::BadFormData(s) => ErrorView::BadFormData(s@),
            RqError::FileNotFound(s) => ErrorView::FileNotFound(s@),
            RqError::Transport(s) => ErrorView::Transport(s@),
            RqError::Timeout(s) => ErrorView::Timeout(s@),
        }
    }
}

/// The diagnostic line an error is reported with.
pub open spec fn describe_spec(e: ErrorView) -> Seq<char> {
    match e {
        ErrorView::ConfigError(s) => "invalid proxy: "@ + s,
        ErrorView::InvalidUrl(s) => "cannot be parsed as url: "@ + s,
        ErrorView::MalformedHeader(s) => "malformed header: "@ + s,
        ErrorView::HeaderFileError(s) => "bad header file: "@ + s,
        ErrorView::BadHeaderValue(s) => "not a proper header value under key: "@ + s,
        ErrorView::MalformedAuth(s) => "malformed basic auth: "@ + s,
        ErrorView::BadFormData(s) => "bad form data: "@ + s,
        ErrorView::FileNotFound(s) => "failed to open "@ + s,
        ErrorView::Transport(s) => "transport failure: "@ + s,
        ErrorView::Timeout(s) => "timed out: "@ + s,
    }
}

impl RqError {
    /// The diagnostic line for this error.
    pub fn describe(&self) -> (r: String)
        ensures
            r@ == describe_spec(self@),
    {
        match self {
            RqError::ConfigError(s) => String::from_str("invalid proxy: ").concat(s.as_str()),
            RqError::InvalidUrl(s) => String::from_str("cannot be parsed as url: ").concat(
                s.as_str(),
            ),
            RqError::MalformedHeader(s) => String::from_str("malformed header: ").concat(
                s.as_str(),
            ),
            RqError::HeaderFileError(s) => String::from_str("bad header file: ").concat(s.as_str()),
            RqError::BadHeaderValue(s) => String::from_str(
                "not a proper header value under key: ",
            ).concat(s.as_str()),
            RqError::MalformedAuth(s) => String::from_str("malformed basic auth: ").concat(
                s.as_str(),
            ),
            RqError::BadFormData(s) => String::from_str("bad form data: ").concat(s.as_str()),
            RqError::FileNotFound(s) => String::from_str("failed to open ").concat(s.as_str()),
            RqError::Transport(s) => String::from_str("transport failure: ").concat(s.as_str()),
            RqError::Timeout(s) => String::from_str("timed out: ").concat(s.as_str()),
        }
    }
}

} // verus!
