//! The validated, in-memory representation of all flags of one invocation.

use vstd::prelude::*;
use vstd::string::StrSliceExecFns;
use crate::method::Method;

verus! {

/// A value given either inline or as a reference to a file, written `@path`.
/// The recurring value-or-file duality of headers, cookies and body data.
#[derive(Debug, Clone, PartialEq, Eq)]
pub enum ValueSource {
    Literal(String),
    FileRef(String),
}

/// The mathematical image of a value source.
pub enum ValueSourceView {
    Literal(Seq<char>),
    FileRef(Seq<char>),
}

impl View for ValueSource {
    type V = ValueSourceView;

    open spec fn view(&self) -> ValueSourceView {
        match self {
            ValueSource::Literal(s) => ValueSourceView::Literal(s@),
            ValueSource::FileRef(s) => ValueSourceView::FileRef(s@),
        }
    }
}

/// How a raw flag value is read: a leading `@` marks a file reference, and
/// the rest of the text is the path; anything else is the value itself.
pub open spec fn classify_spec(s: Seq<char>) -> ValueSourceView {
    if s.len() > 0 && s[0] == '@' {
        ValueSourceView::FileRef(s.subrange(1, s.len() as int))
    } else {
        ValueSourceView::Literal(s)
    }
}

/// Splits a raw flag value into inline value or file reference.
pub fn classify_source(s: &str) -> (r: ValueSource)
    ensures
        r@ == classify_spec(s@),
{
    let n = s.unicode_len();
    if n > 0 && s.get_char(0) == '@' {
        ValueSource::FileRef(s.substring_char(1, n).to_owned())
    } else {
        ValueSource::Literal(s.to_owned())
    }
}

/// The image of an optional string.
pub open spec fn view_opt_str(o: Option<String>) -> Option<Seq<char>> {
    match o {
        Some(s) => Some(s@),
        None => None,
    }
}

/// The image of an optional value source.
pub open spec fn view_opt_src(o: Option<ValueSource>) -> Option<ValueSourceView> {
    match o {
        Some(s) => Some(s@),
        None => None,
    }
}

/// Everything one invocation is configured with.
#[derive(Debug, Clone)]
pub struct Config {
    /// The target URL, as given.
    pub url: String,
    /// The resolved request method.
    pub method: Method,
    /// Basic credentials, `user:pass`.
    pub basic: Option<String>,
    /// A bearer token.
    pub bearer: Option<String>,
    /// The request body: inline text or a file to stream.
    pub data: Option<ValueSource>,
    /// A JSON object describing a multipart form.
    pub form: Option<String>,
    /// Header entries in declared order: inline `Key=Value` or a JSON file.
    pub headers: Vec<ValueSource>,
    /// The Cookie header value: inline or the raw text of a file.
    pub cookies: Option<ValueSource>,
    /// A proxy URL for all schemes.
    pub proxy: Option<String>,
    /// Whether redirect responses are followed.
    pub allow_redirects: bool,
    /// Whether the transport must speak HTTP/2 without fallback.
    pub http2_only: bool,
    /// A request-scoped deadline in seconds.
    pub timeout_seconds: Option<u64>,
    /// A user-agent overriding the default.
    pub user_agent: Option<String>,
    /// Where to stream the response body instead of printing it.
    pub download: Option<String>,
    /// Whether a JSON response body is re-indented before printing.
    pub pretty_print: bool,
    /// Whether request and response metadata are printed.
    pub verbose: bool,
    /// Whether the request is only built and printed, never sent.
    pub debug: bool,
}

/// The mathematical image of a configuration.
pub struct ConfigView {
    pub url: Seq<char>,
    pub method: Method,
    pub basic: Option<Seq<char>>,
    pub bearer: Option<Seq<char>>,
    pub data: Option<ValueSourceView>,
    pub form: Option<Seq<char>>,
    pub headers: Seq<ValueSourceView>,
    pub cookies: Option<ValueSourceView>,
    pub proxy: Option<Seq<char>>,
    pub allow_redirects: bool,
    pub http2_only: bool,
    pub timeout_seconds: Option<u64>,
    pub user_agent: Option<Seq<char>>,
    pub download: Option<Seq<char>>,
    pub pretty_print: bool,
    pub verbose: bool,
    pub debug: bool,
}

impl View for Config {
    type V = ConfigView;

    open spec fn view(&self) -> ConfigView {
        ConfigView {
            url: self.url@,
            method: self.method,
            basic: view_opt_str(self.basic),
            bearer: view_opt_str(self.bearer),
            data: view_opt_src(self.data),
            form: view_opt_str(self.form),
            headers: Seq::new(self.headers@.len(), |i: int| self.headers@[i]@),
            cookies: view_opt_src(self.cookies),
            proxy: view_opt_str(self.proxy),
            allow_redirects: self.allow_redirects,
            http2_only: self.http2_only,
            timeout_seconds: self.timeout_seconds,
            user_agent: view_opt_str(self.user_agent),
            download: view_opt_str(self.download),
            pretty_print: self.pretty_print,
            verbose: self.verbose,
            debug: self.debug,
        }
    }
}

impl Config {
    /// A configuration that requests `url` with everything else at its
    /// default: method GET, no body, no extra headers, redirects followed.
    pub fn new(url: String) -> (r: Config)
        ensures
            r@.url == url@,
            r@.method == Method::Get,
            r@.basic is None,
            r@.bearer is None,
            r@.data is None,
            r@.form is None,
            r@.headers.len() == 0,
            r@.cookies is None,
            r@.proxy is None,
            r@.allow_redirects,
            !r@.http2_only,
            r@.timeout_seconds is None,
            r@.user_agent is None,
            r@.download is None,
            !r@.pretty_print,
            !r@.verbose,
            !r@.debug,
    {
        Config {
            url,
            method: Method::Get,
            basic: None,
            bearer: None,
            data: None,
            form: None,
            headers: Vec::new(),
            cookies: None,
            proxy: None,
            allow_redirects: true,
            http2_only: false,
            timeout_seconds: None,
            user_agent: None,
            download: None,
            pretty_print: false,
            verbose: false,
            debug: false,
        }
    }
}

} // verus!
