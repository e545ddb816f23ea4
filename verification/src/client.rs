//! The client factory: the subset of configuration that shapes the transport,
//! validated once per invocation.

use vstd::prelude::*;
use crate::config::{Config, ConfigView};
use crate::errors::{ErrorView, RqError};

verus! {

/// The user-agent the tool identifies itself with when none is configured.
pub const USER_AGENT_DEFAULT: &'static str = "github.com/davemolk/rusty-bits/rq";

/// What url::Url::parse makes of a text: the serialization of the parsed
/// absolute URL, or `None` when the text is not one.  A function of the text
/// alone.
pub uninterp spec fn url_norm_of(s: Seq<char>) -> Option<Seq<char>>;

/// Relies on url::Url::parse: a text either parses to an absolute URL, whose
/// serialization `Url::as_str` hands back, or is rejected.
#[verifier::external_body]
pub(crate) fn parse_url_norm(s: &str) -> (r: Option<String>)
    ensures
        r is Some <==> url_norm_of(s@) is Some,
        r matches Some(u) ==> url_norm_of(s@) == Some(u@),
{
    match url::Url::parse(s) {
        Ok(u) => Some(u.as_str().to_owned()),
        Err(_) => None,
    }
}

/// The immutable transport configuration: built once per invocation, shared
/// by the single request of that invocation.
#[derive(Debug, Clone)]
pub struct ClientConfig {
    /// The user-agent header the transport announces.
    pub user_agent: String,
    /// Whether redirect responses are followed; when not, they are returned
    /// to the caller as-is.
    pub follow_redirects: bool,
    /// Whether the transport negotiates HTTP/2 without falling back.
    pub http2_only: bool,
    /// The validated proxy URL all schemes are routed through, if any.
    pub proxy: Option<String>,
}

/// The mathematical image of a transport configuration.
pub struct ClientConfigView {
    pub user_agent: Seq<char>,
    pub follow_redirects: bool,
    pub http2_only: bool,
    pub proxy: Option<Seq<char>>,
}

impl View for ClientConfig {
    type V = ClientConfigView;

    open spec fn view(&self) -> ClientConfigView {
        ClientConfigView {
            user_agent: self.user_agent@,
            follow_redirects: self.follow_redirects,
            http2_only: self.http2_only,
            proxy: match self.proxy {
                Some(p) => Some(p@),
                None => None,
            },
        }
    }
}

/// The transport configuration a configuration calls for: the configured
/// user-agent or the fixed default, the redirect and HTTP/2 policies as
/// given, and the proxy URL validated — an unparsable proxy is the one
/// failure of client construction.
pub open spec fn client_spec(cfg: ConfigView) -> Result<ClientConfigView, ErrorView> {
    let ua = match cfg.user_agent {
        Some(u) => u,
        None => USER_AGENT_DEFAULT@,
    };
    match cfg.proxy {
        None => Ok(
            ClientConfigView {
                user_agent: ua,
                follow_redirects: cfg.allow_redirects,
                http2_only: cfg.http2_only,
                proxy: None,
            },
        ),
        Some(p) => match url_norm_of(p) {
            None => Err(ErrorView::ConfigError(p)),
            Some(u) => Ok(
                ClientConfigView {
                    user_agent: ua,
                    follow_redirects: cfg.allow_redirects,
                    http2_only: cfg.http2_only,
                    proxy: Some(u),
                },
            ),
        },
    }
}

/// Builds the transport configuration.  Fails exactly when a proxy is given
/// and does not parse as a URL.
pub fn build_client(cfg: &Config) -> (r: Result<ClientConfig, RqError>)
    ensures
        r is Ok <==> client_spec(cfg@) is Ok,
        r matches Ok(c) ==> client_spec(cfg@) == Ok::<ClientConfigView, ErrorView>(c@),
        r matches Err(e) ==> client_spec(cfg@) == Err::<ClientConfigView, ErrorView>(e@),
{
    let user_agent = match &cfg.user_agent {
        Some(u) => u.clone(),
        None => USER_AGENT_DEFAULT.to_owned(),
    };
    let proxy = match &cfg.proxy {
        None => None,
        Some(p) => match parse_url_norm(p.as_str()) {
            None => {
                return Err(RqError::ConfigError(p.clone()));
            },
            Some(u) => Some(u),
        },
    };
    Ok(
        ClientConfig {
            user_agent,
            follow_redirects: cfg.allow_redirects,
            http2_only: cfg.http2_only,
            proxy,
        },
    )
}

} // verus!
