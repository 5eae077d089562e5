//! What goes over the wire: requests as plain values, the replies to them, and
//! the setup of the client that carries them.

use super::agent::{build_agent, AgentConfig, HttpAgent, TrustStore};
use std::time::Duration;
use vstd::prelude::*;

verus! {

/// Creates a client with the given timeout.
///
/// Root certificates come from the trust store of the operating system, so a
/// corporate proxy that intercepts TLS, and whose root certificate is installed
/// there, does not break every HTTPS call. Verification itself is unaffected:
/// only the trust anchor changes.
pub fn agent_with_timeout(timeout: Duration) -> (r: HttpAgent)
    ensures
        r@ == (AgentConfig {
            timeout_global: Some(timeout),
            root_certs: TrustStore::Platform,
            disable_verification: false,
        }),
{
    build_agent(
        AgentConfig {
            timeout_global: Some(timeout),
            root_certs: TrustStore::Platform,
            disable_verification: false,
        },
    )
}

/// The method of a request, with its body.
#[derive(Debug, Clone, Copy, PartialEq, Eq, Structural)]
pub enum Method {
    /// GET, without a body.
    Get,
    /// POST of the JSON object whose one member `amount` is this number.
    Post { amount: u64 },
}

/// A request to send with the client of [`agent_with_timeout`].
#[derive(Debug)]
pub struct Request {
    pub method: Method,
    pub url: String,
    /// Value of the `User-Agent` header, if one is set.
    pub user_agent: Option<&'static str>,
    /// Limit on the whole exchange.
    pub timeout_ms: u64,
}

/// The contents of a [`Request`].
pub struct RequestContents {
    pub method: Method,
    pub url: Seq<char>,
    pub user_agent: Option<Seq<char>>,
    pub timeout_ms: u64,
}

impl View for Request {
    type V = RequestContents;

    open spec fn view(&self) -> RequestContents {
        RequestContents {
            method: self.method,
            url: self.url@,
            user_agent: match self.user_agent {
                Some(name) => Some(name@),
                None => None,
            },
            timeout_ms: self.timeout_ms,
        }
    }
}

/// What came back for a request: the decoded body, or what the transport or the
/// decoder reported.
pub type Reply<T> = Result<T, String>;

/// The contents of a request are its parts, each in its place.
pub proof fn law_contents_of_a_request(request: Request)
    ensures
        request@.method == request.method,
        request@.url == request.url@,
        request.user_agent is None ==> request@.user_agent is None,
        request.user_agent matches Some(name) ==> request@.user_agent == Some(name@),
        request@.timeout_ms == request.timeout_ms,
{
}

} // verus!
