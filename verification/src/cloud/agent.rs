//! The HTTP client, and the settings it is built from.
//!
//! The fields of [`HttpAgent`] are private to this module, and [`build_agent`] is
//! the one function that makes such a value. So the settings that a client
//! reports are those that were handed to the HTTP library when it was built.

use std::time::Duration;
use vstd::prelude::*;

verus! {

/// The HTTP client of the `ureq` crate.
#[verifier::external_type_specification]
#[verifier::external_body]
pub struct ExUreqAgent(ureq::Agent);

/// Where an HTTP client takes its root certificates from.
#[derive(Debug, Clone, Copy, PartialEq, Eq, Structural)]
pub enum TrustStore {
    /// The trust store of the operating system.
    Platform,
    /// Mozilla's roots, which the HTTP client ships with.
    Bundled,
}

/// The settings of an HTTP client.
#[derive(Debug, Clone, Copy, PartialEq, Eq)]
pub struct AgentConfig {
    /// Limit on a whole exchange; unlimited if absent.
    pub timeout_global: Option<Duration>,
    /// Trust anchors of TLS connections.
    pub root_certs: TrustStore,
    /// Whether the certificates of servers go unchecked.
    pub disable_verification: bool,
}

/// An HTTP client. Its view is the settings that it was built from.
pub struct HttpAgent {
    config: AgentConfig,
    client: ureq::Agent,
}

impl View for HttpAgent {
    type V = AgentConfig;

    closed spec fn view(&self) -> AgentConfig {
        self.config
    }
}

impl HttpAgent {
    /// The client of the `ureq` crate.
    pub closed spec fn client(self) -> ureq::Agent {
        self.client
    }

    /// The settings that the client was built from.
    pub fn configuration(&self) -> (r: AgentConfig)
        ensures
            r == self@,
    {
        self.config
    }

    /// The client, to send requests with.
    pub fn as_client(&self) -> (r: &ureq::Agent)
        ensures
            *r == self.client(),
    {
        &self.client
    }
}

/// Builds a client with `ureq::Agent::config_builder` and
/// `ureq::tls::TlsConfig::builder`. The builders store the limit on a whole
/// exchange, the choice of root certificates and the switch for verification as
/// `config` gives them, and leave every other setting at its default. The
/// contract says that the settings of the result are `config`. The defaults are
/// not spoken of; among them the proxy is taken from the environment.
#[verifier::external_body]
pub(crate) fn build_agent(config: AgentConfig) -> (r: HttpAgent)
    ensures
        r@ == config,
{
    let root_certs = match config.root_certs {
        TrustStore::Platform => ureq::tls::RootCerts::PlatformVerifier,
        TrustStore::Bundled => ureq::tls::RootCerts::WebPki,
    };
    let tls = ureq::tls::TlsConfig::builder()
        .root_certs(root_certs)
        .disable_verification(config.disable_verification)
        .build();
    let settings = ureq::Agent::config_builder().timeout_global(config.timeout_global).tls_config(tls).build();
    HttpAgent { config, client: settings.into() }
}

} // verus!
