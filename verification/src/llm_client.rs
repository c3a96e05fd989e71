//! Chat-client construction for the supported providers.
//!
//! Which provider names are accepted and which complaints a bad
//! configuration earns are verified decisions; the client object itself
//! is the `llm_connector` crate's and is built behind trusted wrappers.

use vstd::prelude::*;
use vstd::string::StringExecFns;
use crate::error::{LuminaError, ErrorView};
use crate::nodes::llm::{provider_check, check_provider};
use crate::strutil::{has_prefix, eq_lower};

verus! {

#[verifier::external_type_specification]
#[verifier::external_body]
pub struct ExLlmClient(llm_connector::LlmClient);

/// Relies on `llm_connector::LlmClient::anthropic`: builds a client for
/// the given key and endpoint.  The outcome depends on the machine's
/// HTTP stack, so nothing is promised of it.
#[verifier::external_body]
fn make_anthropic_client(api_key: &str, base_url: &str) -> (r: Result<
    llm_connector::LlmClient,
    String,
>) {
    llm_connector::LlmClient::anthropic(api_key, base_url).map_err(|e| e.to_string())
}

/// Relies on `llm_connector::LlmClient::openai`: builds a client for
/// the given key and endpoint.  The outcome depends on the machine's
/// HTTP stack, so nothing is promised of it.
#[verifier::external_body]
fn make_openai_client(api_key: &str, base_url: &str) -> (r: Result<
    llm_connector::LlmClient,
    String,
>) {
    llm_connector::LlmClient::openai(api_key, base_url).map_err(|e| e.to_string())
}

/// Relies on `llm_connector::LlmClient::openai_compatible`: builds a
/// client for an OpenAI-compatible service at the given endpoint.  The
/// outcome depends on the machine's HTTP stack, so nothing is promised
/// of it.
#[verifier::external_body]
fn make_openai_compatible_client(api_key: &str, base_url: &str) -> (r: Result<
    llm_connector::LlmClient,
    String,
>) {
    llm_connector::LlmClient::openai_compatible(api_key, base_url, "openai").map_err(
        |e| e.to_string(),
    )
}

/// The spec-level shape of a client configuration.
#[verifier::ext_equal]
pub struct ClientConfigView {
    pub provider: Seq<char>,
    pub api_key: Option<Seq<char>>,
    pub api_url: Option<Seq<char>>,
}

/// Builds chat clients from a provider name, key and optional endpoint.
#[derive(Debug)]
pub struct LLMClientBuilder {
    provider: String,
    api_key: Option<String>,
    api_url: Option<String>,
}

impl View for LLMClientBuilder {
    type V = ClientConfigView;

    closed spec fn view(&self) -> ClientConfigView {
        ClientConfigView {
            provider: self.provider@,
            api_key: self.api_key.deep_view(),
            api_url: self.api_url.deep_view(),
        }
    }
}

impl LLMClientBuilder {
    /// A builder over this configuration.
    pub fn new(provider: String, api_key: Option<String>, api_url: Option<String>) -> (r: Self)
        ensures
            r@ == (ClientConfigView {
                provider: provider@,
                api_key: api_key.deep_view(),
                api_url: api_url.deep_view(),
            }),
    {
        LLMClientBuilder { provider, api_key, api_url }
    }

    /// Builds the client.  A bad configuration earns exactly the
    /// complaint [`provider_check`] states; with a good one, the only
    /// remaining failure is the underlying HTTP stack's, reported with
    /// its message behind a fixed prefix.
    pub fn build(&self) -> (r: Result<llm_connector::LlmClient, LuminaError>)
        ensures
            match provider_check(self@.provider, self@.api_key) {
                Some(msg) => r matches Err(e) && e@ == ErrorView::Node(msg),
                None => r is Ok || (r matches Err(e) && e@ matches ErrorView::Node(m)
                    && has_prefix(m, "Failed to create client: "@)),
            },
    {
        match check_provider(self.provider.as_str(), &self.api_key) {
            Some(m) => Err(LuminaError::NodeError(m)),
            None => {
                let key = match &self.api_key {
                    Some(k) => k,
                    None => {
                        proof {
                            assert(false);
                        }
                        return Err(LuminaError::NodeError(String::new()));
                    },
                };
                let made = if eq_lower(self.provider.as_str(), "anthropic") {
                    match &self.api_url {
                        Some(u) => make_anthropic_client(key.as_str(), u.as_str()),
                        None => make_anthropic_client(key.as_str(), "https://api.anthropic.com"),
                    }
                } else {
                    match &self.api_url {
                        Some(u) => make_openai_compatible_client(key.as_str(), u.as_str()),
                        None => make_openai_client(key.as_str(), "https://api.openai.com/v1"),
                    }
                };
                match made {
                    Ok(c) => Ok(c),
                    Err(m) => {
                        let mut msg = String::from_str("Failed to create client: ");
                        msg.append(m.as_str());
                        proof {
                            assert(msg@.subrange(0, "Failed to create client: "@.len() as int)
                                =~= "Failed to create client: "@);
                        }
                        Err(LuminaError::NodeError(msg))
                    },
                }
            },
        }
    }
}

} // verus!
