//! The model-assisted extraction stage: sends the raw content with a
//! prompt to a chat model and stores the answer.  A provider failure is
//! captured as a metadata status string rather than stopping the run.

use vstd::prelude::*;
use vstd::string::StringExecFns;
use crate::types::{ScrapedData, RecordView};
use crate::error::{LuminaError, ErrorView, message_view};
use crate::effects::{ChatEvent, ChatEventView};
use crate::json::{JsonValue, JsonValueView};
use crate::strmap::upsert;
use crate::strutil::{lower_seq, eq_lower};
use crate::nodes::step_view;

verus! {

/// Free-form model-assisted extraction.
#[derive(Debug)]
pub struct LLMNode {
    pub(crate) prompt: String,
    pub(crate) provider: String,
    pub(crate) api_key: Option<String>,
    pub(crate) api_url: Option<String>,
    pub(crate) model: String,
}

/// The spec-level shape of a model-backed stage's configuration.
#[verifier::ext_equal]
pub struct LLMConfigView {
    pub prompt: Seq<char>,
    pub provider: Seq<char>,
    pub api_key: Option<Seq<char>>,
    pub api_url: Option<Seq<char>>,
    pub model: Seq<char>,
}

impl View for LLMNode {
    type V = LLMConfigView;

    closed spec fn view(&self) -> LLMConfigView {
        LLMConfigView {
            prompt: self.prompt@,
            provider: self.provider@,
            api_key: self.api_key.deep_view(),
            api_url: self.api_url.deep_view(),
            model: self.model@,
        }
    }
}

/// What is wrong with a provider configuration: `None` when the
/// provider is known (case-insensitively) and its key is set, otherwise
/// the exact complaint.
pub open spec fn provider_check(provider: Seq<char>, api_key: Option<Seq<char>>) -> Option<
    Seq<char>,
> {
    if lower_seq(provider) == "anthropic"@ {
        if api_key is Some {
            None
        } else {
            Some("ANTHROPIC_API_KEY not set"@)
        }
    } else if lower_seq(provider) == "openai"@ {
        if api_key is Some {
            None
        } else {
            Some("OPENAI_API_KEY not set"@)
        }
    } else {
        Some("Unsupported provider: "@ + provider)
    }
}

/// The bookkeeping the stage always writes before asking the model:
/// its prompt, provider, model and, when set, endpoint.
pub open spec fn llm_meta(n: LLMConfigView, d: RecordView) -> RecordView {
    let m1 = upsert(d.metadata, "llm_prompt"@, n.prompt);
    let m2 = upsert(m1, "llm_provider"@, n.provider);
    let m3 = upsert(m2, "llm_model"@, n.model);
    let m4 = match n.api_url {
        Some(u) => upsert(m3, "llm_api_url"@, u),
        None => m3,
    };
    RecordView { url: d.url, html: d.html, metadata: m4, extracted: d.extracted }
}

/// The effect of the stage: after the bookkeeping, a bad configuration
/// or a provider failure is recorded in the `llm_status` metadata key
/// (the stage still succeeds); a model answer is stored under the
/// `llm_extraction` key with `llm_status` set to `success`.
pub open spec fn llm_apply(n: LLMConfigView, d: RecordView, ev: ChatEventView) -> Result<
    RecordView,
    ErrorView,
> {
    let d1 = llm_meta(n, d);
    match provider_check(n.provider, n.api_key) {
        Some(msg) => Ok(RecordView {
            url: d1.url,
            html: d1.html,
            metadata: upsert(
                d1.metadata,
                "llm_status"@,
                "error: "@ + message_view(ErrorView::Node(msg)),
            ),
            extracted: d1.extracted,
        }),
        None => match ev {
            ChatEventView::Reply(content) => Ok(RecordView {
                url: d1.url,
                html: d1.html,
                metadata: upsert(d1.metadata, "llm_status"@, "success"@),
                extracted: upsert(d1.extracted, "llm_extraction"@, JsonValueView::Text(content)),
            }),
            ChatEventView::Failure(m) => Ok(RecordView {
                url: d1.url,
                html: d1.html,
                metadata: upsert(
                    d1.metadata,
                    "llm_status"@,
                    "error: "@ + message_view(ErrorView::Node("LLM API error: "@ + m)),
                ),
                extracted: d1.extracted,
            }),
        },
    }
}

/// Checks a provider configuration, as [`provider_check`] states.
pub fn check_provider(provider: &str, api_key: &Option<String>) -> (r: Option<String>)
    ensures
        match r {
            Some(m) => provider_check(provider@, api_key.deep_view()) == Some(m@),
            None => provider_check(provider@, api_key.deep_view()) is None,
        },
{
    if eq_lower(provider, "anthropic") {
        match api_key {
            Some(_) => None,
            None => Some(String::from_str("ANTHROPIC_API_KEY not set")),
        }
    } else if eq_lower(provider, "openai") {
        match api_key {
            Some(_) => None,
            None => Some(String::from_str("OPENAI_API_KEY not set")),
        }
    } else {
        let mut msg = String::from_str("Unsupported provider: ");
        msg.append(provider);
        Some(msg)
    }
}

impl LLMNode {
    /// A stage with this prompt; the provider defaults to `anthropic`
    /// with no key or endpoint, and the builders below override it.
    pub fn new(prompt: String) -> (r: Self)
        ensures
            r@ == (LLMConfigView {
                prompt: prompt@,
                provider: "anthropic"@,
                api_key: None,
                api_url: None,
                model: "sonnet-4-5-20250929"@,
            }),
    {
        LLMNode {
            prompt,
            provider: String::from_str("anthropic"),
            api_key: None,
            api_url: None,
            model: String::from_str("sonnet-4-5-20250929"),
        }
    }

    /// The stage with another provider.
    pub fn with_provider(self, provider: String) -> (r: Self)
        ensures
            r@ == (LLMConfigView { provider: provider@, ..self@ }),
    {
        LLMNode { provider, ..self }
    }

    /// The stage with an API key.
    pub fn with_api_key(self, api_key: String) -> (r: Self)
        ensures
            r@ == (LLMConfigView { api_key: Some(api_key@), ..self@ }),
    {
        LLMNode { api_key: Some(api_key), ..self }
    }

    /// The stage with an endpoint of its own.
    pub fn with_api_url(self, api_url: String) -> (r: Self)
        ensures
            r@ == (LLMConfigView { api_url: Some(api_url@), ..self@ }),
    {
        LLMNode { api_url: Some(api_url), ..self }
    }

    /// The stage with another model.
    pub fn with_model(self, model: String) -> (r: Self)
        ensures
            r@ == (LLMConfigView { model: model@, ..self@ }),
    {
        LLMNode { model, ..self }
    }

    /// What is wrong with this stage's configuration, if anything.
    pub fn check_config(&self) -> (r: Option<String>)
        ensures
            match r {
                Some(m) => provider_check(self@.provider, self@.api_key) == Some(m@),
                None => provider_check(self@.provider, self@.api_key) is None,
            },
    {
        check_provider(self.provider.as_str(), &self.api_key)
    }

    /// The full prompt sent to the model: the stage's prompt, then the
    /// raw content.
    pub fn chat_prompt(&self, html: &str) -> (r: String)
        ensures
            r@ == self@.prompt + "\n\nHTML:\n"@ + html@,
    {
        let mut s = self.prompt.clone();
        s.append("\n\nHTML:\n");
        s.append(html);
        s
    }

    /// Folds a chat outcome into the record.
    pub fn execute(&self, data: ScrapedData, ev: ChatEvent) -> (r: Result<
        ScrapedData,
        LuminaError,
    >)
        ensures
            step_view(r) == llm_apply(self@, data@, ev@),
    {
        let mut d = data;
        let ghost dpre = d@;
        d.metadata.insert(String::from_str("llm_prompt"), self.prompt.clone());
        d.metadata.insert(String::from_str("llm_provider"), self.provider.clone());
        d.metadata.insert(String::from_str("llm_model"), self.model.clone());
        match &self.api_url {
            Some(u) => {
                d.metadata.insert(String::from_str("llm_api_url"), u.clone());
            },
            None => {},
        }
        proof {
            assert(d@ =~= llm_meta(self@, dpre));
        }
        let ghost d1 = d@;
        match self.check_config() {
            Some(cfg_err) => {
                let mut status = String::from_str("error: ");
                let e = LuminaError::NodeError(cfg_err);
                status.append(e.message().as_str());
                d.metadata.insert(String::from_str("llm_status"), status);
                proof {
                    assert(d@ =~= (llm_apply(self@, dpre, ev@)->Ok_0));
                }
                Ok(d)
            },
            None => match ev {
                ChatEvent::Reply(content) => {
                    d.metadata.insert(String::from_str("llm_status"), String::from_str("success"));
                    d.extracted.insert(
                        String::from_str("llm_extraction"),
                        JsonValue::Text(content),
                    );
                    proof {
                        assert(d@ =~= (llm_apply(self@, dpre, ev@)->Ok_0));
                    }
                    Ok(d)
                },
                ChatEvent::Failure(m) => {
                    let mut api_err = String::from_str("LLM API error: ");
                    api_err.append(m.as_str());
                    let mut status = String::from_str("error: ");
                    let e = LuminaError::NodeError(api_err);
                    status.append(e.message().as_str());
                    d.metadata.insert(String::from_str("llm_status"), status);
                    proof {
                        assert(d@ =~= (llm_apply(self@, dpre, ev@)->Ok_0));
                    }
                    Ok(d)
                },
            },
        }
    }
}

} // verus!
