//! Model-assisted selector generation: asks a chat model for CSS
//! selectors fitting an extraction goal, then applies them like the
//! selector stage and records what was generated.

use vstd::prelude::*;
use vstd::string::StrSliceExecFns;
use vstd::string::StringExecFns;
use crate::types::{ScrapedData, RecordView};
use crate::error::{LuminaError, ErrorView};
use crate::effects::{ChatEvent, ChatEventView};
use crate::json::{render_pairs, render_pair_list};
use crate::jsondoc::{json_err, json_tree, doc_model, tree_child, parse_json, json_child, json_as_array, json_as_str, JsonTree};
use crate::strmap::upsert;
use crate::nodes::step_view;
use crate::nodes::llm::{LLMConfigView, provider_check, check_provider};
use crate::nodes::parse::{sel_list_apply, apply_selectors};

verus! {

/// Model-assisted selector generation and application.
#[derive(Debug)]
pub struct LLMParseNode {
    pub(crate) extraction_goal: String,
    pub(crate) provider: String,
    pub(crate) api_key: Option<String>,
    pub(crate) api_url: Option<String>,
    pub(crate) model: String,
}

impl View for LLMParseNode {
    type V = LLMConfigView;

    closed spec fn view(&self) -> LLMConfigView {
        LLMConfigView {
            prompt: self.extraction_goal@,
            provider: self.provider@,
            api_key: self.api_key.deep_view(),
            api_url: self.api_url.deep_view(),
            model: self.model@,
        }
    }
}

/// The `(key, selector)` pair one generated entry denotes: its `key`
/// and `selector` members where both are strings, nothing otherwise.
pub open spec fn sel_pair_of(t: JsonTree) -> Option<(Seq<char>, Seq<char>)> {
    match tree_child(t, "key"@) {
        Some(JsonTree::Str(k)) => match tree_child(t, "selector"@) {
            Some(JsonTree::Str(s)) => Some((k, s)),
            _ => None,
        },
        _ => None,
    }
}

/// The `(key, selector)` pairs of a generated array, in order, keeping
/// only well-shaped entries.
pub open spec fn sel_pairs(elems: Seq<JsonTree>) -> Seq<(Seq<char>, Seq<char>)>
    decreases elems.len(),
{
    if elems.len() == 0 {
        Seq::empty()
    } else {
        let rest = sel_pairs(elems.drop_last());
        match sel_pair_of(elems.last()) {
            Some(p) => rest.push(p),
            None => rest,
        }
    }
}

/// The effect of the stage: a bad configuration or provider failure
/// stops the stage (unlike the free-form model stage); a model answer
/// must be a JSON array, whose well-shaped entries become selectors
/// that are applied exactly like the selector stage's own list; on
/// success the goal, provider and generated selector list are recorded
/// in metadata.
pub open spec fn llm_parse_apply(n: LLMConfigView, d: RecordView, ev: ChatEventView) -> Result<
    RecordView,
    ErrorView,
> {
    match provider_check(n.provider, n.api_key) {
        Some(msg) => Err(ErrorView::Node(msg)),
        None => match ev {
            ChatEventView::Failure(m) => Err(ErrorView::Node("LLM API error: "@ + m)),
            ChatEventView::Reply(content) => match json_err(content) {
                Some(e) => Err(ErrorView::Parse("Failed to parse LLM response: "@ + e)),
                None => {
                    if !(json_tree(content) is Arr) {
                        Err(ErrorView::Parse("Failed to parse LLM response: expected a JSON array"@))
                    } else {
                        let sels = sel_pairs(json_tree(content)->Arr_0);
                        match sel_list_apply(sels, d) {
                            Err(e) => Err(e),
                            Ok(d2) => {
                                let m1 = upsert(d2.metadata, "smart_parse_goal"@, n.prompt);
                                let m2 = upsert(m1, "smart_parse_provider"@, n.provider);
                                let m3 = upsert(m2, "generated_selectors"@, render_pairs(sels));
                                Ok(RecordView {
                                    url: d2.url,
                                    html: d2.html,
                                    metadata: m3,
                                    extracted: d2.extracted,
                                })
                            },
                        }
                    }
                },
            },
        },
    }
}

impl LLMParseNode {
    /// A stage with this extraction goal; the provider defaults to
    /// `anthropic` with no key or endpoint.
    pub fn new(extraction_goal: String) -> (r: Self)
        ensures
            r@ == (LLMConfigView {
                prompt: extraction_goal@,
                provider: "anthropic"@,
                api_key: None,
                api_url: None,
                model: "sonnet-4-5-20250929"@,
            }),
    {
        LLMParseNode {
            extraction_goal,
            provider: String::from_str("anthropic"),
            api_key: None,
            api_url: None,
            model: String::from_str("sonnet-4-5-20250929"),
        }
    }

    /// The stage with another provider.
    pub fn with_provider(self, provider: String) -> (r: Self)
        ensures
            r@ == (LLMConfigView { provider: provider@, ..self@ }),
    {
        LLMParseNode { provider, ..self }
    }

    /// The stage with an API key.
    pub fn with_api_key(self, api_key: String) -> (r: Self)
        ensures
            r@ == (LLMConfigView { api_key: Some(api_key@), ..self@ }),
    {
        LLMParseNode { api_key: Some(api_key), ..self }
    }

    /// The stage with an endpoint of its own.
    pub fn with_api_url(self, api_url: String) -> (r: Self)
        ensures
            r@ == (LLMConfigView { api_url: Some(api_url@), ..self@ }),
    {
        LLMParseNode { api_url: Some(api_url), ..self }
    }

    /// The stage with another model.
    pub fn with_model(self, model: String) -> (r: Self)
        ensures
            r@ == (LLMConfigView { model: model@, ..self@ }),
    {
        LLMParseNode { model, ..self }
    }

    /// What is wrong with this stage's configuration, if anything.
    pub fn check_config(&self) -> (r: Option<String>)
        ensures
            match r {
                Some(m) => provider_check(self@.provider, self@.api_key) == Some(m@),
                None => provider_check(self@.provider, self@.api_key) is None,
            },
    {
        check_provider(self.provider.as_str(), &self.api_key)
    }

    /// The selector-generation prompt: the goal, the raw content cut
    /// to its first eight thousand characters, and the answer format.
    pub fn chat_prompt(&self, html: &str) -> (r: String)
        ensures
            r@ == "Analyze this HTML and generate CSS selectors to extract: "@ + self@.prompt
                + "\n\nHTML:\n"@ + (if html@.len() <= 8000 {
                html@
            } else {
                html@.take(8000)
            })
                + "\n\nReturn ONLY a JSON array of objects with \"key\" and \"selector\" fields. Example:\n[{\"key\": \"title\", \"selector\": \"h1\"}, {\"key\": \"price\", \"selector\": \".price\"}]"@,
    {
        let mut s = String::from_str("Analyze this HTML and generate CSS selectors to extract: ");
        s.append(self.extraction_goal.as_str());
        s.append("\n\nHTML:\n");
        let len = html.unicode_len();
        if len <= 8000 {
            s.append(html);
            proof {
                assert(html@.len() <= 8000);
            }
        } else {
            let cut = html.substring_char(0, 8000);
            s.append(cut);
            proof {
                assert(html@.subrange(0, 8000) =~= html@.take(8000));
            }
        }
        s.append(
            "\n\nReturn ONLY a JSON array of objects with \"key\" and \"selector\" fields. Example:\n[{\"key\": \"title\", \"selector\": \"h1\"}, {\"key\": \"price\", \"selector\": \".price\"}]",
        );
        s
    }

    /// Folds a chat outcome into the record: parses the generated
    /// selector list and applies it.
    pub fn execute(&self, data: ScrapedData, ev: ChatEvent) -> (r: Result<
        ScrapedData,
        LuminaError,
    >)
        ensures
            step_view(r) == llm_parse_apply(self@, data@, ev@),
    {
        let ghost dpre = data@;
        match self.check_config() {
            Some(msg) => {
                return Err(LuminaError::NodeError(msg));
            },
            None => {},
        }
        let content = match ev {
            ChatEvent::Failure(m) => {
                let mut msg = String::from_str("LLM API error: ");
                msg.append(m.as_str());
                return Err(LuminaError::NodeError(msg));
            },
            ChatEvent::Reply(content) => content,
        };
        let doc = match parse_json(content.as_str()) {
            Ok(v) => v,
            Err(e) => {
                let mut msg = String::from_str("Failed to parse LLM response: ");
                msg.append(e.as_str());
                return Err(LuminaError::ParseError(msg));
            },
        };
        let items = match json_as_array(&doc) {
            Some(items) => items,
            None => {
                return Err(LuminaError::ParseError(String::from_str(
                    "Failed to parse LLM response: expected a JSON array",
                )));
            },
        };
        let ghost elems = json_tree(content@)->Arr_0;
        let mut sels: Vec<(String, String)> = Vec::new();
        let n = items.len();
        let mut i: usize = 0;
        proof {
            assert(sels.deep_view() =~= Seq::<(Seq<char>, Seq<char>)>::empty());
            assert(elems.take(0) =~= Seq::<JsonTree>::empty());
        }
    while i < n
            invariant
                i <= n,
                n == items@.len(),
                n == elems.len(),
                forall|j: int| 0 <= j < n ==> doc_model(items@[j]) == elems[j],
                sels.deep_view() == sel_pairs(elems.take(i as int)),
            decreases n - i,
        {
            let ghost pre = sels.deep_view();
            let item = &items[i];
            let mut pair: Option<(String, String)> = None;
            match json_child(item, "key") {
                Some(kv) => match json_as_str(&kv) {
                    Some(ks) => match json_child(item, "selector") {
                        Some(sv) => match json_as_str(&sv) {
                            Some(ss) => {
                                pair = Some((ks, ss));
                            },
                            None => {},
                        },
                        None => {},
                    },
                    None => {},
                },
                None => {},
            }
            match pair {
                Some(p) => {
                    sels.push(p);
                },
                None => {},
            }
            proof {
                assert(elems.take(i as int + 1).drop_last() =~= elems.take(i as int));
                assert(elems.take(i as int + 1).last() == elems[i as int]);
                assert(sels.deep_view() =~= sel_pairs(elems.take(i as int + 1)));
            }
            i += 1;
        }
        proof {
            assert(elems.take(n as int) =~= elems);
        }
        let out = match apply_selectors(&sels, data) {
            Ok(d2) => d2,
            Err(e) => {
                return Err(e);
            },
        };
        let mut d = out;
        let ghost dmid = d@;
        d.metadata.insert(String::from_str("smart_parse_goal"), self.extraction_goal.clone());
        d.metadata.insert(String::from_str("smart_parse_provider"), self.provider.clone());
        let rendered = render_pair_list(&sels);
        d.metadata.insert(String::from_str("generated_selectors"), rendered);
        proof {
            assert(d@ =~= (llm_parse_apply(self@, dpre, ev@)->Ok_0));
        }
        Ok(d)
    }
}

} // verus!
