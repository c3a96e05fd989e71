//! The stages a pipeline composes.
//!
//! The stage set is closed: [`Node`] is an enum over the built-in
//! stages, so a run can handle every stage exhaustively.  Each stage
//! module states the stage's exact effect on the record as a spec
//! function, and its exec entry point is verified against it.

pub mod attribute;
pub mod delay;
pub mod fetch;
pub mod json;
pub mod llm;
pub mod llm_parse;
pub mod parse;
pub mod regex;

use vstd::prelude::*;
use crate::types::{ScrapedData, RecordView};
use crate::error::{LuminaError, ErrorView};
use crate::effects::{FetchEventView, ChatEventView, StageEvent};
use attribute::AttributeNode;
use delay::DelayNode;
use fetch::FetchNode;
use json::JsonNode;
use llm::LLMNode;
use llm_parse::LLMParseNode;
use parse::ParseNode;
use regex::RegexNode;

verus! {

/// A step outcome, over the record and error models.
pub open spec fn step_view(r: Result<ScrapedData, LuminaError>) -> Result<RecordView, ErrorView> {
    match r {
        Ok(d) => Ok(d@),
        Err(e) => Err(e@),
    }
}

/// One stage of a pipeline.
#[derive(Debug)]
pub enum Node {
    Fetch(FetchNode),
    Parse(ParseNode),
    Llm(LLMNode),
    Delay(DelayNode),
    Json(JsonNode),
    Regex(RegexNode),
    Attribute(AttributeNode),
    LlmParse(LLMParseNode),
}

/// The name a failure is attributed to.
pub open spec fn node_name(n: Node) -> Seq<char> {
    match n {
        Node::Fetch(_) => "FetchNode"@,
        Node::Parse(_) => "ParseNode"@,
        Node::Llm(_) => "LLMNode"@,
        Node::Delay(_) => "DelayNode"@,
        Node::Json(_) => "JsonNode"@,
        Node::Regex(_) => "RegexNode"@,
        Node::Attribute(_) => "AttributeNode"@,
        Node::LlmParse(_) => "LLMParseNode"@,
    }
}

/// Whether a stage's effect on the record is a function of the record
/// alone, with no outside outcome involved.
pub open spec fn is_pure(n: Node) -> bool {
    match n {
        Node::Fetch(_) => false,
        Node::Llm(_) => false,
        Node::LlmParse(_) => false,
        _ => true,
    }
}

/// The fetch outcome inside a stage event; a stage that expects one
/// reads any other event as a transport failure with an empty message.
pub open spec fn as_fetch(ev: StageEvent) -> FetchEventView {
    match ev {
        StageEvent::Fetched(f) => f,
        _ => FetchEventView::Transport(Seq::empty()),
    }
}

/// The chat outcome inside a stage event; a stage that expects one
/// reads any other event as a provider failure with an empty message.
pub open spec fn as_chat(ev: StageEvent) -> ChatEventView {
    match ev {
        StageEvent::Chatted(c) => c,
        _ => ChatEventView::Failure(Seq::empty()),
    }
}

/// The exact effect of one stage on the record, given the outside
/// outcome it consumed.
pub open spec fn node_apply(n: Node, d: RecordView, ev: StageEvent) -> Result<
    RecordView,
    ErrorView,
> {
    match n {
        Node::Fetch(_) => fetch::fetch_apply(d, as_fetch(ev)),
        Node::Parse(p) => parse::sel_list_apply(p@, d),
        Node::Llm(l) => llm::llm_apply(l@, d, as_chat(ev)),
        Node::Delay(_) => Ok(d),
        Node::Json(j) => json::json_apply(j@, d),
        Node::Regex(x) => regex::regex_apply(x@, d),
        Node::Attribute(a) => attribute::attr_apply(a@, d),
        Node::LlmParse(l) => llm_parse::llm_parse_apply(l@, d, as_chat(ev)),
    }
}

/// The `(key, value)` writes a stage performs on the extraction map,
/// in order, given the outside outcome it consumed; meaningful where
/// the stage succeeds.
pub open spec fn node_writes(n: Node, d: RecordView, ev: StageEvent) -> Seq<
    (Seq<char>, crate::json::JsonValueView),
> {
    match n {
        Node::Fetch(_) => Seq::empty(),
        Node::Delay(_) => Seq::empty(),
        Node::Parse(p) => parse::sel_write_list(p@, d.html),
        Node::Attribute(a) => attribute::attr_write_list(a@, d.html),
        Node::Regex(x) => regex::re_write_list(x@, d.html),
        Node::Json(j) => if j@.len() == 0 {
            seq![
                (
                    "json"@,
                    crate::json::JsonValueView::Raw(
                        crate::jsondoc::json_dump(crate::jsondoc::json_tree(d.html)),
                    ),
                ),
            ]
        } else {
            seq![
                (
                    j@,
                    crate::json::JsonValueView::Raw(
                        crate::jsondoc::json_dump(
                            crate::jsondoc::tree_walk(
                                crate::jsondoc::json_tree(d.html),
                                crate::strutil::split_dots(j@),
                            )->Some_0,
                        ),
                    ),
                ),
            ]
        },
        Node::Llm(l) => match llm::provider_check(l@.provider, l@.api_key) {
            Some(_) => Seq::empty(),
            None => match as_chat(ev) {
                ChatEventView::Reply(c) => seq![
                    ("llm_extraction"@, crate::json::JsonValueView::Text(c)),
                ],
                ChatEventView::Failure(_) => Seq::empty(),
            },
        },
        Node::LlmParse(_) => match as_chat(ev) {
            ChatEventView::Reply(c) => parse::sel_write_list(
                llm_parse::sel_pairs(crate::jsondoc::json_tree(c)->Arr_0),
                d.html,
            ),
            ChatEventView::Failure(_) => Seq::empty(),
        },
    }
}

/// A stage that succeeds changes the extraction map by exactly its
/// write list, applied in order.
pub proof fn lemma_node_apply_writes(n: Node, d: RecordView, ev: StageEvent)
    requires
        node_apply(n, d, ev) is Ok,
    ensures
        node_apply(n, d, ev)->Ok_0.extracted == crate::strmap::upsert_all(
            d.extracted,
            node_writes(n, d, ev),
        ),
{
    let ws = node_writes(n, d, ev);
    match n {
        Node::Fetch(_) => {},
        Node::Delay(_) => {},
        Node::Parse(p) => {
            parse::lemma_sel_list_writes(p@, d);
        },
        Node::Attribute(a) => {
            attribute::lemma_attr_writes(a@, d);
        },
        Node::Regex(x) => {
            regex::lemma_regex_writes(x@, d);
        },
        Node::Json(j) => {
            assert(ws.len() == 1);
            assert(ws.skip(1) =~= Seq::<(Seq<char>, crate::json::JsonValueView)>::empty());
            let ex2 = crate::strmap::upsert(d.extracted, ws[0].0, ws[0].1);
            assert(crate::strmap::upsert_all(d.extracted, ws) == crate::strmap::upsert_all(
                ex2,
                ws.skip(1),
            ));
            assert(crate::strmap::upsert_all(ex2, ws.skip(1)) == ex2);
            assert(node_apply(n, d, ev)->Ok_0.extracted == ex2);
        },
        Node::Llm(l) => {
            match llm::provider_check(l@.provider, l@.api_key) {
                Some(_) => {},
                None => match as_chat(ev) {
                    ChatEventView::Reply(_) => {
                        assert(ws.len() == 1);
                        assert(ws.skip(1) =~= Seq::<
                            (Seq<char>, crate::json::JsonValueView),
                        >::empty());
                        let ex2 = crate::strmap::upsert(d.extracted, ws[0].0, ws[0].1);
                        assert(crate::strmap::upsert_all(d.extracted, ws)
                            == crate::strmap::upsert_all(ex2, ws.skip(1)));
                        assert(crate::strmap::upsert_all(ex2, ws.skip(1)) == ex2);
                        assert(llm::llm_meta(l@, d).extracted == d.extracted);
                        assert(node_apply(n, d, ev)->Ok_0.extracted == ex2);
                    },
                    ChatEventView::Failure(_) => {
                        assert(llm::llm_meta(l@, d).extracted == d.extracted);
                    },
                },
            }
        },
        Node::LlmParse(l) => {
            match llm::provider_check(l@.provider, l@.api_key) {
                Some(_) => {},
                None => match as_chat(ev) {
                    ChatEventView::Reply(c) => {
                        parse::lemma_sel_list_writes(
                            llm_parse::sel_pairs(crate::jsondoc::json_tree(c)->Arr_0),
                            d,
                        );
                    },
                    ChatEventView::Failure(_) => {},
                },
            }
        },
    }
}

impl Node {
    /// The stage's name, for error attribution.
    pub fn name(&self) -> (r: &'static str)
        ensures
            r@ == node_name(*self),
    {
        match self {
            Node::Fetch(_) => "FetchNode",
            Node::Parse(_) => "ParseNode",
            Node::Llm(_) => "LLMNode",
            Node::Delay(_) => "DelayNode",
            Node::Json(_) => "JsonNode",
            Node::Regex(_) => "RegexNode",
            Node::Attribute(_) => "AttributeNode",
            Node::LlmParse(_) => "LLMParseNode",
        }
    }
}

} // verus!
