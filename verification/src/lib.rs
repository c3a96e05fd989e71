//! A composable content-extraction pipeline with a durable, retry-capable
//! task queue around it.
//!
//! A [`graph::Graph`] is an ordered, immutable list of [`nodes::Node`]s; a run
//! threads a fresh [`types::ScrapedData`] record through every node in order
//! and stops at the first failure.  Outside effects (network fetches, pacing
//! delays, model calls) are requested through an [`effects::EffectDriver`], so
//! the engine itself is ordinary verified code.  A [`task::Task`] wraps a run
//! target together with retry bookkeeping; [`store::TaskStore`] keeps task
//! projections, and [`executor::TaskExecutor`] drives submission, execution
//! and the bounded automatic retry loop.

pub mod strutil;
pub mod strmap;
pub mod json;
pub mod error;
pub mod types;
pub mod effects;
pub mod select;
pub mod jsondoc;
pub mod nodes;
pub mod graph;
pub mod task;
pub mod store;
pub mod executor;
pub mod llm_client;


pub use error::LuminaError;
pub use types::ScrapedData;
pub use graph::Graph;
pub use task::{Task, TaskStatus};
pub use store::TaskStore;
pub use executor::TaskExecutor;
pub use llm_client::LLMClientBuilder;
pub use nodes::Node;
pub use nodes::attribute::AttributeNode;
pub use nodes::delay::DelayNode;
pub use nodes::fetch::FetchNode;
pub use nodes::json::JsonNode;
pub use nodes::llm::LLMNode;
pub use nodes::llm_parse::LLMParseNode;
pub use nodes::parse::ParseNode;
pub use nodes::regex::RegexNode;
pub use effects::{EffectDriver, ScriptDriver, FetchEvent, FetchReply, ChatEvent};
pub use json::JsonValue;
