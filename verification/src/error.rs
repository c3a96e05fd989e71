//! The failure taxonomy: transport failures, content-parse failures,
//! generic stage failures, and run-level failures that wrap a stage
//! failure with the failing stage's name.

use vstd::prelude::*;
use vstd::string::StringExecFns;

verus! {

/// An error raised by a stage, a run, or the task layer.
#[derive(Debug, Clone, PartialEq, Eq)]
pub enum LuminaError {
    /// A transport or non-success HTTP outcome.
    HttpError(String),
    /// Content could not be parsed, or a selector or pattern was invalid.
    ParseError(String),
    /// A stage or task-level operation failed.
    NodeError(String),
    /// A run failed; the message names the failing stage.
    GraphError(String),
}

/// The spec-level shape of a [`LuminaError`].
#[verifier::ext_equal]
pub enum ErrorView {
    Http(Seq<char>),
    Parse(Seq<char>),
    Node(Seq<char>),
    Graph(Seq<char>),
}

impl View for LuminaError {
    type V = ErrorView;

    open spec fn view(&self) -> ErrorView {
        match self {
            LuminaError::HttpError(m) => ErrorView::Http(m@),
            LuminaError::ParseError(m) => ErrorView::Parse(m@),
            LuminaError::NodeError(m) => ErrorView::Node(m@),
            LuminaError::GraphError(m) => ErrorView::Graph(m@),
        }
    }
}

/// The one-line display text of an error.
pub open spec fn message_view(e: ErrorView) -> Seq<char> {
    match e {
        ErrorView::Http(m) => "HTTP request failed: "@ + m,
        ErrorView::Parse(m) => "Parse error: "@ + m,
        ErrorView::Node(m) => "Node execution failed: "@ + m,
        ErrorView::Graph(m) => "Graph execution failed: "@ + m,
    }
}

impl LuminaError {
    /// The one-line display text of this error.
    pub fn message(&self) -> (r: String)
        ensures
            r@ == message_view(self@),
    {
        match self {
            LuminaError::HttpError(m) => {
                let mut s = String::from_str("HTTP request failed: ");
                s.append(m.as_str());
                s
            },
            LuminaError::ParseError(m) => {
                let mut s = String::from_str("Parse error: ");
                s.append(m.as_str());
                s
            },
            LuminaError::NodeError(m) => {
                let mut s = String::from_str("Node execution failed: ");
                s.append(m.as_str());
                s
            },
            LuminaError::GraphError(m) => {
                let mut s = String::from_str("Graph execution failed: ");
                s.append(m.as_str());
                s
            },
        }
    }
}

} // verus!
