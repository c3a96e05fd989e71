//! The boundary to the outside world.
//!
//! A run asks its driver for every outside effect — an HTTP fetch, a
//! pacing delay, a model call — and receives the outcome as a plain
//! value.  The engine is verified for every outcome a driver can hand
//! back; a scripted driver replays fixed outcomes for tests, and a real
//! driver belongs to the embedding program.

use vstd::prelude::*;

verus! {

/// A successful HTTP exchange: the status code and the response body.
#[derive(Debug, Clone, PartialEq, Eq)]
pub struct FetchReply {
    pub status: u16,
    pub body: String,
}

/// The outcome of an attempted fetch.
#[derive(Debug, Clone, PartialEq, Eq)]
pub enum FetchEvent {
    /// The server answered, with any status code.
    Reply(FetchReply),
    /// No response: a transport-level failure, with its message.
    Transport(String),
}

/// The outcome of an attempted model call.
#[derive(Debug, Clone, PartialEq, Eq)]
pub enum ChatEvent {
    /// The model answered with this text.
    Reply(String),
    /// The provider failed, with its message.
    Failure(String),
}

/// The spec-level shape of a [`FetchReply`].
pub struct FetchReplyView {
    pub status: u16,
    pub body: Seq<char>,
}

/// The spec-level shape of a [`FetchEvent`].
pub enum FetchEventView {
    Reply(FetchReplyView),
    Transport(Seq<char>),
}

/// The spec-level shape of a [`ChatEvent`].
pub enum ChatEventView {
    Reply(Seq<char>),
    Failure(Seq<char>),
}

impl View for FetchReply {
    type V = FetchReplyView;

    open spec fn view(&self) -> FetchReplyView {
        FetchReplyView { status: self.status, body: self.body@ }
    }
}

impl View for FetchEvent {
    type V = FetchEventView;

    open spec fn view(&self) -> FetchEventView {
        match self {
            FetchEvent::Reply(r) => FetchEventView::Reply(r@),
            FetchEvent::Transport(m) => FetchEventView::Transport(m@),
        }
    }
}

impl View for ChatEvent {
    type V = ChatEventView;

    open spec fn view(&self) -> ChatEventView {
        match self {
            ChatEvent::Reply(s) => ChatEventView::Reply(s@),
            ChatEvent::Failure(m) => ChatEventView::Failure(m@),
        }
    }
}

/// One outside outcome consumed by one stage of a run.  Stages that ask
/// for nothing consume a `Ticked`.
pub enum StageEvent {
    Fetched(FetchEventView),
    Chatted(ChatEventView),
    Ticked,
}

/// Performs outside effects for a run.  The engine states what holds of
/// every outcome, so nothing is promised of these methods.
pub trait EffectDriver {
    /// Attempt an HTTP GET of the url, honouring the timeout.
    fn fetch(&mut self, url: &str, timeout_ms: u64) -> FetchEvent;

    /// Pause for the given number of milliseconds.
    fn pause(&mut self, delay_ms: u64);

    /// Send a prompt to the named provider's model and return its answer.
    fn chat(
        &mut self,
        provider: &str,
        api_key: &str,
        api_url: Option<&str>,
        model: &str,
        prompt: &str,
    ) -> ChatEvent;
}

/// A driver that replays fixed outcomes in order; pauses do nothing.
/// When its script runs out it reports a failure outcome.
#[derive(Debug)]
pub struct ScriptDriver {
    fetches: Vec<FetchEvent>,
    chats: Vec<ChatEvent>,
}

impl ScriptDriver {
    /// A driver that will hand out these outcomes, front first.
    pub fn new(fetches: Vec<FetchEvent>, chats: Vec<ChatEvent>) -> ScriptDriver {
        ScriptDriver { fetches, chats }
    }
}

impl EffectDriver for ScriptDriver {
    fn fetch(&mut self, url: &str, timeout_ms: u64) -> FetchEvent {
        if self.fetches.len() > 0 {
            self.fetches.remove(0)
        } else {
            FetchEvent::Transport(String::from_str("script exhausted"))
        }
    }

    fn pause(&mut self, delay_ms: u64) {
    }

    fn chat(
        &mut self,
        provider: &str,
        api_key: &str,
        api_url: Option<&str>,
        model: &str,
        prompt: &str,
    ) -> ChatEvent {
        if self.chats.len() > 0 {
            self.chats.remove(0)
        } else {
            ChatEvent::Failure(String::from_str("script exhausted"))
        }
    }
}

} // verus!
