//! Requests, their lifecycle states, and the reasons for which they end.

use vstd::prelude::*;
use crate::grammar::CompiledGrammar;

verus! {

/// Names one in-flight request towards the engine. A handle is issued when
/// its request starts running and is never issued again.
#[derive(Clone, Copy, Debug, PartialEq, Eq, Structural)]
pub struct EngineHandle(pub u64);

/// Lifecycle state of a request.
#[derive(Clone, Copy, Debug, PartialEq, Eq, Structural)]
pub enum RequestState {
    Queued,
    Running,
    Completed,
    Failed,
    Cancelled,
}

impl RequestState {
    /// A state that no request leaves.
    pub open spec fn is_terminal(self) -> bool {
        self is Completed || self is Failed || self is Cancelled
    }

    /// The request occupies admission capacity.
    pub open spec fn is_active(self) -> bool {
        self is Queued || self is Running
    }

    /// The lifecycle's transition relation: a queued request starts running
    /// or is cancelled; a running one keeps running, completes, fails or is
    /// cancelled; a terminal state has no successor.
    pub open spec fn can_become(self, next: RequestState) -> bool {
        match self {
            RequestState::Queued => next is Running || next is Cancelled,
            RequestState::Running => next is Running || next.is_terminal(),
            _ => false,
        }
    }

    pub fn terminal(&self) -> (b: bool)
        ensures
            b == self.is_terminal(),
    {
        match self {
            RequestState::Completed | RequestState::Failed | RequestState::Cancelled => true,
            _ => false,
        }
    }

    pub fn active(&self) -> (b: bool)
        ensures
            b == self.is_active(),
    {
        match self {
            RequestState::Queued | RequestState::Running => true,
            _ => false,
        }
    }
}

/// Why generation stopped normally.
#[derive(Clone, Copy, Debug, PartialEq, Eq, Structural)]
pub enum StopReason {
    /// The token budget of the request is used up.
    MaxTokens,
    /// A stop sequence was matched.
    StopSequence,
    /// The engine reported the end of the text.
    EndOfText,
}

/// Why a request failed.
#[derive(Clone, Copy, Debug, PartialEq, Eq, Structural)]
pub enum FailureReason {
    /// The engine failed while generating.
    EngineError,
    /// The engine proposed a token that the grammar forbids.
    ConstraintViolation,
}

/// Why a request was cancelled.
#[derive(Clone, Copy, Debug, PartialEq, Eq, Structural)]
pub enum CancelReason {
    /// The client disconnected or asked for it.
    ClientCancelled,
    /// The request outlived its time limit.
    Timeout,
    /// The consumer of a streaming response fell too far behind.
    Backpressure,
}

/// The last event of a request: how it ended.
#[derive(Clone, Copy, Debug, PartialEq, Eq, Structural)]
pub enum Terminal {
    Completed(StopReason),
    Failed(FailureReason),
    Cancelled(CancelReason),
}

impl Terminal {
    /// The terminal state that this ending puts the request in.
    pub open spec fn state(self) -> RequestState {
        match self {
            Terminal::Completed(_) => RequestState::Completed,
            Terminal::Failed(_) => RequestState::Failed,
            Terminal::Cancelled(_) => RequestState::Cancelled,
        }
    }

    pub fn final_state(&self) -> (s: RequestState)
        ensures
            s == self.state(),
            s.is_terminal(),
    {
        match self {
            Terminal::Completed(_) => RequestState::Completed,
            Terminal::Failed(_) => RequestState::Failed,
            Terminal::Cancelled(_) => RequestState::Cancelled,
        }
    }

    /// Whether the ending is reported to the client as an error. A client's
    /// own cancellation and a normal stop are not; a timeout is.
    pub open spec fn is_error(self) -> bool {
        match self {
            Terminal::Completed(_) => false,
            Terminal::Failed(_) => true,
            Terminal::Cancelled(CancelReason::ClientCancelled) => false,
            Terminal::Cancelled(_) => true,
        }
    }

    pub fn surfaces_error(&self) -> (b: bool)
        ensures
            b == self.is_error(),
    {
        match self {
            Terminal::Completed(_) => false,
            Terminal::Failed(_) => true,
            Terminal::Cancelled(CancelReason::ClientCancelled) => false,
            Terminal::Cancelled(_) => true,
        }
    }
}

/// What the engine reports when it is done with a request.
#[derive(Clone, Copy, Debug, PartialEq, Eq, Structural)]
pub enum CompletionReason {
    /// Generation stopped normally.
    Stopped(StopReason),
    /// The engine failed.
    EngineError,
}

impl CompletionReason {
    /// The ending that this report gives a running request.
    pub open spec fn ending(self) -> Terminal {
        match self {
            CompletionReason::Stopped(why) => Terminal::Completed(why),
            CompletionReason::EngineError => Terminal::Failed(FailureReason::EngineError),
        }
    }

    pub fn to_terminal(&self) -> (t: Terminal)
        ensures
            t == self.ending(),
    {
        match self {
            CompletionReason::Stopped(why) => Terminal::Completed(*why),
            CompletionReason::EngineError => Terminal::Failed(FailureReason::EngineError),
        }
    }
}

/// Why a request was not admitted.
#[derive(Clone, Copy, Debug, PartialEq, Eq, Structural)]
pub enum RejectReason {
    /// Queued and running requests together are at the configured limit.
    AtCapacity,
    /// The scheduler is draining and takes no new work.
    ShuttingDown,
}

/// What a client asks for, as far as scheduling is concerned.
#[derive(Debug)]
pub struct RequestParams {
    /// Requested priority; higher is served sooner.
    pub priority: Option<u32>,
    /// Whether tokens are delivered as they arrive.
    pub streaming: bool,
    /// Token budget handed to the engine.
    pub max_tokens: u32,
    /// Grammar that the generated tokens must follow, if any.
    pub grammar: Option<CompiledGrammar>,
}

/// One step of generation as the engine reports it.
#[derive(Clone, Copy, Debug, PartialEq, Eq, Structural)]
pub struct TokenEvent {
    pub request_id: u64,
    pub token_id: u32,
    pub is_final: bool,
    /// Log-probability in millionths, where the engine reports one.
    pub logprob: Option<i64>,
}

} // verus!
