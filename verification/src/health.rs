//! Decisions behind the three operational probes.

use vstd::prelude::*;
use crate::executor::Scheduler;
use crate::request::RequestParams;
use crate::json::{
    document_of, element, element_of, member, member_of, parse_document, parsed_document,
    string_of, text,
};

verus! {

/// Status code of a successful probe.
pub const STATUS_OK: u16 = 200;

/// Status code of a failed probe.
pub const STATUS_SERVER_ERROR: u16 = 500;

/// Largest completion body, in bytes, that the readiness probe reads.
pub const MAX_PROBE_BODY: usize = 1048576;

/// Number of tokens the synthetic completion asks for.
pub const PROBE_MAX_TOKENS: u32 = 2;

/// Priority the synthetic completion asks for, so that it is served quickly.
pub const PROBE_PRIORITY: u32 = 10;

/// What a probe answers.
#[derive(Debug, PartialEq, Eq)]
pub enum ProbeReply {
    /// Success with an empty body.
    Ready,
    /// Success with the message "Check complete".
    Complete,
    /// Server error with the message "Check failed".
    Failed,
    /// The completion route's own answer, handed on unchanged.
    Forwarded { status: u16, body: Vec<u8> },
}

impl ProbeReply {
    /// Status code of the reply.
    pub open spec fn status_code(self) -> u16 {
        match self {
            ProbeReply::Ready => STATUS_OK,
            ProbeReply::Complete => STATUS_OK,
            ProbeReply::Failed => STATUS_SERVER_ERROR,
            ProbeReply::Forwarded { status, .. } => status,
        }
    }

    /// Fixed message of the reply, where it has one.
    pub open spec fn message_text(self) -> Option<Seq<char>> {
        match self {
            ProbeReply::Ready => Some(""@),
            ProbeReply::Complete => Some("Check complete"@),
            ProbeReply::Failed => Some("Check failed"@),
            ProbeReply::Forwarded { .. } => None,
        }
    }

    pub fn status(&self) -> (code: u16)
        ensures
            code == self.status_code(),
    {
        match self {
            ProbeReply::Ready => STATUS_OK,
            ProbeReply::Complete => STATUS_OK,
            ProbeReply::Failed => STATUS_SERVER_ERROR,
            ProbeReply::Forwarded { status, .. } => *status,
        }
    }

    /// The fixed message, or `None` for a forwarded body.
    pub fn message(&self) -> (m: Option<&'static str>)
        ensures
            m matches Some(s) ==> self.message_text() == Some(s@),
            m is None <==> self.message_text() is None,
    {
        match self {
            ProbeReply::Ready => Some(""),
            ProbeReply::Complete => Some("Check complete"),
            ProbeReply::Failed => Some("Check failed"),
            ProbeReply::Forwarded { .. } => None,
        }
    }
}

/// What the readiness probe found in the body of a completion response.
#[derive(Clone, Copy, Debug, PartialEq, Eq, Structural)]
pub enum BodyShape {
    /// The bytes are no JSON document.
    Malformed,
    /// A document whose first choice carries no generated text.
    TextMissing,
    /// A document whose first choice carries generated text.
    TextPresent,
}

/// The place of the generated text in a parsed completion document: the
/// member `text` of the first element of the member `choices`.
pub open spec fn first_choice_text(document: Seq<char>) -> Option<Seq<char>> {
    string_of(member_of(element_of(member_of(document, "choices"@), 0), "text"@))
}

/// Shape of a completion body.
pub open spec fn body_shape(body: Seq<u8>) -> BodyShape {
    match parsed_document(body) {
        None => BodyShape::Malformed,
        Some(doc) => if first_choice_text(doc) is Some {
            BodyShape::TextPresent
        } else {
            BodyShape::TextMissing
        },
    }
}

/// Whether `doc` carries generated text in its first choice.
pub fn has_first_choice_text(doc: &serde_json::Value) -> (found: bool)
    ensures
        found == (first_choice_text(document_of(*doc)) is Some),
{
    let choices = member(doc, "choices");
    let first = element(choices, 0);
    let generated = member(first, "text");
    text(generated).is_some()
}

/// Parses a completion body and reports its shape.
pub fn inspect_body(body: &[u8]) -> (shape: BodyShape)
    ensures
        shape == body_shape(body@),
{
    match parse_document(body) {
        Err(_) => BodyShape::Malformed,
        Ok(doc) => if has_first_choice_text(&doc) {
            BodyShape::TextPresent
        } else {
            BodyShape::TextMissing
        },
    }
}

/// The readiness verdict on a completion that answered with success and a
/// body of the given shape.
pub open spec fn verdict_of_shape(shape: BodyShape) -> ProbeReply {
    match shape {
        BodyShape::TextPresent => ProbeReply::Complete,
        BodyShape::TextMissing => ProbeReply::Failed,
        BodyShape::Malformed => ProbeReply::Failed,
    }
}

/// Verdict on a successful completion response whose body has `shape`.
pub fn judge_shape(shape: BodyShape) -> (reply: ProbeReply)
    ensures
        reply == verdict_of_shape(shape),
{
    match shape {
        BodyShape::TextPresent => ProbeReply::Complete,
        BodyShape::TextMissing => ProbeReply::Failed,
        BodyShape::Malformed => ProbeReply::Failed,
    }
}

/// Always-ok probe: the process is up.
pub fn ready_check() -> (reply: ProbeReply)
    ensures
        reply == ProbeReply::Ready,
{
    ProbeReply::Ready
}

/// Liveness probe: success while queued and running requests together are
/// below the admission limit, a server error once they have reached it.
pub fn live_check(executor: &Scheduler) -> (reply: ProbeReply)
    requires
        executor.wf(),
    ensures
        reply == (if executor.has_room() {
            ProbeReply::Complete
        } else {
            ProbeReply::Failed
        }),
        executor.load() <= executor.config().max_queue_depth,
        reply.status_code() == STATUS_OK <==> executor.load() < executor.config().max_queue_depth,
        reply.status_code() == STATUS_SERVER_ERROR <==> executor.load()
            == executor.config().max_queue_depth,
{
    if executor.can_enqueue_request() {
        ProbeReply::Complete
    } else {
        ProbeReply::Failed
    }
}

/// The synthetic completion of the readiness probe.
#[derive(Debug)]
pub struct ProbeCompletion {
    /// Name of the model that is asked.
    pub model: &'static str,
    /// The text to complete.
    pub prompt: &'static str,
    /// What the scheduler is told of the request.
    pub params: RequestParams,
}

/// Readiness probe, first half: the tiny completion that is sent through
/// the whole path, at a priority that gets it served quickly.
pub fn model_check_request() -> (request: ProbeCompletion)
    ensures
        request.model@ == "model"@,
        request.prompt@ == "Hi"@,
        request.params.priority == Some(PROBE_PRIORITY),
        !request.params.streaming,
        request.params.max_tokens == PROBE_MAX_TOKENS,
        request.params.grammar is None,
{
    ProbeCompletion {
        model: "model",
        prompt: "Hi",
        params: RequestParams {
            priority: Some(PROBE_PRIORITY),
            streaming: false,
            max_tokens: PROBE_MAX_TOKENS,
            grammar: None,
        },
    }
}

/// A status code that tells the caller of a server error.
pub open spec fn is_server_error(status: u16) -> bool {
    500 <= status <= 599
}

/// The status under which a failed round trip is reported: its own where
/// that is a server error, the general server error otherwise.
pub open spec fn surfaced_status(status: u16) -> u16 {
    if is_server_error(status) {
        status
    } else {
        STATUS_SERVER_ERROR
    }
}

/// Computes `surfaced_status`.
pub fn surface_status(status: u16) -> (s: u16)
    ensures
        s == surfaced_status(status),
        is_server_error(s),
{
    if status >= 500 && status <= 599 {
        status
    } else {
        STATUS_SERVER_ERROR
    }
}

/// Readiness probe, second half: judges the response that the synthetic
/// completion came back with. A success must carry generated text in its
/// first choice. Any other status means that the round trip failed: its
/// body is handed on under a server-error status, its own where it has one.
/// The reply is a success only for a success that carries text.
pub fn model_check(status: u16, body: Vec<u8>) -> (reply: ProbeReply)
    ensures
        status == STATUS_OK ==> reply == verdict_of_shape(body_shape(body@)),
        status != STATUS_OK ==> reply == (ProbeReply::Forwarded {
            status: surfaced_status(status),
            body,
        }),
        reply == ProbeReply::Complete || is_server_error(reply.status_code()),
        reply == ProbeReply::Complete <==> status == STATUS_OK && body_shape(body@)
            is TextPresent,
{
    if status == STATUS_OK {
        let shape = inspect_body(body.as_slice());
        judge_shape(shape)
    } else {
        ProbeReply::Forwarded { status: surface_status(status), body }
    }
}

/// Readiness probe when the round trip gave no response to judge: the
/// completion route failed, or its body could not be read within
/// `MAX_PROBE_BODY` bytes. The probe answers with a server error.
pub fn model_check_unanswered() -> (reply: ProbeReply)
    ensures
        reply == ProbeReply::Failed,
        is_server_error(reply.status_code()),
{
    ProbeReply::Failed
}

} // verus!
