//! The remote adapter's decisions: error classes, inbound classification,
//! response demux outcomes, the reverse-invoke gate (auth before advance),
//! tool dispatch and tool result extraction.

use vstd::prelude::*;
use crate::json::{JsonValue, JsonView, json_get, json_get_str, json_get_i64, json_view, fields_view,
    lemma_fields_view_push};
use crate::text::{owned, str_eq, concat2, concat3, seq_has};
use crate::session::{Correlation, InboundSequence, inbound_accepts, correlation_matches,
    check_correlation, dispatch_permits, dispatch_allowed_for};
use crate::lifecycle::{RemoteAdapterState, state_label};
use crate::reject::{Reject, RejectView, reject_view};

verus! {

/// Internal invoke-failure classes; consumers observe them as
/// `INTERNAL_ERROR` rejections whose `details.kind` is the label.
#[derive(Debug, Clone, Copy, PartialEq, Eq, Structural)]
pub enum RemoteErrorKind {
    Transport,
    SessionClosed,
    Timeout,
    CorrelationMismatch,
    SequenceExhausted,
    EnvelopeAuthMissing,
    EnvelopeAuthInvalid,
    EnvelopeAuthSessionUnbound,
}

/// The `details.kind` label of an invoke-failure class.
pub open spec fn error_kind_label(kind: RemoteErrorKind) -> Seq<char> {
    match kind {
        RemoteErrorKind::Transport => "transport"@,
        RemoteErrorKind::SessionClosed => "session_closed"@,
        RemoteErrorKind::Timeout => "timeout"@,
        RemoteErrorKind::CorrelationMismatch => "correlation_mismatch"@,
        RemoteErrorKind::SequenceExhausted => "sequence_exhausted"@,
        RemoteErrorKind::EnvelopeAuthMissing => "envelope_auth_missing"@,
        RemoteErrorKind::EnvelopeAuthInvalid => "envelope_auth_invalid"@,
        RemoteErrorKind::EnvelopeAuthSessionUnbound => "envelope_auth_session_unbound"@,
    }
}

impl RemoteErrorKind {
    /// The `details.kind` label.
    pub fn as_str(self) -> (res: &'static str)
        ensures
            res@ == error_kind_label(self),
    {
        match self {
            RemoteErrorKind::Transport => "transport",
            RemoteErrorKind::SessionClosed => "session_closed",
            RemoteErrorKind::Timeout => "timeout",
            RemoteErrorKind::CorrelationMismatch => "correlation_mismatch",
            RemoteErrorKind::SequenceExhausted => "sequence_exhausted",
            RemoteErrorKind::EnvelopeAuthMissing => "envelope_auth_missing",
            RemoteErrorKind::EnvelopeAuthInvalid => "envelope_auth_invalid",
            RemoteErrorKind::EnvelopeAuthSessionUnbound => "envelope_auth_session_unbound",
        }
    }
}

/// Envelope-auth wire rejection kinds.
#[derive(Debug, Clone, Copy, PartialEq, Eq, Structural)]
pub enum EnvelopeAuthErrorKind {
    Missing,
    Invalid,
    SessionUnbound,
}

impl EnvelopeAuthErrorKind {
    /// The locked `details.kind` label.
    pub fn as_str(self) -> (res: &'static str)
        ensures
            res@ == error_kind_label(envelope_auth_kind(self)),
    {
        match self {
            EnvelopeAuthErrorKind::Missing => "envelope_auth_missing",
            EnvelopeAuthErrorKind::Invalid => "envelope_auth_invalid",
            EnvelopeAuthErrorKind::SessionUnbound => "envelope_auth_session_unbound",
        }
    }
}

/// The invoke-failure class of an envelope-auth rejection.
pub open spec fn envelope_auth_kind(kind: EnvelopeAuthErrorKind) -> RemoteErrorKind {
    match kind {
        EnvelopeAuthErrorKind::Missing => RemoteErrorKind::EnvelopeAuthMissing,
        EnvelopeAuthErrorKind::Invalid => RemoteErrorKind::EnvelopeAuthInvalid,
        EnvelopeAuthErrorKind::SessionUnbound => RemoteErrorKind::EnvelopeAuthSessionUnbound,
    }
}

/// Maps an envelope-auth rejection kind to its invoke-failure class.
pub fn envelope_auth_kind_to_remote_error(kind: EnvelopeAuthErrorKind) -> (res: RemoteErrorKind)
    ensures
        res == envelope_auth_kind(kind),
{
    match kind {
        EnvelopeAuthErrorKind::Missing => RemoteErrorKind::EnvelopeAuthMissing,
        EnvelopeAuthErrorKind::Invalid => RemoteErrorKind::EnvelopeAuthInvalid,
        EnvelopeAuthErrorKind::SessionUnbound => RemoteErrorKind::EnvelopeAuthSessionUnbound,
    }
}

/// An internal invoke failure: its class and message.
#[derive(Debug)]
pub struct RemoteError {
    pub kind: RemoteErrorKind,
    pub message: String,
}

impl RemoteError {
    /// A failure of class `kind` with `message`.
    pub fn new(kind: RemoteErrorKind, message: String) -> (res: Self)
        ensures
            res.kind == kind,
            res.message@ == message@,
    {
        RemoteError { kind, message }
    }
}

/// The `INTERNAL_ERROR` rejection carrying `details.kind`.
pub open spec fn internal_error_view(kind: Seq<char>, message: Seq<char>) -> RejectView {
    RejectView {
        code: "INTERNAL_ERROR"@,
        message,
        details: Some(seq![("kind"@, JsonView::Str(kind))]),
    }
}

/// Builds the `INTERNAL_ERROR` rejection with `details.kind = kind`.
pub fn internal_error(kind: &str, message: String) -> (res: Reject)
    ensures
        reject_view(res) == internal_error_view(kind@, message@),
{
    let mut details: Vec<(String, JsonValue)> = Vec::new();
    let e = (owned("kind"), JsonValue::Str(owned(kind)));
    proof {
        lemma_fields_view_push(details@, e);
        assert(fields_view(Seq::<(String, JsonValue)>::empty()) =~= Seq::<(Seq<char>, JsonView)>::empty());
    }
    details.push(e);
    let res = Reject { code: owned("INTERNAL_ERROR"), message, details: Some(details) };
    assert(reject_view(res).details->0 =~= internal_error_view(kind@, message@).details->0);
    res
}

/// The rejection an invoke failure settles to.
pub fn remote_error_reject(error: RemoteError) -> (res: Reject)
    ensures
        reject_view(res) == internal_error_view(error_kind_label(error.kind), error.message@),
{
    internal_error(error.kind.as_str(), error.message)
}

/// Dispatch-deny wire codes: the host does not serve the op or lacks the
/// capability.
pub open spec fn is_deny_code(code: Seq<char>) -> bool {
    code == "op_unsupported"@ || code == "capability_missing"@
}

/// Whether `code` is a dispatch-deny wire code.
pub fn is_dispatch_deny(code: &str) -> (res: bool)
    ensures
        res == is_deny_code(code@),
{
    str_eq(code, "op_unsupported") || str_eq(code, "capability_missing")
}

/// A document carrying `op` plus the echo fields and a payload is a
/// request (a reverse invoke), never a response.
pub open spec fn is_request_doc(doc: JsonValue) -> bool {
    json_get(doc, "session_id"@) is Some && json_get(doc, "sequence"@) is Some
        && json_get(doc, "request_id"@) is Some && json_get(doc, "op"@) is Some
        && json_get(doc, "payload"@) is Some
}

/// Request-shape discriminator.
pub fn is_connect_invoke_request(doc: &JsonValue) -> (res: bool)
    ensures
        res == is_request_doc(*doc),
{
    doc.has("session_id") && doc.has("sequence") && doc.has("request_id") && doc.has("op") && doc.has("payload")
}

/// The echo fields of a response-shaped document: no `op`, at least one
/// of `payload` / `error`, a string `session_id` and `request_id` and an
/// integer `sequence`.
pub open spec fn response_correlation(doc: JsonValue) -> Option<(Seq<char>, i64, Seq<char>)> {
    if json_get(doc, "op"@) is Some {
        None
    } else if json_get(doc, "payload"@) is None && json_get(doc, "error"@) is None {
        None
    } else {
        match (json_get_str(doc, "session_id"@), json_get_i64(doc, "sequence"@), json_get_str(doc, "request_id"@)) {
            (Some(s), Some(n), Some(r)) => Some((s, n, r)),
            _ => None,
        }
    }
}

/// Extracts the correlation echo fields from a response-shaped document;
/// `None` for every other shape (requests included).
pub fn wire_response_correlation(doc: &JsonValue) -> (res: Option<Correlation>)
    ensures
        match response_correlation(*doc) {
            Some(c) => res is Some && res->0.session_id@ == c.0 && res->0.sequence == c.1
                && res->0.request_id@ == c.2,
            None => res is None,
        },
{
    if doc.has("op") {
        return None;
    }
    if !doc.has("payload") && !doc.has("error") {
        return None;
    }
    let session_id = match doc.get_str("session_id") {
        Some(s) => s.clone(),
        None => return None,
    };
    let sequence = match doc.get_i64("sequence") {
        Some(n) => n,
        None => return None,
    };
    let request_id = match doc.get_str("request_id") {
        Some(r) => r.clone(),
        None => return None,
    };
    Some(Correlation { session_id, sequence, request_id })
}

/// How the receive loop treats an inbound document.
#[derive(Debug)]
pub enum InboundEnvelope {
    /// A reverse invoke to serve.
    Request,
    /// A response to demultiplex by `request_id`.
    Response(Correlation),
    /// Any other post-handshake envelope: ignored.
    Stray,
}

/// Classifies an inbound document: request shape first (a request is never
/// a response), then response shape, else stray.
pub fn classify_inbound(doc: &JsonValue) -> (res: InboundEnvelope)
    ensures
        is_request_doc(*doc) ==> res is Request,
        !is_request_doc(*doc) ==> match response_correlation(*doc) {
            Some(c) => res is Response && res->Response_0.session_id@ == c.0
                && res->Response_0.sequence == c.1 && res->Response_0.request_id@ == c.2,
            None => res is Stray,
        },
{
    if is_connect_invoke_request(doc) {
        return InboundEnvelope::Request;
    }
    match wire_response_correlation(doc) {
        Some(c) => InboundEnvelope::Response(c),
        None => InboundEnvelope::Stray,
    }
}

/// The outcome of verifying an envelope's authenticator.
#[derive(Debug)]
pub enum VerifyOutcome {
    /// The signature verified.
    Passed,
    /// A wire rejection of the given kind, with its message.
    Rejected(EnvelopeAuthErrorKind, String),
    /// A local failure (such as a wrong-length key), with its message.
    LocalFailure(String),
}

/// The outcome of a correlated response: the correlation echo is checked
/// first, then the envelope authenticator.
pub fn response_outcome(expected: &Correlation, actual: &Correlation, verify: VerifyOutcome)
    -> (res: Result<(), RemoteError>)
    ensures
        !correlation_matches(*expected, *actual) ==> res is Err && res->Err_0.kind == RemoteErrorKind::CorrelationMismatch
            && res->Err_0.message@ == "response echo fields do not match the request"@,
        correlation_matches(*expected, *actual) ==> match verify {
            VerifyOutcome::Passed => res is Ok,
            VerifyOutcome::Rejected(kind, m) => res is Err && res->Err_0.kind == envelope_auth_kind(kind)
                && res->Err_0.message@ == m@,
            VerifyOutcome::LocalFailure(m) => res is Err && res->Err_0.kind == RemoteErrorKind::EnvelopeAuthInvalid
                && res->Err_0.message@ == m@,
        },
{
    if check_correlation(expected, actual).is_err() {
        return Err(RemoteError::new(RemoteErrorKind::CorrelationMismatch,
            owned("response echo fields do not match the request")));
    }
    match verify {
        VerifyOutcome::Passed => Ok(()),
        VerifyOutcome::Rejected(kind, m) => Err(RemoteError::new(envelope_auth_kind_to_remote_error(kind), m)),
        VerifyOutcome::LocalFailure(m) => Err(RemoteError::new(RemoteErrorKind::EnvelopeAuthInvalid, m)),
    }
}

/// The message a panicking tool handler is answered with: the panic's
/// text when it carried one, else `tool handler panicked`.
pub fn panic_payload_message(text: Option<String>) -> (res: String)
    ensures
        res@ == match text {
            Some(t) => t@,
            None => "tool handler panicked"@,
        },
{
    proof {
        reveal_strlit("tool handler panicked");
    }
    match text {
        Some(t) => t,
        None => owned("tool handler panicked"),
    }
}

/// Classification is request first: a request-shaped document never
/// yields response echo fields, so it is never settled as a response.
pub proof fn law_request_never_response(doc: JsonValue)
    requires
        is_request_doc(doc),
    ensures
        response_correlation(doc) is None,
{
}

} // verus!
