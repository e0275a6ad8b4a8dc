//! The receive loops of both session ends, as a step function from the
//! endpoint and one inbound event to an action, and the settlement of
//! outbound invokes (tool results and port results, timeouts, send
//! failures).

use vstd::prelude::*;
use crate::text::{owned, concat2, concat3, decimal_digits, u64_to_decimal};
use crate::json::{JsonValue, JsonView, json_view};
use crate::session::Correlation;
use crate::lifecycle::RemoteAdapterState;
use crate::endpoint::{Endpoint, EndpointView, CorrelationView, correlation_view};
use crate::adapter::{RemoteError, RemoteErrorKind, error_kind_label, classify_inbound, InboundEnvelope,
    is_request_doc, response_correlation, internal_error, internal_error_view, remote_error_reject};
use crate::reject::{Reject, RejectView, reject_view};
use crate::serve::{WireError, EnvelopeMapping, EnvelopeMappingView, envelope_mapping_view, error_mapping,
    map_error_envelope, tool_result, tool_result_outcome};

verus! {

// ── Receive loop ─────────────────────────────────────────────────────────

/// One inbound event of a receive loop.
#[derive(Debug)]
pub enum InboundEvent {
    /// The transport's `recv` failed, with the error's text.
    RecvFailed(String),
    /// The bytes did not decode as JSON, with the error's text.
    DecodeFailed(String),
    /// A decoded document.
    Document(JsonValue),
}

/// What the loop does with the event.
#[derive(Debug)]
pub enum ReceiveAction {
    /// The endpoint is no longer established: the loop ends.
    Stop,
    /// Close the session with this reason; the loop ends.
    Close(String),
    /// Serve the request through admission.
    Serve,
    /// Settle the waiter filed under the response's request id.
    Demux(Correlation),
    /// Ignore the envelope and read the next one.
    Continue,
}

/// The content of a receive action.
pub enum ReceiveView {
    Stop,
    Close(Seq<char>),
    Serve,
    Demux(CorrelationView),
    Continue,
}

/// The content of a receive action.
pub open spec fn receive_view(a: ReceiveAction) -> ReceiveView {
    match a {
        ReceiveAction::Stop => ReceiveView::Stop,
        ReceiveAction::Close(r) => ReceiveView::Close(r@),
        ReceiveAction::Serve => ReceiveView::Serve,
        ReceiveAction::Demux(c) => ReceiveView::Demux(correlation_view(c)),
        ReceiveAction::Continue => ReceiveView::Continue,
    }
}

/// Which end runs the loop.
#[derive(Debug, Clone, Copy, PartialEq, Eq, Structural)]
pub enum Side {
    /// The dialing adapter.
    Adapter,
    /// The responder.
    Responder,
}

/// The loop step: only an established endpoint reads; transport loss and
/// undecodable bytes close the session (the adapter reports the error as
/// transport loss, the responder names an unparseable message); a
/// document is classified request first, then response, else ignored.
pub open spec fn receive_outcome(e: EndpointView, side: Side, event: InboundEvent) -> ReceiveView {
    if e.state != RemoteAdapterState::Established {
        ReceiveView::Stop
    } else {
        match event {
            InboundEvent::RecvFailed(t) => ReceiveView::Close(if side == Side::Adapter {
                "transport loss: "@ + t@
            } else {
                "transport loss"@
            }),
            InboundEvent::DecodeFailed(t) => ReceiveView::Close(if side == Side::Adapter {
                "transport loss: "@ + t@
            } else {
                "unparseable inbound message: "@ + t@
            }),
            InboundEvent::Document(doc) => if is_request_doc(doc) {
                ReceiveView::Serve
            } else {
                match response_correlation(doc) {
                    Some(c) => ReceiveView::Demux(CorrelationView { session_id: c.0, sequence: c.1, request_id: c.2 }),
                    None => ReceiveView::Continue,
                }
            },
        }
    }
}

/// One step of a receive loop (see `receive_outcome`).
pub fn receive_step(endpoint: &Endpoint, side: Side, event: InboundEvent) -> (res: ReceiveAction)
    ensures
        receive_view(res) == receive_outcome(endpoint@, side, event),
{
    if endpoint.state() != RemoteAdapterState::Established {
        return ReceiveAction::Stop;
    }
    proof {
        reveal_strlit("transport loss: ");
        reveal_strlit("transport loss");
        reveal_strlit("unparseable inbound message: ");
    }
    match event {
        InboundEvent::RecvFailed(t) => ReceiveAction::Close(match side {
            Side::Adapter => concat2("transport loss: ", t.as_str()),
            Side::Responder => owned("transport loss"),
        }),
        InboundEvent::DecodeFailed(t) => ReceiveAction::Close(match side {
            Side::Adapter => concat2("transport loss: ", t.as_str()),
            Side::Responder => concat2("unparseable inbound message: ", t.as_str()),
        }),
        InboundEvent::Document(doc) => match classify_inbound(&doc) {
            InboundEnvelope::Request => ReceiveAction::Serve,
            InboundEnvelope::Response(c) => ReceiveAction::Demux(c),
            InboundEnvelope::Stray => ReceiveAction::Continue,
        },
    }
}

/// The close reason when a served request failed locally.
pub fn serving_failure_reason(side: Side, error: &RemoteError) -> (res: String)
    ensures
        res@ == (if side == Side::Adapter { "reverse invoke serving failed: "@ } else { "invoke serving failed: "@ })
            + error.message@,
{
    match side {
        Side::Adapter => concat2("reverse invoke serving failed: ", error.message.as_str()),
        Side::Responder => concat2("invoke serving failed: ", error.message.as_str()),
    }
}

/// The close reason when a response arrives and the session is gone.
pub fn missing_session_reason(side: Side) -> (res: String)
    ensures
        res@ == if side == Side::Adapter {
            "session state missing in receive loop"@
        } else {
            "session state missing in serve loop"@
        },
{
    proof {
        reveal_strlit("session state missing in receive loop");
        reveal_strlit("session state missing in serve loop");
    }
    match side {
        Side::Adapter => owned("session state missing in receive loop"),
        Side::Responder => owned("session state missing in serve loop"),
    }
}

/// The close reason of a local `close`.
pub fn local_shutdown_reason() -> (res: String)
    ensures
        res@ == "local shutdown"@,
{
    proof {
        reveal_strlit("local shutdown");
    }
    owned("local shutdown")
}

// ── Outbound invoke settlement ───────────────────────────────────────────

/// `invoke {op} ({request_id}) timed out after {ms}ms`: the waiter alone
/// fails, the session stays open.
pub fn invoke_timeout_error(op: &str, request_id: &str, timeout_ms: u64) -> (res: RemoteError)
    ensures
        res.kind == RemoteErrorKind::Timeout,
        res.message@ == "invoke "@ + op@ + " ("@ + request_id@ + ") timed out after "@
            + decimal_digits(timeout_ms as nat) + "ms"@,
{
    let mut m = concat3("invoke ", op, " (");
    m.append(request_id);
    m.append(") timed out after ");
    m.append(u64_to_decimal(timeout_ms).as_str());
    m.append("ms");
    proof {
        reveal_strlit("invoke ");
        reveal_strlit(" (");
        reveal_strlit(") timed out after ");
        reveal_strlit("ms");
    }
    RemoteError::new(RemoteErrorKind::Timeout, m)
}

/// Which part of an outbound send failed.
#[derive(Debug, Clone, Copy, PartialEq, Eq, Structural)]
pub enum SendStage {
    /// Encoding the request.
    Encode,
    /// Sending the request.
    Send,
}

/// `invoke encode failed: {e}` / `invoke send failed: {e}`, of class
/// `transport`: the waiter is settled at once.
pub fn send_failure_error(stage: SendStage, detail: &str) -> (res: RemoteError)
    ensures
        res.kind == RemoteErrorKind::Transport,
        res.message@ == (if stage == SendStage::Encode { "invoke encode failed: "@ } else { "invoke send failed: "@ })
            + detail@,
{
    match stage {
        SendStage::Encode => RemoteError::new(RemoteErrorKind::Transport, concat2("invoke encode failed: ", detail)),
        SendStage::Send => RemoteError::new(RemoteErrorKind::Transport, concat2("invoke send failed: ", detail)),
    }
}

/// The waiter's channel closed without a settlement.
pub fn channel_closed_error() -> (res: RemoteError)
    ensures
        res.kind == RemoteErrorKind::Transport,
        res.message@ == "invoke channel closed unexpectedly"@,
{
    proof {
        reveal_strlit("invoke channel closed unexpectedly");
    }
    RemoteError::new(RemoteErrorKind::Transport, owned("invoke channel closed unexpectedly"))
}

/// The responder's reverse invoke whose waiter settled while its send was
/// still queued: its sequence never reached the wire, so the session
/// closes with this reason.
pub fn deferred_send_reason() -> (res: String)
    ensures
        res@ == "deferred invoke skipped (settled while queued) — outbound sequence never transmitted"@,
{
    proof {
        reveal_strlit("deferred invoke skipped (settled while queued) — outbound sequence never transmitted");
    }
    owned("deferred invoke skipped (settled while queued) — outbound sequence never transmitted")
}

/// A correlated response: the success payload or the error branch.
#[derive(Debug)]
pub enum InvokeResponse {
    Success(JsonValue),
    Failure(WireError),
}

/// How a tool invoke settles.
#[derive(Debug)]
pub enum ToolSettlement {
    /// The tool's result, or the rejection it settles to.
    Settled(Result<JsonValue, Reject>),
    /// The error branch goes through the generic envelope mapping.
    Generic(WireError),
}

/// The content of a tool settlement.
pub enum ToolSettlementView {
    Settled(Result<JsonView, RejectView>),
    Generic,
}

/// The content of a tool settlement.
pub open spec fn tool_settlement_view(s: ToolSettlement) -> ToolSettlementView {
    match s {
        ToolSettlement::Settled(Ok(v)) => ToolSettlementView::Settled(Ok(json_view(v))),
        ToolSettlement::Settled(Err(r)) => ToolSettlementView::Settled(Err(reject_view(r))),
        ToolSettlement::Generic(_) => ToolSettlementView::Generic,
    }
}

/// A tool invoke settles to: the `INTERNAL_ERROR` of a failed invoke
/// (its class as `details.kind`), the mapped error branch, or the success
/// payload's `result`.
pub open spec fn tool_settlement_outcome(outcome: Result<InvokeResponse, RemoteError>, capability_id: Seq<char>)
    -> ToolSettlementView
{
    match outcome {
        Err(e) => ToolSettlementView::Settled(Err(internal_error_view(error_kind_label(e.kind), e.message@))),
        Ok(InvokeResponse::Failure(w)) => match error_mapping(w) {
            EnvelopeMappingView::Mapped(r) => ToolSettlementView::Settled(Err(r)),
            EnvelopeMappingView::Generic => ToolSettlementView::Generic,
        },
        Ok(InvokeResponse::Success(payload)) => ToolSettlementView::Settled(tool_result_outcome(payload, capability_id)),
    }
}

/// Settles a tool invoke (see `tool_settlement_outcome`).
pub fn settle_tool_invoke(outcome: Result<InvokeResponse, RemoteError>, capability_id: &str) -> (res: ToolSettlement)
    ensures
        tool_settlement_view(res) == tool_settlement_outcome(outcome, capability_id@),
        res matches ToolSettlement::Generic(c) ==> (outcome matches Ok(InvokeResponse::Failure(w))
            && c.code@ == w.code@ && c.message@ == w.message@
            && crate::json::fields_view(c.details@) == crate::json::fields_view(w.details@)),
{
    match outcome {
        Err(e) => ToolSettlement::Settled(Err(remote_error_reject(e))),
        Ok(InvokeResponse::Failure(w)) => {
            let code = w.code.clone();
            let message = w.message.clone();
            let details = crate::serve::clone_fields(&w.details);
            let copy = WireError { code, message, details };
            match map_error_envelope(w) {
                EnvelopeMapping::Mapped(r) => ToolSettlement::Settled(Err(r)),
                EnvelopeMapping::Generic => ToolSettlement::Generic(copy),
            }
        },
        Ok(InvokeResponse::Success(payload)) => {
            let r = tool_result(&payload, capability_id);
            ToolSettlement::Settled(r)
        },
    }
}

/// How a port invoke settles before the typed decoding of its payload.
#[derive(Debug)]
pub enum PortSettlement {
    /// Decode this success payload into the port's result type.
    Decode(JsonValue),
    /// The rejection it settles to.
    Rejected(Reject),
    /// The error branch goes through the generic envelope mapping.
    Generic(WireError),
}

/// A port invoke settles to: the `INTERNAL_ERROR` of a failed invoke, the
/// mapped error branch, or its success payload for decoding.
pub fn settle_port_invoke(outcome: Result<InvokeResponse, RemoteError>) -> (res: PortSettlement)
    ensures
        match outcome {
            Err(e) => res matches PortSettlement::Rejected(r)
                && reject_view(r) == internal_error_view(error_kind_label(e.kind), e.message@),
            Ok(InvokeResponse::Failure(w)) => match error_mapping(w) {
                EnvelopeMappingView::Mapped(m) => res matches PortSettlement::Rejected(r) && reject_view(r) == m,
                EnvelopeMappingView::Generic => (res matches PortSettlement::Generic(c)
                    && c.code@ == w.code@ && c.message@ == w.message@
                    && crate::json::fields_view(c.details@) == crate::json::fields_view(w.details@)),
            },
            Ok(InvokeResponse::Success(p)) => res matches PortSettlement::Decode(q) && json_view(q) == json_view(p),
        },
{
    match outcome {
        Err(e) => PortSettlement::Rejected(remote_error_reject(e)),
        Ok(InvokeResponse::Failure(w)) => {
            let code = w.code.clone();
            let message = w.message.clone();
            let details = crate::serve::clone_fields(&w.details);
            let copy = WireError { code, message, details };
            match map_error_envelope(w) {
                EnvelopeMapping::Mapped(r) => PortSettlement::Rejected(r),
                EnvelopeMapping::Generic => PortSettlement::Generic(copy),
            }
        },
        Ok(InvokeResponse::Success(payload)) => PortSettlement::Decode(payload),
    }
}

/// `response payload decode failed: {e}`, the `INTERNAL_ERROR` of kind
/// `transport` a port result that does not decode settles to.
pub fn payload_decode_failure(detail: &str) -> (res: Reject)
    ensures
        reject_view(res) == internal_error_view("transport"@, "response payload decode failed: "@ + detail@),
{
    proof {
        reveal_strlit("transport");
        reveal_strlit("response payload decode failed: ");
    }
    internal_error("transport", concat2("response payload decode failed: ", detail))
}

} // verus!
