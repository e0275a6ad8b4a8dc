//! The two handshakes as step functions: the dialing adapter's and the
//! responder's. Each step takes the handshake's state and what the outside
//! work produced (bytes received and decoded, a verification result, a
//! failure) and gives the next state and the action to perform. A failed
//! handshake never yields a half-open session: every failure closes the
//! transport (or, before any I/O, fails outright) and ends in a terminal
//! state, and a session binding is handed out only after every check
//! passed, in the documented order.

use vstd::prelude::*;
use crate::text::{owned, concat2, seq_has};
use crate::session::NonceStore;
use crate::errors::{CoreError, RemoteAdapterError, core_error_text};
use crate::endpoint::{SessionBinding, BindingView, binding_view};
use crate::manifest::{PeerManifest, manifest_view, negotiated_view, strs};
use crate::dial::{dial_preflight, dial_failure, dial_timeout, accept_server_hello, validate_session_snapshot,
    dial_binding, responder_admit, responder_accept_hello, responder_binding, snapshot_capabilities,
    handshake_close_reason, DialStep, RemoteAdapterErrorView, adapter_error_view, dial_step_error,
    hello_verification_error, server_replay_message, key_of, responder_session_prefix};

verus! {

// ── Dialing adapter ──────────────────────────────────────────────────────

/// Where a dial stands.
pub enum DialState {
    /// Nothing sent yet.
    Start { remote_peer_id: String, allowlist: Vec<String>, local_capabilities: Vec<String> },
    /// The local hello went out; the server hello is awaited.
    AwaitServerHello { remote_peer_id: String, local_capabilities: Vec<String> },
    /// The server hello was accepted; the session snapshot is awaited.
    AwaitSnapshot { remote_peer_id: String, local_capabilities: Vec<String>, remote_manifest: PeerManifest },
    /// The session is bound.
    Established,
    /// The dial failed; the transport is released.
    Failed,
}

/// What the outside work of a dial produced.
pub enum DialEvent {
    /// Start the dial.
    Begin,
    /// The server hello arrived and decoded: its nonce, its verification
    /// result (signature, identity, dial binding) and its decoded host
    /// manifest (or the decode error's text).
    ServerHello { nonce: String, verification: Result<(), CoreError>, host: Result<PeerManifest, String> },
    /// The session snapshot arrived and decoded: its authenticator's
    /// verification result, its session id and initial sequence.
    Snapshot { verification: Result<(), String>, session_id: String, initial_sequence: i64 },
    /// Outside work of `step` failed with the error's text.
    StepFailed { step: DialStep, detail: String },
    /// A bounded wait elapsed.
    TimedOut { what: String, timeout_ms: u64 },
}

/// What to do next in a dial.
pub enum DialAction {
    /// Generate the nonce, sign and send the local hello, then await the
    /// server hello.
    SendHello,
    /// Await the session snapshot.
    AwaitSnapshot,
    /// Bind the session and start the receive loop; the remote hello's
    /// manifest is the adapter's remote manifest.
    Establish { binding: SessionBinding, remote_manifest: PeerManifest },
    /// Fail before any transport I/O (no adapter exists).
    Fail { error: RemoteAdapterError },
    /// Close the transport and fail the dial.
    CloseAndFail { error: RemoteAdapterError },
    /// Nothing to do: the event does not belong to this state.
    Ignore,
}

/// The states in which the transport is open and the dial still runs.
pub open spec fn dial_running(s: DialState) -> bool {
    s is AwaitServerHello || s is AwaitSnapshot
}

/// The error of a failure event.
pub open spec fn dial_event_error(e: DialEvent) -> RemoteAdapterErrorView {
    match e {
        DialEvent::StepFailed { step, detail } => dial_step_error(step, detail@),
        DialEvent::TimedOut { what, timeout_ms } => RemoteAdapterErrorView::Timeout(
            "connect: "@ + what@ + " timed out after "@ + crate::text::decimal_digits(timeout_ms as nat) + "ms"@),
        _ => RemoteAdapterErrorView::Config(Seq::empty()),
    }
}

/// `res` closes the transport and fails with `e`.
pub open spec fn closes_with(res: (DialState, DialAction), e: RemoteAdapterErrorView) -> bool {
    &&& res.0 is Failed
    &&& res.1 is CloseAndFail
    &&& adapter_error_view(res.1->CloseAndFail_error) == e
}

/// What a dial step gives for `state` and `event`, with `before` the
/// accepted-hello store before the step.
pub open spec fn dial_outcome(state: DialState, event: DialEvent, before: Set<(Seq<char>, Seq<char>)>,
    res: (DialState, DialAction)) -> bool
{
    match state {
        // Start: the allowlist decides before anything is sent.
        DialState::Start { remote_peer_id, allowlist, local_capabilities } => match event {
            DialEvent::Begin => if seq_has(allowlist@, remote_peer_id@) {
                res.0 == (DialState::AwaitServerHello { remote_peer_id, local_capabilities }) && res.1 is SendHello
            } else {
                &&& res.0 is Failed
                &&& res.1 is Fail
                &&& adapter_error_view(res.1->Fail_error) == RemoteAdapterErrorView::Config(
                    "remote peer "@ + remote_peer_id@ + " is not on the allowlist (fail-closed)"@)
            },
            _ => res.0 == state && res.1 is Ignore,
        },
        // The server hello: verification, single use, host decode.
        DialState::AwaitServerHello { remote_peer_id, local_capabilities } => match event {
            DialEvent::ServerHello { nonce, verification, host } => match verification {
                Err(e) => closes_with(res, hello_verification_error(e)),
                Ok(()) => if before.contains((remote_peer_id@, nonce@)) {
                    closes_with(res, RemoteAdapterErrorView::Handshake(server_replay_message(remote_peer_id@, nonce@)))
                } else {
                    match host {
                        Err(d) => closes_with(res, dial_step_error(DialStep::RemoteHostDecode, d@)),
                        Ok(m) => res.0 == (DialState::AwaitSnapshot {
                                remote_peer_id, local_capabilities, remote_manifest: m }) && res.1 is AwaitSnapshot,
                    }
                },
            },
            DialEvent::StepFailed { .. } => closes_with(res, dial_event_error(event)),
            DialEvent::TimedOut { .. } => closes_with(res, dial_event_error(event)),
            _ => res.0 == state && res.1 is Ignore,
        },
        // The snapshot: authenticator, then shape; then the binding.
        DialState::AwaitSnapshot { remote_peer_id, local_capabilities, remote_manifest } => match event {
            DialEvent::Snapshot { verification, session_id, initial_sequence } => match verification {
                Err(d) => closes_with(res, dial_step_error(DialStep::SnapshotVerification, d@)),
                Ok(()) => if session_id@.len() == 0 {
                    closes_with(res, RemoteAdapterErrorView::Handshake("session snapshot session_id must not be empty"@))
                } else if initial_sequence != 0 {
                    closes_with(res, RemoteAdapterErrorView::Handshake("session snapshot initial_sequence must be 0"@))
                } else {
                    &&& res.0 is Established
                    &&& res.1 is Establish
                    &&& binding_view(res.1->Establish_binding) == (BindingView {
                        session_id: session_id@,
                        peer_id: remote_peer_id@,
                        negotiated: binding_view(res.1->Establish_binding).negotiated,
                        next_outbound: 0,
                        expected_inbound: 0,
                    })
                    &&& strs(res.1->Establish_binding.negotiated@)
                        == negotiated_view(strs(local_capabilities@), manifest_view(remote_manifest).capabilities)
                    &&& manifest_view(res.1->Establish_remote_manifest) == manifest_view(remote_manifest)
                },
            },
            DialEvent::StepFailed { .. } => closes_with(res, dial_event_error(event)),
            DialEvent::TimedOut { .. } => closes_with(res, dial_event_error(event)),
            _ => res.0 == state && res.1 is Ignore,
        },
        // A finished dial ignores everything.
        _ => res.0 == state && res.1 is Ignore,
    }
}

/// Whether the step records the server hello: a verified, not yet
/// accepted server hello awaited in `state`.
pub open spec fn dial_records(state: DialState, event: DialEvent, before: Set<(Seq<char>, Seq<char>)>) -> bool {
    match state {
        DialState::AwaitServerHello { remote_peer_id, .. } => match event {
            DialEvent::ServerHello { nonce, verification, .. } =>
                verification is Ok && !before.contains((remote_peer_id@, nonce@)),
            _ => false,
        },
        _ => false,
    }
}

/// The pair a recorded server hello adds to the store.
pub open spec fn dial_recorded_pair(state: DialState, event: DialEvent) -> (Seq<char>, Seq<char>) {
    (state->AwaitServerHello_remote_peer_id@, event->ServerHello_nonce@)
}

/// The dial's step function. The order is fixed: the allowlist before any
/// I/O, then the server hello's verification, its single use and its host
/// decode, then the snapshot's authenticator and shape; only then is the
/// session bound (with `dial_binding`'s result and the remote manifest).
/// Every failure after the first send closes the transport and ends in
/// `Failed`. `accepted` is the process-wide store of accepted server
/// hellos; only an accepted server hello is recorded in it.
pub fn dial_step(state: DialState, event: DialEvent, accepted: &mut NonceStore) -> (res: (DialState, DialAction))
    ensures
        dial_outcome(state, event, old(accepted)@, res),
        dial_records(state, event, old(accepted)@) ==> final(accepted)@ == old(accepted)@.insert(
            dial_recorded_pair(state, event)),
        !dial_records(state, event, old(accepted)@) ==> final(accepted)@ == old(accepted)@,
{
    let ghost st = state;
    let ghost ev = event;
    match state {
        DialState::Start { remote_peer_id, allowlist, local_capabilities } => {
            match event {
                DialEvent::Begin => {
                    match dial_preflight(remote_peer_id.as_str(), &allowlist) {
                        Ok(()) => (DialState::AwaitServerHello { remote_peer_id, local_capabilities }, DialAction::SendHello),
                        Err(error) => (DialState::Failed, DialAction::Fail { error }),
                    }
                },
                _ => (DialState::Start { remote_peer_id, allowlist, local_capabilities }, DialAction::Ignore),
            }
        },
        DialState::AwaitServerHello { remote_peer_id, local_capabilities } => {
            match event {
                DialEvent::ServerHello { nonce, verification, host } => {
                    match accept_server_hello(accepted, remote_peer_id.as_str(), nonce.as_str(), verification) {
                        Err(error) => (DialState::Failed, DialAction::CloseAndFail { error }),
                        Ok(()) => match host {
                            Err(d) => (DialState::Failed, DialAction::CloseAndFail {
                                error: dial_failure(DialStep::RemoteHostDecode, d.as_str()) }),
                            Ok(m) => (DialState::AwaitSnapshot { remote_peer_id, local_capabilities, remote_manifest: m },
                                DialAction::AwaitSnapshot),
                        },
                    }
                },
                DialEvent::StepFailed { step, detail } => (DialState::Failed, DialAction::CloseAndFail {
                    error: dial_failure(step, detail.as_str()) }),
                DialEvent::TimedOut { what, timeout_ms } => (DialState::Failed, DialAction::CloseAndFail {
                    error: dial_timeout(what.as_str(), timeout_ms) }),
                _ => (DialState::AwaitServerHello { remote_peer_id, local_capabilities }, DialAction::Ignore),
            }
        },
        DialState::AwaitSnapshot { remote_peer_id, local_capabilities, remote_manifest } => {
            match event {
                DialEvent::Snapshot { verification, session_id, initial_sequence } => {
                    match verification {
                        Err(d) => (DialState::Failed, DialAction::CloseAndFail {
                            error: dial_failure(DialStep::SnapshotVerification, d.as_str()) }),
                        Ok(()) => match validate_session_snapshot(session_id.as_str(), initial_sequence) {
                            Err(error) => (DialState::Failed, DialAction::CloseAndFail { error }),
                            Ok(()) => {
                                let binding = dial_binding(session_id, remote_peer_id, &local_capabilities,
                                    &remote_manifest.capabilities);
                                (DialState::Established, DialAction::Establish { binding, remote_manifest })
                            },
                        },
                    }
                },
                DialEvent::StepFailed { step, detail } => (DialState::Failed, DialAction::CloseAndFail {
                    error: dial_failure(step, detail.as_str()) }),
                DialEvent::TimedOut { what, timeout_ms } => (DialState::Failed, DialAction::CloseAndFail {
                    error: dial_timeout(what.as_str(), timeout_ms) }),
                _ => (DialState::AwaitSnapshot { remote_peer_id, local_capabilities, remote_manifest }, DialAction::Ignore),
            }
        },
        DialState::Established => (DialState::Established, DialAction::Ignore),
        DialState::Failed => (DialState::Failed, DialAction::Ignore),
    }
}

/// A dial to a peer off the allowlist fails outright and sends nothing.
pub proof fn law_dial_unlisted_sends_nothing(state: DialState, before: Set<(Seq<char>, Seq<char>)>,
    res: (DialState, DialAction))
    requires
        state is Start,
        !seq_has(state->Start_allowlist@, state->Start_remote_peer_id@),
        dial_outcome(state, DialEvent::Begin, before, res),
    ensures
        res.0 is Failed,
        res.1 is Fail,
        !(res.1 is SendHello),
{
}

/// Every failure of outside work during a running dial closes the
/// transport and ends the dial in `Failed`.
pub proof fn law_dial_failure_closes(state: DialState, event: DialEvent, before: Set<(Seq<char>, Seq<char>)>,
    res: (DialState, DialAction))
    requires
        dial_running(state),
        event is StepFailed || event is TimedOut,
        dial_outcome(state, event, before, res),
    ensures
        res.0 is Failed,
        res.1 is CloseAndFail,
        adapter_error_view(res.1->CloseAndFail_error) == dial_event_error(event),
{
}

/// A dial binds a session only on a snapshot whose authenticator verified,
/// with a non-empty session id and initial sequence 0, awaited after an
/// accepted server hello.
pub proof fn law_dial_establish_only_after_checks(state: DialState, event: DialEvent,
    before: Set<(Seq<char>, Seq<char>)>, res: (DialState, DialAction))
    requires
        dial_outcome(state, event, before, res),
        res.1 is Establish,
    ensures
        state is AwaitSnapshot,
        event is Snapshot,
        event->Snapshot_verification is Ok,
        event->Snapshot_session_id@.len() > 0,
        event->Snapshot_initial_sequence == 0,
        res.0 is Established,
        binding_view(res.1->Establish_binding).session_id == event->Snapshot_session_id@,
        binding_view(res.1->Establish_binding).peer_id == state->AwaitSnapshot_remote_peer_id@,
{
}

/// A dial awaits the snapshot only after a verified, not replayed server
/// hello whose host decoded, and keeps that host as the remote manifest.
pub proof fn law_dial_snapshot_after_accepted_hello(state: DialState, event: DialEvent,
    before: Set<(Seq<char>, Seq<char>)>, res: (DialState, DialAction))
    requires
        dial_outcome(state, event, before, res),
        res.1 is AwaitSnapshot,
    ensures
        state is AwaitServerHello,
        event is ServerHello,
        event->ServerHello_verification is Ok,
        !before.contains((state->AwaitServerHello_remote_peer_id@, event->ServerHello_nonce@)),
        event->ServerHello_host is Ok,
        res.0 == (DialState::AwaitSnapshot {
            remote_peer_id: state->AwaitServerHello_remote_peer_id,
            local_capabilities: state->AwaitServerHello_local_capabilities,
            remote_manifest: event->ServerHello_host->Ok_0,
        }),
{
}

// ── Responder ────────────────────────────────────────────────────────────

/// Where a responder handshake stands.
pub enum ResponderState {
    /// Awaiting the dialer's first envelope.
    AwaitHello { allowlist: Vec<String>, peer_keys: Vec<(String, [u8; 32])>, local_capabilities: Vec<String> },
    /// The hello's claimed peer was admitted; its verification is awaited.
    AwaitVerification { claimed_peer_id: String, nonce: String, local_capabilities: Vec<String> },
    /// The hello was accepted; the responder hello and session snapshot
    /// are being sent.
    Answering { binding: SessionBinding, remote_manifest: PeerManifest },
    /// The session is established; the serve loop runs.
    Established,
    /// The handshake failed; the session is closed.
    Closed,
}

/// What the outside work of a responder handshake produced.
pub enum ResponderEvent {
    /// The first envelope decoded as a hello claiming `peer_id`.
    Hello { peer_id: String, nonce: String },
    /// The first envelope is not a hello.
    NotHello,
    /// The hello was checked against the admitted key: the peer id that key
    /// derives, the verification result and the decoded host manifest (or
    /// the decode error's text).
    Verified { derived_peer_id: String, verification: Result<(), CoreError>, host: Result<PeerManifest, String> },
    /// The responder hello and the session snapshot were sent.
    Sent,
    /// Outside work failed (receive, sign, encode, send), with its text.
    Failure { detail: String },
}

/// What to do next in a responder handshake.
pub enum ResponderAction {
    /// Verify the received hello against this preconfigured key.
    VerifyHello { key: [u8; 32] },
    /// Sign and send the responder hello, then the signed session snapshot
    /// for `session_id` listing `snapshot_capabilities`.
    SendHelloAndSnapshot { session_id: String, snapshot_capabilities: Vec<String> },
    /// Establish the session and start the serve loop.
    Establish { binding: SessionBinding, remote_manifest: PeerManifest },
    /// Close the session with `reason`; nothing is sent.
    CloseWithoutSend { reason: String },
    /// Nothing to do: the event does not belong to this state.
    Ignore,
}

/// The states in which the responder handshake still runs.
pub open spec fn responder_running(s: ResponderState) -> bool {
    s is AwaitHello || s is AwaitVerification || s is Answering
}

/// `res` closes the session, sending nothing, for `error`.
pub open spec fn responder_closes_with(res: (ResponderState, ResponderAction), error: Seq<char>) -> bool {
    &&& res.0 is Closed
    &&& res.1 is CloseWithoutSend
    &&& res.1->CloseWithoutSend_reason@ == "handshake failed: "@ + error
}

/// What a responder step gives for `state` and `event`, with `before` the
/// nonce store before the step.
pub open spec fn responder_outcome(state: ResponderState, event: ResponderEvent,
    before: Set<(Seq<char>, Seq<char>)>, res: (ResponderState, ResponderAction)) -> bool
{
    match state {
        // The allowlist and the preconfigured key decide before any
        // signature work.
        ResponderState::AwaitHello { allowlist, peer_keys, local_capabilities } => match event {
            ResponderEvent::Hello { peer_id, nonce } => if !seq_has(allowlist@, peer_id@) {
                responder_closes_with(res, "peer "@ + peer_id@ + " not on allowlist"@)
            } else {
                match key_of(peer_keys@, peer_id@) {
                    None => responder_closes_with(res,
                        "no preconfigured public key for allowlisted peer "@ + peer_id@),
                    Some(k) => res.0 == (ResponderState::AwaitVerification {
                            claimed_peer_id: peer_id, nonce, local_capabilities })
                        && res.1 is VerifyHello && res.1->VerifyHello_key@ == k,
                }
            },
            ResponderEvent::NotHello => responder_closes_with(res, "expected ConnectHello from client"@),
            ResponderEvent::Failure { detail } => responder_closes_with(res, detail@),
            _ => res.0 == state && res.1 is Ignore,
        },
        // Verification, nonce single use, host decode; then the binding.
        ResponderState::AwaitVerification { claimed_peer_id, nonce, local_capabilities } => match event {
            ResponderEvent::Verified { derived_peer_id, verification, host } => match verification {
                Err(e) => responder_closes_with(res, "client hello verification failed: "@ + core_error_text(e)),
                Ok(()) => if before.contains((claimed_peer_id@, nonce@)) {
                    responder_closes_with(res, "nonce replay"@)
                } else {
                    match host {
                        Err(d) => responder_closes_with(res, "dialer hello host decode failed: "@ + d@),
                        Ok(m) => {
                            &&& res.0 is Answering
                            &&& binding_view(res.0->Answering_binding).session_id
                                == responder_session_prefix() + derived_peer_id@
                            &&& binding_view(res.0->Answering_binding).peer_id == derived_peer_id@
                            &&& binding_view(res.0->Answering_binding).next_outbound == 0
                            &&& binding_view(res.0->Answering_binding).expected_inbound == 0
                            &&& strs(res.0->Answering_binding.negotiated@)
                                == negotiated_view(strs(local_capabilities@), manifest_view(m).capabilities)
                            &&& manifest_view(res.0->Answering_remote_manifest) == manifest_view(m)
                            &&& res.1 is SendHelloAndSnapshot
                            &&& res.1->SendHelloAndSnapshot_session_id@ == responder_session_prefix() + derived_peer_id@
                            &&& (strs(res.0->Answering_binding.negotiated@).len() > 0 ==>
                                strs(res.1->SendHelloAndSnapshot_snapshot_capabilities@)
                                    == strs(res.0->Answering_binding.negotiated@))
                            &&& (strs(res.0->Answering_binding.negotiated@).len() == 0 ==>
                                strs(res.1->SendHelloAndSnapshot_snapshot_capabilities@) == seq!["spoke-baseline"@])
                        },
                    }
                },
            },
            ResponderEvent::Failure { detail } => responder_closes_with(res, detail@),
            _ => res.0 == state && res.1 is Ignore,
        },
        // Sent: the session is established with the binding.
        ResponderState::Answering { binding, remote_manifest } => match event {
            ResponderEvent::Sent => res.0 is Established
                && res.1 == (ResponderAction::Establish { binding, remote_manifest }),
            ResponderEvent::Failure { detail } => responder_closes_with(res, detail@),
            _ => res.0 == state && res.1 is Ignore,
        },
        _ => res.0 == state && res.1 is Ignore,
    }
}

/// Whether the responder step records the hello's `(peer_id, nonce)`.
pub open spec fn responder_records(state: ResponderState, event: ResponderEvent,
    before: Set<(Seq<char>, Seq<char>)>) -> bool
{
    match state {
        ResponderState::AwaitVerification { claimed_peer_id, nonce, .. } => match event {
            ResponderEvent::Verified { verification, .. } =>
                verification is Ok && !before.contains((claimed_peer_id@, nonce@)),
            _ => false,
        },
        _ => false,
    }
}

/// The responder's step function. The first envelope must be a hello whose
/// claimed peer is allowlisted and has a preconfigured key (checked before
/// any signature work); its verification, nonce single use and host decode
/// follow; only then are the responder hello and snapshot sent, and the
/// session (`responder_binding`'s) is established once they went out. Any
/// failure closes the session without sending anything further.
pub fn responder_step(state: ResponderState, event: ResponderEvent, nonces: &mut NonceStore)
    -> (res: (ResponderState, ResponderAction))
    ensures
        responder_outcome(state, event, old(nonces)@, res),
        responder_records(state, event, old(nonces)@) ==> final(nonces)@ == old(nonces)@.insert(
            (state->AwaitVerification_claimed_peer_id@, state->AwaitVerification_nonce@)),
        !responder_records(state, event, old(nonces)@) ==> final(nonces)@ == old(nonces)@,
{
    proof {
        reveal_strlit("expected ConnectHello from client");
        reveal_strlit("dialer hello host decode failed: ");
    }
    match state {
        ResponderState::AwaitHello { allowlist, peer_keys, local_capabilities } => {
            match event {
                ResponderEvent::Hello { peer_id, nonce } => {
                    match responder_admit(peer_id.as_str(), &allowlist, &peer_keys) {
                        Err(error) => (ResponderState::Closed, ResponderAction::CloseWithoutSend {
                            reason: handshake_close_reason(error.as_str()) }),
                        Ok(key) => (ResponderState::AwaitVerification { claimed_peer_id: peer_id, nonce, local_capabilities },
                            ResponderAction::VerifyHello { key }),
                    }
                },
                ResponderEvent::NotHello => (ResponderState::Closed, ResponderAction::CloseWithoutSend {
                    reason: handshake_close_reason("expected ConnectHello from client") }),
                ResponderEvent::Failure { detail } => (ResponderState::Closed, ResponderAction::CloseWithoutSend {
                    reason: handshake_close_reason(detail.as_str()) }),
                _ => (ResponderState::AwaitHello { allowlist, peer_keys, local_capabilities }, ResponderAction::Ignore),
            }
        },
        ResponderState::AwaitVerification { claimed_peer_id, nonce, local_capabilities } => {
            match event {
                ResponderEvent::Verified { derived_peer_id, verification, host } => {
                    match responder_accept_hello(nonces, claimed_peer_id.as_str(), nonce.as_str(), verification) {
                        Err(error) => (ResponderState::Closed, ResponderAction::CloseWithoutSend {
                            reason: handshake_close_reason(error.as_str()) }),
                        Ok(()) => match host {
                            Err(d) => {
                                let detail = concat2("dialer hello host decode failed: ", d.as_str());
                                (ResponderState::Closed, ResponderAction::CloseWithoutSend {
                                    reason: handshake_close_reason(detail.as_str()) })
                            },
                            Ok(m) => {
                                let binding = responder_binding(derived_peer_id.as_str(), &local_capabilities,
                                    &m.capabilities);
                                let session_id = owned(binding.session_id.as_str());
                                let snapshot_capabilities = snapshot_capabilities(&binding.negotiated);
                                (ResponderState::Answering { binding, remote_manifest: m },
                                    ResponderAction::SendHelloAndSnapshot { session_id, snapshot_capabilities })
                            },
                        },
                    }
                },
                ResponderEvent::Failure { detail } => (ResponderState::Closed, ResponderAction::CloseWithoutSend {
                    reason: handshake_close_reason(detail.as_str()) }),
                _ => (ResponderState::AwaitVerification { claimed_peer_id, nonce, local_capabilities },
                    ResponderAction::Ignore),
            }
        },
        ResponderState::Answering { binding, remote_manifest } => {
            match event {
                ResponderEvent::Sent => (ResponderState::Established, ResponderAction::Establish { binding, remote_manifest }),
                ResponderEvent::Failure { detail } => (ResponderState::Closed, ResponderAction::CloseWithoutSend {
                    reason: handshake_close_reason(detail.as_str()) }),
                _ => (ResponderState::Answering { binding, remote_manifest }, ResponderAction::Ignore),
            }
        },
        ResponderState::Established => (ResponderState::Established, ResponderAction::Ignore),
        ResponderState::Closed => (ResponderState::Closed, ResponderAction::Ignore),
    }
}

/// A first envelope that is not a hello, or a hello the admission check
/// refuses, closes the responder handshake without sending anything.
pub proof fn law_responder_refusal_closes_without_send(state: ResponderState, event: ResponderEvent,
    before: Set<(Seq<char>, Seq<char>)>, res: (ResponderState, ResponderAction))
    requires
        state is AwaitHello,
        responder_outcome(state, event, before, res),
        event is NotHello || (event is Hello && (!seq_has(state->AwaitHello_allowlist@, event->Hello_peer_id@)
            || key_of(state->AwaitHello_peer_keys@, event->Hello_peer_id@) is None)),
    ensures
        res.0 is Closed,
        res.1 is CloseWithoutSend,
{
}

/// The responder answers (sends its hello and snapshot) only for a hello
/// that verified and was not replayed, and establishes exactly the binding
/// it answered with.
pub proof fn law_responder_answers_only_accepted_hello(state: ResponderState, event: ResponderEvent,
    before: Set<(Seq<char>, Seq<char>)>, res: (ResponderState, ResponderAction))
    requires
        responder_outcome(state, event, before, res),
        res.1 is SendHelloAndSnapshot,
    ensures
        state is AwaitVerification,
        event is Verified,
        event->Verified_verification is Ok,
        !before.contains((state->AwaitVerification_claimed_peer_id@, state->AwaitVerification_nonce@)),
        res.0 is Answering,
        responder_outcome(res.0, ResponderEvent::Sent, before,
            (ResponderState::Established, ResponderAction::Establish {
                binding: res.0->Answering_binding, remote_manifest: res.0->Answering_remote_manifest })),
{
}

} // verus!
