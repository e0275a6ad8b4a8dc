//! Handshake decisions: the dialing adapter's checks (allowlist before any
//! I/O, hello verification, server-hello replay, session snapshot), the
//! responder's (allowlist first, preconfigured key, verification, nonce
//! single use, session id and snapshot capabilities), and the node's hello
//! accept gate (version and claimed-peer binding, allowlist, signature,
//! nonce — in that order).
//!
//! A hello that fails any earlier check never records its nonce, so a
//! rejected hello can be retried once the cause is fixed.

use vstd::prelude::*;
use crate::text::{owned, concat2, concat3, str_eq, seq_has, contains_str, u64_to_decimal, decimal_digits};
use crate::session::{NonceStore, OutboundSequence, InboundSequence, PROTOCOL_VERSION};
use crate::errors::{CoreError, RemoteAdapterError, core_error_text};
use crate::endpoint::{SessionBinding, BindingView, binding_view};
use crate::manifest::{negotiated_capabilities, negotiated_view, strs};

verus! {

/// Default bounded-wait deadline for the handshake and each invoke, ms.
pub const DEFAULT_INVOKE_TIMEOUT_MS: u64 = 5000;

/// The configured deadline, or the default.
pub fn invoke_timeout_ms(requested: Option<u64>) -> (res: u64)
    ensures
        res == match requested {
            Some(ms) => ms,
            None => DEFAULT_INVOKE_TIMEOUT_MS,
        },
{
    match requested {
        Some(ms) => ms,
        None => DEFAULT_INVOKE_TIMEOUT_MS,
    }
}

// ── Dialing adapter ──────────────────────────────────────────────────────

/// Fail-closed before any transport I/O: the remote peer (its id derived
/// from the preconfigured public key) must be on the allowlist.
pub fn dial_preflight(remote_peer_id: &str, allowlist: &Vec<String>) -> (res: Result<(), RemoteAdapterError>)
    ensures
        seq_has(allowlist@, remote_peer_id@) ==> res is Ok,
        !seq_has(allowlist@, remote_peer_id@) ==> res is Err && adapter_error_view(res->Err_0)
            == RemoteAdapterErrorView::Config("remote peer "@ + remote_peer_id@ + " is not on the allowlist (fail-closed)"@),
{
    if contains_str(allowlist, remote_peer_id) {
        Ok(())
    } else {
        proof {
            reveal_strlit("remote peer ");
            reveal_strlit(" is not on the allowlist (fail-closed)");
        }
        Err(RemoteAdapterError::Config(concat3("remote peer ", remote_peer_id, " is not on the allowlist (fail-closed)")))
    }
}

/// A dial step whose outside work failed.
#[derive(Debug, Clone, Copy, PartialEq, Eq, Structural)]
pub enum DialStep {
    /// Generating the hello nonce.
    NonceGeneration,
    /// Signing the local hello.
    LocalHelloSign,
    /// Encoding the local hello.
    HelloEncode,
    /// Sending the local hello.
    HelloSend,
    /// Receiving the server hello.
    ServerHelloRecv,
    /// Decoding the server hello.
    ServerHelloDecode,
    /// Decoding the server hello's host manifest.
    RemoteHostDecode,
    /// Receiving the session snapshot.
    SnapshotRecv,
    /// Decoding the session snapshot.
    SnapshotDecode,
    /// Verifying the session snapshot's authenticator.
    SnapshotVerification,
}

/// The dial failure of a step, with the outside error's text.
pub open spec fn dial_step_error(step: DialStep, detail: Seq<char>) -> RemoteAdapterErrorView {
    match step {
        DialStep::NonceGeneration => RemoteAdapterErrorView::Config(detail),
        DialStep::LocalHelloSign => RemoteAdapterErrorView::Handshake("local hello sign failed: "@ + detail),
        DialStep::HelloEncode => RemoteAdapterErrorView::Handshake("hello encode failed: "@ + detail),
        DialStep::HelloSend => RemoteAdapterErrorView::Handshake("hello send failed: "@ + detail),
        DialStep::ServerHelloRecv => RemoteAdapterErrorView::Handshake("server hello recv failed: "@ + detail),
        DialStep::ServerHelloDecode => RemoteAdapterErrorView::Handshake("expected ConnectHello from server"@),
        DialStep::RemoteHostDecode => RemoteAdapterErrorView::Handshake("remote hello host decode failed: "@ + detail),
        DialStep::SnapshotRecv => RemoteAdapterErrorView::Handshake("session snapshot recv failed: "@ + detail),
        DialStep::SnapshotDecode => RemoteAdapterErrorView::Handshake(
            "expected ConnectSession snapshot after server hello"@),
        DialStep::SnapshotVerification => RemoteAdapterErrorView::Handshake(
            "session snapshot verification failed: "@ + detail),
    }
}

/// The content of a dial failure.
pub enum RemoteAdapterErrorView {
    Config(Seq<char>),
    Handshake(Seq<char>),
    ProtocolVersionMismatch(Seq<char>),
    Timeout(Seq<char>),
}

/// The content of a dial failure.
pub open spec fn adapter_error_view(e: RemoteAdapterError) -> RemoteAdapterErrorView {
    match e {
        RemoteAdapterError::Config(m) => RemoteAdapterErrorView::Config(m@),
        RemoteAdapterError::Handshake(m) => RemoteAdapterErrorView::Handshake(m@),
        RemoteAdapterError::ProtocolVersionMismatch(m) => RemoteAdapterErrorView::ProtocolVersionMismatch(m@),
        RemoteAdapterError::Timeout(m) => RemoteAdapterErrorView::Timeout(m@),
    }
}

/// The dial failure of `step` given the outside error's text.
pub fn dial_failure(step: DialStep, detail: &str) -> (res: RemoteAdapterError)
    ensures
        adapter_error_view(res) == dial_step_error(step, detail@),
{
    proof {
        reveal_strlit("expected ConnectHello from server");
        reveal_strlit("expected ConnectSession snapshot after server hello");
    }
    match step {
        DialStep::NonceGeneration => RemoteAdapterError::Config(owned(detail)),
        DialStep::LocalHelloSign => RemoteAdapterError::Handshake(concat2("local hello sign failed: ", detail)),
        DialStep::HelloEncode => RemoteAdapterError::Handshake(concat2("hello encode failed: ", detail)),
        DialStep::HelloSend => RemoteAdapterError::Handshake(concat2("hello send failed: ", detail)),
        DialStep::ServerHelloRecv => RemoteAdapterError::Handshake(concat2("server hello recv failed: ", detail)),
        DialStep::ServerHelloDecode => RemoteAdapterError::Handshake(owned("expected ConnectHello from server")),
        DialStep::RemoteHostDecode => RemoteAdapterError::Handshake(concat2("remote hello host decode failed: ", detail)),
        DialStep::SnapshotRecv => RemoteAdapterError::Handshake(concat2("session snapshot recv failed: ", detail)),
        DialStep::SnapshotDecode => RemoteAdapterError::Handshake(
            owned("expected ConnectSession snapshot after server hello")),
        DialStep::SnapshotVerification => RemoteAdapterError::Handshake(
            concat2("session snapshot verification failed: ", detail)),
    }
}

/// A bounded wait that elapsed: `connect: {what} timed out after {ms}ms`.
pub fn dial_timeout(what: &str, timeout_ms: u64) -> (res: RemoteAdapterError)
    ensures
        adapter_error_view(res) == RemoteAdapterErrorView::Timeout(
            "connect: "@ + what@ + " timed out after "@ + decimal_digits(timeout_ms as nat) + "ms"@),
{
    let mut m = concat3("connect: ", what, " timed out after ");
    let digits = u64_to_decimal(timeout_ms);
    m.append(digits.as_str());
    m.append("ms");
    proof {
        reveal_strlit("connect: ");
        reveal_strlit(" timed out after ");
        reveal_strlit("ms");
    }
    RemoteAdapterError::Timeout(m)
}

/// The dial failure of a server hello that did not verify: a version
/// mismatch keeps its own class, every other failure is a handshake
/// failure carrying the error's text.
pub open spec fn hello_verification_error(e: CoreError) -> RemoteAdapterErrorView {
    match e {
        CoreError::ProtocolVersionMismatch { reason } => RemoteAdapterErrorView::ProtocolVersionMismatch(
            "remote hello protocol version mismatch: "@ + reason@),
        _ => RemoteAdapterErrorView::Handshake("remote hello verification failed: "@ + core_error_text(e)),
    }
}

/// `server hello replay rejected: (peer_id {id}, nonce {n}) was already
/// accepted`.
pub open spec fn server_replay_message(peer_id: Seq<char>, nonce: Seq<char>) -> Seq<char> {
    "server hello replay rejected: (peer_id "@ + peer_id + ", nonce "@ + nonce + ") was already accepted"@
}

/// Accepts the server hello of a dial, given its verification result:
/// a failed verification is answered per `hello_verification_error` and
/// records nothing; a verified hello whose `(peer_id, nonce)` was already
/// accepted in this process is a replay; otherwise the pair is recorded.
pub fn accept_server_hello(accepted: &mut NonceStore, remote_peer_id: &str, nonce: &str,
    verification: Result<(), CoreError>) -> (res: Result<(), RemoteAdapterError>)
    ensures
        match verification {
            Err(e) => res is Err && adapter_error_view(res->Err_0) == hello_verification_error(e)
                && final(accepted)@ == old(accepted)@,
            Ok(()) => if old(accepted)@.contains((remote_peer_id@, nonce@)) {
                res is Err && adapter_error_view(res->Err_0) == RemoteAdapterErrorView::Handshake(
                    server_replay_message(remote_peer_id@, nonce@))
                    && final(accepted)@ == old(accepted)@
            } else {
                res is Ok && final(accepted)@ == old(accepted)@.insert((remote_peer_id@, nonce@))
            },
        },
{
    match verification {
        Err(error) => {
            proof {
                reveal_strlit("remote hello protocol version mismatch: ");
                reveal_strlit("remote hello verification failed: ");
            }
            match error {
                CoreError::ProtocolVersionMismatch { reason } => Err(RemoteAdapterError::ProtocolVersionMismatch(
                    concat2("remote hello protocol version mismatch: ", reason.as_str()))),
                other => {
                    let text = other.describe();
                    Err(RemoteAdapterError::Handshake(concat2("remote hello verification failed: ", text.as_str())))
                },
            }
        },
        Ok(()) => {
            if accepted.check_and_record(remote_peer_id, nonce) {
                Ok(())
            } else {
                let mut m = concat3("server hello replay rejected: (peer_id ", remote_peer_id, ", nonce ");
                m.append(nonce);
                m.append(") was already accepted");
                proof {
                    reveal_strlit("server hello replay rejected: (peer_id ");
                    reveal_strlit(", nonce ");
                    reveal_strlit(") was already accepted");
                }
                Err(RemoteAdapterError::Handshake(m))
            }
        },
    }
}

/// The responder-assigned session snapshot must carry a non-empty session
/// id and start at sequence 0.
pub fn validate_session_snapshot(session_id: &str, initial_sequence: i64) -> (res: Result<(), RemoteAdapterError>)
    ensures
        session_id@.len() == 0 ==> res is Err && adapter_error_view(res->Err_0)
            == RemoteAdapterErrorView::Handshake("session snapshot session_id must not be empty"@),
        session_id@.len() != 0 && initial_sequence != 0 ==> res is Err && adapter_error_view(res->Err_0)
            == RemoteAdapterErrorView::Handshake("session snapshot initial_sequence must be 0"@),
        session_id@.len() != 0 && initial_sequence == 0 ==> res is Ok,
{
    proof {
        reveal_strlit("session snapshot session_id must not be empty");
        reveal_strlit("session snapshot initial_sequence must be 0");
    }
    if session_id.unicode_len() == 0 {
        return Err(RemoteAdapterError::Handshake(owned("session snapshot session_id must not be empty")));
    }
    if initial_sequence != 0 {
        return Err(RemoteAdapterError::Handshake(owned("session snapshot initial_sequence must be 0")));
    }
    Ok(())
}

/// The session a successful dial binds: the snapshot's session id, the
/// verified remote peer, the negotiated capabilities (the local ones the
/// remote hello also lists, in local order) and fresh counters at 0.
pub fn dial_binding(session_id: String, remote_peer_id: String, local_capabilities: &Vec<String>,
    remote_capabilities: &Vec<String>) -> (res: SessionBinding)
    ensures
        binding_view(res) == (BindingView {
            session_id: session_id@,
            peer_id: remote_peer_id@,
            negotiated: binding_view(res).negotiated,
            next_outbound: 0,
            expected_inbound: 0,
        }),
        strs(res.negotiated@) == negotiated_view(strs(local_capabilities@), strs(remote_capabilities@)),
{
    SessionBinding {
        session_id,
        peer_id: remote_peer_id,
        negotiated: negotiated_capabilities(local_capabilities, remote_capabilities),
        outbound: OutboundSequence::new(),
        inbound: InboundSequence::new(),
    }
}

// ── Responder handshake ──────────────────────────────────────────────────

/// The session id prefix of a responder session.
pub open spec fn responder_session_prefix() -> Seq<char> {
    "connect-responder-session-"@
}

/// The preconfigured key of `peer_id`: the first entry filed under it.
pub open spec fn key_of(keys: Seq<(String, [u8; 32])>, peer_id: Seq<char>) -> Option<Seq<u8>>
    decreases keys.len(),
{
    if keys.len() == 0 {
        None
    } else if keys[0].0@ == peer_id {
        Some(keys[0].1@)
    } else {
        key_of(keys.drop_first(), peer_id)
    }
}

/// Admits a dialer's hello before any signature work: the claimed peer id
/// must be on the allowlist, and an allowlisted peer must have a
/// preconfigured public key; the key is returned.
pub fn responder_admit(peer_id: &str, allowlist: &Vec<String>, peer_keys: &Vec<(String, [u8; 32])>)
    -> (res: Result<[u8; 32], String>)
    ensures
        !seq_has(allowlist@, peer_id@) ==> res is Err && res->Err_0@ == "peer "@ + peer_id@ + " not on allowlist"@,
        seq_has(allowlist@, peer_id@) ==> match key_of(peer_keys@, peer_id@) {
            Some(k) => res is Ok && res->Ok_0@ == k,
            None => res is Err && res->Err_0@ == "no preconfigured public key for allowlisted peer "@ + peer_id@,
        },
{
    if !contains_str(allowlist, peer_id) {
        proof {
            reveal_strlit("peer ");
            reveal_strlit(" not on allowlist");
        }
        return Err(concat3("peer ", peer_id, " not on allowlist"));
    }
    let mut i: usize = 0;
    assert(peer_keys@.subrange(0, peer_keys@.len() as int) =~= peer_keys@);
    while i < peer_keys.len()
        invariant
            seq_has(allowlist@, peer_id@),
            i <= peer_keys@.len(),
            key_of(peer_keys@, peer_id@) == key_of(peer_keys@.subrange(i as int, peer_keys@.len() as int), peer_id@),
        decreases peer_keys@.len() - i,
    {
        let ghost rest = peer_keys@.subrange(i as int, peer_keys@.len() as int);
        assert(rest.drop_first() =~= peer_keys@.subrange(i + 1, peer_keys@.len() as int));
        assert(rest[0] == peer_keys@[i as int]);
        if str_eq(peer_keys[i].0.as_str(), peer_id) {
            return Ok(peer_keys[i].1);
        }
        i = i + 1;
    }
    proof {
        reveal_strlit("no preconfigured public key for allowlisted peer ");
        assert(peer_keys@.subrange(i as int, peer_keys@.len() as int) =~= Seq::<(String, [u8; 32])>::empty());
    }
    Err(concat2("no preconfigured public key for allowlisted peer ", peer_id))
}

/// Accepts a dialer's hello given its verification result: a failed
/// verification is `client hello verification failed: {error}` and records
/// nothing; a replayed `(peer_id, nonce)` is `nonce replay`; otherwise the
/// pair is recorded.
pub fn responder_accept_hello(nonces: &mut NonceStore, peer_id: &str, nonce: &str,
    verification: Result<(), CoreError>) -> (res: Result<(), String>)
    ensures
        match verification {
            Err(e) => res is Err && res->Err_0@ == "client hello verification failed: "@ + core_error_text(e)
                && final(nonces)@ == old(nonces)@,
            Ok(()) => if old(nonces)@.contains((peer_id@, nonce@)) {
                res is Err && res->Err_0@ == "nonce replay"@ && final(nonces)@ == old(nonces)@
            } else {
                res is Ok && final(nonces)@ == old(nonces)@.insert((peer_id@, nonce@))
            },
        },
{
    match verification {
        Err(error) => {
            proof {
                reveal_strlit("client hello verification failed: ");
            }
            let text = error.describe();
            Err(concat2("client hello verification failed: ", text.as_str()))
        },
        Ok(()) => {
            if nonces.check_and_record(peer_id, nonce) {
                Ok(())
            } else {
                proof {
                    reveal_strlit("nonce replay");
                }
                Err(owned("nonce replay"))
            }
        },
    }
}

/// The responder's session id for a dialer: the prefix and the peer id
/// derived from the dialer's key.
pub fn responder_session_id(derived_peer_id: &str) -> (res: String)
    ensures
        res@ == responder_session_prefix() + derived_peer_id@,
{
    proof {
        reveal_strlit("connect-responder-session-");
    }
    concat2("connect-responder-session-", derived_peer_id)
}

/// The capabilities the signed session snapshot lists: the negotiated
/// ones, or `spoke-baseline` alone when the intersection is empty (the
/// wire snapshot requires at least one).
pub fn snapshot_capabilities(negotiated: &Vec<String>) -> (res: Vec<String>)
    ensures
        negotiated@.len() > 0 ==> strs(res@) == strs(negotiated@),
        negotiated@.len() == 0 ==> strs(res@) == seq!["spoke-baseline"@],
{
    if negotiated.len() == 0 {
        let mut v: Vec<String> = Vec::new();
        v.push(owned("spoke-baseline"));
        proof {
            reveal_strlit("spoke-baseline");
            assert(strs(v@) =~= seq!["spoke-baseline"@]);
        }
        v
    } else {
        let v = crate::manifest::clone_strings(negotiated);
        v
    }
}

/// The reason a failed responder handshake closes the session with.
pub fn handshake_close_reason(error: &str) -> (res: String)
    ensures
        res@ == "handshake failed: "@ + error@,
{
    concat2("handshake failed: ", error)
}

/// The session a successful responder handshake binds: the prefixed
/// session id, the dialer's derived peer id, the negotiated capabilities
/// and fresh counters at 0.
pub fn responder_binding(derived_peer_id: &str, local_capabilities: &Vec<String>,
    remote_capabilities: &Vec<String>) -> (res: SessionBinding)
    ensures
        binding_view(res).session_id == responder_session_prefix() + derived_peer_id@,
        binding_view(res).peer_id == derived_peer_id@,
        binding_view(res).next_outbound == 0,
        binding_view(res).expected_inbound == 0,
        strs(res.negotiated@) == negotiated_view(strs(local_capabilities@), strs(remote_capabilities@)),
{
    SessionBinding {
        session_id: responder_session_id(derived_peer_id),
        peer_id: owned(derived_peer_id),
        negotiated: negotiated_capabilities(local_capabilities, remote_capabilities),
        outbound: OutboundSequence::new(),
        inbound: InboundSequence::new(),
    }
}

// ── Node hello accept gate ───────────────────────────────────────────────

/// Why the node's accept gate rejected a hello.
#[derive(Debug, Clone, PartialEq, Eq)]
pub enum GateRejection {
    /// Unsupported protocol version.
    HandshakeFailed { reason: String },
    /// The authenticated peer is not on the allowlist.
    NotAllowlisted { peer_id: String },
    /// The hello did not verify.
    Hello(CoreError),
    /// The `(peer_id, nonce)` pair was already accepted.
    NonceReplay,
}

/// `unsupported protocol_version {v} (expected 1)`.
pub open spec fn unsupported_version_message(version: u64) -> Seq<char> {
    "unsupported protocol_version "@ + decimal_digits(version as nat) + " (expected "@
        + decimal_digits(PROTOCOL_VERSION as nat) + ")"@
}

/// The node's accept gate for an inbound hello, in order: protocol
/// version and claimed-peer binding (`binding`: whether the hello's key
/// derives the authenticated peer and its claimed `peer_id` is that peer),
/// then the allowlist (of the authenticated peer, never the claimed id),
/// then the signature (`signature`), then nonce single use. Only an
/// accepted hello records its `(peer_id, nonce)`.
pub fn gate_hello(authenticated_peer: &str, allowlist: &Vec<String>, nonces: &mut NonceStore,
    protocol_version: u64, nonce: &str, binding: Result<(), CoreError>, signature: Result<(), CoreError>)
    -> (res: Result<(), GateRejection>)
    ensures
        protocol_version != PROTOCOL_VERSION ==> res is Err && match res->Err_0 {
            GateRejection::HandshakeFailed { reason } => reason@ == unsupported_version_message(protocol_version),
            _ => false,
        },
        protocol_version == PROTOCOL_VERSION && binding is Err ==>
            res == Err::<(), GateRejection>(GateRejection::Hello(binding->Err_0)),
        protocol_version == PROTOCOL_VERSION && binding is Ok && !seq_has(allowlist@, authenticated_peer@) ==> res is Err
            && match res->Err_0 {
                GateRejection::NotAllowlisted { peer_id } => peer_id@ == authenticated_peer@,
                _ => false,
            },
        protocol_version == PROTOCOL_VERSION && binding is Ok && seq_has(allowlist@, authenticated_peer@) ==> match signature {
            Err(e) => res == Err::<(), GateRejection>(GateRejection::Hello(e)),
            Ok(()) => if old(nonces)@.contains((authenticated_peer@, nonce@)) {
                res == Err::<(), GateRejection>(GateRejection::NonceReplay)
            } else {
                res is Ok
            },
        },
        res is Ok ==> final(nonces)@ == old(nonces)@.insert((authenticated_peer@, nonce@)),
        res is Err ==> final(nonces)@ == old(nonces)@,
{
    if protocol_version != PROTOCOL_VERSION {
        let mut reason = concat2("unsupported protocol_version ", u64_to_decimal(protocol_version).as_str());
        reason.append(" (expected ");
        reason.append(u64_to_decimal(PROTOCOL_VERSION).as_str());
        reason.append(")");
        proof {
            reveal_strlit("unsupported protocol_version ");
            reveal_strlit(" (expected ");
            reveal_strlit(")");
        }
        return Err(GateRejection::HandshakeFailed { reason });
    }
    if let Err(e) = binding {
        return Err(GateRejection::Hello(e));
    }
    if !contains_str(allowlist, authenticated_peer) {
        return Err(GateRejection::NotAllowlisted { peer_id: owned(authenticated_peer) });
    }
    match signature {
        Err(e) => Err(GateRejection::Hello(e)),
        Ok(()) => {
            if nonces.check_and_record(authenticated_peer, nonce) {
                Ok(())
            } else {
                Err(GateRejection::NonceReplay)
            }
        },
    }
}

/// The transport acknowledgement of a hello.
#[derive(Debug, Clone, Copy, PartialEq, Eq, Structural)]
pub struct HelloAck {
    /// Whether the hello passed the allowlist / signature / nonce gates.
    pub accepted: bool,
}

impl HelloAck {
    /// The success acknowledgement.
    pub fn accepted() -> (res: Self)
        ensures
            res.accepted,
    {
        HelloAck { accepted: true }
    }
}

/// Raw Ed25519 key material of the local connect peer.
#[derive(Debug, Clone, Copy)]
pub struct RemoteIdentity {
    pub seed: [u8; 32],
}

/// Records an accepted server hello's `(peer_id, nonce)` in the process's
/// store; `false` on replay (nothing changes). Call only once the hello
/// passed every earlier check, so a rejected hello is not burned.
pub fn record_server_hello(accepted: &mut NonceStore, peer_id: &str, nonce: &str) -> (res: bool)
    ensures
        res == !old(accepted)@.contains((peer_id@, nonce@)),
        final(accepted)@ == old(accepted)@.insert((peer_id@, nonce@)),
{
    accepted.check_and_record(peer_id, nonce)
}

/// Empties the process's store of accepted server hellos (a process
/// restart, for tests).
pub fn reset_accepted_server_hellos_for_test(accepted: &mut NonceStore)
    ensures
        final(accepted)@ == Set::<(Seq<char>, Seq<char>)>::empty(),
{
    *accepted = NonceStore::new();
}

} // verus!
