//! The connect node's decisions around its event loop: where an inbound
//! hello goes, when a handshake becomes a session, which failure belongs
//! to the pending dial, and the inbound invoke accept path — wire range,
//! session, envelope authenticator, sequence (auth before advance),
//! capability token, op dispatch gate.

use vstd::prelude::*;
use crate::text::{owned, concat2, concat3, str_eq, seq_has, contains_str, int_text, decimal_digits,
    i64_to_decimal, u64_to_decimal};
use crate::session::{InboundSequence, inbound_accepts, MAX_SEQUENCE, core_required_capability,
    required_capability_of, inbound_sequence_valid, pending_hello_capacity_available, MAX_PENDING_HELLOS_PER_PEER};
use crate::errors::{CoreError, core_error_text};
use crate::adapter::{EnvelopeAuthErrorKind, envelope_auth_kind, error_kind_label};
use crate::json::{JsonValue, JsonView, fields_view, lemma_fields_view_push};

verus! {

// ── Inbound hellos ───────────────────────────────────────────────────────

/// Where an inbound hello goes.
#[derive(Debug, Clone, Copy, PartialEq, Eq, Structural)]
pub enum HelloDisposition {
    /// Drop the stream unanswered.
    Drop,
    /// Buffer it until the peer's identity key is known.
    Buffer,
    /// Run the accept gate now.
    Check,
}

/// A hello from a peer off the allowlist is dropped before buffering; a
/// hello whose sender's key is not known yet is buffered while the peer
/// has fewer than the per-peer cap buffered, and dropped beyond it.
pub fn hello_disposition(allowlisted: bool, key_known: bool, buffered: usize) -> (res: HelloDisposition)
    ensures
        !allowlisted ==> res == HelloDisposition::Drop,
        allowlisted && key_known ==> res == HelloDisposition::Check,
        allowlisted && !key_known ==> res == if buffered < MAX_PENDING_HELLOS_PER_PEER {
            HelloDisposition::Buffer
        } else {
            HelloDisposition::Drop
        },
{
    if !allowlisted {
        return HelloDisposition::Drop;
    }
    if key_known {
        return HelloDisposition::Check;
    }
    if pending_hello_capacity_available(buffered) {
        HelloDisposition::Buffer
    } else {
        HelloDisposition::Drop
    }
}

// ── Session completion ───────────────────────────────────────────────────

/// What the node does once a handshake step completed for a peer.
#[derive(Debug, Clone, Copy, PartialEq, Eq, Structural)]
pub enum Completion {
    /// Not yet: keep waiting.
    Wait,
    /// The peer already has a session: hand it to the pending dial,
    /// closing the dial's connection when it is a surplus one.
    ReuseExisting { close_surplus: bool },
    /// Create the session now.
    Create,
}

/// The handshake progress with a peer.
#[derive(Debug, Clone, Copy, PartialEq, Eq, Structural)]
pub struct HandshakeFlags {
    /// The peer acknowledged our hello.
    pub hello_acked: bool,
    /// We accepted the peer's hello.
    pub remote_accepted: bool,
    /// The peer's manifest is known.
    pub has_manifest: bool,
}

/// The completion rule: the dial's peer needs both hellos confirmed, any
/// other peer needs ours accepted; an existing session is handed to the
/// pending dial once the token gate is satisfied (closing the dial's own
/// connection only when it is not the session's); otherwise a session is
/// created once the peer's manifest is known.
pub open spec fn completion_outcome(handshake: Option<HandshakeFlags>, dial_peer: bool, has_session: bool,
    token_gate_ok: bool, dial_connection_is_session_connection: Option<bool>) -> Completion
{
    match handshake {
        None => Completion::Wait,
        Some(h) => if (dial_peer && !(h.hello_acked && h.remote_accepted)) || (!dial_peer && !h.remote_accepted) {
            Completion::Wait
        } else if has_session {
            if dial_peer && token_gate_ok {
                Completion::ReuseExisting {
                    close_surplus: match dial_connection_is_session_connection {
                        Some(same) => !same,
                        None => false,
                    },
                }
            } else {
                Completion::Wait
            }
        } else if !h.has_manifest {
            Completion::Wait
        } else {
            Completion::Create
        },
    }
}

/// Decides what a completed handshake step leads to (see
/// `completion_outcome`). `dial_connection_is_session_connection` is
/// `None` when the pending dial has no connection of its own.
pub fn session_completion(handshake: Option<HandshakeFlags>, dial_peer: bool, has_session: bool,
    token_gate_ok: bool, dial_connection_is_session_connection: Option<bool>) -> (res: Completion)
    ensures
        res == completion_outcome(handshake, dial_peer, has_session, token_gate_ok,
            dial_connection_is_session_connection),
{
    let h = match handshake {
        None => return Completion::Wait,
        Some(h) => h,
    };
    if (dial_peer && !(h.hello_acked && h.remote_accepted)) || (!dial_peer && !h.remote_accepted) {
        return Completion::Wait;
    }
    if has_session {
        if dial_peer && token_gate_ok {
            let close_surplus = match dial_connection_is_session_connection {
                Some(same) => !same,
                None => false,
            };
            return Completion::ReuseExisting { close_surplus };
        }
        return Completion::Wait;
    }
    if !h.has_manifest {
        return Completion::Wait;
    }
    Completion::Create
}

/// A failure belongs to the pending dial only when it names the dial's
/// own connection, or (with no connection) the dial's peer; an anonymous
/// failure never does.
pub fn pending_dial_matches(dial_connection: Option<u64>, dial_peer: Option<&str>,
    connection: Option<u64>, peer: Option<&str>) -> (res: bool)
    ensures
        res == match (connection, peer) {
            (Some(c), _) => dial_connection == Some(c),
            (None, Some(p)) => match dial_peer {
                Some(d) => d@ == p@,
                None => false,
            },
            (None, None) => false,
        },
{
    match (connection, peer) {
        (Some(c), _) => match dial_connection {
            Some(d) => d == c,
            None => false,
        },
        (None, Some(p)) => match dial_peer {
            Some(d) => str_eq(d, p),
            None => false,
        },
        (None, None) => false,
    }
}

/// The token gate holds for a session when no token policy is active,
/// else when the session completed the challenge.
pub fn token_gate_satisfied(policy_active: bool, session_token_ok: Option<bool>) -> (res: bool)
    ensures
        res == (!policy_active || session_token_ok == Some(true)),
{
    if !policy_active {
        return true;
    }
    match session_token_ok {
        Some(ok) => ok,
        None => false,
    }
}

// ── Connection events and dials ──────────────────────────────────────────

/// What the node does when a connection is established.
#[derive(Debug, Clone, Copy, PartialEq, Eq, Structural)]
pub struct EstablishedAction {
    /// Attribute the connection to the pending dial.
    pub bind_dial: bool,
    /// Refuse the peer: fail the dial it belongs to and close the
    /// connection.
    pub disconnect: bool,
    /// Send our hello.
    pub send_hello: bool,
}

/// An outbound connection binds the pending dial that has none yet; the
/// allowlist is checked as soon as the authenticated peer is known — an
/// unlisted peer is disconnected and gets no hello.
pub fn on_connection_established(dial_pending_unbound: bool, outbound: bool, allowlisted: bool)
    -> (res: EstablishedAction)
    ensures
        res.bind_dial == (dial_pending_unbound && outbound),
        res.disconnect == !allowlisted,
        res.send_hello == allowlisted,
{
    EstablishedAction {
        bind_dial: dial_pending_unbound && outbound,
        disconnect: !allowlisted,
        send_hello: allowlisted,
    }
}

/// A closed connection fails the dial it carried; the peer's keys,
/// buffered hellos, handshake, session and pending invokes are torn down
/// only when its last connection closed.
pub fn on_connection_closed(remaining_connections: u32) -> (res: bool)
    ensures
        res == (remaining_connections == 0),
{
    remaining_connections == 0
}

/// How a connect request starts.
#[derive(Debug, Clone, Copy, PartialEq, Eq, Structural)]
pub enum ConnectStart {
    /// A dial is already in flight: refused.
    Busy,
    /// A live session already serves this address: handed back.
    Reuse,
    /// Dial.
    Dial,
}

/// Dials are single-flight; connecting to the listen address of a live
/// session whose token gate holds completes with that session.
pub fn connect_start(dial_pending: bool, live_session_at_address: bool) -> (res: ConnectStart)
    ensures
        dial_pending ==> res == ConnectStart::Busy,
        !dial_pending && live_session_at_address ==> res == ConnectStart::Reuse,
        !dial_pending && !live_session_at_address ==> res == ConnectStart::Dial,
{
    if dial_pending {
        ConnectStart::Busy
    } else if live_session_at_address {
        ConnectStart::Reuse
    } else {
        ConnectStart::Dial
    }
}

/// The refusal of a second concurrent connect.
pub fn connect_busy_message() -> (res: String)
    ensures
        res@ == "a connect is already in progress (spike: single-flight dials)"@,
{
    proof {
        reveal_strlit("a connect is already in progress (spike: single-flight dials)");
    }
    owned("a connect is already in progress (spike: single-flight dials)")
}

// ── Inbound invoke accept path ───────────────────────────────────────────

/// The answer to an inbound invoke at some step.
#[derive(Debug)]
pub enum InvokeAnswer {
    /// Answer the error branch with code, message and details.
    Reject { code: String, message: String, details: Vec<(String, JsonValue)> },
    /// Continue with the next step.
    Proceed,
}

/// The content of an answer: `None` to proceed.
pub open spec fn answer_view(a: InvokeAnswer) -> Option<(Seq<char>, Seq<char>, Seq<(Seq<char>, JsonView)>)> {
    match a {
        InvokeAnswer::Reject { code, message, details } => Some((code@, message@, fields_view(details@))),
        InvokeAnswer::Proceed => None,
    }
}

/// A rejection without details.
pub open spec fn plain_reject(code: Seq<char>, message: Seq<char>) -> Option<(Seq<char>, Seq<char>, Seq<(Seq<char>, JsonView)>)> {
    Some((code, message, Seq::empty()))
}

fn reject(code: &str, message: String) -> (res: InvokeAnswer)
    ensures
        answer_view(res) == plain_reject(code@, message@),
{
    let details: Vec<(String, JsonValue)> = Vec::new();
    assert(fields_view(details@) =~= Seq::<(Seq<char>, JsonView)>::empty());
    InvokeAnswer::Reject { code: owned(code), message, details }
}

/// The first checks of an inbound invoke: the wire range of its
/// `sequence`, then a session with the sending peer.
pub fn invoke_precheck(peer_id: &str, sequence: i64, has_session: bool) -> (res: InvokeAnswer)
    ensures
        !(0 <= sequence <= MAX_SEQUENCE) ==> answer_view(res) == plain_reject("invalid_sequence"@,
            "sequence "@ + int_text(sequence as int) + " is outside the wire range"@),
        0 <= sequence <= MAX_SEQUENCE && !has_session ==> answer_view(res) == plain_reject("session_not_found"@,
            "no session with "@ + peer_id@ + " for this request"@),
        0 <= sequence <= MAX_SEQUENCE && has_session ==> res is Proceed,
{
    proof {
        reveal_strlit("invalid_sequence");
        reveal_strlit("sequence ");
        reveal_strlit(" is outside the wire range");
        reveal_strlit("session_not_found");
        reveal_strlit("no session with ");
        reveal_strlit(" for this request");
    }
    if !inbound_sequence_valid(sequence) {
        return reject("invalid_sequence", concat3("sequence ", i64_to_decimal(sequence).as_str(), " is outside the wire range"));
    }
    if !has_session {
        return reject("session_not_found", concat3("no session with ", peer_id, " for this request"));
    }
    InvokeAnswer::Proceed
}

/// The verdict on an inbound invoke's envelope authenticator.
#[derive(Debug)]
pub enum NodeVerify {
    /// The session peer's hello key is not available.
    KeyUnavailable,
    /// The signature verified.
    Passed,
    /// The signature did not verify: the wire kind (none for a local
    /// failure) and the error's text.
    Rejected { kind: Option<EnvelopeAuthErrorKind>, message: String },
}

/// `sequence {actual} is not the next expected inbound sequence {expected}
/// (replay or out-of-order)`.
pub open spec fn out_of_order_message(actual: i64, expected: u64) -> Seq<char> {
    "sequence "@ + int_text(actual as int) + " is not the next expected inbound sequence "@
        + decimal_digits(expected as nat) + " (replay or out-of-order)"@
}

/// The details of an `auth_failed` answer: the wire kind, when there is one.
pub open spec fn auth_details(kind: Option<EnvelopeAuthErrorKind>) -> Seq<(Seq<char>, JsonView)> {
    match kind {
        Some(k) => seq![("kind"@, JsonView::Str(error_kind_label(envelope_auth_kind(k))))],
        None => Seq::empty(),
    }
}

/// Admits an inbound invoke of a session: the authenticator is checked
/// before the sequence, and the inbound expectation advances only when the
/// authenticator passed on the next expected position.
pub fn invoke_admit(inbound: &mut InboundSequence, sequence: i64, verify: NodeVerify) -> (res: InvokeAnswer)
    ensures
        match verify {
            NodeVerify::KeyUnavailable => answer_view(res) == plain_reject("auth_failed"@,
                "session peer hello key is unavailable for envelope verification"@),
            NodeVerify::Rejected { kind, message } => answer_view(res) == Some(("auth_failed"@, message@,
                auth_details(kind))),
            NodeVerify::Passed => if inbound_accepts(old(inbound).expected(), sequence) {
                res is Proceed
            } else {
                answer_view(res) == plain_reject("invalid_sequence"@,
                    out_of_order_message(sequence, old(inbound).expected()))
            },
        },
        verify is Passed && inbound_accepts(old(inbound).expected(), sequence) ==>
            final(inbound).expected() == old(inbound).expected() + 1,
        !(verify is Passed && inbound_accepts(old(inbound).expected(), sequence)) ==>
            final(inbound).expected() == old(inbound).expected(),
{
    proof {
        reveal_strlit("auth_failed");
        reveal_strlit("session peer hello key is unavailable for envelope verification");
        reveal_strlit("invalid_sequence");
        reveal_strlit("kind");
    }
    match verify {
        NodeVerify::KeyUnavailable => {
            reject("auth_failed", owned("session peer hello key is unavailable for envelope verification"))
        },
        NodeVerify::Rejected { kind, message } => {
            let mut details: Vec<(String, JsonValue)> = Vec::new();
            proof {
                assert(fields_view(Seq::<(String, JsonValue)>::empty()) =~= Seq::<(Seq<char>, JsonView)>::empty());
            }
            match kind {
                Some(k) => {
                    let entry = (owned("kind"), JsonValue::Str(owned(k.as_str())));
                    proof {
                        lemma_fields_view_push(details@, entry);
                    }
                    details.push(entry);
                    assert(fields_view(details@) =~= auth_details(kind));
                },
                None => {
                    assert(fields_view(details@) =~= auth_details(kind));
                },
            }
            InvokeAnswer::Reject { code: owned("auth_failed"), message, details }
        },
        NodeVerify::Passed => {
            let expected = inbound.next_expected();
            if inbound.peek(sequence).is_err() {
                let mut m = concat3("sequence ", i64_to_decimal(sequence).as_str(),
                    " is not the next expected inbound sequence ");
                m.append(u64_to_decimal(expected).as_str());
                m.append(" (replay or out-of-order)");
                proof {
                    reveal_strlit("sequence ");
                    reveal_strlit(" is not the next expected inbound sequence ");
                    reveal_strlit(" (replay or out-of-order)");
                }
                return reject("invalid_sequence", m);
            }
            let _ = inbound.advance(sequence);
            InvokeAnswer::Proceed
        },
    }
}

/// The capability an op requires on the node: the core table, else the
/// product-configured requirement (the first entry for the op).
pub open spec fn node_requirement(op: Seq<char>, requirements: Seq<(String, String)>) -> Option<Seq<char>> {
    match core_required_capability(op) {
        Some(c) => Some(c),
        None => configured_requirement(requirements, op),
    }
}

/// The first configured requirement of `op`.
pub open spec fn configured_requirement(requirements: Seq<(String, String)>, op: Seq<char>) -> Option<Seq<char>>
    decreases requirements.len(),
{
    if requirements.len() == 0 {
        None
    } else if requirements[0].0@ == op {
        Some(requirements[0].1@)
    } else {
        configured_requirement(requirements.drop_first(), op)
    }
}

/// The capability `op` requires on the node (see `node_requirement`).
pub fn node_required_capability(op: &str, requirements: &Vec<(String, String)>) -> (res: Option<String>)
    ensures
        match node_requirement(op@, requirements@) {
            Some(c) => res is Some && res->0@ == c,
            None => res is None,
        },
{
    match required_capability_of(op) {
        Some(c) => return Some(c),
        None => {},
    }
    let mut i: usize = 0;
    assert(requirements@.subrange(0, requirements@.len() as int) =~= requirements@);
    while i < requirements.len()
        invariant
            core_required_capability(op@) is None,
            i <= requirements@.len(),
            configured_requirement(requirements@, op@)
                == configured_requirement(requirements@.subrange(i as int, requirements@.len() as int), op@),
        decreases requirements@.len() - i,
    {
        let ghost rest = requirements@.subrange(i as int, requirements@.len() as int);
        assert(rest.drop_first() =~= requirements@.subrange(i + 1, requirements@.len() as int));
        assert(rest[0] == requirements@[i as int]);
        if str_eq(requirements[i].0.as_str(), op) {
            return Some(requirements[i].1.clone());
        }
        i = i + 1;
    }
    assert(requirements@.subrange(i as int, requirements@.len() as int) =~= Seq::<(String, String)>::empty());
    None
}

/// The capability-token gate of an inbound invoke: a carried `auth` proof
/// is validated on every invoke (its verdict given as `auth`, the token's
/// grant or the validation error); without one, an active policy requires
/// a token-authorized session; the effective grant is returned.
pub fn invoke_token_gate(auth: Option<Result<Vec<String>, CoreError>>, policy_active: bool,
    session_token_ok: bool, session_grant: Option<Vec<String>>) -> (res: Result<Option<Vec<String>>, String>)
    ensures
        match auth {
            Some(Ok(grant)) => res == Ok::<Option<Vec<String>>, String>(Some(grant)),
            Some(Err(e)) => res is Err && res->Err_0@ == "invalid capability token: "@ + core_error_text(e),
            None => if policy_active && !session_token_ok {
                res is Err && res->Err_0@ == "capability token required but this session is not token-authorized"@
            } else {
                res == Ok::<Option<Vec<String>>, String>(session_grant)
            },
        },
{
    match auth {
        Some(Ok(grant)) => Ok(Some(grant)),
        Some(Err(e)) => {
            proof {
                reveal_strlit("invalid capability token: ");
            }
            let text = e.describe();
            Err(concat2("invalid capability token: ", text.as_str()))
        },
        None => {
            if policy_active && !session_token_ok {
                proof {
                    reveal_strlit("capability token required but this session is not token-authorized");
                }
                Err(owned("capability token required but this session is not token-authorized"))
            } else {
                Ok(session_grant)
            }
        },
    }
}

/// `op {op} requires a capability that is not granted in this session`.
pub open spec fn not_granted_message(op: Seq<char>) -> Seq<char> {
    "op "@ + op + " requires a capability that is not granted in this session"@
}

/// Authorizes an admitted invoke, in order: the token gate's verdict, a
/// configured handler, then the op's requirement against the negotiated
/// capabilities and (when a token grant is in effect) the grant —
/// `token_allows` is whether the grant authorizes that requirement.
pub fn invoke_authorize(op: &str, negotiated: &Vec<String>, requirements: &Vec<(String, String)>,
    token_gate: &Result<Option<Vec<String>>, String>, token_allows: bool, handler_configured: bool)
    -> (res: InvokeAnswer)
    ensures
        match token_gate {
            Err(m) => answer_view(res) == plain_reject("auth_failed"@, m@),
            Ok(grant) => if !handler_configured {
                answer_view(res) == plain_reject("op_unsupported"@, "no invoke handler configured on this node"@)
            } else if !(match node_requirement(op@, requirements@) {
                Some(r) => seq_has(negotiated@, r),
                None => false,
            }) || (grant is Some && !token_allows) {
                answer_view(res) == plain_reject("op_unsupported"@, not_granted_message(op@))
            } else {
                res is Proceed
            },
        },
{
    proof {
        reveal_strlit("auth_failed");
        reveal_strlit("op_unsupported");
        reveal_strlit("no invoke handler configured on this node");
        reveal_strlit("op ");
        reveal_strlit(" requires a capability that is not granted in this session");
    }
    let grant_present = match token_gate {
        Err(m) => return reject("auth_failed", m.clone()),
        Ok(grant) => grant.is_some(),
    };
    if !handler_configured {
        return reject("op_unsupported", owned("no invoke handler configured on this node"));
    }
    let negotiated_allowed = match node_required_capability(op, requirements) {
        Some(r) => contains_str(negotiated, r.as_str()),
        None => false,
    };
    if !negotiated_allowed || (grant_present && !token_allows) {
        return reject("op_unsupported", concat3("op ", op, " requires a capability that is not granted in this session"));
    }
    InvokeAnswer::Proceed
}

// ── Clock ────────────────────────────────────────────────────────────────

/// `std::time::SystemTime`, carried through opaque.
#[verifier::external_type_specification]
#[verifier::external_body]
pub struct ExSystemTime(std::time::SystemTime);

/// The system clock's current reading (`SystemTime::now`). Nothing is
/// stated of it: it depends on the time.
#[verifier::external_body]
fn system_time_now() -> (res: std::time::SystemTime) {
    std::time::SystemTime::now()
}

/// The time elapsed from the Unix epoch to `t`
/// (`SystemTime::duration_since(UNIX_EPOCH)`), `None` where `t` lies
/// before the epoch. Nothing is stated of the duration.
#[verifier::external_body]
fn elapsed_since_epoch(t: &std::time::SystemTime) -> (res: Option<std::time::Duration>) {
    match t.duration_since(std::time::UNIX_EPOCH) {
        Ok(elapsed) => Some(elapsed),
        Err(_) => None,
    }
}

/// Whole seconds of a duration (`Duration::as_secs`). Nothing is stated:
/// the duration is opaque here.
#[verifier::external_body]
fn whole_seconds(d: &std::time::Duration) -> (res: u64) {
    d.as_secs()
}

/// The Unix time of a clock reading in whole seconds since the epoch:
/// 0 for a reading before the epoch (`None`).
pub fn clock_seconds(reading: Option<u64>) -> (res: u64)
    ensures
        res == match reading {
            Some(s) => s,
            None => 0,
        },
{
    match reading {
        Some(s) => s,
        None => 0,
    }
}

/// Current Unix time in seconds, for capability-token expiry checks; 0
/// when the clock reads before the epoch (`clock_seconds` of the reading).
pub fn unix_now_seconds() -> (res: u64) {
    let now = system_time_now();
    let reading = match elapsed_since_epoch(&now) {
        Some(elapsed) => Some(whole_seconds(&elapsed)),
        None => None,
    };
    clock_seconds(reading)
}

} // verus!
