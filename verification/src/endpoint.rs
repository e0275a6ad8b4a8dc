//! One end of an established connect session, as both the dialing adapter
//! and the responder keep it: the lifecycle state, the bound session (id,
//! peer, negotiated capabilities, outbound and inbound sequence counters)
//! and the table of invokes awaiting their correlated response.
//!
//! Every transition is a pure function of the endpoint's view, so the
//! session laws (close is idempotent, a closed endpoint sends nothing,
//! outbound sequences are handed out consecutively, the inbound counter
//! only moves after the envelope authenticator passed) are stated and
//! proved over those functions.

use vstd::prelude::*;
use crate::text::{owned, concat2, concat3, str_eq, int_text, i64_to_decimal};
use crate::session::{Correlation, OutboundSequence, InboundSequence, inbound_accepts, MAX_SEQUENCE};
use crate::lifecycle::{RemoteAdapterState, state_label};
use crate::adapter::{RemoteError, RemoteErrorKind, VerifyOutcome, EnvelopeAuthErrorKind, envelope_auth_kind,
    error_kind_label};
use crate::json::{JsonValue, JsonView, json_get, json_view, fields_view, lemma_fields_view_push};
use crate::json_text::{json_text, json_text_of};
use crate::manifest::{PeerManifest, ManifestView, manifest_view, clone_manifest, opt_str};
use crate::registry::{RoutedRemoteAdapter, opt_manifest_view};

verus! {

// ── Views ────────────────────────────────────────────────────────────────

/// The content of a correlation.
pub struct CorrelationView {
    pub session_id: Seq<char>,
    pub sequence: i64,
    pub request_id: Seq<char>,
}

/// The content of a correlation.
pub open spec fn correlation_view(c: Correlation) -> CorrelationView {
    CorrelationView { session_id: c.session_id@, sequence: c.sequence, request_id: c.request_id@ }
}

/// Copies a correlation.
pub fn clone_correlation(c: &Correlation) -> (res: Correlation)
    ensures
        correlation_view(res) == correlation_view(*c),
{
    Correlation { session_id: c.session_id.clone(), sequence: c.sequence, request_id: c.request_id.clone() }
}

/// The session an endpoint is bound to once the handshake succeeded.
pub struct SessionBinding {
    /// The session id (assigned by the responder).
    pub session_id: String,
    /// The verified remote peer id.
    pub peer_id: String,
    /// The negotiated capabilities: the dispatch gate for inbound invokes.
    pub negotiated: Vec<String>,
    /// Outbound invoke sequence counter.
    pub outbound: OutboundSequence,
    /// Inbound invoke sequence expectation.
    pub inbound: InboundSequence,
}

/// The content of a session binding.
pub struct BindingView {
    pub session_id: Seq<char>,
    pub peer_id: Seq<char>,
    pub negotiated: Seq<String>,
    pub next_outbound: u64,
    pub expected_inbound: u64,
}

/// The content of a session binding.
pub open spec fn binding_view(b: SessionBinding) -> BindingView {
    BindingView {
        session_id: b.session_id@,
        peer_id: b.peer_id@,
        negotiated: b.negotiated@,
        next_outbound: b.outbound.next_value(),
        expected_inbound: b.inbound.expected(),
    }
}

/// An invoke awaiting its response: the request id it is filed under and
/// the echo fields the response must carry.
pub struct PendingInvoke {
    pub request_id: String,
    pub correlation: Correlation,
}

/// A waiter: request id and expected echo fields.
pub type WaiterView = (Seq<char>, CorrelationView);

/// The content of a waiter.
pub open spec fn waiter_view(p: PendingInvoke) -> WaiterView {
    (p.request_id@, correlation_view(p.correlation))
}

/// The content of an endpoint.
pub struct EndpointView {
    pub state: RemoteAdapterState,
    pub binding: Option<BindingView>,
    pub waiters: Seq<WaiterView>,
}

/// The request ids of a waiter table.
pub open spec fn waiter_ids(w: Seq<WaiterView>) -> Seq<Seq<char>> {
    w.map_values(|e: WaiterView| e.0)
}

/// Request ids are pairwise distinct.
pub open spec fn distinct_ids(ids: Seq<Seq<char>>) -> bool {
    forall|i: int, j: int| 0 <= i < ids.len() && 0 <= j < ids.len() && i != j ==> ids[i] != ids[j]
}

// ── Transitions, as functions of the view ────────────────────────────────

/// The message a waiter settled by a close carries.
pub open spec fn closed_message(reason: Seq<char>) -> Seq<char> {
    "connect session closed: "@ + reason
}

/// The endpoint after a close: `Closed`, no waiters, binding kept. A
/// closed endpoint is left as it is.
pub open spec fn after_close(e: EndpointView) -> EndpointView {
    if e.state == RemoteAdapterState::Closed {
        e
    } else {
        EndpointView { state: RemoteAdapterState::Closed, binding: e.binding, waiters: Seq::empty() }
    }
}

/// A settlement handed to a waiter: request id, failure class, message.
pub type SettlementView = (Seq<char>, RemoteErrorKind, Seq<char>);

/// The waiters a close settles, in table order, each with
/// `session_closed` and the close message; none when already closed.
pub open spec fn close_settlements(e: EndpointView, reason: Seq<char>) -> Seq<SettlementView> {
    if e.state == RemoteAdapterState::Closed {
        Seq::empty()
    } else {
        e.waiters.map_values(|w: WaiterView| (w.0, RemoteErrorKind::SessionClosed, closed_message(reason)))
    }
}

/// The content of a list of settlements.
pub open spec fn settlements_view(s: Seq<(String, RemoteError)>) -> Seq<SettlementView> {
    s.map_values(|x: (String, RemoteError)| (x.0@, x.1.kind, x.1.message@))
}

/// The endpoint is in `Established` with a bound session.
pub open spec fn is_live(e: EndpointView) -> bool {
    e.state == RemoteAdapterState::Established && e.binding is Some
}

/// The refusal message of an invoke on an endpoint that is not live.
pub open spec fn not_established_message(state: RemoteAdapterState) -> Seq<char> {
    "connect session is not established (state "@ + state_label(state) + ")"@
}

/// The refusal message of an invoke on an exhausted outbound counter.
pub open spec fn exhausted_message() -> Seq<char> {
    "outbound sequence space exhausted — reopen session"@
}

/// The close reason recorded when the outbound counter is exhausted.
pub open spec fn exhausted_reason() -> Seq<char> {
    "outbound sequence exhausted"@
}

/// The outcome of asking for an outbound sequence.
pub enum GrantView {
    /// The invoke may be sent with this session id and sequence.
    Granted(Seq<char>, u64),
    /// The invoke fails with this class and message; the listed waiters
    /// were settled by the close it caused.
    Refused(RemoteErrorKind, Seq<char>, Seq<SettlementView>),
}

/// Allocation on a live endpoint (`binding` present).
pub open spec fn allocation_outcome(e: EndpointView) -> GrantView
    recommends
        e.binding is Some,
{
    let b = e.binding->0;
    if b.next_outbound <= MAX_SEQUENCE {
        GrantView::Granted(b.session_id, b.next_outbound)
    } else {
        GrantView::Refused(RemoteErrorKind::SequenceExhausted, exhausted_message(),
            close_settlements(e, exhausted_reason()))
    }
}

/// The endpoint after an allocation (`binding` present).
pub open spec fn after_allocation(e: EndpointView) -> EndpointView
    recommends
        e.binding is Some,
{
    let b = e.binding->0;
    if b.next_outbound <= MAX_SEQUENCE {
        EndpointView {
            binding: Some(BindingView { next_outbound: (b.next_outbound + 1) as u64, ..b }),
            ..e
        }
    } else {
        after_close(e)
    }
}

/// The outcome of `grant_outbound`: refused unless live, else an
/// allocation.
pub open spec fn grant_outcome(e: EndpointView) -> GrantView {
    if !is_live(e) {
        GrantView::Refused(RemoteErrorKind::SessionClosed, not_established_message(e.state), Seq::empty())
    } else {
        allocation_outcome(e)
    }
}

/// The endpoint after `grant_outbound`.
pub open spec fn after_grant(e: EndpointView) -> EndpointView {
    if !is_live(e) {
        e
    } else {
        after_allocation(e)
    }
}

/// `new` is `old` with waiter `(id, c)` filed: replacing the waiter under
/// `id` in place when there is one, appended otherwise.
pub open spec fn waiter_filed(old: Seq<WaiterView>, new: Seq<WaiterView>, id: Seq<char>, c: CorrelationView) -> bool {
    &&& waiter_ids(old).contains(id) ==> exists|p: int| 0 <= p < old.len()
        && #[trigger] old[p].0 == id && new == old.update(p, (id, c))
    &&& !waiter_ids(old).contains(id) ==> new == old.push((id, c))
}

/// `new` is `old` with the waiter under `id` taken out, `found` being its
/// correlation; unchanged and `None` when there is none.
pub open spec fn waiter_taken(old: Seq<WaiterView>, new: Seq<WaiterView>, id: Seq<char>, found: Option<CorrelationView>) -> bool {
    &&& waiter_ids(old).contains(id) ==> exists|p: int| 0 <= p < old.len()
        && #[trigger] old[p].0 == id && new == old.remove(p) && found == Some(old[p].1)
    &&& !waiter_ids(old).contains(id) ==> new == old && found is None
}

// ── The inbound gate: sequence peek, authenticator, advance ───────────────

/// The denial message for an inbound `sequence` (given as text) that is
/// not the next expected one.
pub open spec fn invalid_sequence_message(text: Seq<char>) -> Seq<char> {
    "inbound sequence "@ + text + " is not the next expected"@
}

/// The outcome of the first admission step.
pub enum GateStepView {
    /// No bound session, or no `sequence`: ignored, nothing answered.
    Stray,
    /// Answer the error branch with code, message and details.
    Denied(Seq<char>, Seq<char>, Option<Seq<(Seq<char>, JsonView)>>),
    /// The position is next: verify the authenticator of this request
    /// against the bound session id.
    Verify(i64, Seq<char>),
}

/// The first admission step on an inbound request: the wire position is
/// checked without consuming it.
pub open spec fn gate_peek_outcome(e: EndpointView, doc: JsonValue) -> GateStepView {
    match e.binding {
        None => GateStepView::Stray,
        Some(b) => match json_get(doc, "sequence"@) {
            None => GateStepView::Stray,
            Some(v) => match v {
                JsonValue::Int(n) => if inbound_accepts(b.expected_inbound, n) {
                    GateStepView::Verify(n, b.session_id)
                } else {
                    GateStepView::Denied("invalid_sequence"@, invalid_sequence_message(int_text(n as int)), None)
                },
                _ => GateStepView::Denied("invalid_sequence"@, invalid_sequence_message(json_text(v)), None),
            },
        },
    }
}

/// The content of an authenticator result.
pub enum VerifyView {
    Passed,
    Rejected(EnvelopeAuthErrorKind, Seq<char>),
    LocalFailure(Seq<char>),
}

/// The content of an authenticator result.
pub open spec fn verify_view(v: VerifyOutcome) -> VerifyView {
    match v {
        VerifyOutcome::Passed => VerifyView::Passed,
        VerifyOutcome::Rejected(kind, m) => VerifyView::Rejected(kind, m@),
        VerifyOutcome::LocalFailure(m) => VerifyView::LocalFailure(m@),
    }
}

/// The outcome of the second admission step.
pub enum GateResultView {
    /// No bound session: ignored.
    Stray,
    /// Answer the error branch with code, message and details.
    Denied(Seq<char>, Seq<char>, Option<Seq<(Seq<char>, JsonView)>>),
    /// The request may be dispatched.
    Dispatch,
}

/// The details of an `auth_failed` answer: the locked kind label.
pub open spec fn auth_failed_details(kind: EnvelopeAuthErrorKind) -> Seq<(Seq<char>, JsonView)> {
    seq![("kind"@, JsonView::Str(error_kind_label(envelope_auth_kind(kind))))]
}

/// The second admission step, given the authenticator result for the
/// request at `sequence`: a rejected authenticator is answered
/// `auth_failed`, a local failure fails serving, and only a passed one
/// consumes the position (a position that is no longer next is denied).
pub open spec fn gate_commit_outcome(e: EndpointView, sequence: i64, verify: VerifyView)
    -> Result<GateResultView, (RemoteErrorKind, Seq<char>)>
{
    match e.binding {
        None => Ok(GateResultView::Stray),
        Some(b) => match verify {
            VerifyView::Rejected(kind, m) => Ok(GateResultView::Denied("auth_failed"@, m, Some(auth_failed_details(kind)))),
            VerifyView::LocalFailure(m) => Err((RemoteErrorKind::EnvelopeAuthInvalid, m)),
            VerifyView::Passed => if inbound_accepts(b.expected_inbound, sequence) {
                Ok(GateResultView::Dispatch)
            } else {
                Ok(GateResultView::Denied("invalid_sequence"@, invalid_sequence_message(int_text(sequence as int)), None))
            },
        },
    }
}

/// The endpoint after the second admission step: the inbound expectation
/// moves by one exactly when the authenticator passed on the next
/// position.
pub open spec fn after_gate_commit(e: EndpointView, sequence: i64, verify: VerifyView) -> EndpointView {
    match e.binding {
        Some(b) => if verify == VerifyView::Passed && inbound_accepts(b.expected_inbound, sequence) {
            EndpointView {
                binding: Some(BindingView { expected_inbound: (b.expected_inbound + 1) as u64, ..b }),
                ..e
            }
        } else {
            e
        },
        None => e,
    }
}

/// The first admission step.
#[derive(Debug)]
pub enum GateStep {
    Stray,
    Denied { code: String, message: String, details: Option<Vec<(String, JsonValue)>> },
    Verify { sequence: i64, session_id: String },
}

/// The content of a details object.
pub open spec fn opt_fields_view(d: Option<Vec<(String, JsonValue)>>) -> Option<Seq<(Seq<char>, JsonView)>> {
    match d {
        Some(f) => Some(fields_view(f@)),
        None => None,
    }
}

/// The content of a first admission step.
pub open spec fn gate_step_view(g: GateStep) -> GateStepView {
    match g {
        GateStep::Stray => GateStepView::Stray,
        GateStep::Denied { code, message, details } => GateStepView::Denied(code@, message@, opt_fields_view(details)),
        GateStep::Verify { sequence, session_id } => GateStepView::Verify(sequence, session_id@),
    }
}

/// The second admission step.
#[derive(Debug)]
pub enum GateResult {
    Stray,
    Denied { code: String, message: String, details: Option<Vec<(String, JsonValue)>> },
    Dispatch,
}

/// The content of a second admission step.
pub open spec fn gate_result_view(r: Result<GateResult, RemoteError>) -> Result<GateResultView, (RemoteErrorKind, Seq<char>)> {
    match r {
        Ok(GateResult::Stray) => Ok(GateResultView::Stray),
        Ok(GateResult::Denied { code, message, details }) => Ok(GateResultView::Denied(code@, message@, opt_fields_view(details))),
        Ok(GateResult::Dispatch) => Ok(GateResultView::Dispatch),
        Err(e) => Err((e.kind, e.message@)),
    }
}

/// `inbound sequence {text} is not the next expected`.
fn invalid_sequence(text: String) -> (res: String)
    ensures
        res@ == invalid_sequence_message(text@),
{
    let res = concat3("inbound sequence ", text.as_str(), " is not the next expected");
    proof {
        reveal_strlit("inbound sequence ");
        reveal_strlit(" is not the next expected");
    }
    res
}

// ── The endpoint ─────────────────────────────────────────────────────────

/// One end of a connect session.
pub struct Endpoint {
    state: RemoteAdapterState,
    session: Option<SessionBinding>,
    pending: Vec<PendingInvoke>,
    /// The remote peer's manifest from its authenticated hello.
    remote_manifest: Option<PeerManifest>,
}

impl View for Endpoint {
    type V = EndpointView;

    closed spec fn view(&self) -> EndpointView {
        EndpointView {
            state: self.state,
            binding: match self.session {
                Some(b) => Some(binding_view(b)),
                None => None,
            },
            waiters: self.pending@.map_values(|p: PendingInvoke| waiter_view(p)),
        }
    }
}

impl Endpoint {
    #[verifier::type_invariant]
    spec fn inv(self) -> bool {
        distinct_ids(self.pending@.map_values(|p: PendingInvoke| p.request_id@))
    }

    /// A fresh endpoint: `Disconnected`, unbound, no waiters.
    pub fn new() -> (res: Self)
        ensures
            res@ == (EndpointView {
                state: RemoteAdapterState::Disconnected,
                binding: None,
                waiters: Seq::empty(),
            }),
    {
        let res = Endpoint {
            state: RemoteAdapterState::Disconnected,
            session: None,
            pending: Vec::new(),
            remote_manifest: None,
        };
        assert(res@.waiters =~= Seq::<WaiterView>::empty());
        res
    }

    /// The lifecycle state.
    pub fn state(&self) -> (res: RemoteAdapterState)
        ensures
            res == self@.state,
    {
        self.state
    }

    /// The bound session id, once bound.
    pub fn session_id(&self) -> (res: Option<String>)
        ensures
            match self@.binding {
                Some(b) => res is Some && res->0@ == b.session_id,
                None => res is None,
            },
    {
        match &self.session {
            Some(b) => Some(b.session_id.clone()),
            None => None,
        }
    }

    /// The verified remote peer id, once bound.
    pub fn remote_peer_id(&self) -> (res: Option<String>)
        ensures
            match self@.binding {
                Some(b) => res is Some && res->0@ == b.peer_id,
                None => res is None,
            },
    {
        match &self.session {
            Some(b) => Some(b.peer_id.clone()),
            None => None,
        }
    }

    /// The remote manifest this endpoint holds.
    pub closed spec fn manifest_held(&self) -> Option<ManifestView> {
        opt_manifest_view(self.remote_manifest)
    }

    /// Keeps the remote peer's manifest from its authenticated hello; the
    /// session itself is unchanged.
    pub fn keep_remote_manifest(&mut self, manifest: PeerManifest)
        ensures
            final(self)@ == old(self)@,
            final(self).manifest_held() == Some(manifest_view(manifest)),
    {
        proof {
            use_type_invariant(&*self);
        }
        self.remote_manifest = Some(manifest);
    }

    /// The remote peer's manifest, once kept.
    pub fn remote_manifest(&self) -> (res: Option<PeerManifest>)
        ensures
            opt_manifest_view(res) == self.manifest_held(),
    {
        match &self.remote_manifest {
            Some(m) => Some(clone_manifest(m)),
            None => None,
        }
    }

    /// The negotiated capabilities, once bound.
    pub fn negotiated(&self) -> (res: Option<&Vec<String>>)
        ensures
            match self@.binding {
                Some(b) => res is Some && res->0@ == b.negotiated,
                None => res is None,
            },
    {
        match &self.session {
            Some(b) => Some(&b.negotiated),
            None => None,
        }
    }

    /// Enters `Handshaking` (the dial or the responder handshake started).
    pub fn begin_handshake(&mut self)
        ensures
            final(self)@ == (EndpointView { state: RemoteAdapterState::Handshaking, ..old(self)@ }),
    {
        proof {
            use_type_invariant(&*self);
        }
        self.state = RemoteAdapterState::Handshaking;
    }

    /// Binds the authenticated session and enters `Established`.
    pub fn establish(&mut self, binding: SessionBinding)
        ensures
            final(self)@ == (EndpointView {
                state: RemoteAdapterState::Established,
                binding: Some(binding_view(binding)),
                ..old(self)@
            }),
    {
        proof {
            use_type_invariant(&*self);
        }
        self.session = Some(binding);
        self.state = RemoteAdapterState::Established;
    }

    /// Marks the endpoint `Established` without touching the binding.
    pub fn mark_established(&mut self)
        ensures
            final(self)@ == (EndpointView { state: RemoteAdapterState::Established, ..old(self)@ }),
    {
        proof {
            use_type_invariant(&*self);
        }
        self.state = RemoteAdapterState::Established;
    }

    /// Closes the endpoint: `Closed`, and every waiter is settled with
    /// `session_closed` and `connect session closed: {reason}`, returned
    /// in table order. Idempotent: closing a closed endpoint changes
    /// nothing and settles nobody.
    pub fn close_session(&mut self, reason: &str) -> (res: Vec<(String, RemoteError)>)
        ensures
            final(self)@ == after_close(old(self)@),
            settlements_view(res@) == close_settlements(old(self)@, reason@),
    {
        proof {
            use_type_invariant(&*self);
        }
        if self.state == RemoteAdapterState::Closed {
            let res: Vec<(String, RemoteError)> = Vec::new();
            assert(settlements_view(res@) =~= close_settlements(old(self)@, reason@));
            return res;
        }
        let ghost old_view = self@;
        self.state = RemoteAdapterState::Closed;
        let mut waiters: Vec<PendingInvoke> = Vec::new();
        std::mem::swap(&mut waiters, &mut self.pending);
        assert(self@.waiters =~= Seq::<WaiterView>::empty());
        let ghost w = waiters@.map_values(|p: PendingInvoke| waiter_view(p));
        assert(w == old_view.waiters);
        let mut res: Vec<(String, RemoteError)> = Vec::new();
        let mut i: usize = 0;
        while i < waiters.len()
            invariant
                i <= waiters@.len(),
                res@.len() == i,
                w == waiters@.map_values(|p: PendingInvoke| waiter_view(p)),
                settlements_view(res@) =~= w.subrange(0, i as int).map_values(
                    |x: WaiterView| (x.0, RemoteErrorKind::SessionClosed, closed_message(reason@))),
            decreases waiters@.len() - i,
        {
            let message = concat2("connect session closed: ", reason);
            proof {
                reveal_strlit("connect session closed: ");
            }
            let id = waiters[i].request_id.clone();
            let ghost before = res@;
            res.push((id, RemoteError::new(RemoteErrorKind::SessionClosed, message)));
            proof {
                assert(w[i as int].0 == waiters@[i as int].request_id@);
                assert(res@ == before.push(res@[i as int]));
                assert(settlements_view(res@) =~= settlements_view(before).push(settlements_view(res@)[i as int]));
                assert(w.subrange(0, i + 1) =~= w.subrange(0, i as int).push(w[i as int]));
            }
            i = i + 1;
        }
        assert(w.subrange(0, waiters@.len() as int) =~= w);
        res
    }

    /// Allocation on the bound session (the counter of a live or a
    /// closing endpoint).
    fn allocate_bound(&mut self) -> (res: OutboundGrant)
        requires
            old(self)@.binding is Some,
        ensures
            final(self)@ == after_allocation(old(self)@),
            grant_view(res) == allocation_outcome(old(self)@),
    {
        proof {
            use_type_invariant(&*self);
        }
        let mut session: Option<SessionBinding> = None;
        std::mem::swap(&mut session, &mut self.session);
        let mut binding = session.unwrap();
        let allocated = binding.outbound.allocate();
        let session_id = binding.session_id.clone();
        self.session = Some(binding);
        match allocated {
            Ok(sequence) => {
                proof {
                    let b = old(self)@.binding->0;
                    assert(self@ =~= after_allocation(old(self)@));
                }
                OutboundGrant::Granted { session_id, sequence }
            },
            Err(_) => {
                let settled = self.close_session("outbound sequence exhausted");
                proof {
                    reveal_strlit("outbound sequence exhausted");
                }
                let error = RemoteError::new(RemoteErrorKind::SequenceExhausted,
                    owned("outbound sequence space exhausted — reopen session"));
                proof {
                    reveal_strlit("outbound sequence space exhausted — reopen session");
                }
                OutboundGrant::Refused { error, settled }
            },
        }
    }

    /// The responder's first check of a reverse invoke: `Established`
    /// (else `connect session is not established (state {label})`), then a
    /// bound session (else `connect session is not established`); its
    /// session id. Nothing changes.
    pub fn check_established(&self) -> (res: Result<String, RemoteError>)
        ensures
            self@.state != RemoteAdapterState::Established ==> res is Err && res->Err_0.kind == RemoteErrorKind::SessionClosed
                && res->Err_0.message@ == not_established_message(self@.state),
            self@.state == RemoteAdapterState::Established && self@.binding is None ==> res is Err
                && res->Err_0.kind == RemoteErrorKind::SessionClosed
                && res->Err_0.message@ == "connect session is not established"@,
            is_live(self@) ==> res is Ok && res->Ok_0@ == self@.binding->0.session_id,
    {
        if self.state != RemoteAdapterState::Established {
            let label = self.state.as_str();
            proof {
                reveal_strlit("connect session is not established (state ");
                reveal_strlit(")");
            }
            return Err(RemoteError::new(RemoteErrorKind::SessionClosed,
                concat3("connect session is not established (state ", label, ")")));
        }
        match &self.session {
            Some(b) => Ok(b.session_id.clone()),
            None => {
                proof {
                    reveal_strlit("connect session is not established");
                }
                Err(RemoteError::new(RemoteErrorKind::SessionClosed, owned("connect session is not established")))
            },
        }
    }

    /// Allocation on the bound session whatever the lifecycle state (the
    /// responder allocates after its waiter was filed): unbound, refused
    /// with `connect session is not established`; otherwise as
    /// `allocation_outcome` — exhaustion closes the endpoint.
    pub fn allocate_outbound(&mut self) -> (res: OutboundGrant)
        ensures
            old(self)@.binding is None ==> final(self)@ == old(self)@ && grant_view(res) == GrantView::Refused(
                RemoteErrorKind::SessionClosed, "connect session is not established"@, Seq::empty()),
            old(self)@.binding is Some ==> final(self)@ == after_allocation(old(self)@)
                && grant_view(res) == allocation_outcome(old(self)@),
    {
        if self.session.is_none() {
            proof {
                reveal_strlit("connect session is not established");
            }
            let res = OutboundGrant::Refused {
                error: RemoteError::new(RemoteErrorKind::SessionClosed, owned("connect session is not established")),
                settled: Vec::new(),
            };
            proof {
                let v: Seq<(String, RemoteError)> = Seq::empty();
                assert(settlements_view(v) =~= Seq::<SettlementView>::empty());
            }
            return res;
        }
        self.allocate_bound()
    }

    /// Grants the next outbound sequence of a live endpoint (its session
    /// id and sequence). Not live: refused with `session_closed` and
    /// `connect session is not established (state {label})`, nothing
    /// changes. Exhausted counter: the endpoint closes (settling every
    /// waiter) and the invoke is refused with `sequence_exhausted` —
    /// sequences never wrap.
    pub fn grant_outbound(&mut self) -> (res: OutboundGrant)
        ensures
            final(self)@ == after_grant(old(self)@),
            grant_view(res) == grant_outcome(old(self)@),
    {
        if self.state != RemoteAdapterState::Established || self.session.is_none() {
            let label = self.state.as_str();
            let message = concat3("connect session is not established (state ", label, ")");
            proof {
                reveal_strlit("connect session is not established (state ");
                reveal_strlit(")");
            }
            let res = OutboundGrant::Refused {
                error: RemoteError::new(RemoteErrorKind::SessionClosed, message),
                settled: Vec::new(),
            };
            proof {
                let v: Seq<(String, RemoteError)> = Seq::empty();
                assert(settlements_view(v) =~= Seq::<SettlementView>::empty());
                assert(message@ =~= not_established_message(old(self)@.state));
            }
            return res;
        }
        self.allocate_bound()
    }

    /// The first admission step on an inbound request (see
    /// `gate_peek_outcome`); nothing changes.
    pub fn gate_peek(&self, doc: &JsonValue) -> (res: GateStep)
        ensures
            gate_step_view(res) == gate_peek_outcome(self@, *doc),
    {
        match &self.session {
            None => GateStep::Stray,
            Some(b) => match doc.get("sequence") {
                None => GateStep::Stray,
                Some(v) => match v {
                    JsonValue::Int(n) => {
                        if b.inbound.peek(*n).is_ok() {
                            GateStep::Verify { sequence: *n, session_id: b.session_id.clone() }
                        } else {
                            proof { reveal_strlit("invalid_sequence"); }
                            GateStep::Denied {
                                code: owned("invalid_sequence"),
                                message: invalid_sequence(i64_to_decimal(*n)),
                                details: None,
                            }
                        }
                    },
                    _ => {
                        proof { reveal_strlit("invalid_sequence"); }
                        GateStep::Denied {
                            code: owned("invalid_sequence"),
                            message: invalid_sequence(json_text_of(v)),
                            details: None,
                        }
                    },
                },
            },
        }
    }

    /// The second admission step (see `gate_commit_outcome` and
    /// `after_gate_commit`): the inbound counter advances only after the
    /// authenticator passed.
    pub fn gate_commit(&mut self, sequence: i64, verify: VerifyOutcome) -> (res: Result<GateResult, RemoteError>)
        ensures
            gate_result_view(res) == gate_commit_outcome(old(self)@, sequence, verify_view(verify)),
            final(self)@ == after_gate_commit(old(self)@, sequence, verify_view(verify)),
    {
        proof {
            use_type_invariant(&*self);
        }
        if self.session.is_none() {
            return Ok(GateResult::Stray);
        }
        match verify {
            VerifyOutcome::Rejected(kind, message) => {
                let mut details: Vec<(String, JsonValue)> = Vec::new();
                let entry = (owned("kind"), JsonValue::Str(owned(kind.as_str())));
                proof {
                    lemma_fields_view_push(details@, entry);
                    assert(fields_view(Seq::<(String, JsonValue)>::empty()) =~= Seq::<(Seq<char>, JsonView)>::empty());
                    reveal_strlit("kind");
                    reveal_strlit("auth_failed");
                }
                details.push(entry);
                assert(fields_view(details@) =~= auth_failed_details(kind));
                Ok(GateResult::Denied { code: owned("auth_failed"), message, details: Some(details) })
            },
            VerifyOutcome::LocalFailure(message) => {
                Err(RemoteError::new(RemoteErrorKind::EnvelopeAuthInvalid, message))
            },
            VerifyOutcome::Passed => {
                let mut session: Option<SessionBinding> = None;
                std::mem::swap(&mut session, &mut self.session);
                let mut binding = session.unwrap();
                let advanced = binding.inbound.advance(sequence);
                self.session = Some(binding);
                match advanced {
                    Ok(_) => {
                        assert(self@ =~= after_gate_commit(old(self)@, sequence, verify_view(verify)));
                        Ok(GateResult::Dispatch)
                    },
                    Err(_) => {
                        proof { reveal_strlit("invalid_sequence"); }
                        Ok(GateResult::Denied {
                            code: owned("invalid_sequence"),
                            message: invalid_sequence(i64_to_decimal(sequence)),
                            details: None,
                        })
                    },
                }
            },
        }
    }

    /// Position of the waiter filed under `request_id`.
    fn find_waiter(&self, request_id: &str) -> (res: Option<usize>)
        ensures
            match res {
                Some(i) => i < self@.waiters.len() && self@.waiters[i as int].0 == request_id@,
                None => !waiter_ids(self@.waiters).contains(request_id@),
            },
    {
        let mut i: usize = 0;
        while i < self.pending.len()
            invariant
                i <= self.pending@.len(),
                forall|j: int| 0 <= j < i ==> (#[trigger] self.pending@[j]).request_id@ != request_id@,
            decreases self.pending@.len() - i,
        {
            if str_eq(self.pending[i].request_id.as_str(), request_id) {
                return Some(i);
            }
            i = i + 1;
        }
        proof {
            if waiter_ids(self@.waiters).contains(request_id@) {
                let j = choose|j: int| 0 <= j < waiter_ids(self@.waiters).len()
                    && waiter_ids(self@.waiters)[j] == request_id@;
                assert(self.pending@[j].request_id@ == request_id@);
            }
        }
        None
    }

    /// Whether a waiter is filed under `request_id`.
    pub fn has_waiter(&self, request_id: &str) -> (res: bool)
        ensures
            res == waiter_ids(self@.waiters).contains(request_id@),
    {
        proof {
            if waiter_ids(self@.waiters).contains(request_id@) {
                let j = choose|j: int| 0 <= j < waiter_ids(self@.waiters).len()
                    && waiter_ids(self@.waiters)[j] == request_id@;
            }
        }
        match self.find_waiter(request_id) {
            Some(i) => {
                assert(waiter_ids(self@.waiters)[i as int] == request_id@);
                true
            },
            None => false,
        }
    }

    /// Files a waiter under `request_id` with the echo fields its response
    /// must carry; a waiter already filed under that id is replaced.
    pub fn file_waiter(&mut self, request_id: String, correlation: Correlation)
        ensures
            final(self)@.state == old(self)@.state,
            final(self)@.binding == old(self)@.binding,
            waiter_filed(old(self)@.waiters, final(self)@.waiters, request_id@, correlation_view(correlation)),
            distinct_ids(waiter_ids(final(self)@.waiters)),
    {
        proof {
            use_type_invariant(&*self);
        }
        let ghost old_ids = self.pending@.map_values(|p: PendingInvoke| p.request_id@);
        let ghost old_w = self@.waiters;
        let ghost id = request_id@;
        let ghost c = correlation_view(correlation);
        let entry = PendingInvoke { request_id, correlation };
        match self.find_waiter(entry.request_id.as_str()) {
            Some(i) => {
                let mut pending: Vec<PendingInvoke> = Vec::new();
                std::mem::swap(&mut pending, &mut self.pending);
                pending.set(i, entry);
                proof {
                    assert(pending@.map_values(|p: PendingInvoke| p.request_id@) =~= old_ids);
                }
                self.pending = pending;
                proof {
                    assert(self@.waiters =~= old_w.update(i as int, (id, c)));
                    assert(old_w[i as int].0 == id);
                    assert(waiter_ids(old_w)[i as int] == id);
                }
            },
            None => {
                let mut pending: Vec<PendingInvoke> = Vec::new();
                std::mem::swap(&mut pending, &mut self.pending);
                pending.push(entry);
                proof {
                    let new_ids = pending@.map_values(|p: PendingInvoke| p.request_id@);
                    assert(new_ids =~= old_ids.push(id));
                    assert(old_ids =~= waiter_ids(old_w));
                    assert forall|a: int, b: int| 0 <= a < new_ids.len() && 0 <= b < new_ids.len() && a != b
                        implies new_ids[a] != new_ids[b] by {
                        if a == old_ids.len() {
                            assert(old_ids[b] == new_ids[b]);
                        } else if b == old_ids.len() {
                            assert(old_ids[a] == new_ids[a]);
                        }
                    }
                }
                self.pending = pending;
                proof {
                    assert(self@.waiters =~= old_w.push((id, c)));
                }
            },
        }
        proof {
            use_type_invariant(&*self);
            assert(waiter_ids(self@.waiters) =~= self.pending@.map_values(|p: PendingInvoke| p.request_id@));
        }
    }

    /// Takes out the waiter filed under `request_id`, returning its echo
    /// fields; `None` (nothing changes) when none is filed. A response,
    /// a timeout or a failed send settles a waiter exactly once this way.
    pub fn take_waiter(&mut self, request_id: &str) -> (res: Option<Correlation>)
        ensures
            final(self)@.state == old(self)@.state,
            final(self)@.binding == old(self)@.binding,
            waiter_taken(old(self)@.waiters, final(self)@.waiters, request_id@,
                match res {
                    Some(c) => Some(correlation_view(c)),
                    None => None,
                }),
            distinct_ids(waiter_ids(final(self)@.waiters)),
    {
        proof {
            use_type_invariant(&*self);
        }
        let ghost old_ids = self.pending@.map_values(|p: PendingInvoke| p.request_id@);
        let ghost old_w = self@.waiters;
        let res = match self.find_waiter(request_id) {
            Some(i) => {
                let mut pending: Vec<PendingInvoke> = Vec::new();
                std::mem::swap(&mut pending, &mut self.pending);
                let removed = pending.remove(i);
                proof {
                    assert(pending@.map_values(|p: PendingInvoke| p.request_id@) =~= old_ids.remove(i as int));
                    assert forall|a: int, b: int| 0 <= a < old_ids.len() - 1 && 0 <= b < old_ids.len() - 1 && a != b
                        implies old_ids.remove(i as int)[a] != old_ids.remove(i as int)[b] by {
                        let a2 = if a < i { a } else { a + 1 };
                        let b2 = if b < i { b } else { b + 1 };
                        assert(old_ids.remove(i as int)[a] == old_ids[a2]);
                        assert(old_ids.remove(i as int)[b] == old_ids[b2]);
                    }
                }
                self.pending = pending;
                proof {
                    assert(self@.waiters =~= old_w.remove(i as int));
                    assert(old_w[i as int] == waiter_view(removed));
                    assert(waiter_ids(old_w)[i as int] == request_id@);
                }
                Some(removed.correlation)
            },
            None => None,
        };
        proof {
            use_type_invariant(&*self);
            assert(waiter_ids(self@.waiters) =~= self.pending@.map_values(|p: PendingInvoke| p.request_id@));
        }
        res
    }

    /// Sets the `sequence` echo of the waiter filed under `request_id`
    /// (a waiter filed before its sequence was allocated); nothing changes
    /// when none is filed.
    pub fn set_waiter_sequence(&mut self, request_id: &str, sequence: i64)
        ensures
            final(self)@.state == old(self)@.state,
            final(self)@.binding == old(self)@.binding,
            waiter_ids(old(self)@.waiters).contains(request_id@) ==> exists|p: int| 0 <= p < old(self)@.waiters.len()
                && #[trigger] old(self)@.waiters[p].0 == request_id@
                && final(self)@.waiters == old(self)@.waiters.update(p,
                    (request_id@, CorrelationView { sequence, ..old(self)@.waiters[p].1 })),
            !waiter_ids(old(self)@.waiters).contains(request_id@) ==> final(self)@.waiters == old(self)@.waiters,
    {
        proof {
            use_type_invariant(&*self);
        }
        let ghost old_ids = self.pending@.map_values(|p: PendingInvoke| p.request_id@);
        let ghost old_w = self@.waiters;
        match self.find_waiter(request_id) {
            Some(i) => {
                let mut pending: Vec<PendingInvoke> = Vec::new();
                std::mem::swap(&mut pending, &mut self.pending);
                let old_entry = pending.remove(i);
                let entry = PendingInvoke {
                    request_id: old_entry.request_id,
                    correlation: Correlation {
                        session_id: old_entry.correlation.session_id,
                        sequence,
                        request_id: old_entry.correlation.request_id,
                    },
                };
                pending.insert(i, entry);
                proof {
                    assert(pending@.map_values(|p: PendingInvoke| p.request_id@) =~= old_ids);
                }
                self.pending = pending;
                proof {
                    assert(self@.waiters =~= old_w.update(i as int,
                        (request_id@, CorrelationView { sequence, ..old_w[i as int].1 })));
                    assert(waiter_ids(old_w)[i as int] == request_id@);
                }
            },
            None => {},
        }
    }
}

/// The outcome of `grant_outbound`.
#[derive(Debug)]
pub enum OutboundGrant {
    /// Send with this session id and sequence.
    Granted { session_id: String, sequence: u64 },
    /// Fail the invoke with `error`; `settled` are the waiters the close
    /// it caused settled.
    Refused { error: RemoteError, settled: Vec<(String, RemoteError)> },
}

/// The content of a grant.
pub open spec fn grant_view(g: OutboundGrant) -> GrantView {
    match g {
        OutboundGrant::Granted { session_id, sequence } => GrantView::Granted(session_id@, sequence),
        OutboundGrant::Refused { error, settled } =>
            GrantView::Refused(error.kind, error.message@, settlements_view(settled@)),
    }
}

/// An endpoint as the multi-peer router sees it: it reports its bound
/// peer id and the manifest it keeps.
impl RoutedRemoteAdapter for Endpoint {
    closed spec fn reports_peer_id(&self, id: Option<Seq<char>>) -> bool {
        id == match self@.binding {
            Some(b) => Some(b.peer_id),
            None => None::<Seq<char>>,
        }
    }

    closed spec fn reports_manifest(&self, m: Option<ManifestView>) -> bool {
        m == self.manifest_held()
    }

    fn state(&self) -> RemoteAdapterState {
        Endpoint::state(self)
    }

    fn remote_peer_id(&self) -> (res: Option<String>) {
        let res = Endpoint::remote_peer_id(self);
        assert(opt_str(res) == match self@.binding {
            Some(b) => Some(b.peer_id),
            None => None::<Seq<char>>,
        });
        res
    }

    fn remote_manifest(&self) -> (res: Option<PeerManifest>) {
        Endpoint::remote_manifest(self)
    }
}

// ── Session laws ─────────────────────────────────────────────────────────

/// Closing is idempotent: a second close leaves the endpoint as the first
/// left it and settles nobody.
pub proof fn law_close_idempotent(e: EndpointView, first_reason: Seq<char>, second_reason: Seq<char>)
    ensures
        after_close(after_close(e)) == after_close(e),
        close_settlements(after_close(e), second_reason) == Seq::<SettlementView>::empty(),
        after_close(e).state == RemoteAdapterState::Closed,
        after_close(e).waiters == Seq::<WaiterView>::empty() || e.state == RemoteAdapterState::Closed,
{
}

/// A close settles every waiter of a non-closed endpoint, each under its
/// own request id, with `session_closed`.
pub proof fn law_close_settles_all_waiters(e: EndpointView, reason: Seq<char>)
    requires
        e.state != RemoteAdapterState::Closed,
    ensures
        close_settlements(e, reason).len() == e.waiters.len(),
        forall|i: int| 0 <= i < e.waiters.len() ==> (#[trigger] close_settlements(e, reason)[i]).0 == e.waiters[i].0
            && close_settlements(e, reason)[i].1 == RemoteErrorKind::SessionClosed
            && close_settlements(e, reason)[i].2 == closed_message(reason),
        after_close(e).waiters.len() == 0,
{
}

/// A closed endpoint sends nothing: every outbound request is refused
/// with `session_closed` and the endpoint is left unchanged.
pub proof fn law_closed_endpoint_refuses_outbound(e: EndpointView)
    requires
        e.state == RemoteAdapterState::Closed,
    ensures
        after_grant(e) == e,
        grant_outcome(e) == GrantView::Refused(RemoteErrorKind::SessionClosed,
            not_established_message(RemoteAdapterState::Closed), Seq::empty()),
{
}

/// Outbound sequences are handed out consecutively: two grants on a live
/// endpoint yield `n` and `n + 1` under the same session id.
pub proof fn law_outbound_grants_consecutive(e: EndpointView)
    requires
        is_live(e),
        e.binding->0.next_outbound < MAX_SEQUENCE,
    ensures
        grant_outcome(e) == GrantView::Granted(e.binding->0.session_id, e.binding->0.next_outbound),
        grant_outcome(after_grant(e)) == GrantView::Granted(e.binding->0.session_id,
            (e.binding->0.next_outbound + 1) as u64),
        after_grant(after_grant(e)).binding->0.next_outbound == e.binding->0.next_outbound + 2,
        after_grant(e).waiters == e.waiters,
{
}

/// Exhaustion closes the session and never wraps: the exhausted grant is
/// refused with `sequence_exhausted`, every later one with
/// `session_closed`.
pub proof fn law_exhaustion_closes(e: EndpointView)
    requires
        is_live(e),
        e.binding->0.next_outbound > MAX_SEQUENCE,
    ensures
        after_grant(e).state == RemoteAdapterState::Closed,
        grant_outcome(e) == GrantView::Refused(RemoteErrorKind::SequenceExhausted, exhausted_message(),
            close_settlements(e, exhausted_reason())),
        grant_outcome(after_grant(e)) == GrantView::Refused(RemoteErrorKind::SessionClosed,
            not_established_message(RemoteAdapterState::Closed), Seq::empty()),
{
}

/// Authentication before advance: unless the authenticator passed, the
/// second gate step leaves the endpoint (and its inbound expectation)
/// unchanged; when it passed on the peeked position, the request is
/// dispatched and the expectation moves by exactly one.
pub proof fn law_auth_before_advance(e: EndpointView, doc: JsonValue, verify: VerifyView)
    requires
        gate_peek_outcome(e, doc) is Verify,
    ensures
        verify != VerifyView::Passed ==> after_gate_commit(e, gate_peek_outcome(e, doc)->Verify_0, verify) == e,
        verify == VerifyView::Passed ==> {
            &&& gate_commit_outcome(e, gate_peek_outcome(e, doc)->Verify_0, verify) == Ok::<GateResultView, (RemoteErrorKind, Seq<char>)>(GateResultView::Dispatch)
            &&& after_gate_commit(e, gate_peek_outcome(e, doc)->Verify_0, verify).binding->0.expected_inbound
                == e.binding->0.expected_inbound + 1
        },
{
}

/// Replay protection: once a position was dispatched, a request carrying
/// the same `sequence` again is denied `invalid_sequence`.
pub proof fn law_replayed_position_denied(e: EndpointView, doc: JsonValue, replay: JsonValue)
    requires
        gate_peek_outcome(e, doc) is Verify,
        json_get(replay, "sequence"@) == json_get(doc, "sequence"@),
    ensures
        gate_peek_outcome(after_gate_commit(e, gate_peek_outcome(e, doc)->Verify_0, VerifyView::Passed), replay) is Denied,
{
}

/// The reverse-invoke gate on a bound session expecting `e`, for a request
/// whose `sequence` is the integer `q`: `q != e` is denied
/// `invalid_sequence` before any authenticator work; `q == e` with a
/// rejected authenticator is denied `auth_failed` (with the failure's
/// kind); a local authenticator failure is an error. In all these cases the
/// expectation stays `e`; only a passing authenticator dispatches and moves
/// it to `e + 1`.
pub proof fn law_reverse_gate(e: EndpointView, doc: JsonValue, q: i64, verify: VerifyView)
    requires
        e.binding is Some,
        e.binding->0.expected_inbound <= MAX_SEQUENCE,
        json_get(doc, "sequence"@) == Some(JsonValue::Int(q)),
    ensures
        q != e.binding->0.expected_inbound ==>
            gate_peek_outcome(e, doc) is Denied && gate_peek_outcome(e, doc)->Denied_0 == "invalid_sequence"@,
        q == e.binding->0.expected_inbound ==> {
            &&& gate_peek_outcome(e, doc) == GateStepView::Verify(q, e.binding->0.session_id)
            &&& match verify {
                VerifyView::Rejected(kind, m) => gate_commit_outcome(e, q, verify)
                    == Ok::<GateResultView, (RemoteErrorKind, Seq<char>)>(
                        GateResultView::Denied("auth_failed"@, m, Some(auth_failed_details(kind))))
                    && after_gate_commit(e, q, verify) == e,
                VerifyView::LocalFailure(m) => gate_commit_outcome(e, q, verify)
                    == Err::<GateResultView, (RemoteErrorKind, Seq<char>)>((RemoteErrorKind::EnvelopeAuthInvalid, m))
                    && after_gate_commit(e, q, verify) == e,
                VerifyView::Passed => gate_commit_outcome(e, q, verify)
                    == Ok::<GateResultView, (RemoteErrorKind, Seq<char>)>(GateResultView::Dispatch)
                    && after_gate_commit(e, q, verify).binding->0.expected_inbound == e.binding->0.expected_inbound + 1,
            }
        },
{
}

/// Filing keeps request ids distinct and files `id`.
pub proof fn lemma_filed_distinct(old: Seq<WaiterView>, new: Seq<WaiterView>, id: Seq<char>, c: CorrelationView)
    requires
        distinct_ids(waiter_ids(old)),
        waiter_filed(old, new, id, c),
    ensures
        distinct_ids(waiter_ids(new)),
        waiter_ids(new).contains(id),
{
    if waiter_ids(old).contains(id) {
        let p = choose|p: int| 0 <= p < old.len() && #[trigger] old[p].0 == id && new == old.update(p, (id, c));
        assert(waiter_ids(new) =~= waiter_ids(old));
        assert(waiter_ids(new)[p] == id);
    } else {
        assert(waiter_ids(new) =~= waiter_ids(old).push(id));
        assert(waiter_ids(new)[old.len() as int] == id);
    }
}

/// What a response settles is what was filed: filing a waiter under a
/// fresh id, then taking that id, hands back its echo fields and restores
/// the table.
pub proof fn law_take_returns_filed(w0: Seq<WaiterView>, w1: Seq<WaiterView>, w2: Seq<WaiterView>,
    id: Seq<char>, c: CorrelationView, found: Option<CorrelationView>)
    requires
        distinct_ids(waiter_ids(w0)),
        !waiter_ids(w0).contains(id),
        waiter_filed(w0, w1, id, c),
        waiter_taken(w1, w2, id, found),
    ensures
        found == Some(c),
        w2 == w0,
{
    lemma_filed_distinct(w0, w1, id, c);
    let q = choose|q: int| 0 <= q < w1.len() && #[trigger] w1[q].0 == id && w2 == w1.remove(q) && found == Some(w1[q].1);
    let p = w0.len() as int;
    assert(waiter_ids(w1)[p] == waiter_ids(w1)[q]);
    assert(p == q);
    assert(w2 =~= w0);
}

/// A timed-out invoke fails only its own waiter: taking it leaves the
/// session live and bound as it was, every other pending invoke still
/// waiting, and the next outbound grant succeeding while the counter has
/// room.
pub proof fn law_timeout_fails_only_its_waiter(e0: EndpointView, e1: EndpointView, id: Seq<char>,
    found: Option<CorrelationView>)
    requires
        is_live(e0),
        e0.binding->0.next_outbound <= MAX_SEQUENCE,
        e1.state == e0.state,
        e1.binding == e0.binding,
        waiter_taken(e0.waiters, e1.waiters, id, found),
    ensures
        is_live(e1),
        grant_outcome(e1) == GrantView::Granted(e0.binding->0.session_id, e0.binding->0.next_outbound),
        forall|i: int| 0 <= i < e0.waiters.len() && e0.waiters[i].0 != id ==> #[trigger] e1.waiters.contains(e0.waiters[i]),
        e1.waiters.len() <= e0.waiters.len(),
{
    if waiter_ids(e0.waiters).contains(id) {
        let p = choose|p: int| 0 <= p < e0.waiters.len() && #[trigger] e0.waiters[p].0 == id
            && e1.waiters == e0.waiters.remove(p) && found == Some(e0.waiters[p].1);
        assert forall|i: int| 0 <= i < e0.waiters.len() && e0.waiters[i].0 != id implies
            #[trigger] e1.waiters.contains(e0.waiters[i]) by {
            if i < p {
                assert(e1.waiters[i] == e0.waiters[i]);
            } else {
                assert(i != p);
                assert(e1.waiters[i - 1] == e0.waiters[i]);
            }
        }
    } else {
        assert forall|i: int| 0 <= i < e0.waiters.len() && e0.waiters[i].0 != id implies
            #[trigger] e1.waiters.contains(e0.waiters[i]) by {
            assert(e1.waiters[i] == e0.waiters[i]);
        }
    }
}

/// A waiter is settled at most once: after it was taken, taking the same
/// id again finds nothing and changes nothing.
pub proof fn law_waiter_settled_once(w0: Seq<WaiterView>, w1: Seq<WaiterView>, w2: Seq<WaiterView>,
    id: Seq<char>, first: Option<CorrelationView>, second: Option<CorrelationView>)
    requires
        distinct_ids(waiter_ids(w0)),
        waiter_taken(w0, w1, id, first),
        waiter_taken(w1, w2, id, second),
    ensures
        second is None,
        w2 == w1,
{
    if waiter_ids(w0).contains(id) {
        let p = choose|p: int| 0 <= p < w0.len() && #[trigger] w0[p].0 == id && w1 == w0.remove(p) && first == Some(w0[p].1);
        if waiter_ids(w1).contains(id) {
            let j = choose|j: int| 0 <= j < waiter_ids(w1).len() && waiter_ids(w1)[j] == id;
            let j2 = if j < p { j } else { j + 1 };
            assert(waiter_ids(w0)[j2] == id);
            assert(waiter_ids(w0)[p] == id);
        }
    }
}

} // verus!
