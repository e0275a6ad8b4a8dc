//! Pure session rules: sequence counters, the `(peer_id, nonce)` replay
//! store, the allowlist, the dispatch gate and response correlation.

use vstd::prelude::*;
use crate::text::{str_eq, starts_with, has_prefix, seq_has, contains_str, owned};

verus! {

/// Maximum outbound/inbound invoke sequence: 2⁵³−1, the JSON-safe wire
/// maximum for `ConnectInvokeRequest.sequence`.
pub const MAX_SEQUENCE: u64 = 9007199254740991;

/// The connect protocol version exchanged in `ConnectHello`.
pub const PROTOCOL_VERSION: u64 = 1;

/// Per-peer cap on hellos buffered while the peer's identity key is not yet
/// known.
pub const MAX_PENDING_HELLOS_PER_PEER: usize = 8;

/// Invoke-path sequence / correlation failures.
#[derive(Debug, Clone, PartialEq, Eq)]
pub enum CoreInvokeError {
    /// The session's outbound sequence space (2⁵³−1) is exhausted; the
    /// session must be closed and reopened — sequences never wrap.
    SequenceExhausted,
    /// An inbound invoke `sequence` is not the next expected one (replay,
    /// out-of-order or out of the wire range); it must not be dispatched.
    InboundSequenceMismatch { expected: u64, actual: i64 },
    /// A response did not echo the request's `session_id` / `sequence` /
    /// `request_id`.
    CorrelationMismatch,
}

// ── Outbound sequence ────────────────────────────────────────────────────

/// One allocation on a counter at `next`: the value handed out (`None`
/// once exhausted) and the counter after it.
pub open spec fn alloc_step(next: int) -> (Option<int>, int) {
    if next <= MAX_SEQUENCE {
        (Some(next), next + 1)
    } else {
        (None, next)
    }
}

/// The values handed out by `k` allocations in a row from a counter at
/// `next` (`None` for an exhausted one).
pub open spec fn alloc_run(next: int, k: nat) -> Seq<Option<int>>
    decreases k,
{
    if k == 0 {
        Seq::empty()
    } else {
        seq![alloc_step(next).0] + alloc_run(alloc_step(next).1, (k - 1) as nat)
    }
}

/// An allocation result as an optional value.
pub open spec fn alloc_value(res: Result<u64, CoreInvokeError>) -> Option<int> {
    match res {
        Ok(v) => Some(v as int),
        Err(_) => None,
    }
}


/// Outbound sequence counter of one session direction, starting at 0.
pub struct OutboundSequence {
    next: u64,
}

impl OutboundSequence {
    /// The value the next successful `allocate` hands out.
    pub closed spec fn next_value(&self) -> u64 {
        self.next
    }

    /// Creates a counter starting at 0 (the first allocate returns 0).
    pub fn new() -> (res: Self)
        ensures
            res.next_value() == 0,
    {
        OutboundSequence { next: 0 }
    }

    /// Positions the counter at `next`.
    pub fn set_next(&mut self, next: u64)
        ensures
            final(self).next_value() == next,
    {
        self.next = next;
    }

    /// Assigns the next outbound sequence. Past the wire maximum the
    /// counter is exhausted: `SequenceExhausted` is returned and the
    /// counter stays exhausted — sequences never wrap.
    pub fn allocate(&mut self) -> (res: Result<u64, CoreInvokeError>)
        ensures
            old(self).next_value() <= MAX_SEQUENCE ==> {
                &&& res == Ok::<u64, CoreInvokeError>(old(self).next_value())
                &&& final(self).next_value() == old(self).next_value() + 1
            },
            old(self).next_value() > MAX_SEQUENCE ==> {
                &&& res == Err::<u64, CoreInvokeError>(CoreInvokeError::SequenceExhausted)
                &&& final(self).next_value() == old(self).next_value()
            },
            alloc_step(old(self).next_value() as int) == (alloc_value(res), final(self).next_value() as int),
    {
        if self.next > MAX_SEQUENCE {
            return Err(CoreInvokeError::SequenceExhausted);
        }
        let sequence = self.next;
        self.next = sequence + 1;
        Ok(sequence)
    }
}

// ── Inbound sequence ─────────────────────────────────────────────────────

/// Whether an inbound `sequence` is accepted when `expected` is next: it
/// must lie in the wire range `0..=MAX_SEQUENCE` and equal `expected`.
pub open spec fn inbound_accepts(expected: u64, sequence: i64) -> bool {
    0 <= sequence && sequence <= MAX_SEQUENCE && sequence == expected
}

/// Inbound sequence expectation of one session direction, starting at 0.
pub struct InboundSequence {
    next: u64,
}

impl InboundSequence {
    /// The next expected inbound sequence.
    pub closed spec fn expected(&self) -> u64 {
        self.next
    }

    /// Creates an expectation starting at 0.
    pub fn new() -> (res: Self)
        ensures
            res.expected() == 0,
    {
        InboundSequence { next: 0 }
    }

    /// The next expected inbound sequence.
    pub fn next_expected(&self) -> (res: u64)
        ensures
            res == self.expected(),
    {
        self.next
    }

    /// Non-mutating check of `sequence` against the expectation.
    pub fn peek(&self, sequence: i64) -> (res: Result<(), CoreInvokeError>)
        ensures
            res is Ok <==> inbound_accepts(self.expected(), sequence),
            res is Err ==> res == Err::<(), CoreInvokeError>(
                CoreInvokeError::InboundSequenceMismatch { expected: self.expected(), actual: sequence },
            ),
    {
        if sequence >= 0 && sequence as u64 <= MAX_SEQUENCE && sequence as u64 == self.next {
            Ok(())
        } else {
            Err(CoreInvokeError::InboundSequenceMismatch { expected: self.next, actual: sequence })
        }
    }

    /// Accepts `sequence` iff it equals the next expected inbound sequence;
    /// on acceptance the expectation advances by 1 and the new expectation
    /// is returned. A replayed or out-of-order sequence yields
    /// `InboundSequenceMismatch` and leaves the expectation unchanged.
    pub fn advance(&mut self, sequence: i64) -> (res: Result<u64, CoreInvokeError>)
        ensures
            inbound_accepts(old(self).expected(), sequence) ==> {
                &&& res == Ok::<u64, CoreInvokeError>((old(self).expected() + 1) as u64)
                &&& final(self).expected() == old(self).expected() + 1
            },
            !inbound_accepts(old(self).expected(), sequence) ==> {
                &&& res == Err::<u64, CoreInvokeError>(
                    CoreInvokeError::InboundSequenceMismatch {
                        expected: old(self).expected(),
                        actual: sequence,
                    },
                )
                &&& final(self).expected() == old(self).expected()
            },
    {
        if sequence >= 0 && sequence as u64 <= MAX_SEQUENCE && sequence as u64 == self.next {
            self.next = self.next + 1;
            Ok(self.next)
        } else {
            Err(CoreInvokeError::InboundSequenceMismatch { expected: self.next, actual: sequence })
        }
    }
}

/// Wire-range gate for an inbound invoke's `sequence`: `0..=MAX_SEQUENCE`.
pub fn inbound_sequence_valid(sequence: i64) -> (res: bool)
    ensures
        res == (0 <= sequence && sequence <= MAX_SEQUENCE),
{
    sequence >= 0 && (sequence as u64) <= MAX_SEQUENCE
}

/// Whether another pending hello may be buffered for a peer that already
/// has `pending` buffered.
pub fn pending_hello_capacity_available(pending: usize) -> (res: bool)
    ensures
        res == (pending < MAX_PENDING_HELLOS_PER_PEER),
{
    pending < MAX_PENDING_HELLOS_PER_PEER
}

// ── Replay store ─────────────────────────────────────────────────────────

/// In-memory `(peer_id, nonce)` store of accepted hellos.
pub struct NonceStore {
    seen: Vec<(String, String)>,
}

/// The pairs held by a store's backing list.
pub open spec fn pairs_of(seen: Seq<(String, String)>) -> Set<(Seq<char>, Seq<char>)> {
    Set::new(|p: (Seq<char>, Seq<char>)| exists|i: int| 0 <= i < seen.len() &&
        #[trigger] seen[i].0@ == p.0 && seen[i].1@ == p.1)
}

impl View for NonceStore {
    type V = Set<(Seq<char>, Seq<char>)>;

    closed spec fn view(&self) -> Set<(Seq<char>, Seq<char>)> {
        pairs_of(self.seen@)
    }
}

impl NonceStore {
    /// Creates an empty store.
    pub fn new() -> (res: Self)
        ensures
            res@ == Set::<(Seq<char>, Seq<char>)>::empty(),
    {
        let res = NonceStore { seen: Vec::new() };
        assert(res@ =~= Set::<(Seq<char>, Seq<char>)>::empty());
        res
    }

    /// Whether `(peer_id, nonce)` was already accepted.
    pub fn contains(&self, peer_id: &str, nonce: &str) -> (res: bool)
        ensures
            res == self@.contains((peer_id@, nonce@)),
    {
        let mut i: usize = 0;
        while i < self.seen.len()
            invariant
                i <= self.seen@.len(),
                forall|j: int| 0 <= j < i ==> !((#[trigger] self.seen@[j]).0@ == peer_id@
                    && self.seen@[j].1@ == nonce@),
            decreases self.seen@.len() - i,
        {
            if str_eq(self.seen[i].0.as_str(), peer_id) && str_eq(self.seen[i].1.as_str(), nonce) {
                assert(pairs_of(self.seen@).contains((peer_id@, nonce@)));
                return true;
            }
            i = i + 1;
        }
        false
    }

    /// Records `(peer_id, nonce)` unless it was already accepted; returns
    /// `false` on replay (the store is then unchanged).
    pub fn check_and_record(&mut self, peer_id: &str, nonce: &str) -> (res: bool)
        ensures
            res == !old(self)@.contains((peer_id@, nonce@)),
            final(self)@ == old(self)@.insert((peer_id@, nonce@)),
    {
        if self.contains(peer_id, nonce) {
            assert(old(self)@.insert((peer_id@, nonce@)) =~= old(self)@);
            return false;
        }
        let ghost before = self.seen@;
        self.seen.push((owned(peer_id), owned(nonce)));
        assert(pairs_of(self.seen@) =~= pairs_of(before).insert((peer_id@, nonce@))) by {
            assert forall|p: (Seq<char>, Seq<char>)| #[trigger] pairs_of(self.seen@).contains(p)
                implies pairs_of(before).insert((peer_id@, nonce@)).contains(p) by {
                let i = choose|i: int| 0 <= i < self.seen@.len() && #[trigger] self.seen@[i].0@ == p.0
                    && self.seen@[i].1@ == p.1;
                if i < before.len() {
                    assert(before[i] == self.seen@[i]);
                }
            }
            assert forall|p: (Seq<char>, Seq<char>)|
                #[trigger] pairs_of(before).insert((peer_id@, nonce@)).contains(p)
                implies pairs_of(self.seen@).contains(p) by {
                if p == (peer_id@, nonce@) {
                    assert(self.seen@[before.len() as int].0@ == p.0);
                } else {
                    let i = choose|i: int| 0 <= i < before.len() && #[trigger] before[i].0@ == p.0
                        && before[i].1@ == p.1;
                    assert(self.seen@[i] == before[i]);
                }
            }
        }
        true
    }
}

// ── Allowlist ────────────────────────────────────────────────────────────

/// Whether `peer_id` is on the allowlist. Fails closed: an empty allowlist
/// rejects every peer.
pub fn is_allowlisted(allowlist: Vec<String>, peer_id: String) -> (res: bool)
    ensures
        res == seq_has(allowlist@, peer_id@),
{
    contains_str(&allowlist, peer_id.as_str())
}

// ── Dispatch gate ────────────────────────────────────────────────────────

/// Whether `op` belongs to the self-describing `tools.` family.
pub open spec fn is_tool_op(op: Seq<char>) -> bool {
    has_prefix(op, "tools."@)
}

/// The orchestrated op families that require `spoke-baseline`.
pub open spec fn is_baseline_family(op: Seq<char>) -> bool {
    op == "upsert"@ || op == "promote"@ || op == "relate"@ || op == "check"@ || op == "assemble"@
}

/// The op families that require `l2-computable`.
pub open spec fn is_computable_family(op: Seq<char>) -> bool {
    op == "project"@ || op == "compute"@
}

/// The capability required to dispatch `op` per the protocol v1 core-op
/// table: a `tools.<ns>.<tool_id>` op requires the op string itself;
/// `None` for product-defined ops.
pub open spec fn core_required_capability(op: Seq<char>) -> Option<Seq<char>> {
    if is_tool_op(op) {
        Some(op)
    } else if is_baseline_family(op) {
        Some("spoke-baseline"@)
    } else if is_computable_family(op) {
        Some("l2-computable"@)
    } else {
        None
    }
}

/// Whether `op` belongs to the baseline families (exec).
fn baseline_family(op: &str) -> (res: bool)
    ensures
        res == is_baseline_family(op@),
{
    str_eq(op, "upsert") || str_eq(op, "promote") || str_eq(op, "relate") || str_eq(op, "check")
        || str_eq(op, "assemble")
}

/// Whether `op` belongs to the computable families (exec).
fn computable_family(op: &str) -> (res: bool)
    ensures
        res == is_computable_family(op@),
{
    str_eq(op, "project") || str_eq(op, "compute")
}

/// Core-table lookup on a borrowed op.
pub fn required_capability_of(op: &str) -> (res: Option<String>)
    ensures
        match core_required_capability(op@) {
            Some(c) => res is Some && res->0@ == c,
            None => res is None,
        },
{
    if starts_with(op, "tools.") {
        Some(owned(op))
    } else if baseline_family(op) {
        Some(owned("spoke-baseline"))
    } else if computable_family(op) {
        Some(owned("l2-computable"))
    } else {
        None
    }
}

/// The capability required to dispatch `op`, per the protocol v1 core-op
/// table; `None` for product-defined ops.
pub fn required_capability(op: String) -> (res: Option<String>)
    ensures
        match core_required_capability(op@) {
            Some(c) => res is Some && res->0@ == c,
            None => res is None,
        },
{
    required_capability_of(op.as_str())
}

/// The dispatch gate: `op` has a core-table requirement and the
/// negotiated capabilities contain it.
pub open spec fn dispatch_permits(op: Seq<char>, negotiated: Seq<String>) -> bool {
    match core_required_capability(op) {
        Some(c) => seq_has(negotiated, c),
        None => false,
    }
}

/// Gate on borrowed inputs.
pub fn dispatch_allowed_for(op: &str, negotiated: &Vec<String>) -> (res: bool)
    ensures
        res == dispatch_permits(op@, negotiated@),
{
    match required_capability_of(op) {
        Some(c) => contains_str(negotiated, c.as_str()),
        None => false,
    }
}

/// Whether `op` may be dispatched in a session with
/// `negotiated_capabilities`. Fails closed: an unknown `op` has no
/// core-table requirement and is not authorized by this gate.
pub fn dispatch_allowed(op: String, negotiated_capabilities: Vec<String>) -> (res: bool)
    ensures
        res == dispatch_permits(op@, negotiated_capabilities@),
{
    dispatch_allowed_for(op.as_str(), &negotiated_capabilities)
}

/// The connect protocol version exchanged in `ConnectHello`.
pub fn protocol_version() -> (res: u64)
    ensures
        res == PROTOCOL_VERSION,
{
    PROTOCOL_VERSION
}

// ── Correlation ──────────────────────────────────────────────────────────

/// The three echo fields a response must carry back from its request.
#[derive(Debug, Clone, PartialEq, Eq)]
pub struct Correlation {
    pub session_id: String,
    pub sequence: i64,
    pub request_id: String,
}

/// Two correlations agree on all three echo fields.
pub open spec fn correlation_matches(expected: Correlation, actual: Correlation) -> bool {
    expected.session_id@ == actual.session_id@ && expected.sequence == actual.sequence
        && expected.request_id@ == actual.request_id@
}

/// Checks that a response echoes the request's `session_id` / `sequence` /
/// `request_id`.
pub fn check_correlation(expected: &Correlation, actual: &Correlation) -> (res: Result<(), CoreInvokeError>)
    ensures
        res is Ok <==> correlation_matches(*expected, *actual),
        res is Err ==> res == Err::<(), CoreInvokeError>(CoreInvokeError::CorrelationMismatch),
{
    if expected.sequence == actual.sequence && expected.session_id == actual.session_id
        && expected.request_id == actual.request_id {
        Ok(())
    } else {
        Err(CoreInvokeError::CorrelationMismatch)
    }
}

/// The largest wire sequence representable as `i64`.
pub const I64_MAX_AS_U64: u64 = 9223372036854775807;

/// Checks that a response echoes the request's three echo fields, given as
/// primitives. Wire sequences are `i64`; a value above `i64::MAX` can never
/// match a wire echo, so it fails correlation.
pub fn check_response_correlation(
    expected_session_id: String,
    expected_sequence: u64,
    expected_request_id: String,
    actual_session_id: String,
    actual_sequence: u64,
    actual_request_id: String,
) -> (res: Result<(), CoreInvokeError>)
    ensures
        res is Ok <==> (expected_sequence <= I64_MAX_AS_U64 && actual_sequence <= I64_MAX_AS_U64
            && expected_session_id@ == actual_session_id@ && expected_sequence == actual_sequence
            && expected_request_id@ == actual_request_id@),
        res is Err ==> res == Err::<(), CoreInvokeError>(CoreInvokeError::CorrelationMismatch),
{
    if expected_sequence > I64_MAX_AS_U64 || actual_sequence > I64_MAX_AS_U64 {
        return Err(CoreInvokeError::CorrelationMismatch);
    }
    let expected = Correlation {
        session_id: expected_session_id,
        sequence: expected_sequence as i64,
        request_id: expected_request_id,
    };
    let actual = Correlation {
        session_id: actual_session_id,
        sequence: actual_sequence as i64,
        request_id: actual_request_id,
    };
    check_correlation(&expected, &actual)
}

/// The allowlist fails closed: an empty allowlist admits nobody.
pub proof fn law_empty_allowlist_admits_nobody(peer_id: Seq<char>)
    ensures
        !seq_has(Seq::<String>::empty(), peer_id),
{
}

/// The dispatch gate fails closed: an op without a core-table requirement
/// is never dispatched, whatever was negotiated; a `tools.` op is
/// dispatched exactly when the op string itself was negotiated.
pub proof fn law_dispatch_fails_closed(op: Seq<char>, negotiated: Seq<String>)
    ensures
        core_required_capability(op) is None ==> !dispatch_permits(op, negotiated),
        is_tool_op(op) ==> (dispatch_permits(op, negotiated) <==> seq_has(negotiated, op)),
{
}

/// A run of allocations from a counter at `next` hands out `next`,
/// `next + 1`, … up to the wire maximum, and nothing after it.
proof fn lemma_alloc_run(next: int, k: nat)
    requires
        next >= 0,
    ensures
        alloc_run(next, k).len() == k,
        forall|i: int| 0 <= i < k ==> #[trigger] alloc_run(next, k)[i]
            == (if next + i <= MAX_SEQUENCE { Some(next + i) } else { None::<int> }),
    decreases k,
{
    if k > 0 {
        let n2 = alloc_step(next).1;
        lemma_alloc_run(n2, (k - 1) as nat);
        assert forall|i: int| 0 <= i < k implies #[trigger] alloc_run(next, k)[i]
            == (if next + i <= MAX_SEQUENCE { Some(next + i) } else { None::<int> }) by {
            if i > 0 {
                assert(alloc_run(next, k)[i] == alloc_run(n2, (k - 1) as nat)[i - 1]);
            }
        }
    }
}

/// Outbound sequences over a run of allocations on a fresh counter: the
/// values handed out are 0, 1, 2, … in order, hence pairwise distinct,
/// never above the wire maximum, and once one allocation is refused every
/// later one is refused too.
pub proof fn law_allocation_run(k: nat)
    ensures
        alloc_run(0, k).len() == k,
        forall|i: int| 0 <= i < k && i <= MAX_SEQUENCE ==> #[trigger] alloc_run(0, k)[i] == Some(i),
        forall|i: int| 0 <= i < k && #[trigger] alloc_run(0, k)[i] is Some ==> alloc_run(0, k)[i]->0 <= MAX_SEQUENCE,
        forall|i: int, j: int| 0 <= i < j < k && #[trigger] alloc_run(0, k)[i] is Some
            && #[trigger] alloc_run(0, k)[j] is Some ==> alloc_run(0, k)[i]->0 < alloc_run(0, k)[j]->0,
        forall|i: int, j: int| 0 <= i < j < k && #[trigger] alloc_run(0, k)[i] is None
            ==> #[trigger] alloc_run(0, k)[j] is None,
{
    lemma_alloc_run(0, k);
}

/// The inbound expectation moves exactly on the next expected sequence: a
/// sequence is accepted iff it equals the expectation (within the wire
/// range); negative, replayed and skipped-ahead sequences never are.
pub proof fn law_inbound_accepts_only_expected(expected: u64, sequence: i64)
    requires
        expected <= MAX_SEQUENCE,
    ensures
        inbound_accepts(expected, sequence) <==> sequence == expected,
        sequence < expected ==> !inbound_accepts(expected, sequence),
        sequence > expected ==> !inbound_accepts(expected, sequence),
{
}

} // verus!
