//! Capability-selected routing over registered peers: the locked selection
//! algorithm (capability → namespace → authority hard filters, role soft
//! preference, lowest-`peer_id` tie-break), the peer registry and the
//! composed manifest view.

use vstd::prelude::*;
use crate::json::{JsonValue, JsonView, json_get, json_get_str, fields_view, lemma_fields_view_push};
use crate::text::{seq_has, contains_str, str_eq, starts_with, has_prefix, owned, concat3};
use crate::order::{str_lt, str_less, lemma_bytes_lt_irreflexive, lemma_bytes_lt_transitive,
    lemma_bytes_lt_total, lemma_bytes_lt_asymmetric, lemma_bytes_lt_le, lemma_utf8_key_injective,
    utf8_key};
use crate::manifest::{PeerManifest, ManifestView, manifest_view, clone_manifest, strs, lemma_seq_has_strs};
use crate::reject::{Reject, RejectView, reject_view, details_view};
use crate::session::core_required_capability;
use crate::serve::port_requirement;

verus! {

// ── Locked op → selection-input tables ───────────────────────────────────

/// The `port.*` baseline ops the router delegates.
pub open spec fn is_port_baseline_op(op: Seq<char>) -> bool {
    op == "port.knowledge.get"@ || op == "port.knowledge.put"@ || op == "port.relation.get"@
        || op == "port.relation.put"@ || op == "port.scope.list_knowledge_entries"@
        || op == "port.scope.list_timeline_events"@ || op == "port.finding.put"@
        || op == "port.rule.list"@
}

/// The optional `l2-computable` port ops.
pub open spec fn is_port_computable_op(op: Seq<char>) -> bool {
    op == "port.computable.project"@ || op == "port.computable.compute"@
}

/// Required capability per op for routing: a `tools.` op requires itself;
/// orchestrated baseline families and `port.*` baseline ops require
/// `spoke-baseline`; computable families require `l2-computable`; every
/// other op has no row (and is rejected by selection).
pub open spec fn routing_capability(op: Seq<char>) -> Option<Seq<char>> {
    if has_prefix(op, "tools."@) {
        Some(op)
    } else if op == "upsert"@ || op == "promote"@ || op == "relate"@ || op == "check"@
        || op == "assemble"@ || is_port_baseline_op(op) {
        Some("spoke-baseline"@)
    } else if op == "project"@ || op == "compute"@ || is_port_computable_op(op) {
        Some("l2-computable"@)
    } else {
        None
    }
}

/// Preferred role per op (soft preference only).
pub open spec fn routing_role(op: Seq<char>) -> Option<Seq<char>> {
    if op == "check"@ {
        Some("checker"@)
    } else if op == "assemble"@ {
        Some("assembler"@)
    } else if op == "project"@ || op == "compute"@ {
        Some("l2-computable"@)
    } else {
        None
    }
}

fn port_baseline_op(op: &str) -> (res: bool)
    ensures
        res == is_port_baseline_op(op@),
{
    str_eq(op, "port.knowledge.get") || str_eq(op, "port.knowledge.put") || str_eq(op, "port.relation.get")
        || str_eq(op, "port.relation.put") || str_eq(op, "port.scope.list_knowledge_entries")
        || str_eq(op, "port.scope.list_timeline_events") || str_eq(op, "port.finding.put")
        || str_eq(op, "port.rule.list")
}

/// Required capability per op for routing.
pub fn required_capability(op: &str) -> (res: Option<String>)
    ensures
        match routing_capability(op@) {
            Some(c) => res is Some && res->0@ == c,
            None => res is None,
        },
{
    if starts_with(op, "tools.") {
        Some(owned(op))
    } else if str_eq(op, "upsert") || str_eq(op, "promote") || str_eq(op, "relate") || str_eq(op, "check")
        || str_eq(op, "assemble") || port_baseline_op(op) {
        Some(owned("spoke-baseline"))
    } else if str_eq(op, "project") || str_eq(op, "compute") || str_eq(op, "port.computable.project")
        || str_eq(op, "port.computable.compute") {
        Some(owned("l2-computable"))
    } else {
        None
    }
}

/// Preferred role per op.
pub fn preferred_role(op: &str) -> (res: Option<String>)
    ensures
        match routing_role(op@) {
            Some(r) => res is Some && res->0@ == r,
            None => res is None,
        },
{
    if str_eq(op, "check") {
        Some(owned("checker"))
    } else if str_eq(op, "assemble") {
        Some(owned("assembler"))
    } else if str_eq(op, "project") || str_eq(op, "compute") {
        Some(owned("l2-computable"))
    } else {
        None
    }
}

// ── Payload-derived selection inputs ─────────────────────────────────────

/// A string carried at the payload top level under `key`, else under the
/// payload's `scope` object.
pub open spec fn payload_selector(payload: JsonValue, key: Seq<char>) -> Option<Seq<char>> {
    match json_get_str(payload, key) {
        Some(s) => Some(s),
        None => match json_get(payload, "scope"@) {
            Some(scope) => json_get_str(scope, key),
            None => None,
        },
    }
}

fn payload_selector_exec(payload: &JsonValue, key: &str) -> (res: Option<String>)
    ensures
        match payload_selector(*payload, key@) {
            Some(s) => res is Some && res->0@ == s,
            None => res is None,
        },
{
    match payload.get_str(key) {
        Some(s) => Some(s.clone()),
        None => match payload.get("scope") {
            Some(scope) => match scope.get_str(key) {
                Some(s) => Some(s.clone()),
                None => None,
            },
            None => None,
        },
    }
}

/// The request's collaboration namespace (`namespace` at the top level,
/// else `scope.namespace`); no wildcard — `"*"` is a literal.
pub fn request_namespace(payload: &JsonValue) -> (res: Option<String>)
    ensures
        match payload_selector(*payload, "namespace"@) {
            Some(s) => res is Some && res->0@ == s,
            None => res is None,
        },
{
    payload_selector_exec(payload, "namespace")
}

/// The request's authority scope key (`scope_key` at the top level, else
/// `scope.scope_key`).
pub fn request_scope_key(payload: &JsonValue) -> (res: Option<String>)
    ensures
        match payload_selector(*payload, "scope_key"@) {
            Some(s) => res is Some && res->0@ == s,
            None => res is None,
        },
{
    payload_selector_exec(payload, "scope_key")
}

// ── The terminal no-capable-peer reject ──────────────────────────────────

/// The locked no-capable-peer reject for `op` with `reason`.
pub open spec fn no_capable_peer_view(op: Seq<char>, reason: Seq<char>) -> RejectView {
    RejectView {
        code: "CAPABILITY_PORT_MISSING"@,
        message: "no capable peer for "@ + op + ": "@ + reason,
        details: Some(seq![
            ("kind"@, JsonView::Str("no_capable_peer"@)),
            ("op"@, JsonView::Str(op)),
            ("wire_code"@, JsonView::Str("no_capable_peer"@)),
        ]),
    }
}

/// Builds the locked no-capable-peer reject: terminal, no retry, no
/// fallback.
pub fn no_capable_peer(op: &str, reason: &str) -> (res: Reject)
    ensures
        reject_view(res) == no_capable_peer_view(op@, reason@),
{
    let mut details: Vec<(String, JsonValue)> = Vec::new();
    let e1 = (owned("kind"), JsonValue::Str(owned("no_capable_peer")));
    let e2 = (owned("op"), JsonValue::Str(owned(op)));
    let e3 = (owned("wire_code"), JsonValue::Str(owned("no_capable_peer")));
    proof {
        lemma_fields_view_push(details@, e1);
    }
    details.push(e1);
    proof {
        lemma_fields_view_push(details@, e2);
    }
    details.push(e2);
    proof {
        lemma_fields_view_push(details@, e3);
    }
    details.push(e3);
    proof {
        assert(fields_view(Seq::<(String, JsonValue)>::empty()) =~= Seq::<(Seq<char>, JsonView)>::empty());
    }
    let mut message = concat3("no capable peer for ", op, ": ");
    message.append(reason);
    let res = Reject { code: owned("CAPABILITY_PORT_MISSING"), message, details: Some(details) };
    proof {
        assert(reject_view(res).details->0 =~= no_capable_peer_view(op@, reason@).details->0);
        assert(reject_view(res).message =~= no_capable_peer_view(op@, reason@).message);
    }
    res
}

// ── Pure selection ───────────────────────────────────────────────────────

/// One selection candidate: a registered peer's id and cached manifest.
#[derive(Debug)]
pub struct SelectablePeer {
    pub peer_id: String,
    pub manifest: PeerManifest,
}

/// The content of a selection candidate.
pub struct PeerView {
    pub peer_id: Seq<char>,
    pub manifest: ManifestView,
}

/// The content of a selection candidate.
pub open spec fn peer_view(p: SelectablePeer) -> PeerView {
    PeerView { peer_id: p.peer_id@, manifest: manifest_view(p.manifest) }
}

/// The content of a candidate list.
pub open spec fn peers_view(c: Seq<SelectablePeer>) -> Seq<PeerView> {
    c.map_values(|p: SelectablePeer| peer_view(p))
}

/// The peer advertises the required capability.
pub open spec fn offers(p: PeerView, cap: Seq<char>) -> bool {
    p.manifest.capabilities.contains(cap)
}

/// The peer advertises the request namespace (always, when the request
/// carries none).
pub open spec fn in_namespace(p: PeerView, ns: Option<Seq<char>>) -> bool {
    match ns {
        None => true,
        Some(n) => p.manifest.namespaces.contains(n),
    }
}

/// The peer's declared authority scope key does not conflict with the
/// request's (skipped unless both sides declare one).
pub open spec fn authority_ok(p: PeerView, sk: Option<Seq<char>>) -> bool {
    match sk {
        None => true,
        Some(k) => match p.manifest.scope_key {
            None => true,
            Some(d) => d == k,
        },
    }
}

/// The peer survives the hard filters up to `level` (1: capability,
/// 2: + namespace, 3: + authority).
pub open spec fn stage_ok(p: PeerView, cap: Seq<char>, ns: Option<Seq<char>>, sk: Option<Seq<char>>, level: int) -> bool {
    &&& offers(p, cap)
    &&& level >= 2 ==> in_namespace(p, ns)
    &&& level >= 3 ==> authority_ok(p, sk)
}

/// The peer carries the preferred role.
pub open spec fn role_ok(p: PeerView, role: Option<Seq<char>>) -> bool {
    match role {
        Some(r) => p.manifest.roles.contains(r),
        None => false,
    }
}

/// Some candidate survives the filters up to `level`.
pub open spec fn any_stage(c: Seq<PeerView>, cap: Seq<char>, ns: Option<Seq<char>>, sk: Option<Seq<char>>, level: int) -> bool {
    exists|j: int| 0 <= j < c.len() && #[trigger] stage_ok(c[j], cap, ns, sk, level)
}

/// Some hard-filter survivor carries the preferred role.
pub open spec fn any_role(c: Seq<PeerView>, cap: Seq<char>, ns: Option<Seq<char>>, sk: Option<Seq<char>>, role: Option<Seq<char>>) -> bool {
    exists|j: int| 0 <= j < c.len() && #[trigger] stage_ok(c[j], cap, ns, sk, 3) && role_ok(c[j], role)
}

/// Candidate `j` is in the final partition: it survives the hard filters
/// and, when any survivor has the preferred role, has it too.
pub open spec fn final_ok(c: Seq<PeerView>, j: int, cap: Seq<char>, ns: Option<Seq<char>>, sk: Option<Seq<char>>, role: Option<Seq<char>>) -> bool {
    &&& stage_ok(c[j], cap, ns, sk, 3)
    &&& any_role(c, cap, ns, sk, role) ==> role_ok(c[j], role)
}

/// `prefix` followed by `value` in double quotes.
pub open spec fn quote_msg(prefix: Seq<char>, value: Seq<char>) -> Seq<char> {
    prefix + "\""@ + value + "\""@
}

/// Why selection rejects, or `None` when some peer is selected.
pub open spec fn selection_reason(c: Seq<PeerView>, op: Seq<char>, payload: JsonValue) -> Option<Seq<char>> {
    let ns = payload_selector(payload, "namespace"@);
    let sk = payload_selector(payload, "scope_key"@);
    if c.len() == 0 {
        Some("no established peer registered"@)
    } else {
        match routing_capability(op) {
            None => Some(quote_msg("no capability mapping for unknown op "@, op)),
            Some(cap) => if !any_stage(c, cap, ns, sk, 1) {
                Some(quote_msg("no peer advertises capability "@, cap))
            } else if !any_stage(c, cap, ns, sk, 2) {
                Some(quote_msg("no peer advertises namespace "@, ns->0))
            } else if !any_stage(c, cap, ns, sk, 3) {
                Some(quote_msg("no peer authority scope key matches "@, sk->0))
            } else {
                None
            },
        }
    }
}

/// Candidate `k` is the selected peer: in the final partition, with the
/// lowest `peer_id` in UTF-8 byte order, and the first such candidate.
pub open spec fn is_selected(c: Seq<PeerView>, op: Seq<char>, payload: JsonValue, k: int) -> bool {
    let ns = payload_selector(payload, "namespace"@);
    let sk = payload_selector(payload, "scope_key"@);
    let role = routing_role(op);
    match routing_capability(op) {
        None => false,
        Some(cap) => {
            &&& 0 <= k < c.len()
            &&& final_ok(c, k, cap, ns, sk, role)
            &&& forall|j: int| 0 <= j < c.len() && #[trigger] final_ok(c, j, cap, ns, sk, role)
                ==> !str_lt(c[j].peer_id, c[k].peer_id)
            &&& forall|j: int| 0 <= j < k && #[trigger] final_ok(c, j, cap, ns, sk, role)
                ==> str_lt(c[k].peer_id, c[j].peer_id)
        },
    }
}

fn has_str(list: &Vec<String>, item: &str) -> (res: bool)
    ensures
        res == strs(list@).contains(item@),
{
    let r = contains_str(list, item);
    proof {
        lemma_seq_has_strs(list@, item@);
    }
    r
}

fn opt_has(list: &Vec<String>, item: &Option<String>) -> (res: bool)
    ensures
        res == match *item {
            None => true,
            Some(n) => strs(list@).contains(n@),
        },
{
    match item {
        None => true,
        Some(n) => has_str(list, n.as_str()),
    }
}

fn authority_check(p: &SelectablePeer, sk: &Option<String>) -> (res: bool)
    ensures
        res == authority_ok(peer_view(*p), crate::manifest::opt_str(*sk)),
{
    match sk {
        None => true,
        Some(k) => match &p.manifest.authority_scope_key {
            None => true,
            Some(d) => str_eq(d.as_str(), k.as_str()),
        },
    }
}

fn stage_check(p: &SelectablePeer, cap: &str, ns: &Option<String>, sk: &Option<String>, level: u8) -> (res: bool)
    ensures
        res == stage_ok(peer_view(*p), cap@, crate::manifest::opt_str(*ns), crate::manifest::opt_str(*sk), level as int),
{
    if !has_str(&p.manifest.capabilities, cap) {
        return false;
    }
    if level >= 2 && !opt_has(&p.manifest.namespaces, ns) {
        return false;
    }
    if level >= 3 && !authority_check(p, sk) {
        return false;
    }
    true
}

fn role_check(p: &SelectablePeer, role: &Option<String>) -> (res: bool)
    ensures
        res == role_ok(peer_view(*p), crate::manifest::opt_str(*role)),
{
    match role {
        Some(r) => has_str(&p.manifest.roles, r.as_str()),
        None => false,
    }
}

fn any_at(c: &[SelectablePeer], cap: &str, ns: &Option<String>, sk: &Option<String>, level: u8) -> (res: bool)
    ensures
        res == any_stage(peers_view(c@), cap@, crate::manifest::opt_str(*ns), crate::manifest::opt_str(*sk), level as int),
{
    let mut i: usize = 0;
    while i < c.len()
        invariant
            i <= c@.len(),
            forall|j: int| 0 <= j < i ==> !#[trigger] stage_ok(peers_view(c@)[j], cap@, crate::manifest::opt_str(*ns),
                crate::manifest::opt_str(*sk), level as int),
        decreases c@.len() - i,
    {
        if stage_check(&c[i], cap, ns, sk, level) {
            assert(peers_view(c@)[i as int] == peer_view(c@[i as int]));
            assert(stage_ok(peers_view(c@)[i as int], cap@, crate::manifest::opt_str(*ns),
                crate::manifest::opt_str(*sk), level as int));
            return true;
        }
        i = i + 1;
    }
    false
}

fn any_role_at(c: &[SelectablePeer], cap: &str, ns: &Option<String>, sk: &Option<String>, role: &Option<String>) -> (res: bool)
    ensures
        res == any_role(peers_view(c@), cap@, crate::manifest::opt_str(*ns), crate::manifest::opt_str(*sk),
            crate::manifest::opt_str(*role)),
{
    let mut i: usize = 0;
    while i < c.len()
        invariant
            i <= c@.len(),
            forall|j: int| 0 <= j < i ==> !(#[trigger] stage_ok(peers_view(c@)[j], cap@, crate::manifest::opt_str(*ns),
                crate::manifest::opt_str(*sk), 3) && role_ok(peers_view(c@)[j], crate::manifest::opt_str(*role))),
        decreases c@.len() - i,
    {
        if stage_check(&c[i], cap, ns, sk, 3) && role_check(&c[i], role) {
            assert(peers_view(c@)[i as int] == peer_view(c@[i as int]));
            assert(stage_ok(peers_view(c@)[i as int], cap@, crate::manifest::opt_str(*ns),
                crate::manifest::opt_str(*sk), 3));
            return true;
        }
        i = i + 1;
    }
    false
}

/// Renders `"<prefix>\"<value>\""`.
fn quoted(prefix: &str, value: &str) -> (res: String)
    ensures
        res@ == quote_msg(prefix@, value@),
{
    let mut r = concat3(prefix, "\"", value);
    r.append("\"");
    r
}

/// The locked selection algorithm over an explicit candidate set:
/// capability filter (ops outside the table are rejected outright),
/// namespace filter, authority filter, role preference, then the lowest
/// `peer_id` in UTF-8 byte order. A no-capable-peer reject is terminal.
pub fn select_peer_for_op(candidates: &[SelectablePeer], op: &str, payload: &JsonValue) -> (res: Result<SelectablePeer, Reject>)
    ensures
        match selection_reason(peers_view(candidates@), op@, *payload) {
            Some(reason) => res is Err && reject_view(res->Err_0) == no_capable_peer_view(op@, reason),
            None => res is Ok && exists|k: int| #[trigger] is_selected(peers_view(candidates@), op@, *payload, k)
                && peer_view(res->Ok_0) == peers_view(candidates@)[k],
        },
{
    let ghost c = peers_view(candidates@);
    if candidates.len() == 0 {
        return Err(no_capable_peer(op, "no established peer registered"));
    }
    let cap = match required_capability(op) {
        Some(cap) => cap,
        None => {
            let reason = quoted("no capability mapping for unknown op ", op);
            return Err(no_capable_peer(op, reason.as_str()));
        },
    };
    let ns = request_namespace(payload);
    let sk = request_scope_key(payload);
    let role = preferred_role(op);
    let ghost nsv = crate::manifest::opt_str(ns);
    let ghost skv = crate::manifest::opt_str(sk);
    let ghost rolev = crate::manifest::opt_str(role);
    if !any_at(candidates, cap.as_str(), &ns, &sk, 1) {
        let reason = quoted("no peer advertises capability ", cap.as_str());
        return Err(no_capable_peer(op, reason.as_str()));
    }
    if !any_at(candidates, cap.as_str(), &ns, &sk, 2) {
        // A missing namespace never empties the survivor set.
        let n = match &ns {
            Some(n) => n.clone(),
            None => {
                proof {
                    let j = choose|j: int| 0 <= j < c.len() && #[trigger] stage_ok(c[j], cap@, nsv, skv, 1);
                    assert(stage_ok(c[j], cap@, nsv, skv, 2));
                }
                owned("")
            },
        };
        let reason = quoted("no peer advertises namespace ", n.as_str());
        return Err(no_capable_peer(op, reason.as_str()));
    }
    if !any_at(candidates, cap.as_str(), &ns, &sk, 3) {
        let k = match &sk {
            Some(k) => k.clone(),
            None => {
                proof {
                    let j = choose|j: int| 0 <= j < c.len() && #[trigger] stage_ok(c[j], cap@, nsv, skv, 2);
                    assert(stage_ok(c[j], cap@, nsv, skv, 3));
                }
                owned("")
            },
        };
        let reason = quoted("no peer authority scope key matches ", k.as_str());
        return Err(no_capable_peer(op, reason.as_str()));
    }
    let role_present = any_role_at(candidates, cap.as_str(), &ns, &sk, &role);

    // Scan in candidate order keeping the first strict minimum.
    let mut best: usize = 0;
    let mut found = false;
    let mut i: usize = 0;
    while i < candidates.len()
        invariant
            c == peers_view(candidates@),
            c.len() == candidates@.len(),
            nsv == crate::manifest::opt_str(ns),
            skv == crate::manifest::opt_str(sk),
            rolev == crate::manifest::opt_str(role),
            i <= c.len(),
            role_present == any_role(c, cap@, nsv, skv, rolev),
            found ==> best < i,
            found ==> final_ok(c, best as int, cap@, nsv, skv, rolev),
            found ==> forall|j: int| 0 <= j < i && #[trigger] final_ok(c, j, cap@, nsv, skv, rolev)
                ==> !str_lt(c[j].peer_id, c[best as int].peer_id),
            found ==> forall|j: int| 0 <= j < best && #[trigger] final_ok(c, j, cap@, nsv, skv, rolev)
                ==> str_lt(c[best as int].peer_id, c[j].peer_id),
            !found ==> forall|j: int| 0 <= j < i ==> !#[trigger] final_ok(c, j, cap@, nsv, skv, rolev),
        decreases c.len() - i,
    {
        let ok = stage_check(&candidates[i], cap.as_str(), &ns, &sk, 3)
            && (!role_present || role_check(&candidates[i], &role));
        assert(ok == final_ok(c, i as int, cap@, nsv, skv, rolev));
        if ok {
            if !found {
                proof {
                    lemma_bytes_lt_irreflexive(utf8_key(c[i as int].peer_id));
                }
                best = i;
                found = true;
            } else if str_less(candidates[i].peer_id.as_str(), candidates[best].peer_id.as_str()) {
                proof {
                    let ki = utf8_key(c[i as int].peer_id);
                    let kb = utf8_key(c[best as int].peer_id);
                    assert forall|j: int| 0 <= j < i + 1 && #[trigger] final_ok(c, j, cap@, nsv, skv, rolev)
                        implies !str_lt(c[j].peer_id, c[i as int].peer_id) by {
                        let kj = utf8_key(c[j].peer_id);
                        if j == i {
                            lemma_bytes_lt_irreflexive(ki);
                        } else if crate::order::bytes_lt(kj, ki) {
                            lemma_bytes_lt_transitive(kj, ki, kb);
                        }
                    }
                    assert forall|j: int| 0 <= j < i && #[trigger] final_ok(c, j, cap@, nsv, skv, rolev)
                        implies str_lt(c[i as int].peer_id, c[j].peer_id) by {
                        let kj = utf8_key(c[j].peer_id);
                        lemma_bytes_lt_le(ki, kb, kj);
                    }
                }
                best = i;
            } else {
                proof {
                    let ki = utf8_key(c[i as int].peer_id);
                    let kb = utf8_key(c[best as int].peer_id);
                    assert(!crate::order::bytes_lt(ki, kb));
                }
            }
        }
        i = i + 1;
    }
    proof {
        let j = choose|j: int| 0 <= j < c.len() && #[trigger] stage_ok(c[j], cap@, nsv, skv, 3);
        if role_present {
            let r = choose|r: int| 0 <= r < c.len() && #[trigger] stage_ok(c[r], cap@, nsv, skv, 3)
                && role_ok(c[r], rolev);
            assert(final_ok(c, r, cap@, nsv, skv, rolev));
        } else {
            assert(final_ok(c, j, cap@, nsv, skv, rolev));
        }
        assert(found);
        assert(is_selected(c, op@, *payload, best as int));
    }
    Ok(SelectablePeer {
        peer_id: candidates[best].peer_id.clone(),
        manifest: clone_manifest(&candidates[best].manifest),
    })
}

// ── Laws of selection ────────────────────────────────────────────────────

/// The selected peer satisfies every hard filter: it advertises the op's
/// required capability, the request namespace (if any) and a
/// non-conflicting authority scope key.
pub proof fn law_selected_peer_is_capable(c: Seq<PeerView>, op: Seq<char>, payload: JsonValue, k: int)
    requires
        is_selected(c, op, payload, k),
    ensures
        routing_capability(op) is Some,
        offers(c[k], routing_capability(op)->0),
        in_namespace(c[k], payload_selector(payload, "namespace"@)),
        authority_ok(c[k], payload_selector(payload, "scope_key"@)),
{
}

/// Selection is deterministic: at most one candidate is selected.
pub proof fn law_selection_unique(c: Seq<PeerView>, op: Seq<char>, payload: JsonValue, k1: int, k2: int)
    requires
        is_selected(c, op, payload, k1),
        is_selected(c, op, payload, k2),
    ensures
        k1 == k2,
{
    let ns = payload_selector(payload, "namespace"@);
    let sk = payload_selector(payload, "scope_key"@);
    let role = routing_role(op);
    let cap = routing_capability(op)->0;
    if k1 < k2 {
        assert(final_ok(c, k1, cap, ns, sk, role));
        lemma_bytes_lt_asymmetric(utf8_key(c[k2].peer_id), utf8_key(c[k1].peer_id));
    } else if k2 < k1 {
        assert(final_ok(c, k2, cap, ns, sk, role));
        lemma_bytes_lt_asymmetric(utf8_key(c[k1].peer_id), utf8_key(c[k2].peer_id));
    }
}

/// The tie-break: no peer in the final partition has a lower `peer_id`
/// than the selected one, and the role preference only narrows the
/// partition when some survivor has the role.
pub proof fn law_lowest_peer_id_wins(c: Seq<PeerView>, op: Seq<char>, payload: JsonValue, k: int, j: int)
    requires
        is_selected(c, op, payload, k),
        0 <= j < c.len(),
        stage_ok(c[j], routing_capability(op)->0, payload_selector(payload, "namespace"@),
            payload_selector(payload, "scope_key"@), 3),
        role_ok(c[j], routing_role(op)) || !role_ok(c[k], routing_role(op)),
    ensures
        !str_lt(c[j].peer_id, c[k].peer_id),
{
    let ns = payload_selector(payload, "namespace"@);
    let sk = payload_selector(payload, "scope_key"@);
    let role = routing_role(op);
    let cap = routing_capability(op)->0;
    if role_ok(c[j], role) {
        assert(final_ok(c, j, cap, ns, sk, role));
    } else {
        assert(!any_role(c, cap, ns, sk, role));
        assert(final_ok(c, j, cap, ns, sk, role));
    }
}

/// Selection succeeds exactly when some candidate survives the three hard
/// filters for an op the table knows; the role preference never rejects.
pub proof fn law_selection_succeeds_iff_capable(c: Seq<PeerView>, op: Seq<char>, payload: JsonValue)
    ensures
        (selection_reason(c, op, payload) is None) <==> (routing_capability(op) is Some && any_stage(c,
            routing_capability(op)->0, payload_selector(payload, "namespace"@),
            payload_selector(payload, "scope_key"@), 3)),
{
    let ns = payload_selector(payload, "namespace"@);
    let sk = payload_selector(payload, "scope_key"@);
    if routing_capability(op) is Some {
        let cap = routing_capability(op)->0;
        if any_stage(c, cap, ns, sk, 3) {
            let j = choose|j: int| 0 <= j < c.len() && #[trigger] stage_ok(c[j], cap, ns, sk, 3);
            assert(stage_ok(c[j], cap, ns, sk, 2));
            assert(stage_ok(c[j], cap, ns, sk, 1));
        }
    }
}

/// An op outside the routing table is always rejected, never routed
/// ungated.
pub proof fn law_unknown_op_rejected(c: Seq<PeerView>, op: Seq<char>, payload: JsonValue)
    requires
        c.len() > 0,
        routing_capability(op) is None,
    ensures
        selection_reason(c, op, payload) == Some(quote_msg("no capability mapping for unknown op "@, op)),
{
}

/// Two candidate lists hold the same peers.
pub open spec fn same_members(c1: Seq<PeerView>, c2: Seq<PeerView>) -> bool {
    forall|p: PeerView| c1.contains(p) <==> c2.contains(p)
}

/// No two candidates share a peer id.
pub open spec fn peer_ids_distinct(c: Seq<PeerView>) -> bool {
    forall|i: int, j: int| 0 <= i < c.len() && 0 <= j < c.len() && i != j ==> c[i].peer_id != c[j].peer_id
}

/// The filters see only membership.
proof fn lemma_same_members_filters(c1: Seq<PeerView>, c2: Seq<PeerView>, cap: Seq<char>,
    ns: Option<Seq<char>>, sk: Option<Seq<char>>, role: Option<Seq<char>>)
    requires
        same_members(c1, c2),
    ensures
        (c1.len() == 0) == (c2.len() == 0),
        forall|level: int| any_stage(c1, cap, ns, sk, level) == #[trigger] any_stage(c2, cap, ns, sk, level),
        any_role(c1, cap, ns, sk, role) == any_role(c2, cap, ns, sk, role),
{
    if c1.len() > 0 {
        assert(c1.contains(c1[0]));
    }
    if c2.len() > 0 {
        assert(c2.contains(c2[0]));
    }
    assert forall|level: int| any_stage(c1, cap, ns, sk, level) == #[trigger] any_stage(c2, cap, ns, sk, level) by {
        if any_stage(c1, cap, ns, sk, level) {
            let j = choose|j: int| 0 <= j < c1.len() && #[trigger] stage_ok(c1[j], cap, ns, sk, level);
            assert(c1.contains(c1[j]));
            let m = choose|m: int| 0 <= m < c2.len() && c2[m] == c1[j];
            assert(stage_ok(c2[m], cap, ns, sk, level));
        }
        if any_stage(c2, cap, ns, sk, level) {
            let j = choose|j: int| 0 <= j < c2.len() && #[trigger] stage_ok(c2[j], cap, ns, sk, level);
            assert(c2.contains(c2[j]));
            let m = choose|m: int| 0 <= m < c1.len() && c1[m] == c2[j];
            assert(stage_ok(c1[m], cap, ns, sk, level));
        }
    }
    if any_role(c1, cap, ns, sk, role) {
        let j = choose|j: int| 0 <= j < c1.len() && #[trigger] stage_ok(c1[j], cap, ns, sk, 3) && role_ok(c1[j], role);
        assert(c1.contains(c1[j]));
        let m = choose|m: int| 0 <= m < c2.len() && c2[m] == c1[j];
        assert(stage_ok(c2[m], cap, ns, sk, 3) && role_ok(c2[m], role));
    }
    if any_role(c2, cap, ns, sk, role) {
        let j = choose|j: int| 0 <= j < c2.len() && #[trigger] stage_ok(c2[j], cap, ns, sk, 3) && role_ok(c2[j], role);
        assert(c2.contains(c2[j]));
        let m = choose|m: int| 0 <= m < c1.len() && c1[m] == c2[j];
        assert(stage_ok(c1[m], cap, ns, sk, 3) && role_ok(c1[m], role));
    }
}

/// Selection never depends on candidate order: on the same peers (with
/// distinct ids) in any order, the reject reason is the same, and so is
/// the selected peer.
pub proof fn law_selection_ignores_order(c1: Seq<PeerView>, c2: Seq<PeerView>, op: Seq<char>, payload: JsonValue)
    requires
        same_members(c1, c2),
        peer_ids_distinct(c1),
        peer_ids_distinct(c2),
    ensures
        selection_reason(c1, op, payload) == selection_reason(c2, op, payload),
        forall|k1: int, k2: int| is_selected(c1, op, payload, k1) && is_selected(c2, op, payload, k2)
            ==> #[trigger] c1[k1] == #[trigger] c2[k2],
{
    let ns = payload_selector(payload, "namespace"@);
    let sk = payload_selector(payload, "scope_key"@);
    let role = routing_role(op);
    match routing_capability(op) {
        None => {
            lemma_same_members_filters(c1, c2, Seq::empty(), ns, sk, role);
        },
        Some(cap) => {
            lemma_same_members_filters(c1, c2, cap, ns, sk, role);
            assert(any_stage(c1, cap, ns, sk, 1) == any_stage(c2, cap, ns, sk, 1));
            assert(any_stage(c1, cap, ns, sk, 2) == any_stage(c2, cap, ns, sk, 2));
            assert(any_stage(c1, cap, ns, sk, 3) == any_stage(c2, cap, ns, sk, 3));
            assert forall|k1: int, k2: int| is_selected(c1, op, payload, k1) && is_selected(c2, op, payload, k2)
                implies #[trigger] c1[k1] == #[trigger] c2[k2] by {
                assert(c1.contains(c1[k1]));
                let j = choose|j: int| 0 <= j < c2.len() && c2[j] == c1[k1];
                assert(final_ok(c2, j, cap, ns, sk, role));
                assert(!str_lt(c2[j].peer_id, c2[k2].peer_id));
                assert(c2.contains(c2[k2]));
                let m = choose|m: int| 0 <= m < c1.len() && c1[m] == c2[k2];
                assert(final_ok(c1, m, cap, ns, sk, role));
                assert(!str_lt(c1[m].peer_id, c1[k1].peer_id));
                let a = c1[k1].peer_id;
                let b = c2[k2].peer_id;
                if a != b {
                    if utf8_key(a) == utf8_key(b) {
                        lemma_utf8_key_injective(a, b);
                    }
                    lemma_bytes_lt_total(utf8_key(a), utf8_key(b));
                }
                assert(c1[m].peer_id == c1[k1].peer_id);
                assert(m == k1);
            }
        },
    }
}

/// The routing table agrees with the core dispatch table and the port
/// catalogue: every op the core table gates (tools, the orchestrated
/// baseline families, the computable families) routes on the capability
/// the core requires for it, and every baseline port op the router
/// delegates routes on the capability its port requires. So a peer the
/// router selects for such an op is one whose session would let it run.
pub proof fn law_routing_agrees_with_dispatch(op: Seq<char>)
    ensures
        core_required_capability(op) is Some ==> routing_capability(op) == core_required_capability(op),
        is_port_baseline_op(op) ==> routing_capability(op) == port_requirement(op),
        is_port_baseline_op(op) ==> routing_capability(op) == Some("spoke-baseline"@),
{
    reveal_strlit("tools.");
    reveal_strlit("port.knowledge.get");
    reveal_strlit("port.knowledge.put");
    reveal_strlit("port.relation.get");
    reveal_strlit("port.relation.put");
    reveal_strlit("port.scope.list_knowledge_entries");
    reveal_strlit("port.scope.list_timeline_events");
    reveal_strlit("port.finding.put");
    reveal_strlit("port.rule.list");
    reveal_strlit("upsert");
    reveal_strlit("promote");
    reveal_strlit("relate");
    reveal_strlit("check");
    reveal_strlit("assemble");
    reveal_strlit("project");
    reveal_strlit("compute");
    if is_port_baseline_op(op) && has_prefix(op, "tools."@) {
        assert(op.subrange(0, 6)[0] == op[0]);
        assert(op[0] == 'p');
        assert("tools."@[0] == 't');
    }
}

} // verus!
