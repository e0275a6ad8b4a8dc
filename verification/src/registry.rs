//! The multi-peer router: a registry of established per-peer adapters, the
//! per-call capability selection over the Established ones, and the
//! locally composed manifest views.

use vstd::prelude::*;
use crate::json::JsonValue;
use crate::text::{str_eq, owned};
use crate::manifest::{PeerManifest, ManifestView, manifest_view, strs, opt_str, clone_manifest, clone_strings,
    ToolDescriptor, ToolView, tool_view, tools_view, clone_tool, lemma_seq_has_strs};
use crate::text::contains_str;
use crate::order::{str_lt, utf8_key, key_of, sort_positions, sorted_positions, has_pos, keys_distinct,
    lemma_stable_sorted_distinct,
    lemma_utf8_key_injective};
use crate::lifecycle::RemoteAdapterState;
use crate::router::{PeerView, peer_view, peers_view, SelectablePeer, select_peer_for_op,
    selection_reason, is_selected, no_capable_peer_view, no_capable_peer};
use crate::reject::{Reject, reject_view};

verus! {

/// The router's own identity when none is configured.
pub open spec fn default_router_host_id() -> Seq<char> {
    "multi-peer-router"@
}

/// The per-peer adapter surface the router composes: its read-only session
/// getters (the port calls are delegated by the caller).
pub trait RoutedRemoteAdapter {
    /// `id` is a remote peer id this adapter reports (what
    /// `remote_peer_id` hands back). An adapter may say which; by default
    /// nothing more is known of it.
    closed spec fn reports_peer_id(&self, id: Option<Seq<char>>) -> bool {
        true
    }
    /// `m` is a remote manifest this adapter reports (what
    /// `remote_manifest` hands back).
    closed spec fn reports_manifest(&self, m: Option<ManifestView>) -> bool {
        true
    }
    /// The adapter's current session state.
    fn state(&self) -> RemoteAdapterState;
    /// The verified remote peer id, once a session is established.
    fn remote_peer_id(&self) -> (res: Option<String>)
        ensures
            self.reports_peer_id(opt_str(res));
    /// The remote peer's manifest from its authenticated hello.
    fn remote_manifest(&self) -> (res: Option<PeerManifest>)
        ensures
            self.reports_manifest(opt_manifest_view(res));
}

/// An optional manifest by its view.
pub open spec fn opt_manifest_view(m: Option<PeerManifest>) -> Option<ManifestView> {
    match m {
        Some(x) => Some(manifest_view(x)),
        None => None,
    }
}

/// Constructor options: the router's own host identity (defaults to
/// `multi-peer-router`; an empty id counts as unset).
#[derive(Debug, Default)]
pub struct MultiPeerRouterOptions {
    pub host_id: Option<String>,
}

/// Registration failure: the adapter has no established connect session.
#[derive(Debug, Clone, Copy, PartialEq, Eq, Structural)]
pub enum MultiPeerRouterError {
    /// No verified remote peer id.
    NoPeerId,
    /// No cached remote capability manifest.
    NoManifest,
}

/// The message of a registration failure.
pub open spec fn router_error_message(e: MultiPeerRouterError) -> Seq<char> {
    match e {
        MultiPeerRouterError::NoPeerId => "registerPeer requires an adapter with an established connect session (verified remote peer id unavailable)"@,
        MultiPeerRouterError::NoManifest => "registerPeer requires an adapter with an established connect session (remote capability manifest unavailable)"@,
    }
}

impl MultiPeerRouterError {
    /// The message of this failure.
    pub fn message(&self) -> (res: &'static str)
        ensures
            res@ == router_error_message(*self),
    {
        match self {
            MultiPeerRouterError::NoPeerId => "registerPeer requires an adapter with an established connect session (verified remote peer id unavailable)",
            MultiPeerRouterError::NoManifest => "registerPeer requires an adapter with an established connect session (remote capability manifest unavailable)",
        }
    }
}

/// A registered peer: its id, the stored adapter and the manifest cached at
/// registration.
pub struct RegisteredPeer<A> {
    pub peer_id: String,
    pub adapter: A,
    pub manifest: PeerManifest,
}

/// The content of a registry entry.
pub open spec fn entry_view<A>(e: RegisteredPeer<A>) -> PeerView {
    PeerView { peer_id: e.peer_id@, manifest: manifest_view(e.manifest) }
}

/// The Established entries, in registry order (`states[i]` is the state
/// of entry `i`).
pub open spec fn established_view(entries: Seq<PeerView>, states: Seq<RemoteAdapterState>) -> Seq<PeerView>
    decreases entries.len(),
{
    if entries.len() == 0 || states.len() == 0 {
        Seq::empty()
    } else {
        let kept = established_view(entries.drop_last(), states.drop_last());
        if states.last() == RemoteAdapterState::Established {
            kept.push(entries.last())
        } else {
            kept
        }
    }
}

/// Ids ascend strictly in UTF-8 byte order.
pub open spec fn id_sorted(s: Seq<PeerView>) -> bool {
    forall|a: int, b: int| 0 <= a < b < s.len() ==> str_lt(#[trigger] s[a].peer_id, #[trigger] s[b].peer_id)
}

/// Capability ids ascend strictly in UTF-8 byte order.
pub open spec fn tool_sorted(s: Seq<ToolView>) -> bool {
    forall|a: int, b: int| 0 <= a < b < s.len() ==> str_lt(#[trigger] s[a].capability_id, #[trigger] s[b].capability_id)
}

/// `s` and `t` have the same length and the same elements.
pub open spec fn same_elements<T>(s: Seq<T>, t: Seq<T>) -> bool {
    &&& s.len() == t.len()
    &&& forall|a: int| 0 <= a < s.len() ==> t.contains(#[trigger] s[a])
    &&& forall|b: int| 0 <= b < t.len() ==> s.contains(#[trigger] t[b])
}

/// Concatenation of a list of lists.
pub open spec fn flatten_lists<T>(lists: Seq<Seq<T>>) -> Seq<T>
    decreases lists.len(),
{
    if lists.len() == 0 {
        Seq::empty()
    } else {
        flatten_lists(lists.drop_last()) + lists.last()
    }
}

/// `s` without repeats, keeping each first occurrence in order.
pub open spec fn dedup_first(s: Seq<Seq<char>>) -> Seq<Seq<char>>
    decreases s.len(),
{
    if s.len() == 0 {
        Seq::empty()
    } else {
        let d = dedup_first(s.drop_last());
        if d.contains(s.last()) {
            d
        } else {
            d.push(s.last())
        }
    }
}

/// The position of the first occurrence of `x` in `s` (meaningful when
/// `s` contains `x`).
pub open spec fn first_pos(s: Seq<Seq<char>>, x: Seq<char>) -> int
    decreases s.len(),
{
    if s.len() == 0 {
        0
    } else if s.drop_last().contains(x) {
        first_pos(s.drop_last(), x)
    } else {
        s.len() - 1
    }
}

/// `first_pos` finds a first occurrence.
proof fn lemma_first_pos(s: Seq<Seq<char>>, x: Seq<char>)
    requires
        s.contains(x),
    ensures
        0 <= first_pos(s, x) < s.len(),
        s[first_pos(s, x)] == x,
        forall|q: int| 0 <= q < first_pos(s, x) ==> s[q] != x,
    decreases s.len(),
{
    let t = s.drop_last();
    if t.contains(x) {
        lemma_first_pos(t, x);
        assert forall|q: int| 0 <= q < first_pos(s, x) implies s[q] != x by {
            assert(t[q] == s[q]);
        }
        assert(s[first_pos(s, x)] == t[first_pos(t, x)]);
    } else {
        assert forall|q: int| 0 <= q < s.len() - 1 implies s[q] != x by {
            assert(t[q] == s[q]);
        }
        let w = choose|w: int| 0 <= w < s.len() && s[w] == x;
        if w < s.len() - 1 {
            assert(t[w] == x);
        }
    }
}

/// `dedup_first` keeps each element once, exactly the elements of `s`,
/// in the order of their first occurrences.
proof fn lemma_dedup_first(s: Seq<Seq<char>>)
    ensures
        forall|i: int, j: int| 0 <= i < j < dedup_first(s).len() ==> dedup_first(s)[i] != dedup_first(s)[j],
        forall|x: Seq<char>| dedup_first(s).contains(x) <==> s.contains(x),
        forall|i: int, j: int| 0 <= i < j < dedup_first(s).len() ==>
            first_pos(s, #[trigger] dedup_first(s)[i]) < first_pos(s, #[trigger] dedup_first(s)[j]),
        forall|i: int| 0 <= i < dedup_first(s).len() ==> first_pos(s, #[trigger] dedup_first(s)[i]) < s.len(),
    decreases s.len(),
{
    if s.len() > 0 {
        let t = s.drop_last();
        let l = s.last();
        let d = dedup_first(t);
        lemma_dedup_first(t);
        assert forall|x: Seq<char>| s.contains(x) <==> (t.contains(x) || x == l) by {
            if s.contains(x) && x != l {
                let w = choose|w: int| 0 <= w < s.len() && s[w] == x;
                assert(t[w] == x);
            }
            if t.contains(x) {
                let w = choose|w: int| 0 <= w < t.len() && t[w] == x;
                assert(s[w] == x);
            }
            if x == l {
                assert(s[s.len() - 1] == x);
            }
        }
        assert forall|x: Seq<char>| t.contains(x) implies first_pos(s, x) == first_pos(t, x) by {}
        if d.contains(l) {
            assert(dedup_first(s) == d);
            assert forall|i: int| 0 <= i < d.len() implies first_pos(s, #[trigger] d[i]) < s.len() by {
                assert(d.contains(d[i]));
            }
            assert forall|i: int, j: int| 0 <= i < j < d.len() implies
                first_pos(s, #[trigger] d[i]) < first_pos(s, #[trigger] d[j]) by {
                assert(d.contains(d[i]));
                assert(d.contains(d[j]));
            }
        } else {
            let e = d.push(l);
            assert(dedup_first(s) == e);
            assert(!t.contains(l));
            assert(first_pos(s, l) == s.len() - 1);
            assert forall|i: int| 0 <= i < e.len() implies first_pos(s, #[trigger] e[i]) < s.len() by {
                if i < d.len() {
                    assert(e[i] == d[i]);
                    assert(d.contains(d[i]));
                }
            }
            assert forall|i: int, j: int| 0 <= i < j < e.len() implies e[i] != e[j] by {
                if j == d.len() {
                    assert(e[i] == d[i]);
                    assert(d.contains(d[i]));
                } else {
                    assert(e[i] == d[i] && e[j] == d[j]);
                }
            }
            assert forall|i: int, j: int| 0 <= i < j < e.len() implies
                first_pos(s, #[trigger] e[i]) < first_pos(s, #[trigger] e[j]) by {
                assert(e[i] == d[i]);
                assert(d.contains(d[i]));
                if j < d.len() {
                    assert(e[j] == d[j]);
                    assert(d.contains(d[j]));
                }
            }
            assert forall|x: Seq<char>| e.contains(x) <==> s.contains(x) by {
                if e.contains(x) {
                    let w = choose|w: int| 0 <= w < e.len() && e[w] == x;
                    if w < d.len() {
                        assert(d[w] == x);
                    }
                }
                if d.contains(x) {
                    let w = choose|w: int| 0 <= w < d.len() && d[w] == x;
                    assert(e[w] == x);
                }
                if x == l {
                    assert(e[d.len() as int] == x);
                }
            }
        }
    }
}

/// An element is in the concatenation of lists iff some list holds it.
proof fn lemma_flatten_contains(lists: Seq<Seq<Seq<char>>>, x: Seq<char>)
    ensures
        flatten_lists(lists).contains(x) <==> exists|k: int| 0 <= k < lists.len() && #[trigger] lists[k].contains(x),
    decreases lists.len(),
{
    if lists.len() > 0 {
        let init = lists.drop_last();
        let l = lists.last();
        lemma_flatten_contains(init, x);
        let f = flatten_lists(init);
        assert(flatten_lists(lists) == f + l);
        if (f + l).contains(x) {
            let w = choose|w: int| 0 <= w < (f + l).len() && (f + l)[w] == x;
            if w < f.len() {
                assert(f[w] == x);
                let k = choose|k: int| 0 <= k < init.len() && #[trigger] init[k].contains(x);
                assert(lists[k] == init[k]);
            } else {
                assert(l[w - f.len()] == x);
                assert(lists[lists.len() - 1].contains(x));
            }
        }
        if exists|k: int| 0 <= k < lists.len() && #[trigger] lists[k].contains(x) {
            let k = choose|k: int| 0 <= k < lists.len() && #[trigger] lists[k].contains(x);
            if k < init.len() {
                assert(init[k] == lists[k]);
                let w = choose|w: int| 0 <= w < f.len() && f[w] == x;
                assert((f + l)[w] == x);
            } else {
                let w = choose|w: int| 0 <= w < l.len() && l[w] == x;
                assert((f + l)[f.len() + w] == x);
            }
        }
    }
}

/// The union of string lists: no duplicates; as a set, exactly the union
/// of the lists; in first-seen order across the lists concatenated; and
/// empty when every list is.
pub proof fn law_union_first_seen(lists: Seq<Seq<Seq<char>>>)
    ensures
        forall|i: int, j: int| 0 <= i < j < union_first_seen(lists).len() ==>
            union_first_seen(lists)[i] != union_first_seen(lists)[j],
        forall|x: Seq<char>| #[trigger] union_first_seen(lists).contains(x) <==>
            exists|k: int| 0 <= k < lists.len() && #[trigger] lists[k].contains(x),
        forall|i: int, j: int| 0 <= i < j < union_first_seen(lists).len() ==>
            first_pos(flatten_lists(lists), #[trigger] union_first_seen(lists)[i])
                < first_pos(flatten_lists(lists), #[trigger] union_first_seen(lists)[j]),
        forall|i: int| 0 <= i < union_first_seen(lists).len() ==> {
            let p = first_pos(flatten_lists(lists), #[trigger] union_first_seen(lists)[i]);
            &&& 0 <= p < flatten_lists(lists).len()
            &&& flatten_lists(lists)[p] == union_first_seen(lists)[i]
            &&& forall|q: int| 0 <= q < p ==> flatten_lists(lists)[q] != union_first_seen(lists)[i]
        },
        (forall|k: int| 0 <= k < lists.len() ==> #[trigger] lists[k].len() == 0) ==> union_first_seen(lists).len() == 0,
{
    lemma_dedup_first(flatten_lists(lists));
    assert forall|i: int| 0 <= i < union_first_seen(lists).len() implies {
        let p = first_pos(flatten_lists(lists), #[trigger] union_first_seen(lists)[i]);
        &&& 0 <= p < flatten_lists(lists).len()
        &&& flatten_lists(lists)[p] == union_first_seen(lists)[i]
        &&& forall|q: int| 0 <= q < p ==> flatten_lists(lists)[q] != union_first_seen(lists)[i]
    } by {
        assert(union_first_seen(lists).contains(union_first_seen(lists)[i]));
        lemma_first_pos(flatten_lists(lists), union_first_seen(lists)[i]);
    }
    assert forall|x: Seq<char>| #[trigger] union_first_seen(lists).contains(x) <==>
        exists|k: int| 0 <= k < lists.len() && #[trigger] lists[k].contains(x) by {
        lemma_flatten_contains(lists, x);
    }
    if forall|k: int| 0 <= k < lists.len() ==> #[trigger] lists[k].len() == 0 {
        if union_first_seen(lists).len() > 0 {
            let x = union_first_seen(lists)[0];
            assert(union_first_seen(lists).contains(x));
            let k = choose|k: int| 0 <= k < lists.len() && #[trigger] lists[k].contains(x);
            assert(lists[k].len() == 0);
        }
    }
}

/// Set-union preserving first-seen order across the lists.
pub open spec fn union_first_seen(lists: Seq<Seq<Seq<char>>>) -> Seq<Seq<char>> {
    dedup_first(flatten_lists(lists))
}

/// Some tool in `d` has capability id `id`.
pub open spec fn has_tool_id(d: Seq<ToolView>, id: Seq<char>) -> bool {
    exists|i: int| 0 <= i < d.len() && #[trigger] d[i].capability_id == id
}

/// Tools deduplicated by capability id, first occurrence wins, in order.
pub open spec fn dedup_tools(s: Seq<ToolView>) -> Seq<ToolView>
    decreases s.len(),
{
    if s.len() == 0 {
        Seq::empty()
    } else {
        let d = dedup_tools(s.drop_last());
        if has_tool_id(d, s.last().capability_id) {
            d
        } else {
            d.push(s.last())
        }
    }
}

/// The composed manifest view of a router.
#[derive(Debug)]
pub struct ComposedManifest {
    pub host_id: String,
    /// The manifest schema version (always 1).
    pub schema_version: u64,
    /// `authority.scope_key`: the router declares no authority.
    pub authority_scope_key: Option<String>,
    pub capabilities: Vec<String>,
    pub roles: Vec<String>,
    pub namespaces: Vec<String>,
    pub tools: Vec<ToolDescriptor>,
    /// The contributing peer ids (`extensions.router.peers`).
    pub peers: Vec<String>,
}

/// `res` is the composed view of the connected peers `conn` (already in
/// peer-id order) for a router whose own host id is `host`.
pub open spec fn composed_of(res: ComposedManifest, conn: Seq<PeerView>, host: Seq<char>) -> bool {
    &&& res.host_id@ == host
    &&& res.schema_version == 1
    &&& res.authority_scope_key is None
    &&& strs(res.capabilities@) == union_first_seen(conn.map_values(|p: PeerView| p.manifest.capabilities))
    &&& strs(res.roles@) == union_first_seen(conn.map_values(|p: PeerView| p.manifest.roles))
    &&& strs(res.namespaces@) == union_first_seen(conn.map_values(|p: PeerView| p.manifest.namespaces))
    &&& tool_sorted(tools_view(res.tools@))
    &&& same_elements(tools_view(res.tools@),
        dedup_tools(flatten_lists(conn.map_values(|p: PeerView| p.manifest.tools))))
    &&& strs(res.peers@) == conn.map_values(|p: PeerView| p.peer_id)
}

/// Set-union of string lists preserving first-seen order.
pub fn union_of_strings(arrays: &Vec<Vec<String>>) -> (res: Vec<String>)
    ensures
        strs(res@) == union_first_seen(arrays@.map_values(|v: Vec<String>| strs(v@))),
{
    let ghost lists = arrays@.map_values(|v: Vec<String>| strs(v@));
    let mut out: Vec<String> = Vec::new();
    let mut i: usize = 0;
    while i < arrays.len()
        invariant
            lists == arrays@.map_values(|v: Vec<String>| strs(v@)),
            i <= arrays@.len(),
            strs(out@) == dedup_first(flatten_lists(lists.subrange(0, i as int))),
        decreases arrays@.len() - i,
    {
        let ghost base = flatten_lists(lists.subrange(0, i as int));
        let mut k: usize = 0;
        while k < arrays[i].len()
            invariant
                lists == arrays@.map_values(|v: Vec<String>| strs(v@)),
                i < arrays@.len(),
                k <= arrays@[i as int]@.len(),
                base == flatten_lists(lists.subrange(0, i as int)),
                strs(out@) == dedup_first(base + lists[i as int].subrange(0, k as int)),
            decreases arrays@[i as int]@.len() - k,
        {
            let ghost pre = base + lists[i as int].subrange(0, k as int);
            let ghost x = arrays@[i as int]@[k as int]@;
            let present = contains_str(&out, arrays[i][k].as_str());
            proof {
                lemma_seq_has_strs(out@, x);
                assert((base + lists[i as int].subrange(0, k + 1)).drop_last() =~= pre);
                assert((base + lists[i as int].subrange(0, k + 1)).last() == x);
            }
            if !present {
                let ghost before = out@;
                out.push(arrays[i][k].clone());
                assert(strs(out@) =~= strs(before).push(x));
            }
            k = k + 1;
        }
        proof {
            assert(lists[i as int].subrange(0, k as int) =~= lists[i as int]);
            assert(lists.subrange(0, i + 1).drop_last() =~= lists.subrange(0, i as int));
        }
        i = i + 1;
    }
    assert(lists.subrange(0, i as int) =~= lists);
    out
}

/// Whether some tool in `tools` has capability id `id`.
fn has_tool(tools: &Vec<ToolDescriptor>, id: &str) -> (res: bool)
    ensures
        res == has_tool_id(tools_view(tools@), id@),
{
    let mut i: usize = 0;
    while i < tools.len()
        invariant
            i <= tools@.len(),
            forall|j: int| 0 <= j < i ==> (#[trigger] tools@[j]).capability_id@ != id@,
        decreases tools@.len() - i,
    {
        if str_eq(tools[i].capability_id.as_str(), id) {
            assert(tools_view(tools@)[i as int].capability_id == id@);
            return true;
        }
        i = i + 1;
    }
    proof {
        if has_tool_id(tools_view(tools@), id@) {
            let j = choose|j: int| 0 <= j < tools_view(tools@).len() && #[trigger] tools_view(tools@)[j].capability_id == id@;
            assert(tools@[j].capability_id@ == id@);
        }
    }
    false
}

/// Tools of the peers, deduplicated by capability id (first occurrence
/// wins), in first-seen order.
fn dedup_peer_tools(conn: &Vec<SelectablePeer>) -> (res: Vec<ToolDescriptor>)
    ensures
        tools_view(res@) == dedup_tools(flatten_lists(peers_view(conn@).map_values(|p: PeerView| p.manifest.tools))),
        forall|a: int, b: int| 0 <= a < res@.len() && 0 <= b < res@.len() && a != b
            ==> res@[a].capability_id@ != res@[b].capability_id@,
{
    let ghost tl = peers_view(conn@).map_values(|p: PeerView| p.manifest.tools);
    let mut out: Vec<ToolDescriptor> = Vec::new();
    let mut i: usize = 0;
    while i < conn.len()
        invariant
            tl == peers_view(conn@).map_values(|p: PeerView| p.manifest.tools),
            i <= conn@.len(),
            tools_view(out@) == dedup_tools(flatten_lists(tl.subrange(0, i as int))),
            forall|a: int, b: int| 0 <= a < out@.len() && 0 <= b < out@.len() && a != b
                ==> out@[a].capability_id@ != out@[b].capability_id@,
        decreases conn@.len() - i,
    {
        let ghost base = flatten_lists(tl.subrange(0, i as int));
        assert(tl[i as int] == tools_view(conn@[i as int].manifest.tools@));
        let mut k: usize = 0;
        while k < conn[i].manifest.tools.len()
            invariant
                tl == peers_view(conn@).map_values(|p: PeerView| p.manifest.tools),
                i < conn@.len(),
                tl[i as int] == tools_view(conn@[i as int].manifest.tools@),
                k <= conn@[i as int].manifest.tools@.len(),
                base == flatten_lists(tl.subrange(0, i as int)),
                tools_view(out@) == dedup_tools(base + tl[i as int].subrange(0, k as int)),
                forall|a: int, b: int| 0 <= a < out@.len() && 0 <= b < out@.len() && a != b
                    ==> out@[a].capability_id@ != out@[b].capability_id@,
            decreases conn@[i as int].manifest.tools@.len() - k,
        {
            let ghost pre = base + tl[i as int].subrange(0, k as int);
            let ghost x = tool_view(conn@[i as int].manifest.tools@[k as int]);
            let present = has_tool(&out, conn[i].manifest.tools[k].capability_id.as_str());
            proof {
                assert((base + tl[i as int].subrange(0, k + 1)).drop_last() =~= pre);
                assert((base + tl[i as int].subrange(0, k + 1)).last() == x);
            }
            if !present {
                let ghost before = out@;
                let t = clone_tool(&conn[i].manifest.tools[k]);
                out.push(t);
                proof {
                    assert(tools_view(out@) =~= tools_view(before).push(x));
                    assert forall|a: int, b: int| 0 <= a < out@.len() && 0 <= b < out@.len() && a != b
                        implies out@[a].capability_id@ != out@[b].capability_id@ by {
                        if a == before.len() {
                            assert(tools_view(before)[b].capability_id == before[b].capability_id@);
                        } else if b == before.len() {
                            assert(tools_view(before)[a].capability_id == before[a].capability_id@);
                        } else {
                            assert(out@[a] == before[a] && out@[b] == before[b]);
                        }
                    }
                }
            }
            k = k + 1;
        }
        proof {
            assert(tl[i as int].subrange(0, k as int) =~= tl[i as int]);
            assert(tl.subrange(0, i + 1).drop_last() =~= tl.subrange(0, i as int));
        }
        i = i + 1;
    }
    assert(tl.subrange(0, i as int) =~= tl);
    out
}

/// Tools sorted by capability id (ids distinct).
fn sort_tools(tools: &Vec<ToolDescriptor>) -> (res: Vec<ToolDescriptor>)
    requires
        forall|a: int, b: int| 0 <= a < tools@.len() && 0 <= b < tools@.len() && a != b
            ==> tools@[a].capability_id@ != tools@[b].capability_id@,
    ensures
        tool_sorted(tools_view(res@)),
        same_elements(tools_view(res@), tools_view(tools@)),
{
    let ghost tv = tools_view(tools@);
    let mut keys: Vec<Vec<u8>> = Vec::new();
    let mut i: usize = 0;
    while i < tools.len()
        invariant
            tv == tools_view(tools@),
            i <= tools@.len(),
            keys@.len() == i,
            forall|j: int| 0 <= j < i ==> (#[trigger] keys@[j])@ == utf8_key(tv[j].capability_id),
        decreases tools@.len() - i,
    {
        keys.push(key_of(tools[i].capability_id.as_str()));
        i = i + 1;
    }
    let ghost ks = keys@.map_values(|k: Vec<u8>| k@);
    proof {
        assert forall|a: int, b: int| 0 <= a < ks.len() && 0 <= b < ks.len() && a != b implies ks[a] != ks[b] by {
            if ks[a] == ks[b] {
                lemma_utf8_key_injective(tv[a].capability_id, tv[b].capability_id);
            }
        }
        assert(keys_distinct(ks));
    }
    let order = sort_positions(&keys);
    proof {
        lemma_stable_sorted_distinct(ks, order@);
    }
    let mut out: Vec<ToolDescriptor> = Vec::new();
    let mut k: usize = 0;
    while k < order.len()
        invariant
            tv == tools_view(tools@),
            ks == keys@.map_values(|k: Vec<u8>| k@),
            sorted_positions(ks, order@),
            ks.len() == tv.len(),
            k <= order@.len(),
            out@.len() == k,
            forall|m: int| 0 <= m < k ==> tools_view(out@)[m] == #[trigger] tv[order@[m] as int],
        decreases order@.len() - k,
    {
        let j = order[k];
        let t = clone_tool(&tools[j]);
        let ghost before = out@;
        out.push(t);
        proof {
            assert forall|m: int| 0 <= m < k + 1 implies tools_view(out@)[m] == #[trigger] tv[order@[m] as int] by {
                if m < k {
                    assert(out@[m] == before[m]);
                }
            }
        }
        k = k + 1;
    }
    proof {
        let ov = tools_view(out@);
        assert forall|a: int, b: int| 0 <= a < b < ov.len() implies str_lt(#[trigger] ov[a].capability_id, #[trigger] ov[b].capability_id) by {
            assert(ov[a] == tv[order@[a] as int]);
            assert(ov[b] == tv[order@[b] as int]);
            assert(ks[order@[a] as int] == utf8_key(tv[order@[a] as int].capability_id));
            assert(ks[order@[b] as int] == utf8_key(tv[order@[b] as int].capability_id));
        }
        assert forall|a: int| 0 <= a < ov.len() implies tv.contains(#[trigger] ov[a]) by {
            assert(ov[a] == tv[order@[a] as int]);
        }
        assert forall|b: int| 0 <= b < tv.len() implies ov.contains(#[trigger] tv[b]) by {
            assert(has_pos(order@, b));
            let m = choose|m: int| 0 <= m < order@.len() && #[trigger] order@[m] == b;
            assert(ov[m] == tv[b]);
        }
    }
    out
}

/// The ids of a list of entries.
pub open spec fn view_ids(s: Seq<PeerView>) -> Seq<Seq<char>> {
    s.map_values(|p: PeerView| p.peer_id)
}

/// `new` is `old` after registering `e`: replaced in place when its id is
/// already registered, appended otherwise.
pub open spec fn registered_as(old: Seq<PeerView>, new: Seq<PeerView>, e: PeerView) -> bool {
    &&& view_ids(old).contains(e.peer_id) ==> exists|p: int| 0 <= p < old.len()
        && #[trigger] old[p].peer_id == e.peer_id && new == old.update(p, e)
    &&& !view_ids(old).contains(e.peer_id) ==> new == old.push(e)
}

/// The outcome of registering under a reported peer id and manifest: no
/// (or an empty) id is `NoPeerId`, then no manifest is `NoManifest`,
/// else the id itself.
pub open spec fn registration_result(peer_id: Option<Seq<char>>, manifest: Option<ManifestView>)
    -> Result<Seq<char>, MultiPeerRouterError>
{
    match peer_id {
        None => Err(MultiPeerRouterError::NoPeerId),
        Some(p) => if p.len() == 0 {
            Err(MultiPeerRouterError::NoPeerId)
        } else {
            match manifest {
                None => Err(MultiPeerRouterError::NoManifest),
                Some(_) => Ok(p),
            }
        },
    }
}

/// A registration result by the view of its id.
pub open spec fn registration_view(res: Result<String, MultiPeerRouterError>) -> Result<Seq<char>, MultiPeerRouterError> {
    match res {
        Ok(id) => Ok(id@),
        Err(e) => Err(e),
    }
}

/// `new` is `old` after unregistering `id`: its entry removed when
/// registered, unchanged otherwise.
pub open spec fn unregistered_as(old: Seq<PeerView>, new: Seq<PeerView>, id: Seq<char>) -> bool {
    &&& view_ids(old).contains(id) ==> exists|p: int| 0 <= p < old.len()
        && #[trigger] old[p].peer_id == id && new == old.remove(p)
    &&& !view_ids(old).contains(id) ==> new == old
}

/// Registering keeps ids distinct.
pub proof fn lemma_registered_distinct(old: Seq<PeerView>, new: Seq<PeerView>, e: PeerView)
    requires
        ids_distinct(view_ids(old)),
        registered_as(old, new, e),
    ensures
        ids_distinct(view_ids(new)),
        view_ids(new).contains(e.peer_id),
{
    if view_ids(old).contains(e.peer_id) {
        let p = choose|p: int| 0 <= p < old.len() && #[trigger] old[p].peer_id == e.peer_id && new == old.update(p, e);
        assert(view_ids(new) =~= view_ids(old));
        assert(view_ids(new)[p] == e.peer_id);
    } else {
        assert(view_ids(new) =~= view_ids(old).push(e.peer_id));
        assert(view_ids(new)[old.len() as int] == e.peer_id);
    }
}

/// Registration is idempotent on `peer_id`: registering the same entry
/// twice leaves the registry as after the first time.
pub proof fn law_register_idempotent(s0: Seq<PeerView>, s1: Seq<PeerView>, s2: Seq<PeerView>, e: PeerView)
    requires
        ids_distinct(view_ids(s0)),
        registered_as(s0, s1, e),
        registered_as(s1, s2, e),
    ensures
        s2 == s1,
{
    lemma_registered_distinct(s0, s1, e);
    let q = choose|q: int| 0 <= q < s1.len() && #[trigger] s1[q].peer_id == e.peer_id && s2 == s1.update(q, e);
    if view_ids(s0).contains(e.peer_id) {
        let p = choose|p: int| 0 <= p < s0.len() && #[trigger] s0[p].peer_id == e.peer_id && s1 == s0.update(p, e);
        assert(view_ids(s1)[p] == view_ids(s1)[q]);
        assert(p == q);
    } else {
        let p = s0.len() as int;
        assert(view_ids(s1)[p] == view_ids(s1)[q]);
        assert(p == q);
    }
    assert(s2 =~= s1);
}

/// Registering a new id, then unregistering it, restores the registry.
pub proof fn law_unregister_undoes_register(s0: Seq<PeerView>, s1: Seq<PeerView>, s2: Seq<PeerView>, e: PeerView)
    requires
        ids_distinct(view_ids(s0)),
        !view_ids(s0).contains(e.peer_id),
        registered_as(s0, s1, e),
        unregistered_as(s1, s2, e.peer_id),
    ensures
        s2 == s0,
{
    lemma_registered_distinct(s0, s1, e);
    let q = choose|q: int| 0 <= q < s1.len() && #[trigger] s1[q].peer_id == e.peer_id && s2 == s1.remove(q);
    let p = s0.len() as int;
    assert(view_ids(s1)[p] == view_ids(s1)[q]);
    assert(p == q);
    assert(s2 =~= s0);
}

/// After unregistering, the id is no longer registered.
pub proof fn law_unregistered_absent(old: Seq<PeerView>, new: Seq<PeerView>, id: Seq<char>)
    requires
        ids_distinct(view_ids(old)),
        unregistered_as(old, new, id),
    ensures
        !view_ids(new).contains(id),
{
    if view_ids(old).contains(id) {
        let p = choose|p: int| 0 <= p < old.len() && #[trigger] old[p].peer_id == id && new == old.remove(p);
        if view_ids(new).contains(id) {
            let j = choose|j: int| 0 <= j < view_ids(new).len() && view_ids(new)[j] == id;
            let j2 = if j < p { j } else { j + 1 };
            assert(view_ids(old)[j2] == id);
            assert(view_ids(old)[p] == id);
        }
    }
}

/// Multi-peer capability router: registry in registration order (peer ids
/// unique), selection over the Established entries, composed views.
pub struct MultiPeerRouter<A> {
    host_id: String,
    peers: Vec<RegisteredPeer<A>>,
}

/// Peer ids are pairwise distinct.
pub open spec fn ids_distinct(ids: Seq<Seq<char>>) -> bool {
    forall|i: int, j: int| 0 <= i < ids.len() && 0 <= j < ids.len() && i != j ==> ids[i] != ids[j]
}

impl<A> MultiPeerRouter<A> {
    #[verifier::type_invariant]
    spec fn inv(self) -> bool {
        ids_distinct(self.peers@.map_values(|e: RegisteredPeer<A>| e.peer_id@))
    }

    /// Registered entries (id + cached manifest), in registration order.
    pub closed spec fn entries(&self) -> Seq<PeerView> {
        self.peers@.map_values(|e: RegisteredPeer<A>| entry_view(e))
    }

    /// Registered ids, in registration order.
    pub closed spec fn ids(&self) -> Seq<Seq<char>> {
        self.peers@.map_values(|e: RegisteredPeer<A>| e.peer_id@)
    }

    /// Stored adapters, in registration order.
    pub closed spec fn adapters(&self) -> Seq<A> {
        self.peers@.map_values(|e: RegisteredPeer<A>| e.adapter)
    }

    /// The router's own host id.
    pub closed spec fn router_host_id(&self) -> Seq<char> {
        self.host_id@
    }

    /// `ids` is the id column of `entries`.
    pub proof fn lemma_ids(&self)
        ensures
            self.ids().len() == self.entries().len(),
            self.adapters().len() == self.entries().len(),
            forall|i: int| 0 <= i < self.ids().len() ==> #[trigger] self.ids()[i] == self.entries()[i].peer_id,
    {
    }

    /// Creates a router with zero peers.
    pub fn new(options: MultiPeerRouterOptions) -> (res: Self)
        ensures
            res.entries() == Seq::<PeerView>::empty(),
            res.adapters() == Seq::<A>::empty(),
            res.router_host_id() == match options.host_id {
                Some(h) => if h@.len() > 0 { h@ } else { default_router_host_id() },
                None => default_router_host_id(),
            },
    {
        let host_id = match options.host_id {
            Some(h) => if h.unicode_len() > 0 { h } else { owned("multi-peer-router") },
            None => owned("multi-peer-router"),
        };
        let res = MultiPeerRouter { host_id, peers: Vec::new() };
        assert(res.entries() =~= Seq::<PeerView>::empty());
        assert(res.adapters() =~= Seq::<A>::empty());
        res
    }

    /// The router's own host id.
    pub fn host_id(&self) -> (res: &String)
        ensures
            res@ == self.router_host_id(),
    {
        &self.host_id
    }

    /// Number of registered peers.
    pub fn len(&self) -> (res: usize)
        ensures
            res == self.entries().len(),
    {
        self.peers.len()
    }

    /// The stored adapter at registry position `index`.
    pub fn adapter(&self, index: usize) -> (res: &A)
        requires
            index < self.entries().len(),
        ensures
            *res == self.adapters()[index as int],
    {
        &self.peers[index].adapter
    }

    /// Position of `peer_id` in the registry.
    fn find(&self, peer_id: &str) -> (res: Option<usize>)
        ensures
            match res {
                Some(i) => i < self.ids().len() && self.ids()[i as int] == peer_id@,
                None => !self.ids().contains(peer_id@),
            },
    {
        let mut i: usize = 0;
        while i < self.peers.len()
            invariant
                i <= self.peers@.len(),
                forall|j: int| 0 <= j < i ==> (#[trigger] self.peers@[j]).peer_id@ != peer_id@,
            decreases self.peers@.len() - i,
        {
            if str_eq(self.peers[i].peer_id.as_str(), peer_id) {
                return Some(i);
            }
            i = i + 1;
        }
        proof {
            if self.ids().contains(peer_id@) {
                let j = choose|j: int| 0 <= j < self.ids().len() && self.ids()[j] == peer_id@;
                assert(self.peers@[j].peer_id@ == peer_id@);
            }
        }
        None
    }

    /// Registers an adapter under the peer id and manifest it reported.
    /// Idempotent on `peer_id`: re-registering an id replaces the stored
    /// adapter and manifest in place (registration order is kept); a new id
    /// is appended. Without a (non-empty) peer id or a manifest the registry
    /// is unchanged and the matching error is returned.
    pub fn register_reported(&mut self, peer_id: Option<String>, manifest: Option<PeerManifest>, adapter: A)
        -> (res: Result<String, MultiPeerRouterError>)
        ensures
            final(self).router_host_id() == old(self).router_host_id(),
            match peer_id {
                None => res == Err::<String, MultiPeerRouterError>(MultiPeerRouterError::NoPeerId),
                Some(p) => if p@.len() == 0 {
                    res == Err::<String, MultiPeerRouterError>(MultiPeerRouterError::NoPeerId)
                } else {
                    match manifest {
                        None => res == Err::<String, MultiPeerRouterError>(MultiPeerRouterError::NoManifest),
                        Some(m) => res is Ok && res->Ok_0@ == p@,
                    }
                },
            },
            res is Err ==> final(self).entries() == old(self).entries() && final(self).adapters() == old(self).adapters(),
            res is Ok ==> {
                let e = PeerView { peer_id: peer_id->0@, manifest: manifest_view(manifest->0) };
                &&& registered_as(old(self).entries(), final(self).entries(), e)
                &&& old(self).ids().contains(peer_id->0@) ==> exists|p: int| 0 <= p < old(self).ids().len()
                    && old(self).ids()[p] == peer_id->0@
                    && final(self).entries() == old(self).entries().update(p, e)
                    && final(self).adapters() == old(self).adapters().update(p, adapter)
                &&& !old(self).ids().contains(peer_id->0@) ==> final(self).entries() == old(self).entries().push(e)
                    && final(self).adapters() == old(self).adapters().push(adapter)
            },
    {
        proof {
            use_type_invariant(&*self);
        }
        let p = match peer_id {
            Some(p) => p,
            None => return Err(MultiPeerRouterError::NoPeerId),
        };
        if p.unicode_len() == 0 {
            return Err(MultiPeerRouterError::NoPeerId);
        }
        let m = match manifest {
            Some(m) => m,
            None => return Err(MultiPeerRouterError::NoManifest),
        };
        let ghost e = PeerView { peer_id: p@, manifest: manifest_view(m) };
        let ghost old_entries = self.entries();
        let ghost old_adapters = self.adapters();
        let ghost old_ids = self.ids();
        let id = p.clone();
        match self.find(p.as_str()) {
            Some(i) => {
                let entry = RegisteredPeer { peer_id: p, adapter, manifest: m };
                let mut peers: Vec<RegisteredPeer<A>> = Vec::new();
                std::mem::swap(&mut peers, &mut self.peers);
                peers.set(i, entry);
                proof {
                    assert(peers@.map_values(|e: RegisteredPeer<A>| e.peer_id@) =~= old_ids.update(i as int, p@));
                    assert(old_ids.update(i as int, p@) =~= old_ids);
                }
                self.peers = peers;
                proof {
                    assert(old_entries[i as int].peer_id == old_ids[i as int]);
                    assert(view_ids(old_entries) =~= old_ids);
                    assert(self.entries() =~= old_entries.update(i as int, e));
                    assert(self.adapters() =~= old_adapters.update(i as int, adapter));
                    assert(self.ids() =~= old_ids.update(i as int, p@));
                    assert(old_ids.update(i as int, p@) =~= old_ids);
                }
            },
            None => {
                let entry = RegisteredPeer { peer_id: p, adapter, manifest: m };
                let mut peers: Vec<RegisteredPeer<A>> = Vec::new();
                std::mem::swap(&mut peers, &mut self.peers);
                peers.push(entry);
                proof {
                    assert(peers@.map_values(|e: RegisteredPeer<A>| e.peer_id@) =~= old_ids.push(p@));
                    assert forall|a: int, b: int| 0 <= a < old_ids.len() + 1 && 0 <= b < old_ids.len() + 1 && a != b
                        implies old_ids.push(p@)[a] != old_ids.push(p@)[b] by {
                        if a == old_ids.len() {
                            assert(old_ids[b] != p@);
                        } else if b == old_ids.len() {
                            assert(old_ids[a] != p@);
                        }
                    }
                }
                self.peers = peers;
                proof {
                    assert(view_ids(old_entries) =~= old_ids);
                    assert(self.entries() =~= old_entries.push(e));
                    assert(self.adapters() =~= old_adapters.push(adapter));
                    assert(self.ids() =~= old_ids.push(p@));
                }
            },
        }
        Ok(id)
    }

    /// Registers an adapter under its verified remote peer id and the
    /// manifest it reports (see `register_reported`): an adapter without an
    /// established session is refused and the registry is unchanged.
    pub fn register_peer(&mut self, adapter: A) -> (res: Result<String, MultiPeerRouterError>)
        where A: RoutedRemoteAdapter
        ensures
            final(self).router_host_id() == old(self).router_host_id(),
            res is Err ==> final(self).entries() == old(self).entries() && final(self).adapters() == old(self).adapters(),
            exists|pid: Option<Seq<char>>, man: Option<ManifestView>|
                #[trigger] registration_result(pid, man) == registration_view(res)
                && (res is Ok ==> registered_as(old(self).entries(), final(self).entries(),
                    PeerView { peer_id: pid->0, manifest: man->0 })),
            res is Ok && old(self).ids().contains(res->Ok_0@) ==> exists|p: int| 0 <= p < old(self).ids().len()
                && old(self).ids()[p] == res->Ok_0@
                && final(self).adapters() == old(self).adapters().update(p, adapter),
            res is Ok && !old(self).ids().contains(res->Ok_0@) ==> final(self).adapters() == old(self).adapters().push(adapter),
            // What is stored is what the adapter reports: its peer id, and
            // its manifest unchanged.
            res is Ok ==> adapter.reports_peer_id(Some(res->Ok_0@)) && exists|m: ManifestView|
                #[trigger] adapter.reports_manifest(Some(m))
                && registered_as(old(self).entries(), final(self).entries(), PeerView { peer_id: res->Ok_0@, manifest: m }),
            res == Err::<String, MultiPeerRouterError>(MultiPeerRouterError::NoPeerId) ==>
                adapter.reports_peer_id(None) || adapter.reports_peer_id(Some(Seq::empty())),
            res == Err::<String, MultiPeerRouterError>(MultiPeerRouterError::NoManifest) ==>
                adapter.reports_manifest(None),
    {
        let peer_id = adapter.remote_peer_id();
        let manifest = adapter.remote_manifest();
        let ghost pid: Option<Seq<char>> = if peer_id is Some { Some(peer_id->0@) } else { None };
        let ghost man: Option<ManifestView> = if manifest is Some { Some(manifest_view(manifest->0)) } else { None };
        proof {
            assert(pid == opt_str(peer_id));
            assert(man == opt_manifest_view(manifest));
            if pid is Some && pid->0.len() == 0 {
                assert(pid->0 =~= Seq::<char>::empty());
            }
        }
        let res = self.register_reported(peer_id, manifest, adapter);
        assert(registration_result(pid, man) == registration_view(res));
        res
    }

    /// Removes a peer from the registry; a no-op for an unknown id. The
    /// adapter is dropped from the registry, not closed.
    pub fn unregister_peer(&mut self, peer_id: &str)
        ensures
            final(self).router_host_id() == old(self).router_host_id(),
            unregistered_as(old(self).entries(), final(self).entries(), peer_id@),
            old(self).ids().contains(peer_id@) ==> exists|p: int| 0 <= p < old(self).ids().len()
                && old(self).ids()[p] == peer_id@
                && final(self).entries() == old(self).entries().remove(p)
                && final(self).adapters() == old(self).adapters().remove(p),
            !old(self).ids().contains(peer_id@) ==> final(self).entries() == old(self).entries()
                && final(self).adapters() == old(self).adapters(),
    {
        proof {
            use_type_invariant(&*self);
        }
        let ghost old_entries = self.entries();
        let ghost old_adapters = self.adapters();
        let ghost old_ids = self.ids();
        match self.find(peer_id) {
            Some(i) => {
                let mut peers: Vec<RegisteredPeer<A>> = Vec::new();
                std::mem::swap(&mut peers, &mut self.peers);
                let _removed = peers.remove(i);
                proof {
                    assert(peers@.map_values(|e: RegisteredPeer<A>| e.peer_id@) =~= old_ids.remove(i as int));
                    assert forall|a: int, b: int| 0 <= a < old_ids.len() - 1 && 0 <= b < old_ids.len() - 1 && a != b
                        implies old_ids.remove(i as int)[a] != old_ids.remove(i as int)[b] by {
                        let a2 = if a < i { a } else { a + 1 };
                        let b2 = if b < i { b } else { b + 1 };
                        assert(old_ids.remove(i as int)[a] == old_ids[a2]);
                        assert(old_ids.remove(i as int)[b] == old_ids[b2]);
                    }
                }
                self.peers = peers;
                proof {
                    assert(old_entries[i as int].peer_id == old_ids[i as int]);
                    assert(view_ids(old_entries) =~= old_ids);
                    assert(self.entries() =~= old_entries.remove(i as int));
                    assert(self.adapters() =~= old_adapters.remove(i as int));
                    assert(self.ids() =~= old_ids.remove(i as int));
                }
            },
            None => {
                assert(view_ids(old_entries) =~= old_ids);
            },
        }
    }

    /// The Established entries as selection candidates, in registry order,
    /// with the registry position each came from.
    fn established_candidates(&self, states: &Vec<RemoteAdapterState>) -> (res: (Vec<SelectablePeer>, Ghost<Seq<int>>))
        requires
            states@.len() == self.entries().len(),
        ensures
            peers_view(res.0@) == established_view(self.entries(), states@),
            res.1@.len() == res.0@.len(),
            forall|k: int| 0 <= k < res.1@.len() ==> 0 <= #[trigger] res.1@[k] < self.entries().len()
                && peers_view(res.0@)[k] == self.entries()[res.1@[k]]
                && states@[res.1@[k]] == RemoteAdapterState::Established,
            forall|k1: int, k2: int| 0 <= k1 < k2 < res.1@.len() ==> #[trigger] res.1@[k1] < #[trigger] res.1@[k2],
    {
        let mut out: Vec<SelectablePeer> = Vec::new();
        let ghost mut src: Seq<int> = Seq::empty();
        let mut i: usize = 0;
        while i < self.peers.len()
            invariant
                states@.len() == self.peers@.len(),
                self.entries() == self.peers@.map_values(|e: RegisteredPeer<A>| entry_view(e)),
                i <= self.peers@.len(),
                peers_view(out@) == established_view(self.entries().subrange(0, i as int), states@.subrange(0, i as int)),
                src.len() == out@.len(),
                forall|k: int| 0 <= k < src.len() ==> 0 <= #[trigger] src[k] < i
                    && peers_view(out@)[k] == self.entries()[src[k]]
                    && states@[src[k]] == RemoteAdapterState::Established,
                forall|k1: int, k2: int| 0 <= k1 < k2 < src.len() ==> #[trigger] src[k1] < #[trigger] src[k2],
            decreases self.peers@.len() - i,
        {
            let ghost ents = self.entries().subrange(0, i as int + 1);
            let ghost sts = states@.subrange(0, i as int + 1);
            proof {
                assert(ents.drop_last() =~= self.entries().subrange(0, i as int));
                assert(sts.drop_last() =~= states@.subrange(0, i as int));
            }
            if states[i] == RemoteAdapterState::Established {
                let cand = SelectablePeer {
                    peer_id: self.peers[i].peer_id.clone(),
                    manifest: clone_manifest(&self.peers[i].manifest),
                };
                let ghost before = out@;
                out.push(cand);
                proof {
                    assert(peers_view(out@) =~= peers_view(before).push(self.entries()[i as int]));
                    src = src.push(i as int);
                }
            }
            i = i + 1;
        }
        proof {
            assert(self.entries().subrange(0, i as int) =~= self.entries());
            assert(states@.subrange(0, i as int) =~= states@);
        }
        (out, Ghost(src))
    }

    /// Selects the registry position of the peer that serves `op` with
    /// `payload`, among the entries whose state is Established (`states`
    /// gives each entry's state); the no-capable-peer reject otherwise.
    pub fn select_for_op_with(&self, states: &Vec<RemoteAdapterState>, op: &str, payload: &JsonValue)
        -> (res: Result<usize, Reject>)
        requires
            states@.len() == self.entries().len(),
        ensures
            match selection_reason(established_view(self.entries(), states@), op@, *payload) {
                Some(r) => res is Err && reject_view(res->Err_0) == no_capable_peer_view(op@, r),
                None => res is Ok && res->Ok_0 < self.entries().len()
                    && states@[res->Ok_0 as int] == RemoteAdapterState::Established
                    && exists|k: int| #[trigger] is_selected(established_view(self.entries(), states@), op@, *payload, k)
                        && self.entries()[res->Ok_0 as int] == established_view(self.entries(), states@)[k],
            },
    {
        proof {
            use_type_invariant(self);
        }
        let (cands, Ghost(src)) = self.established_candidates(states);
        let ghost c = established_view(self.entries(), states@);
        match select_peer_for_op(cands.as_slice(), op, payload) {
            Err(r) => Err(r),
            Ok(sel) => {
                let ghost k = choose|k: int| #[trigger] is_selected(peers_view(cands@), op@, *payload, k)
                    && peer_view(sel) == peers_view(cands@)[k];
                match self.find(sel.peer_id.as_str()) {
                    Some(i) => {
                        proof {
                            assert(self.ids()[src[k]] == self.entries()[src[k]].peer_id);
                            assert(self.ids()[i as int] == sel.peer_id@);
                            assert(self.peers@[src[k]].peer_id@ == self.peers@[i as int].peer_id@);
                            if src[k] != i {
                                assert(self.peers@.map_values(|e: RegisteredPeer<A>| e.peer_id@)[src[k]]
                                    == self.peers@.map_values(|e: RegisteredPeer<A>| e.peer_id@)[i as int]);
                            }
                        }
                        Ok(i)
                    },
                    None => {
                        proof {
                            assert(self.ids()[src[k]] == sel.peer_id@);
                            assert(self.ids().contains(sel.peer_id@));
                        }
                        Err(no_capable_peer(op, "selected peer is no longer registered"))
                    },
                }
            },
        }
    }

    /// Selects, for `op` with `payload`, the registry position of the peer
    /// to delegate to, reading each adapter's current state: the result is
    /// that of `select_for_op_with` on the states the adapters reported.
    pub fn select_for_op(&self, op: &str, payload: &JsonValue) -> (res: Result<usize, Reject>)
        where A: RoutedRemoteAdapter
        ensures
            exists|states: Seq<RemoteAdapterState>| #![trigger established_view(self.entries(), states)]
                states.len() == self.entries().len() &&
                match selection_reason(established_view(self.entries(), states), op@, *payload) {
                    Some(r) => res is Err && reject_view(res->Err_0) == no_capable_peer_view(op@, r),
                    None => res is Ok && res->Ok_0 < self.entries().len()
                        && states[res->Ok_0 as int] == RemoteAdapterState::Established
                        && exists|k: int| #[trigger] is_selected(established_view(self.entries(), states), op@, *payload, k)
                            && self.entries()[res->Ok_0 as int] == established_view(self.entries(), states)[k],
                },
    {
        let states = self.peer_states();
        let res = self.select_for_op_with(&states, op, payload);
        assert(states@.len() == self.entries().len());
        res
    }

    /// The Established peers with their cached manifests, in peer-id order
    /// (UTF-8 byte order).
    pub fn connected_peers_with(&self, states: &Vec<RemoteAdapterState>) -> (res: Vec<SelectablePeer>)
        requires
            states@.len() == self.entries().len(),
        ensures
            id_sorted(peers_view(res@)),
            same_elements(peers_view(res@), established_view(self.entries(), states@)),
    {
        proof {
            use_type_invariant(self);
        }
        let (cands, Ghost(src)) = self.established_candidates(states);
        let ghost cv = peers_view(cands@);
        let mut keys: Vec<Vec<u8>> = Vec::new();
        let mut i: usize = 0;
        while i < cands.len()
            invariant
                cv == peers_view(cands@),
                i <= cands@.len(),
                keys@.len() == i,
                forall|j: int| 0 <= j < i ==> (#[trigger] keys@[j])@ == utf8_key(cv[j].peer_id),
            decreases cands@.len() - i,
        {
            keys.push(key_of(cands[i].peer_id.as_str()));
            i = i + 1;
        }
        let ghost ks = keys@.map_values(|k: Vec<u8>| k@);
        proof {
            assert forall|a: int, b: int| 0 <= a < ks.len() && 0 <= b < ks.len() && a != b implies ks[a] != ks[b] by {
                if ks[a] == ks[b] {
                    lemma_utf8_key_injective(cv[a].peer_id, cv[b].peer_id);
                    let ids = self.peers@.map_values(|e: RegisteredPeer<A>| e.peer_id@);
                    assert(cv[a] == self.entries()[src[a]]);
                    assert(cv[b] == self.entries()[src[b]]);
                    assert(ids[src[a]] == cv[a].peer_id);
                    assert(ids[src[b]] == cv[b].peer_id);
                    if a < b {
                        assert(src[a] < src[b]);
                    } else {
                        assert(src[b] < src[a]);
                    }
                }
            }
            assert(keys_distinct(ks));
        }
        let order = sort_positions(&keys);
        proof {
            lemma_stable_sorted_distinct(ks, order@);
        }
        let mut out: Vec<SelectablePeer> = Vec::new();
        let mut k: usize = 0;
        while k < order.len()
            invariant
                cv == peers_view(cands@),
                ks == keys@.map_values(|k: Vec<u8>| k@),
                sorted_positions(ks, order@),
                ks.len() == cv.len(),
                k <= order@.len(),
                out@.len() == k,
                forall|m: int| 0 <= m < k ==> peers_view(out@)[m] == #[trigger] cv[order@[m] as int],
            decreases order@.len() - k,
        {
            let j = order[k];
            let p = SelectablePeer { peer_id: cands[j].peer_id.clone(), manifest: clone_manifest(&cands[j].manifest) };
            let ghost before = out@;
            out.push(p);
            proof {
                assert forall|m: int| 0 <= m < k + 1 implies peers_view(out@)[m] == #[trigger] cv[order@[m] as int] by {
                    if m < k {
                        assert(out@[m] == before[m]);
                    }
                }
            }
            k = k + 1;
        }
        proof {
            let ov = peers_view(out@);
            let ev = established_view(self.entries(), states@);
            assert(ev == cv);
            assert forall|a: int, b: int| 0 <= a < b < ov.len() implies str_lt(#[trigger] ov[a].peer_id, #[trigger] ov[b].peer_id) by {
                assert(ov[a] == cv[order@[a] as int]);
                assert(ov[b] == cv[order@[b] as int]);
                assert(ks[order@[a] as int] == utf8_key(cv[order@[a] as int].peer_id));
                assert(ks[order@[b] as int] == utf8_key(cv[order@[b] as int].peer_id));
            }
            assert forall|a: int| 0 <= a < ov.len() implies cv.contains(#[trigger] ov[a]) by {
                assert(ov[a] == cv[order@[a] as int]);
            }
            assert forall|b: int| 0 <= b < cv.len() implies ov.contains(#[trigger] cv[b]) by {
                assert(has_pos(order@, b));
                let m = choose|m: int| 0 <= m < order@.len() && #[trigger] order@[m] == b;
                assert(ov[m] == cv[b]);
            }
        }
        out
    }

    /// The composed manifest over the Established peers: the router's own
    /// host id; the first-seen unions of their capabilities, roles and
    /// namespaces in peer-id order; their tools deduplicated by capability
    /// id (first occurrence wins) and ordered by capability id; and the
    /// contributing peer ids in peer-id order. No authority is synthesized.
    pub fn compose_manifest_with(&self, states: &Vec<RemoteAdapterState>) -> (res: ComposedManifest)
        requires
            states@.len() == self.entries().len(),
        ensures
            exists|conn: Seq<PeerView>| #[trigger] id_sorted(conn)
                && same_elements(conn, established_view(self.entries(), states@))
                && composed_of(res, conn, self.router_host_id()),
    {
        let conn = self.connected_peers_with(states);
        let ghost cv = peers_view(conn@);
        let mut caps: Vec<Vec<String>> = Vec::new();
        let mut roles: Vec<Vec<String>> = Vec::new();
        let mut nss: Vec<Vec<String>> = Vec::new();
        let mut ids: Vec<String> = Vec::new();
        let mut i: usize = 0;
        while i < conn.len()
            invariant
                cv == peers_view(conn@),
                i <= conn@.len(),
                caps@.len() == i && roles@.len() == i && nss@.len() == i && ids@.len() == i,
                forall|j: int| 0 <= j < i ==> strs((#[trigger] caps@[j])@) == cv[j].manifest.capabilities,
                forall|j: int| 0 <= j < i ==> strs((#[trigger] roles@[j])@) == cv[j].manifest.roles,
                forall|j: int| 0 <= j < i ==> strs((#[trigger] nss@[j])@) == cv[j].manifest.namespaces,
                forall|j: int| 0 <= j < i ==> (#[trigger] ids@[j])@ == cv[j].peer_id,
            decreases conn@.len() - i,
        {
            caps.push(clone_strings(&conn[i].manifest.capabilities));
            roles.push(clone_strings(&conn[i].manifest.roles));
            nss.push(clone_strings(&conn[i].manifest.namespaces));
            ids.push(conn[i].peer_id.clone());
            i = i + 1;
        }
        proof {
            assert(caps@.map_values(|v: Vec<String>| strs(v@)) =~= cv.map_values(|p: PeerView| p.manifest.capabilities));
            assert(roles@.map_values(|v: Vec<String>| strs(v@)) =~= cv.map_values(|p: PeerView| p.manifest.roles));
            assert(nss@.map_values(|v: Vec<String>| strs(v@)) =~= cv.map_values(|p: PeerView| p.manifest.namespaces));
            assert(strs(ids@) =~= cv.map_values(|p: PeerView| p.peer_id));
        }
        let uniq = dedup_peer_tools(&conn);
        let tools = sort_tools(&uniq);
        let res = ComposedManifest {
            host_id: self.host_id.clone(),
            schema_version: 1,
            authority_scope_key: None,
            capabilities: union_of_strings(&caps),
            roles: union_of_strings(&roles),
            namespaces: union_of_strings(&nss),
            tools,
            peers: ids,
        };
        assert(composed_of(res, cv, self.router_host_id()));
        res
    }

    /// The composed manifest, reading each adapter's current state: that of
    /// `compose_manifest_with` on the states the adapters reported.
    pub fn compose_manifest(&self) -> (res: ComposedManifest)
        where A: RoutedRemoteAdapter
        ensures
            exists|states: Seq<RemoteAdapterState>, conn: Seq<PeerView>|
                #![trigger established_view(self.entries(), states), id_sorted(conn)]
                states.len() == self.entries().len() && id_sorted(conn)
                && same_elements(conn, established_view(self.entries(), states))
                && composed_of(res, conn, self.router_host_id()),
    {
        let states = self.peer_states();
        self.compose_manifest_with(&states)
    }

    /// The cached manifests of the Established peers, in peer-id order.
    pub fn list_peer_manifests_with(&self, states: &Vec<RemoteAdapterState>) -> (res: Vec<PeerManifest>)
        requires
            states@.len() == self.entries().len(),
        ensures
            exists|conn: Seq<PeerView>| #[trigger] id_sorted(conn)
                && same_elements(conn, established_view(self.entries(), states@))
                && res@.map_values(|m: PeerManifest| manifest_view(m)) == conn.map_values(|p: PeerView| p.manifest),
    {
        let conn = self.connected_peers_with(states);
        let ghost cv = peers_view(conn@);
        let mut out: Vec<PeerManifest> = Vec::new();
        let mut i: usize = 0;
        while i < conn.len()
            invariant
                cv == peers_view(conn@),
                i <= conn@.len(),
                out@.len() == i,
                forall|j: int| 0 <= j < i ==> manifest_view(#[trigger] out@[j]) == cv[j].manifest,
            decreases conn@.len() - i,
        {
            out.push(clone_manifest(&conn[i].manifest));
            i = i + 1;
        }
        assert(out@.map_values(|m: PeerManifest| manifest_view(m)) =~= cv.map_values(|p: PeerView| p.manifest));
        out
    }

    /// The cached manifests of the Established peers in peer-id order,
    /// reading each adapter's current state.
    pub fn list_peer_manifests(&self) -> (res: Vec<PeerManifest>)
        where A: RoutedRemoteAdapter
        ensures
            exists|states: Seq<RemoteAdapterState>, conn: Seq<PeerView>|
                #![trigger established_view(self.entries(), states), id_sorted(conn)]
                states.len() == self.entries().len() && id_sorted(conn)
                && same_elements(conn, established_view(self.entries(), states))
                && res@.map_values(|m: PeerManifest| manifest_view(m)) == conn.map_values(|p: PeerView| p.manifest),
    {
        let states = self.peer_states();
        self.list_peer_manifests_with(&states)
    }

    /// Snapshot of every registered adapter's state, in registry order.
    pub fn peer_states(&self) -> (res: Vec<RemoteAdapterState>)
        where A: RoutedRemoteAdapter
        ensures
            res@.len() == self.entries().len(),
    {
        let mut out: Vec<RemoteAdapterState> = Vec::new();
        let mut i: usize = 0;
        while i < self.peers.len()
            invariant
                i <= self.peers@.len(),
                out@.len() == i,
                self.entries().len() == self.peers@.len(),
            decreases self.peers@.len() - i,
        {
            out.push(self.peers[i].adapter.state());
            i = i + 1;
        }
        out
    }

    /// Registered peer ids, in registration order.
    pub fn list_peers(&self) -> (res: Vec<String>)
        ensures
            strs(res@) == self.ids(),
    {
        let mut out: Vec<String> = Vec::new();
        let mut i: usize = 0;
        while i < self.peers.len()
            invariant
                i <= self.peers@.len(),
                out@.len() == i,
                forall|j: int| 0 <= j < i ==> (#[trigger] out@[j])@ == self.peers@[j].peer_id@,
            decreases self.peers@.len() - i,
        {
            out.push(self.peers[i].peer_id.clone());
            i = i + 1;
        }
        assert(strs(out@) =~= self.ids());
        out
    }
}

/// Constructs a multi-peer router with zero peers.
pub fn connect_multi_peer_router<A>(options: MultiPeerRouterOptions) -> (res: MultiPeerRouter<A>)
    ensures
        res.entries() == Seq::<PeerView>::empty(),
        res.router_host_id() == match options.host_id {
            Some(h) => if h@.len() > 0 { h@ } else { default_router_host_id() },
            None => default_router_host_id(),
        },
{
    MultiPeerRouter::new(options)
}

} // verus!
