use std::cell::{Cell, RefCell};
use std::rc::Rc;

use spoke_connect::json::JsonValue;
use spoke_connect::lifecycle::RemoteAdapterState;
use spoke_connect::manifest::{clone_manifest, PeerManifest, ToolDescriptor};
use spoke_connect::registry::{
    connect_multi_peer_router, MultiPeerRouter, MultiPeerRouterError, MultiPeerRouterOptions,
    RoutedRemoteAdapter,
};
use spoke_connect::reject::Reject;
use spoke_connect::router::{select_peer_for_op, SelectablePeer};

// ── Builders ────────────────────────────────────────────────────────────

fn s(v: &str) -> JsonValue {
    JsonValue::Str(v.to_owned())
}

fn obj(fields: Vec<(&str, JsonValue)>) -> JsonValue {
    JsonValue::Object(fields.into_iter().map(|(k, v)| (k.to_owned(), v)).collect())
}

fn empty() -> JsonValue {
    obj(vec![])
}

fn strings(items: &[&str]) -> Vec<String> {
    items.iter().map(|item| item.to_string()).collect()
}

fn manifest_with(host_id: &str, capabilities: &[&str], roles: &[&str], namespaces: &[&str]) -> PeerManifest {
    PeerManifest {
        host_id: host_id.to_owned(),
        capabilities: strings(capabilities),
        roles: strings(roles),
        namespaces: strings(namespaces),
        authority_scope_key: None,
        tools: Vec::new(),
    }
}

fn manifest(host_id: &str, capabilities: &[&str]) -> PeerManifest {
    manifest_with(host_id, capabilities, &["data-store"], &["toy_world"])
}

fn manifest_with_authority(host_id: &str, scope_key: &str) -> PeerManifest {
    let mut m = manifest(host_id, &["spoke-baseline"]);
    m.authority_scope_key = Some(scope_key.to_owned());
    m
}

fn descriptor(capability_id: &str) -> ToolDescriptor {
    ToolDescriptor {
        capability_id: capability_id.to_owned(),
        descriptor: obj(vec![
            ("schema_version", JsonValue::Int(1)),
            ("capability_id", s(capability_id)),
            ("op", s(capability_id)),
        ]),
    }
}

fn manifest_with_tools(host_id: &str, capabilities: &[&str], namespaces: &[&str], tools: &[&str]) -> PeerManifest {
    let mut m = manifest_with(host_id, capabilities, &["data-store"], namespaces);
    m.tools = tools.iter().map(|id| descriptor(id)).collect();
    m
}

fn detail<'a>(reject: &'a Reject, key: &str) -> Option<&'a str> {
    reject.details.as_ref().and_then(|details| {
        details.iter().find(|(k, _)| k == key).and_then(|(_, v)| match v {
            JsonValue::Str(text) => Some(text.as_str()),
            _ => None,
        })
    })
}

fn peer(peer_id: &str, manifest: PeerManifest) -> SelectablePeer {
    SelectablePeer { peer_id: peer_id.to_owned(), manifest }
}

// ── Test double for the per-peer adapter surface ────────────────────────

struct FakePeer {
    peer_id: String,
    manifest: Option<PeerManifest>,
    state: Cell<RemoteAdapterState>,
    calls: RefCell<Vec<String>>,
}

impl FakePeer {
    fn new(peer_id: &str, manifest: PeerManifest, state: RemoteAdapterState) -> Rc<Self> {
        Rc::new(FakePeer {
            peer_id: peer_id.to_owned(),
            manifest: Some(manifest),
            state: Cell::new(state),
            calls: RefCell::new(Vec::new()),
        })
    }

    fn without_manifest(peer_id: &str) -> Rc<Self> {
        Rc::new(FakePeer {
            peer_id: peer_id.to_owned(),
            manifest: None,
            state: Cell::new(RemoteAdapterState::Established),
            calls: RefCell::new(Vec::new()),
        })
    }

    fn set_state(&self, state: RemoteAdapterState) {
        self.state.set(state);
    }

    fn calls(&self) -> Vec<String> {
        self.calls.borrow().clone()
    }
}

struct Handle(Rc<FakePeer>);

impl RoutedRemoteAdapter for Handle {
    fn state(&self) -> RemoteAdapterState {
        self.0.state.get()
    }

    fn remote_peer_id(&self) -> Option<String> {
        if self.0.peer_id.is_empty() {
            None
        } else {
            Some(self.0.peer_id.clone())
        }
    }

    fn remote_manifest(&self) -> Option<PeerManifest> {
        self.0.manifest.as_ref().map(clone_manifest)
    }
}

/// Selects a peer for `op` and records the delegated `method` on it.
fn route(router: &MultiPeerRouter<Handle>, op: &str, payload: &JsonValue, method: &str) -> Result<(), Reject> {
    let index = router.select_for_op(op, payload)?;
    router.adapter(index).0.calls.borrow_mut().push(method.to_owned());
    Ok(())
}

fn scope_payload() -> JsonValue {
    obj(vec![("scope", obj(vec![("scope_id", s("s1"))]))])
}

// ── Registry ────────────────────────────────────────────────────────────

#[test]
fn register_peer_stores_established_adapter_and_is_idempotent() {
    let mut router = connect_multi_peer_router(MultiPeerRouterOptions::default());
    let peer = FakePeer::new("peer-a", manifest("host-a", &["spoke-baseline"]), RemoteAdapterState::Established);

    assert_eq!(router.register_peer(Handle(peer.clone())).expect("register"), "peer-a");
    assert_eq!(router.list_peers(), vec!["peer-a".to_string()]);
    assert_eq!(router.register_peer(Handle(peer)).expect("re-register"), "peer-a");
    assert_eq!(router.list_peers(), vec!["peer-a".to_string()]);
    let replacement = FakePeer::new("peer-a", manifest("host-a", &["spoke-baseline"]), RemoteAdapterState::Established);
    assert_eq!(router.register_peer(Handle(replacement)).expect("replace"), "peer-a");
    assert_eq!(router.list_peers(), vec!["peer-a".to_string()]);
}

#[test]
fn register_peer_errors_when_the_adapter_has_no_established_session() {
    let mut router = connect_multi_peer_router(MultiPeerRouterOptions::default());
    let handshaking = FakePeer::new("", manifest("host-a", &["spoke-baseline"]), RemoteAdapterState::Handshaking);
    assert!(matches!(router.register_peer(Handle(handshaking)), Err(MultiPeerRouterError::NoPeerId)));
    let no_manifest = FakePeer::without_manifest("peer-a");
    assert!(matches!(router.register_peer(Handle(no_manifest)), Err(MultiPeerRouterError::NoManifest)));
    assert!(router.list_peers().is_empty());
}

#[test]
fn unregister_peer_is_a_noop_for_unknown_and_removes_registered() {
    let mut router = connect_multi_peer_router(MultiPeerRouterOptions::default());
    router
        .register_peer(Handle(FakePeer::new("peer-a", manifest("host-a", &["spoke-baseline"]), RemoteAdapterState::Established)))
        .expect("register");
    router.unregister_peer("never-registered");
    assert_eq!(router.list_peers(), vec!["peer-a".to_string()]);
    router.unregister_peer("peer-a");
    assert!(router.list_peers().is_empty());
}

// ── Selection — router surface ──────────────────────────────────────────

#[test]
fn selects_the_single_peer_with_the_required_capability() {
    let mut router = connect_multi_peer_router(MultiPeerRouterOptions::default());
    let baseline = FakePeer::new("peer-baseline", manifest("h-baseline", &["spoke-baseline"]), RemoteAdapterState::Established);
    let computable = FakePeer::new("peer-computable", manifest("h-computable", &["l2-computable"]), RemoteAdapterState::Established);
    router.register_peer(Handle(computable.clone())).expect("register computable");
    router.register_peer(Handle(baseline.clone())).expect("register baseline");

    let result = route(&router, "port.scope.list_knowledge_entries", &scope_payload(), "listKnowledgeEntries");

    assert!(result.is_ok());
    assert_eq!(baseline.calls(), vec!["listKnowledgeEntries".to_string()]);
    assert!(computable.calls().is_empty());
}

#[test]
fn rejects_with_the_locked_no_capable_peer_reject_when_no_peer_has_the_required_capability() {
    let mut router = connect_multi_peer_router(MultiPeerRouterOptions::default());
    let computable = FakePeer::new("peer-computable", manifest("h-computable", &["l2-computable"]), RemoteAdapterState::Established);
    router.register_peer(Handle(computable.clone())).expect("register");

    let result = route(&router, "port.scope.list_knowledge_entries", &scope_payload(), "listKnowledgeEntries");

    match result {
        Err(reject) => {
            assert_eq!(reject.code, "CAPABILITY_PORT_MISSING");
            assert_eq!(detail(&reject, "wire_code"), Some("no_capable_peer"));
            assert_eq!(detail(&reject, "kind"), Some("no_capable_peer"));
            assert_eq!(detail(&reject, "op"), Some("port.scope.list_knowledge_entries"));
        }
        Ok(()) => panic!("no capable peer must reject"),
    }
    assert!(computable.calls().is_empty());
}

#[test]
fn breaks_ties_deterministically_on_the_lowest_peer_id() {
    let mut router = connect_multi_peer_router(MultiPeerRouterOptions::default());
    let peer_b = FakePeer::new("peer-bbb", manifest("h-b", &["spoke-baseline"]), RemoteAdapterState::Established);
    let peer_a = FakePeer::new("peer-aaa", manifest("h-a", &["spoke-baseline"]), RemoteAdapterState::Established);
    router.register_peer(Handle(peer_b.clone())).expect("register b");
    router.register_peer(Handle(peer_a.clone())).expect("register a");

    let result = route(&router, "port.knowledge.get", &empty(), "getKnowledgeEntry");

    assert!(result.is_ok());
    assert_eq!(peer_a.calls(), vec!["getKnowledgeEntry".to_string()]);
    assert!(peer_b.calls().is_empty());
}

#[test]
fn excludes_closed_and_handshaking_peers_from_the_candidate_set() {
    let mut router = connect_multi_peer_router(MultiPeerRouterOptions::default());
    let closed = FakePeer::new("peer-closed", manifest("h-closed", &["spoke-baseline"]), RemoteAdapterState::Closed);
    let handshaking = FakePeer::new("peer-handshaking", manifest("h-handshaking", &["spoke-baseline"]), RemoteAdapterState::Handshaking);
    let established = FakePeer::new("peer-established", manifest("h-established", &["spoke-baseline"]), RemoteAdapterState::Established);
    router.register_peer(Handle(closed.clone())).expect("register closed");
    router.register_peer(Handle(handshaking.clone())).expect("register handshaking");
    router.register_peer(Handle(established.clone())).expect("register established");

    let result = route(&router, "port.scope.list_knowledge_entries", &scope_payload(), "listKnowledgeEntries");

    assert!(result.is_ok());
    assert_eq!(established.calls(), vec!["listKnowledgeEntries".to_string()]);
    assert!(closed.calls().is_empty());
    assert!(handshaking.calls().is_empty());
}

#[test]
fn rejects_unknown_ops_with_the_locked_reject_instead_of_skipping_the_capability_gate() {
    let candidate = peer("peer-a", manifest("h-a", &["spoke-baseline"]));

    let selection = select_peer_for_op(&[candidate], "product.op.unknown", &empty());

    match selection {
        Ok(_) => panic!("unknown op must not select a peer"),
        Err(reject) => {
            assert_eq!(reject.code, "CAPABILITY_PORT_MISSING");
            assert_eq!(detail(&reject, "kind"), Some("no_capable_peer"));
            assert_eq!(detail(&reject, "op"), Some("product.op.unknown"));
        }
    }
}

#[test]
fn reroutes_to_the_surviving_peer_when_the_selected_peer_leaves_established_between_calls() {
    let mut router = connect_multi_peer_router(MultiPeerRouterOptions::default());
    let peer_a = FakePeer::new("peer-a", manifest("h-a", &["spoke-baseline"]), RemoteAdapterState::Established);
    let peer_b = FakePeer::new("peer-b", manifest("h-b", &["spoke-baseline"]), RemoteAdapterState::Established);
    router.register_peer(Handle(peer_b.clone())).expect("register b");
    router.register_peer(Handle(peer_a.clone())).expect("register a");

    assert!(route(&router, "port.scope.list_knowledge_entries", &scope_payload(), "listKnowledgeEntries").is_ok());
    assert_eq!(peer_a.calls(), vec!["listKnowledgeEntries".to_string()]);
    assert!(peer_b.calls().is_empty());

    peer_a.set_state(RemoteAdapterState::Closed);
    assert_eq!(router.list_peers(), vec!["peer-b".to_string(), "peer-a".to_string()]);

    assert!(route(&router, "port.scope.list_knowledge_entries", &scope_payload(), "listKnowledgeEntries").is_ok());
    assert_eq!(peer_b.calls(), vec!["listKnowledgeEntries".to_string()]);
    assert_eq!(peer_a.calls(), vec!["listKnowledgeEntries".to_string()]);
}

#[test]
fn rejects_no_capable_peer_when_every_peer_leaves_established_between_calls() {
    let mut router = connect_multi_peer_router(MultiPeerRouterOptions::default());
    let peer_a = FakePeer::new("peer-a", manifest("h-a", &["spoke-baseline"]), RemoteAdapterState::Established);
    let peer_b = FakePeer::new("peer-b", manifest("h-b", &["spoke-baseline"]), RemoteAdapterState::Established);
    router.register_peer(Handle(peer_b.clone())).expect("register b");
    router.register_peer(Handle(peer_a.clone())).expect("register a");

    assert!(route(&router, "port.scope.list_knowledge_entries", &scope_payload(), "listKnowledgeEntries").is_ok());
    assert_eq!(peer_a.calls(), vec!["listKnowledgeEntries".to_string()]);
    assert!(peer_b.calls().is_empty());

    peer_a.set_state(RemoteAdapterState::Closed);
    peer_b.set_state(RemoteAdapterState::Closed);

    match route(&router, "port.scope.list_knowledge_entries", &scope_payload(), "listKnowledgeEntries") {
        Err(reject) => {
            assert_eq!(reject.code, "CAPABILITY_PORT_MISSING");
            assert_eq!(detail(&reject, "kind"), Some("no_capable_peer"));
        }
        Ok(()) => panic!("no Established peer must reject"),
    }
    assert_eq!(peer_a.calls(), vec!["listKnowledgeEntries".to_string()]);
    assert!(peer_b.calls().is_empty());
}

#[test]
fn concurrent_register_select_and_unregister_complete_without_deadlock_or_corruption() {
    // The registry is a single-owner value here: interleave the same
    // registrations (each twice), selections and unregistrations.
    let mut router = connect_multi_peer_router(MultiPeerRouterOptions::default());
    let seeds: Vec<Rc<FakePeer>> = (0..4)
        .map(|i| FakePeer::new(&format!("seed-{i:02}"), manifest(&format!("h-seed-{i:02}"), &["spoke-baseline"]), RemoteAdapterState::Established))
        .collect();
    for seed in &seeds {
        router.register_peer(Handle(seed.clone())).expect("pre-seed registers");
    }
    const PEER_COUNT: usize = 12;
    let peers: Vec<Rc<FakePeer>> = (0..PEER_COUNT)
        .map(|i| FakePeer::new(&format!("peer-{i:02}"), manifest(&format!("h-{i:02}"), &["spoke-baseline"]), RemoteAdapterState::Established))
        .collect();
    for (i, candidate) in peers.iter().enumerate() {
        let expected = format!("peer-{i:02}");
        assert_eq!(router.register_peer(Handle(candidate.clone())).expect("first register"), expected);
        let outcome = route(&router, "port.scope.list_knowledge_entries", &scope_payload(), "listKnowledgeEntries");
        if let Err(reject) = outcome {
            assert_eq!(reject.code, "CAPABILITY_PORT_MISSING");
            assert_eq!(detail(&reject, "kind"), Some("no_capable_peer"));
        }
        assert_eq!(router.register_peer(Handle(candidate.clone())).expect("second register"), expected);
        if i < seeds.len() {
            router.unregister_peer(&seeds[i].peer_id.clone());
        }
    }
    let mut listed = router.list_peers();
    listed.sort();
    let mut expected: Vec<String> = (0..PEER_COUNT).map(|i| format!("peer-{i:02}")).collect();
    expected.sort();
    assert_eq!(listed, expected);
}

// ── Pure selection ──────────────────────────────────────────────────────

#[test]
fn namespace_filter_excludes_peers_that_do_not_advertise_the_request_namespace() {
    let alpha = peer("peer-alpha", manifest_with("h-alpha", &["spoke-baseline"], &["data-store"], &["alpha"]));
    let beta = peer("peer-beta", manifest_with("h-beta", &["spoke-baseline"], &["data-store"], &["beta"]));
    let payload = obj(vec![("scope", obj(vec![("scope_id", s("s1")), ("namespace", s("beta"))]))]);

    match select_peer_for_op(&[alpha, beta], "port.scope.list_knowledge_entries", &payload) {
        Ok(selected) => assert_eq!(selected.peer_id, "peer-beta"),
        Err(reject) => panic!("must select peer-beta: {reject:?}"),
    }
}

#[test]
fn namespace_filter_is_skipped_when_the_request_carries_no_namespace() {
    let alpha = peer("peer-alpha", manifest_with("h-alpha", &["spoke-baseline"], &["data-store"], &["alpha"]));
    let beta = peer("peer-beta", manifest_with("h-beta", &["spoke-baseline"], &["data-store"], &["beta"]));

    match select_peer_for_op(&[alpha, beta], "port.scope.list_knowledge_entries", &scope_payload()) {
        Ok(selected) => assert_eq!(selected.peer_id, "peer-alpha"),
        Err(reject) => panic!("must select peer-alpha: {reject:?}"),
    }
}

#[test]
fn namespace_filter_never_wildcard_expands_an_asterisk_request() {
    let alpha = peer("peer-alpha", manifest_with("h-alpha", &["spoke-baseline"], &["data-store"], &["alpha"]));
    let payload = obj(vec![("scope", obj(vec![("scope_id", s("s1")), ("namespace", s("*"))]))]);

    match select_peer_for_op(&[alpha], "port.scope.list_knowledge_entries", &payload) {
        Ok(_) => panic!("literal '*' request namespace must not match 'alpha'"),
        Err(reject) => assert_eq!(detail(&reject, "kind"), Some("no_capable_peer")),
    }
}

#[test]
fn role_preference_prefers_the_peer_whose_roles_include_the_preferred_role() {
    let plain = peer("peer-a", manifest("h-a", &["spoke-baseline"]));
    let checker = peer("peer-z", manifest_with("h-z", &["spoke-baseline"], &["data-store", "checker"], &["toy_world"]));

    match select_peer_for_op(&[plain, checker], "check", &empty()) {
        Ok(selected) => assert_eq!(selected.peer_id, "peer-z"),
        Err(reject) => panic!("must select peer-z: {reject:?}"),
    }
}

#[test]
fn role_preference_falls_back_to_the_role_unmatched_partition_when_none_has_the_preferred_role() {
    let plain = peer("peer-a", manifest("h-a", &["spoke-baseline"]));
    let checker = peer("peer-z", manifest_with("h-z", &["spoke-baseline"], &["data-store", "checker"], &["toy_world"]));

    match select_peer_for_op(&[plain, checker], "assemble", &empty()) {
        Ok(selected) => assert_eq!(selected.peer_id, "peer-a"),
        Err(reject) => panic!("must select peer-a: {reject:?}"),
    }
}

#[test]
fn no_role_preference_applies_to_port_baseline_ops() {
    let plain = peer("peer-a", manifest("h-a", &["spoke-baseline"]));
    let checker = peer("peer-z", manifest_with("h-z", &["spoke-baseline"], &["data-store", "checker"], &["toy_world"]));

    match select_peer_for_op(&[plain, checker], "port.knowledge.put", &empty()) {
        Ok(selected) => assert_eq!(selected.peer_id, "peer-a"),
        Err(reject) => panic!("must select peer-a: {reject:?}"),
    }
}

#[test]
fn authority_filter_excludes_peers_whose_declared_scope_key_mismatches_the_request() {
    let matching = peer("peer-match", manifest_with_authority("h-match", "scope-K"));
    let mismatched = peer("peer-mismatch", manifest_with_authority("h-mismatch", "scope-Z"));
    let payload = obj(vec![("scope_key", s("scope-K"))]);

    match select_peer_for_op(&[mismatched, matching], "port.scope.list_knowledge_entries", &payload) {
        Ok(selected) => assert_eq!(selected.peer_id, "peer-match"),
        Err(reject) => panic!("must select peer-match: {reject:?}"),
    }
}

#[test]
fn authority_filter_is_skipped_when_only_one_side_declares_a_scope_key() {
    let mismatched = peer("peer-mismatch", manifest_with_authority("h-mismatch", "scope-Z"));
    let undeclared = peer("peer-a", manifest("h-a", &["spoke-baseline"]));
    let payload = obj(vec![("scope_key", s("scope-K"))]);

    match select_peer_for_op(&[mismatched, undeclared], "port.scope.list_knowledge_entries", &payload) {
        Ok(selected) => assert_eq!(selected.peer_id, "peer-a"),
        Err(reject) => panic!("must select peer-a: {reject:?}"),
    }
}

#[test]
fn authority_filter_is_skipped_when_the_request_carries_no_scope_key() {
    let matching = peer("peer-match", manifest_with_authority("h-match", "scope-K"));
    let mismatched = peer("peer-mismatch", manifest_with_authority("h-mismatch", "scope-Z"));

    match select_peer_for_op(&[mismatched, matching], "port.scope.list_knowledge_entries", &scope_payload()) {
        Ok(selected) => assert_eq!(selected.peer_id, "peer-match"),
        Err(reject) => panic!("must select peer-match: {reject:?}"),
    }
}

#[test]
fn tie_break_orders_peer_ids_by_utf8_byte_order_not_code_units() {
    let bmp = peer("\u{E000}", manifest("h-bmp", &["spoke-baseline"]));
    let astral = peer("\u{10000}", manifest("h-astral", &["spoke-baseline"]));

    match select_peer_for_op(&[astral, bmp], "port.knowledge.get", &empty()) {
        Ok(selected) => assert_eq!(selected.peer_id, "\u{E000}"),
        Err(reject) => panic!("must select U+E000: {reject:?}"),
    }
}

// ── Composed views ──────────────────────────────────────────────────────

#[test]
fn treats_an_empty_host_id_as_unset_defaulting_to_multi_peer_router() {
    let router: MultiPeerRouter<Handle> = connect_multi_peer_router(MultiPeerRouterOptions { host_id: Some(String::new()) });
    assert_eq!(router.compose_manifest().host_id, "multi-peer-router");
}

#[test]
fn composes_the_union_of_connected_peers_with_the_routers_own_host_id() {
    let mut router = connect_multi_peer_router(MultiPeerRouterOptions { host_id: Some("router-own".to_string()) });
    router
        .register_peer(Handle(FakePeer::new("peer-a", manifest_with("h-a", &["spoke-baseline"], &["data-store"], &["alpha"]), RemoteAdapterState::Established)))
        .expect("register a");
    router
        .register_peer(Handle(FakePeer::new(
            "peer-b",
            manifest_with("h-b", &["spoke-baseline", "l2-computable"], &["data-store", "checker"], &["alpha", "beta"]),
            RemoteAdapterState::Established,
        )))
        .expect("register b");

    let composed = router.compose_manifest();
    assert_eq!(composed.host_id, "router-own");
    assert_eq!(composed.schema_version, 1);
    assert!(composed.authority_scope_key.is_none());
    let mut capabilities = composed.capabilities.clone();
    capabilities.sort();
    assert_eq!(capabilities, vec!["l2-computable", "spoke-baseline"]);
    let mut roles = composed.roles.clone();
    roles.sort();
    assert_eq!(roles, vec!["checker", "data-store"]);
    let mut namespaces = composed.namespaces.clone();
    namespaces.sort();
    assert_eq!(namespaces, vec!["alpha", "beta"]);
    assert_eq!(composed.peers, vec!["peer-a", "peer-b"]);
}

#[test]
fn lists_per_peer_manifests_sorted_by_peer_id() {
    let mut router = connect_multi_peer_router(MultiPeerRouterOptions::default());
    router
        .register_peer(Handle(FakePeer::new("peer-b", manifest_with("h-b", &["spoke-baseline"], &["data-store"], &["beta"]), RemoteAdapterState::Established)))
        .expect("register b");
    router
        .register_peer(Handle(FakePeer::new("peer-a", manifest_with("h-a", &["spoke-baseline"], &["data-store"], &["alpha"]), RemoteAdapterState::Established)))
        .expect("register a");

    let host_ids: Vec<String> = router.list_peer_manifests().into_iter().map(|m| m.host_id).collect();
    assert_eq!(host_ids, vec!["h-a", "h-b"]);
}

#[test]
fn zero_peers_returns_empty_list_and_empty_unions() {
    let router: MultiPeerRouter<Handle> = connect_multi_peer_router(MultiPeerRouterOptions { host_id: Some("router-alone".to_string()) });
    assert!(router.list_peer_manifests().is_empty());
    let composed = router.compose_manifest();
    assert_eq!(composed.host_id, "router-alone");
    assert!(composed.capabilities.is_empty());
    assert!(composed.roles.is_empty());
    assert!(composed.namespaces.is_empty());
    assert!(composed.peers.is_empty());
}

#[test]
fn excludes_non_established_registered_peers_from_the_composed_view() {
    let mut router = connect_multi_peer_router(MultiPeerRouterOptions { host_id: Some("router-only-live".to_string()) });
    router
        .register_peer(Handle(FakePeer::new("peer-closed", manifest_with("h-closed", &["archive-scan"], &["ghost"], &["zeta"]), RemoteAdapterState::Closed)))
        .expect("register closed");
    router
        .register_peer(Handle(FakePeer::new(
            "peer-live",
            manifest_with("h-live", &["spoke-baseline", "l2-computable"], &["data-store", "checker"], &["alpha", "beta"]),
            RemoteAdapterState::Established,
        )))
        .expect("register live");

    let host_ids: Vec<String> = router.list_peer_manifests().into_iter().map(|m| m.host_id).collect();
    assert_eq!(host_ids, vec!["h-live"]);

    let composed = router.compose_manifest();
    assert_eq!(composed.host_id, "router-only-live");
    let mut capabilities = composed.capabilities.clone();
    capabilities.sort();
    assert_eq!(capabilities, vec!["l2-computable", "spoke-baseline"]);
    let mut roles = composed.roles.clone();
    roles.sort();
    assert_eq!(roles, vec!["checker", "data-store"]);
    let mut namespaces = composed.namespaces.clone();
    namespaces.sort();
    assert_eq!(namespaces, vec!["alpha", "beta"]);
    assert_eq!(composed.peers, vec!["peer-live"]);
}

#[test]
fn composed_view_unions_tools_deduped_by_capability_id_in_lexicographic_order() {
    let mut router = connect_multi_peer_router(MultiPeerRouterOptions::default());
    router
        .register_peer(Handle(FakePeer::new(
            "peer-a",
            manifest_with_tools("h-a", &["spoke-baseline", "tools.math.add", "tools.echo.echo"], &["math", "echo"], &["tools.math.add", "tools.echo.echo"]),
            RemoteAdapterState::Established,
        )))
        .expect("register a");
    router
        .register_peer(Handle(FakePeer::new(
            "peer-b",
            manifest_with_tools("h-b", &["spoke-baseline", "tools.echo.echo", "tools.echo.boom"], &["echo"], &["tools.echo.echo", "tools.echo.boom"]),
            RemoteAdapterState::Established,
        )))
        .expect("register b");

    let composed = router.compose_manifest();
    let ids: Vec<String> = composed.tools.iter().map(|t| t.capability_id.clone()).collect();
    assert_eq!(ids, vec!["tools.echo.boom", "tools.echo.echo", "tools.math.add"]);
}

// ── Tool routing ────────────────────────────────────────────────────────

#[test]
fn invoke_tool_routes_to_the_peer_whose_manifest_offers_the_exact_tool_capability() {
    let mut router = connect_multi_peer_router(MultiPeerRouterOptions::default());
    let add_peer = FakePeer::new(
        "peer-add",
        manifest_with_tools("h-add", &["spoke-baseline", "tools.math.add"], &["math"], &["tools.math.add"]),
        RemoteAdapterState::Established,
    );
    let echo_peer = FakePeer::new(
        "peer-echo",
        manifest_with_tools("h-echo", &["spoke-baseline", "tools.echo.echo"], &["echo"], &["tools.echo.echo"]),
        RemoteAdapterState::Established,
    );
    router.register_peer(Handle(add_peer.clone())).expect("register add");
    router.register_peer(Handle(echo_peer.clone())).expect("register echo");

    assert!(route(&router, "tools.math.add", &empty(), "invokeTool").is_ok());
    assert_eq!(add_peer.calls(), vec!["invokeTool"]);
    assert!(echo_peer.calls().is_empty());

    assert!(route(&router, "tools.echo.echo", &empty(), "invokeTool").is_ok());
    assert_eq!(echo_peer.calls(), vec!["invokeTool"]);
    assert_eq!(add_peer.calls(), vec!["invokeTool"]);
}

#[test]
fn invoke_tool_rejects_with_no_capable_peer_when_no_peer_offers_the_tool() {
    let mut router = connect_multi_peer_router(MultiPeerRouterOptions::default());
    let add_peer = FakePeer::new(
        "peer-add",
        manifest_with_tools("h-add", &["spoke-baseline", "tools.math.add"], &["math"], &["tools.math.add"]),
        RemoteAdapterState::Established,
    );
    router.register_peer(Handle(add_peer.clone())).expect("register add");

    match route(&router, "tools.echo.boom", &empty(), "invokeTool") {
        Err(reject) => {
            assert_eq!(reject.code, "CAPABILITY_PORT_MISSING");
            assert_eq!(detail(&reject, "kind"), Some("no_capable_peer"));
            assert_eq!(detail(&reject, "wire_code"), Some("no_capable_peer"));
            assert_eq!(detail(&reject, "op"), Some("tools.echo.boom"));
        }
        Ok(()) => panic!("no capable peer must reject"),
    }
    assert!(add_peer.calls().is_empty());
}

#[test]
fn invoke_tool_breaks_ties_on_the_lowest_peer_id_when_both_peers_offer_the_tool() {
    let mut router = connect_multi_peer_router(MultiPeerRouterOptions::default());
    let peer_b = FakePeer::new(
        "peer-bbb",
        manifest_with_tools("h-b", &["spoke-baseline", "tools.math.add"], &["math"], &["tools.math.add"]),
        RemoteAdapterState::Established,
    );
    let peer_a = FakePeer::new(
        "peer-aaa",
        manifest_with_tools("h-a", &["spoke-baseline", "tools.math.add"], &["math"], &["tools.math.add"]),
        RemoteAdapterState::Established,
    );
    router.register_peer(Handle(peer_b.clone())).expect("register b");
    router.register_peer(Handle(peer_a.clone())).expect("register a");

    assert!(route(&router, "tools.math.add", &empty(), "invokeTool").is_ok());
    assert_eq!(peer_a.calls(), vec!["invokeTool"]);
    assert!(peer_b.calls().is_empty());
}

// ── Failure policy ──────────────────────────────────────────────────────

/// The selected peer answers with `down`; the router hands it back as is.
fn route_failing(router: &MultiPeerRouter<Handle>, op: &str, method: &str, down: &Reject) -> Result<(), Reject> {
    route(router, op, &scope_payload(), method)?;
    Err(Reject { code: down.code.clone(), message: down.message.clone(), details: down.details.as_ref().map(|d| {
        d.iter().map(|(k, v)| (k.clone(), v.deep_clone())).collect()
    }) })
}

#[test]
fn returns_the_selected_peers_underlying_reject_as_is_without_alternate_retry() {
    let mut router = connect_multi_peer_router(MultiPeerRouterOptions::default());
    let peer_a = FakePeer::new("peer-a", manifest("h-a", &["spoke-baseline"]), RemoteAdapterState::Established);
    let peer_b = FakePeer::new("peer-b", manifest("h-b", &["spoke-baseline"]), RemoteAdapterState::Established);
    router.register_peer(Handle(peer_b.clone())).expect("register b");
    router.register_peer(Handle(peer_a.clone())).expect("register a");
    let down = Reject {
        code: "INTERNAL_ERROR".to_owned(),
        message: "transport loss".to_owned(),
        details: Some(vec![("kind".to_owned(), s("transport"))]),
    };

    match route_failing(&router, "port.scope.list_knowledge_entries", "listKnowledgeEntries", &down) {
        Err(reject) => {
            assert_eq!(reject.code, "INTERNAL_ERROR");
            assert_eq!(reject.message, "transport loss");
            assert_eq!(detail(&reject, "kind"), Some("transport"));
        }
        Ok(()) => panic!("selected-peer failure must reject"),
    }
    assert_eq!(peer_a.calls(), vec!["listKnowledgeEntries".to_string()]);
    assert!(peer_b.calls().is_empty());
}

#[test]
fn does_not_remap_an_envelope_auth_failure_kind_to_no_capable_peer() {
    let mut router = connect_multi_peer_router(MultiPeerRouterOptions::default());
    let peer_a = FakePeer::new("peer-a", manifest("h-a", &["spoke-baseline"]), RemoteAdapterState::Established);
    router.register_peer(Handle(peer_a.clone())).expect("register");
    let down = Reject {
        code: "INTERNAL_ERROR".to_owned(),
        message: "unauthenticated envelope".to_owned(),
        details: Some(vec![("kind".to_owned(), s("envelope_auth_missing"))]),
    };

    match route_failing(&router, "port.knowledge.get", "getKnowledgeEntry", &down) {
        Err(reject) => {
            assert_eq!(reject.code, "INTERNAL_ERROR");
            assert_eq!(detail(&reject, "kind"), Some("envelope_auth_missing"));
            assert!(detail(&reject, "wire_code").is_none());
        }
        Ok(()) => panic!("envelope-auth failure must reject"),
    }
}
