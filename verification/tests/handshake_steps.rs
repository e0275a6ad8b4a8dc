use spoke_connect::dial::DialStep;
use spoke_connect::errors::{CoreError, RemoteAdapterError};
use spoke_connect::handshake::{
    dial_step, responder_step, DialAction, DialEvent, DialState, ResponderAction, ResponderEvent, ResponderState,
};
use spoke_connect::identity::nonce_from_draw;
use spoke_connect::json::JsonValue;
use spoke_connect::manifest::PeerManifest;
use spoke_connect::order::sort_positions;
use spoke_connect::registry::union_of_strings;
use spoke_connect::router::{select_peer_for_op, SelectablePeer};
use spoke_connect::session::{NonceStore, OutboundSequence};

fn strings(items: &[&str]) -> Vec<String> {
    items.iter().map(|s| s.to_string()).collect()
}

fn manifest(host_id: &str, capabilities: &[&str]) -> PeerManifest {
    PeerManifest {
        host_id: host_id.to_owned(),
        capabilities: strings(capabilities),
        roles: strings(&["data-store"]),
        namespaces: strings(&["toy_world"]),
        authority_scope_key: None,
        tools: Vec::new(),
    }
}

fn start(allowlist: &[&str]) -> DialState {
    DialState::Start {
        remote_peer_id: "peer-r".to_owned(),
        allowlist: strings(allowlist),
        local_capabilities: strings(&["spoke-baseline", "l2-computable"]),
    }
}

fn await_server_hello() -> DialState {
    DialState::AwaitServerHello {
        remote_peer_id: "peer-r".to_owned(),
        local_capabilities: strings(&["spoke-baseline", "l2-computable"]),
    }
}

// ── Dial ────────────────────────────────────────────────────────────────

#[test]
fn dial_to_unlisted_peer_fails_before_sending_anything() {
    let mut accepted = NonceStore::new();
    let (state, action) = dial_step(start(&["peer-other"]), DialEvent::Begin, &mut accepted);
    assert!(matches!(state, DialState::Failed));
    match action {
        DialAction::Fail { error: RemoteAdapterError::Config(message) } => {
            assert_eq!(message, "remote peer peer-r is not on the allowlist (fail-closed)")
        }
        _ => panic!("expected a config failure without I/O"),
    }
}

#[test]
fn dial_to_listed_peer_sends_its_hello() {
    let mut accepted = NonceStore::new();
    let (state, action) = dial_step(start(&["peer-r"]), DialEvent::Begin, &mut accepted);
    assert!(matches!(state, DialState::AwaitServerHello { .. }));
    assert!(matches!(action, DialAction::SendHello));
}

#[test]
fn dial_runs_to_an_established_session_with_the_remote_manifest() {
    let mut accepted = NonceStore::new();
    let hello = DialEvent::ServerHello {
        nonce: "server-nonce-0001".to_owned(),
        verification: Ok(()),
        host: Ok(manifest("host-r", &["spoke-baseline"])),
    };
    let (state, action) = dial_step(await_server_hello(), hello, &mut accepted);
    assert!(matches!(action, DialAction::AwaitSnapshot));
    assert!(accepted.contains("peer-r", "server-nonce-0001"));
    let snapshot = DialEvent::Snapshot { verification: Ok(()), session_id: "s-1".to_owned(), initial_sequence: 0 };
    let (state, action) = dial_step(state, snapshot, &mut accepted);
    assert!(matches!(state, DialState::Established));
    match action {
        DialAction::Establish { binding, remote_manifest } => {
            assert_eq!(binding.session_id, "s-1");
            assert_eq!(binding.peer_id, "peer-r");
            assert_eq!(binding.negotiated, strings(&["spoke-baseline"]));
            assert_eq!(remote_manifest.host_id, "host-r");
        }
        _ => panic!("expected the session to be bound"),
    }
}

#[test]
fn dial_replayed_server_hello_closes_the_transport() {
    let mut accepted = NonceStore::new();
    accepted.check_and_record("peer-r", "server-nonce-0002");
    let hello = DialEvent::ServerHello {
        nonce: "server-nonce-0002".to_owned(),
        verification: Ok(()),
        host: Ok(manifest("host-r", &["spoke-baseline"])),
    };
    let (state, action) = dial_step(await_server_hello(), hello, &mut accepted);
    assert!(matches!(state, DialState::Failed));
    match action {
        DialAction::CloseAndFail { error: RemoteAdapterError::Handshake(message) } => assert_eq!(
            message,
            "server hello replay rejected: (peer_id peer-r, nonce server-nonce-0002) was already accepted"
        ),
        _ => panic!("expected close and fail"),
    }
}

#[test]
fn dial_failed_verification_records_nothing() {
    let mut accepted = NonceStore::new();
    let hello = DialEvent::ServerHello {
        nonce: "server-nonce-0003".to_owned(),
        verification: Err(CoreError::ProtocolVersionMismatch { reason: "version 2".to_owned() }),
        host: Ok(manifest("host-r", &["spoke-baseline"])),
    };
    let (state, action) = dial_step(await_server_hello(), hello, &mut accepted);
    assert!(matches!(state, DialState::Failed));
    assert!(matches!(action, DialAction::CloseAndFail { error: RemoteAdapterError::ProtocolVersionMismatch(_) }));
    assert!(!accepted.contains("peer-r", "server-nonce-0003"));
}

#[test]
fn dial_bad_snapshot_closes_the_transport() {
    let mut accepted = NonceStore::new();
    let state = DialState::AwaitSnapshot {
        remote_peer_id: "peer-r".to_owned(),
        local_capabilities: strings(&["spoke-baseline"]),
        remote_manifest: manifest("host-r", &["spoke-baseline"]),
    };
    let snapshot = DialEvent::Snapshot { verification: Ok(()), session_id: "s-1".to_owned(), initial_sequence: 4 };
    let (state, action) = dial_step(state, snapshot, &mut accepted);
    assert!(matches!(state, DialState::Failed));
    match action {
        DialAction::CloseAndFail { error: RemoteAdapterError::Handshake(message) } => {
            assert_eq!(message, "session snapshot initial_sequence must be 0")
        }
        _ => panic!("expected close and fail"),
    }
}

#[test]
fn dial_timeout_while_waiting_closes_the_transport() {
    let mut accepted = NonceStore::new();
    let (state, action) = dial_step(
        await_server_hello(),
        DialEvent::TimedOut { what: "server hello".to_owned(), timeout_ms: 50 },
        &mut accepted,
    );
    assert!(matches!(state, DialState::Failed));
    match action {
        DialAction::CloseAndFail { error: RemoteAdapterError::Timeout(message) } => {
            assert_eq!(message, "connect: server hello timed out after 50ms")
        }
        _ => panic!("expected close and fail"),
    }
    let (_, action) = dial_step(
        await_server_hello(),
        DialEvent::StepFailed { step: DialStep::ServerHelloRecv, detail: "transport is closed".to_owned() },
        &mut accepted,
    );
    assert!(matches!(action, DialAction::CloseAndFail { error: RemoteAdapterError::Handshake(m) } if m == "server hello recv failed: transport is closed"));
}

#[test]
fn finished_dial_ignores_events() {
    let mut accepted = NonceStore::new();
    let (state, action) = dial_step(DialState::Established, DialEvent::Begin, &mut accepted);
    assert!(matches!(state, DialState::Established));
    assert!(matches!(action, DialAction::Ignore));
}

// ── Responder ───────────────────────────────────────────────────────────

fn await_hello() -> ResponderState {
    ResponderState::AwaitHello {
        allowlist: strings(&["peer-d"]),
        peer_keys: vec![("peer-d".to_owned(), [7u8; 32])],
        local_capabilities: strings(&["spoke-baseline", "l2-computable"]),
    }
}

#[test]
fn responder_closes_without_sending_on_a_non_hello() {
    let mut nonces = NonceStore::new();
    let (state, action) = responder_step(await_hello(), ResponderEvent::NotHello, &mut nonces);
    assert!(matches!(state, ResponderState::Closed));
    assert!(matches!(action, ResponderAction::CloseWithoutSend { reason } if reason == "handshake failed: expected ConnectHello from client"));
}

#[test]
fn responder_closes_without_sending_on_an_unlisted_dialer() {
    let mut nonces = NonceStore::new();
    let hello = ResponderEvent::Hello { peer_id: "peer-x".to_owned(), nonce: "dial-nonce-000001".to_owned() };
    let (state, action) = responder_step(await_hello(), hello, &mut nonces);
    assert!(matches!(state, ResponderState::Closed));
    assert!(matches!(action, ResponderAction::CloseWithoutSend { reason } if reason == "handshake failed: peer peer-x not on allowlist"));
}

#[test]
fn responder_accepts_a_hello_then_answers_then_establishes() {
    let mut nonces = NonceStore::new();
    let hello = ResponderEvent::Hello { peer_id: "peer-d".to_owned(), nonce: "dial-nonce-000002".to_owned() };
    let (state, action) = responder_step(await_hello(), hello, &mut nonces);
    assert!(matches!(action, ResponderAction::VerifyHello { key } if key == [7u8; 32]));
    let verified = ResponderEvent::Verified {
        derived_peer_id: "peer-d".to_owned(),
        verification: Ok(()),
        host: Ok(manifest("host-d", &["spoke-baseline"])),
    };
    let (state, action) = responder_step(state, verified, &mut nonces);
    assert!(nonces.contains("peer-d", "dial-nonce-000002"));
    match action {
        ResponderAction::SendHelloAndSnapshot { session_id, snapshot_capabilities } => {
            assert_eq!(session_id, "connect-responder-session-peer-d");
            assert_eq!(snapshot_capabilities, strings(&["spoke-baseline"]));
        }
        _ => panic!("expected the answer to be sent"),
    }
    let (state, action) = responder_step(state, ResponderEvent::Sent, &mut nonces);
    assert!(matches!(state, ResponderState::Established));
    match action {
        ResponderAction::Establish { binding, remote_manifest } => {
            assert_eq!(binding.session_id, "connect-responder-session-peer-d");
            assert_eq!(binding.peer_id, "peer-d");
            assert_eq!(remote_manifest.host_id, "host-d");
        }
        _ => panic!("expected the session to be established"),
    }
}

#[test]
fn responder_replayed_hello_closes() {
    let mut nonces = NonceStore::new();
    nonces.check_and_record("peer-d", "dial-nonce-000003");
    let state = ResponderState::AwaitVerification {
        claimed_peer_id: "peer-d".to_owned(),
        nonce: "dial-nonce-000003".to_owned(),
        local_capabilities: strings(&["spoke-baseline"]),
    };
    let verified = ResponderEvent::Verified {
        derived_peer_id: "peer-d".to_owned(),
        verification: Ok(()),
        host: Ok(manifest("host-d", &["spoke-baseline"])),
    };
    let (state, action) = responder_step(state, verified, &mut nonces);
    assert!(matches!(state, ResponderState::Closed));
    assert!(matches!(action, ResponderAction::CloseWithoutSend { reason } if reason == "handshake failed: nonce replay"));
}

// ── Nonce from a draw ────────────────────────────────────────────────────

#[test]
fn nonce_from_draw_encodes_the_drawn_bytes() {
    let nonce = nonce_from_draw(Ok([0u8; 16])).expect("nonce");
    assert_eq!(nonce, "AAAAAAAAAAAAAAAAAAAAAA");
    let nonce = nonce_from_draw(Ok([0xffu8; 16])).expect("nonce");
    assert_eq!(nonce, "_____________________w");
    let error = nonce_from_draw(Err("no entropy".to_owned())).expect_err("draw failed");
    assert_eq!(error, "CSPRNG failure: no entropy");
}

// ── Laws on concrete values ──────────────────────────────────────────────

#[test]
fn allocations_run_in_order_and_stop_at_exhaustion() {
    let mut seq = OutboundSequence::new();
    assert_eq!(seq.allocate().unwrap(), 0);
    assert_eq!(seq.allocate().unwrap(), 1);
    assert_eq!(seq.allocate().unwrap(), 2);
    seq.set_next(9007199254740991);
    assert_eq!(seq.allocate().unwrap(), 9007199254740991);
    assert!(seq.allocate().is_err());
    assert!(seq.allocate().is_err());
}

#[test]
fn union_of_strings_is_duplicate_free_in_first_seen_order() {
    let lists = vec![strings(&["b", "a"]), strings(&["c", "a", "b"]), Vec::new()];
    assert_eq!(union_of_strings(&lists), strings(&["b", "a", "c"]));
    assert!(union_of_strings(&vec![Vec::new(), Vec::new()]).is_empty());
}

#[test]
fn sort_positions_is_stable_on_equal_keys() {
    let keys = vec![b"b".to_vec(), b"a".to_vec(), b"b".to_vec(), b"a".to_vec()];
    assert_eq!(sort_positions(&keys), vec![1, 3, 0, 2]);
}

#[test]
fn selection_ignores_candidate_order() {
    let a = || SelectablePeer { peer_id: "peer-b".to_owned(), manifest: manifest("h-b", &["spoke-baseline"]) };
    let b = || SelectablePeer { peer_id: "peer-a".to_owned(), manifest: manifest("h-a", &["spoke-baseline"]) };
    let payload = JsonValue::Object(Vec::new());
    let first = select_peer_for_op(&[a(), b()], "port.knowledge.get", &payload).expect("selected");
    let second = select_peer_for_op(&[b(), a()], "port.knowledge.get", &payload).expect("selected");
    assert_eq!(first.peer_id, "peer-a");
    assert_eq!(second.peer_id, "peer-a");
}
