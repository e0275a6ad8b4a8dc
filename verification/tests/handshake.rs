use spoke_connect::dial::{
    accept_server_hello, dial_failure, dial_preflight, dial_timeout, gate_hello, invoke_timeout_ms,
    responder_accept_hello, responder_admit, responder_session_id, snapshot_capabilities,
    validate_session_snapshot, DialStep, GateRejection, HelloAck,
};
use spoke_connect::errors::{CoreError, RemoteAdapterError};
use spoke_connect::identity::{generate_nonce, local_public_key};
use spoke_connect::session::NonceStore;

fn allow(ids: &[&str]) -> Vec<String> {
    ids.iter().map(|id| id.to_string()).collect()
}

// ── Node accept gate ────────────────────────────────────────────────────

#[test]
fn allowlist_accepts_listed_peer() {
    let nonce = generate_nonce().expect("nonce");
    let mut nonces = NonceStore::new();
    gate_hello("peer-a", &allow(&["peer-a"]), &mut nonces, 1, &nonce, Ok(()), Ok(())).expect("allowlisted peer accepted");
}

#[test]
fn allowlist_rejects_unlisted_peer() {
    let nonce = generate_nonce().expect("nonce");
    let mut nonces = NonceStore::new();
    let err = gate_hello("peer-a", &allow(&["peer-other"]), &mut nonces, 1, &nonce, Ok(()), Ok(())).expect_err("unlisted peer");
    assert!(matches!(err, GateRejection::NotAllowlisted { peer_id: p } if p == "peer-a"));
}

#[test]
fn empty_allowlist_rejects_everyone() {
    let nonce = generate_nonce().expect("nonce");
    let mut nonces = NonceStore::new();
    let err = gate_hello("peer-a", &Vec::new(), &mut nonces, 1, &nonce, Ok(()), Ok(())).expect_err("fail-closed");
    assert!(matches!(err, GateRejection::NotAllowlisted { .. }));
}

#[test]
fn nonce_replay_rejected() {
    let mut nonces = NonceStore::new();
    gate_hello("peer-a", &allow(&["peer-a"]), &mut nonces, 1, "replay-nonce-12345", Ok(()), Ok(())).expect("first accept");
    let err = gate_hello("peer-a", &allow(&["peer-a"]), &mut nonces, 1, "replay-nonce-12345", Ok(()), Ok(())).expect_err("replay");
    assert!(matches!(err, GateRejection::NonceReplay));
}

#[test]
fn same_nonce_from_different_peers_is_allowed() {
    let mut nonces = NonceStore::new();
    let list = allow(&["peer-a", "peer-b"]);
    gate_hello("peer-a", &list, &mut nonces, 1, "shared-nonce-12345", Ok(()), Ok(())).expect("a accepted");
    gate_hello("peer-b", &list, &mut nonces, 1, "shared-nonce-12345", Ok(()), Ok(())).expect("b accepted with same nonce");
}

#[test]
fn rejected_hello_nonce_is_not_recorded() {
    let mut nonces = NonceStore::new();
    let err = gate_hello("peer-a", &Vec::new(), &mut nonces, 1, "retry-nonce-12345", Ok(()), Ok(())).expect_err("rejected while unlisted");
    assert!(matches!(err, GateRejection::NotAllowlisted { .. }));
    gate_hello("peer-a", &allow(&["peer-a"]), &mut nonces, 1, "retry-nonce-12345", Ok(()), Ok(())).expect("same hello accepted once allowlisted");
}

#[test]
fn gate_rejects_key_not_deriving_the_authenticated_peer() {
    // The verify key does not derive the authenticated peer: verification
    // reports a handshake failure, and the nonce stays unrecorded.
    let mut nonces = NonceStore::new();
    let unbound = Err(CoreError::HandshakeFailed { reason: "verify key does not derive peer-a".into() });
    let err = gate_hello("peer-a", &allow(&["peer-a"]), &mut nonces, 1, "bind-nonce-12345", unbound, Ok(())).expect_err("unbound verify key");
    assert!(matches!(err, GateRejection::Hello(CoreError::HandshakeFailed { .. })));
    assert!(!nonces.contains("peer-a", "bind-nonce-12345"));
}

#[test]
fn claimed_peer_binding_is_checked_before_the_allowlist() {
    // An unlisted peer whose key does not bind fails the handshake, not
    // the allowlist.
    let mut nonces = NonceStore::new();
    let unbound = Err(CoreError::HandshakeFailed { reason: "verify key does not derive peer-a".into() });
    let err = gate_hello("peer-a", &Vec::new(), &mut nonces, 1, "order-nonce-12345", unbound, Ok(())).expect_err("unbound");
    assert!(matches!(err, GateRejection::Hello(CoreError::HandshakeFailed { .. })));
}

#[test]
fn bad_signature_from_listed_peer_is_rejected_after_the_allowlist() {
    let mut nonces = NonceStore::new();
    let bad = Err(CoreError::InvalidHelloSignature);
    let err = gate_hello("peer-a", &Vec::new(), &mut nonces, 1, "sig-nonce-123456", Ok(()), bad.clone()).expect_err("unlisted");
    assert!(matches!(err, GateRejection::NotAllowlisted { .. }));
    let err = gate_hello("peer-a", &allow(&["peer-a"]), &mut nonces, 1, "sig-nonce-123456", Ok(()), bad).expect_err("bad signature");
    assert!(matches!(err, GateRejection::Hello(CoreError::InvalidHelloSignature)));
    assert!(!nonces.contains("peer-a", "sig-nonce-123456"));
}

#[test]
fn unsupported_protocol_version_is_rejected_first() {
    let mut nonces = NonceStore::new();
    let err = gate_hello("peer-a", &Vec::new(), &mut nonces, 2, "version-nonce-1234", Ok(()), Ok(())).expect_err("version");
    assert!(matches!(err, GateRejection::HandshakeFailed { reason } if reason == "unsupported protocol_version 2 (expected 1)"));
}

#[test]
fn hello_ack_accepted_is_true() {
    assert!(HelloAck::accepted().accepted);
}

// ── Nonce and identity ──────────────────────────────────────────────────

#[test]
fn nonce_meets_wire_floor_and_is_unique() {
    let a = generate_nonce().expect("nonce");
    let b = generate_nonce().expect("nonce");
    assert!(a.len() >= 16, "nonce below wire minLength: {}", a.len());
    assert_eq!(a.len(), 22);
    assert!(a.chars().all(|c| c.is_ascii_alphanumeric() || c == '-' || c == '_'));
    assert_ne!(a, b);
}

#[test]
fn local_public_key_matches_the_rfc8032_vector() {
    let seed: [u8; 32] = [
        0x9d, 0x61, 0xb1, 0x9d, 0xef, 0xfd, 0x5a, 0x60, 0xba, 0x84, 0x4a, 0xf4, 0x92, 0xec, 0x2c, 0xc4,
        0x44, 0x49, 0xc5, 0x69, 0x7b, 0x32, 0x69, 0x19, 0x70, 0x3b, 0xac, 0x03, 0x1c, 0xae, 0x7f, 0x60,
    ];
    let public: [u8; 32] = [
        0xd7, 0x5a, 0x98, 0x01, 0x82, 0xb1, 0x0a, 0xb7, 0xd5, 0x4b, 0xfe, 0xd3, 0xc9, 0x64, 0x07, 0x3a,
        0x0e, 0xe1, 0x72, 0xf3, 0xda, 0xa6, 0x23, 0x25, 0xaf, 0x02, 0x1a, 0x68, 0xf7, 0x07, 0x51, 0x1a,
    ];
    assert_eq!(local_public_key(&seed), public);
    assert_ne!(local_public_key(&seed), seed);
}

// ── Dialing adapter ─────────────────────────────────────────────────────

#[test]
fn dial_preflight_fails_closed_off_the_allowlist() {
    assert!(dial_preflight("peer-a", &allow(&["peer-a"])).is_ok());
    let err = dial_preflight("peer-x", &allow(&["peer-a"])).expect_err("off allowlist");
    assert_eq!(err, RemoteAdapterError::Config("remote peer peer-x is not on the allowlist (fail-closed)".into()));
}

#[test]
fn dial_failures_name_their_step() {
    assert_eq!(dial_failure(DialStep::HelloSend, "closed"), RemoteAdapterError::Handshake("hello send failed: closed".into()));
    assert_eq!(
        dial_failure(DialStep::ServerHelloDecode, "ignored"),
        RemoteAdapterError::Handshake("expected ConnectHello from server".into())
    );
    assert_eq!(dial_failure(DialStep::NonceGeneration, "CSPRNG failure: x"), RemoteAdapterError::Config("CSPRNG failure: x".into()));
    assert_eq!(
        dial_timeout("server hello", 5000),
        RemoteAdapterError::Timeout("connect: server hello timed out after 5000ms".into())
    );
    assert_eq!(invoke_timeout_ms(None), 5000);
    assert_eq!(invoke_timeout_ms(Some(250)), 250);
}

#[test]
fn server_hello_verification_and_replay() {
    let mut accepted = NonceStore::new();
    let mismatch = Err(CoreError::ProtocolVersionMismatch { reason: "unsupported protocol_version 2 (expected 1)".into() });
    assert_eq!(
        accept_server_hello(&mut accepted, "peer-s", "n-1", mismatch).expect_err("version"),
        RemoteAdapterError::ProtocolVersionMismatch(
            "remote hello protocol version mismatch: unsupported protocol_version 2 (expected 1)".into()
        )
    );
    assert_eq!(
        accept_server_hello(&mut accepted, "peer-s", "n-1", Err(CoreError::InvalidHelloSignature)).expect_err("sig"),
        RemoteAdapterError::Handshake("remote hello verification failed: hello signature invalid".into())
    );
    // Neither failure burned the nonce.
    accept_server_hello(&mut accepted, "peer-s", "n-1", Ok(())).expect("first accept");
    assert_eq!(
        accept_server_hello(&mut accepted, "peer-s", "n-1", Ok(())).expect_err("replay"),
        RemoteAdapterError::Handshake(
            "server hello replay rejected: (peer_id peer-s, nonce n-1) was already accepted".into()
        )
    );
}

#[test]
fn session_snapshot_must_name_a_session_starting_at_zero() {
    assert_eq!(
        validate_session_snapshot("", 0).expect_err("empty id"),
        RemoteAdapterError::Handshake("session snapshot session_id must not be empty".into())
    );
    assert_eq!(
        validate_session_snapshot("s-1", 3).expect_err("non-zero start"),
        RemoteAdapterError::Handshake("session snapshot initial_sequence must be 0".into())
    );
    assert!(validate_session_snapshot("s-1", 0).is_ok());
}

// ── Responder handshake ─────────────────────────────────────────────────

#[test]
fn responder_admits_allowlisted_peers_with_a_preconfigured_key() {
    let keys = vec![("peer-a".to_owned(), [7u8; 32])];
    assert_eq!(responder_admit("peer-x", &allow(&["peer-a"]), &keys).expect_err("unlisted"), "peer peer-x not on allowlist");
    assert_eq!(
        responder_admit("peer-b", &allow(&["peer-a", "peer-b"]), &keys).expect_err("no key"),
        "no preconfigured public key for allowlisted peer peer-b"
    );
    assert_eq!(responder_admit("peer-a", &allow(&["peer-a"]), &keys).expect("key"), [7u8; 32]);

    let mut nonces = NonceStore::new();
    assert_eq!(
        responder_accept_hello(&mut nonces, "peer-a", "n", Err(CoreError::NonceReplay)).expect_err("verify"),
        "client hello verification failed: hello nonce replayed"
    );
    responder_accept_hello(&mut nonces, "peer-a", "n", Ok(())).expect("accepted");
    assert_eq!(responder_accept_hello(&mut nonces, "peer-a", "n", Ok(())).expect_err("replay"), "nonce replay");
    assert_eq!(responder_session_id("peer-a"), "connect-responder-session-peer-a");
    assert_eq!(snapshot_capabilities(&Vec::new()), vec!["spoke-baseline".to_owned()]);
    assert_eq!(snapshot_capabilities(&allow(&["tools.math.add"])), vec!["tools.math.add".to_owned()]);
}
