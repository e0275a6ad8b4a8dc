use spoke_connect::adapter::{
    is_connect_invoke_request, remote_error_reject, wire_response_correlation, EnvelopeAuthErrorKind,
    RemoteErrorKind, VerifyOutcome,
};
use spoke_connect::endpoint::{Endpoint, GateResult, GateStep, OutboundGrant, SessionBinding};
use spoke_connect::json::JsonValue;
use spoke_connect::lifecycle::RemoteAdapterState;
use spoke_connect::session::{Correlation, InboundSequence, OutboundSequence, MAX_SEQUENCE};

fn s(v: &str) -> JsonValue {
    JsonValue::Str(v.to_owned())
}

fn obj(fields: Vec<(&str, JsonValue)>) -> JsonValue {
    JsonValue::Object(fields.into_iter().map(|(k, v)| (k.to_owned(), v)).collect())
}

fn binding(session_id: &str, negotiated: &[&str]) -> SessionBinding {
    SessionBinding {
        session_id: session_id.to_owned(),
        peer_id: "test-remote-peer".to_owned(),
        negotiated: negotiated.iter().map(|c| c.to_string()).collect(),
        outbound: OutboundSequence::new(),
        inbound: InboundSequence::new(),
    }
}

fn live_endpoint() -> Endpoint {
    let mut endpoint = Endpoint::new();
    endpoint.begin_handshake();
    endpoint.establish(binding("sess-1", &["spoke-baseline", "tools.math.add"]));
    endpoint
}

fn request(sequence: JsonValue, op: &str) -> JsonValue {
    obj(vec![
        ("session_id", s("sess-1")),
        ("sequence", sequence),
        ("request_id", s("req-1")),
        ("op", s(op)),
        ("payload", obj(vec![("arguments", obj(vec![("a", JsonValue::Int(1))]))])),
    ])
}

#[test]
fn request_shaped_docs_are_never_demuxed_as_responses() {
    let request_shaped = obj(vec![
        ("session_id", s("s")),
        ("sequence", JsonValue::Int(0)),
        ("request_id", s("r")),
        ("op", s("tools.math.add")),
        ("payload", obj(vec![("arguments", obj(vec![]))])),
        ("signature", s("x")),
        ("extensions", obj(vec![])),
    ]);
    assert!(is_connect_invoke_request(&request_shaped));
    assert!(wire_response_correlation(&request_shaped).is_none());

    let response_shaped_with_op = obj(vec![
        ("session_id", s("s")),
        ("sequence", JsonValue::Int(0)),
        ("request_id", s("r")),
        ("op", s("tools.math.add")),
        ("payload", obj(vec![("result", JsonValue::Int(1))])),
        ("signature", s("x")),
        ("extensions", obj(vec![])),
    ]);
    assert!(wire_response_correlation(&response_shaped_with_op).is_none());

    let response = obj(vec![
        ("session_id", s("s")),
        ("sequence", JsonValue::Int(0)),
        ("request_id", s("r")),
        ("payload", obj(vec![("result", JsonValue::Int(1))])),
        ("signature", s("x")),
        ("extensions", obj(vec![])),
    ]);
    assert_eq!(
        wire_response_correlation(&response),
        Some(Correlation { session_id: "s".into(), sequence: 0, request_id: "r".into() })
    );
    assert!(!is_connect_invoke_request(&response));
}

#[test]
fn sequence_exhaustion_maps_to_internal_error_and_closes_session() {
    let mut endpoint = Endpoint::new();
    endpoint.begin_handshake();
    let mut outbound = OutboundSequence::new();
    outbound.set_next(MAX_SEQUENCE + 1);
    endpoint.establish(SessionBinding {
        session_id: "test-session-exhausted".into(),
        peer_id: "test-remote-peer".into(),
        negotiated: vec!["spoke-baseline".to_owned()],
        outbound,
        inbound: InboundSequence::new(),
    });

    match endpoint.grant_outbound() {
        OutboundGrant::Granted { .. } => panic!("exhausted sequence must reject"),
        OutboundGrant::Refused { error, settled } => {
            assert!(settled.is_empty());
            let reject = remote_error_reject(error);
            assert_eq!(reject.code, "INTERNAL_ERROR");
            let kind = reject.details.as_ref().and_then(|d| d.iter().find(|(k, _)| k == "kind")).map(|(_, v)| v.clone());
            assert!(matches!(kind, Some(JsonValue::Str(k)) if k == "sequence_exhausted"));
        }
    }
    assert_eq!(endpoint.state(), RemoteAdapterState::Closed);
}

#[test]
fn outbound_grants_are_consecutive_then_refused_after_close() {
    let mut endpoint = live_endpoint();
    for expected in 0..3u64 {
        match endpoint.grant_outbound() {
            OutboundGrant::Granted { session_id, sequence } => {
                assert_eq!(session_id, "sess-1");
                assert_eq!(sequence, expected);
            }
            OutboundGrant::Refused { .. } => panic!("live endpoint grants"),
        }
    }
    assert!(endpoint.close_session("local shutdown").is_empty());
    match endpoint.grant_outbound() {
        OutboundGrant::Refused { error, settled } => {
            assert_eq!(error.kind, RemoteErrorKind::SessionClosed);
            assert_eq!(error.message, "connect session is not established (state Closed)");
            assert!(settled.is_empty());
        }
        OutboundGrant::Granted { .. } => panic!("closed endpoint refuses"),
    }
}

#[test]
fn close_settles_every_waiter_once_and_is_idempotent() {
    let mut endpoint = live_endpoint();
    for id in ["req-a", "req-b"] {
        endpoint.file_waiter(id.to_owned(), Correlation { session_id: "sess-1".into(), sequence: 0, request_id: id.into() });
    }
    let settled = endpoint.close_session("transport loss: boom");
    assert_eq!(settled.len(), 2);
    assert_eq!(settled[0].0, "req-a");
    assert_eq!(settled[1].0, "req-b");
    for (_, error) in &settled {
        assert_eq!(error.kind, RemoteErrorKind::SessionClosed);
        assert_eq!(error.message, "connect session closed: transport loss: boom");
    }
    assert_eq!(endpoint.state(), RemoteAdapterState::Closed);
    assert!(endpoint.close_session("again").is_empty());
    assert!(!endpoint.has_waiter("req-a"));
}

#[test]
fn a_taken_waiter_returns_what_was_filed_and_settles_once() {
    let mut endpoint = live_endpoint();
    endpoint.file_waiter("req-1".to_owned(), Correlation { session_id: "sess-1".into(), sequence: 4, request_id: "req-1".into() });
    endpoint.set_waiter_sequence("req-1", 7);
    assert!(endpoint.has_waiter("req-1"));
    let taken = endpoint.take_waiter("req-1").expect("filed waiter");
    assert_eq!(taken, Correlation { session_id: "sess-1".into(), sequence: 7, request_id: "req-1".into() });
    assert!(endpoint.take_waiter("req-1").is_none());
}

#[test]
fn gate_denies_a_forged_request_without_advancing() {
    let mut endpoint = live_endpoint();
    let doc = request(JsonValue::Int(0), "tools.math.add");
    let (sequence, session_id) = match endpoint.gate_peek(&doc) {
        GateStep::Verify { sequence, session_id } => (sequence, session_id),
        other => panic!("next position must go to verification: {other:?}"),
    };
    assert_eq!(session_id, "sess-1");
    match endpoint.gate_commit(sequence, VerifyOutcome::Rejected(EnvelopeAuthErrorKind::Invalid, "bad signature".into())) {
        Ok(GateResult::Denied { code, message, details }) => {
            assert_eq!(code, "auth_failed");
            assert_eq!(message, "bad signature");
            let details = details.expect("kind details");
            assert_eq!(details[0].0, "kind");
            assert!(matches!(&details[0].1, JsonValue::Str(k) if k == "envelope_auth_invalid"));
        }
        other => panic!("forged request must be denied: {other:?}"),
    }
    // The position was not consumed: the genuine request still passes.
    assert!(matches!(endpoint.gate_peek(&doc), GateStep::Verify { sequence: 0, .. }));
    assert!(matches!(endpoint.gate_commit(0, VerifyOutcome::Passed), Ok(GateResult::Dispatch)));
    // A replay of the consumed position is denied.
    match endpoint.gate_peek(&doc) {
        GateStep::Denied { code, message, details } => {
            assert_eq!(code, "invalid_sequence");
            assert_eq!(message, "inbound sequence 0 is not the next expected");
            assert!(details.is_none());
        }
        other => panic!("replay must be denied: {other:?}"),
    }
}

#[test]
fn gate_denies_a_non_numeric_sequence_with_its_json_text() {
    let endpoint = live_endpoint();
    match endpoint.gate_peek(&request(s("x\"y"), "tools.math.add")) {
        GateStep::Denied { code, message, .. } => {
            assert_eq!(code, "invalid_sequence");
            assert_eq!(message, "inbound sequence \"x\\\"y\" is not the next expected");
        }
        other => panic!("non-numeric sequence must be denied: {other:?}"),
    }
    let unbound = Endpoint::new();
    assert!(matches!(unbound.gate_peek(&request(JsonValue::Int(0), "x")), GateStep::Stray));
}

#[test]
fn gate_local_verification_failure_fails_serving() {
    let mut endpoint = live_endpoint();
    match endpoint.gate_commit(0, VerifyOutcome::LocalFailure("wrong-length key".into())) {
        Err(error) => {
            assert_eq!(error.kind, RemoteErrorKind::EnvelopeAuthInvalid);
            assert_eq!(error.message, "wrong-length key");
        }
        Ok(other) => panic!("local failure must fail serving: {other:?}"),
    }
}

#[test]
fn responder_checks_then_allocates_on_the_bound_session() {
    let mut endpoint = Endpoint::new();
    let err = endpoint.check_established().expect_err("not established");
    assert_eq!(err.message, "connect session is not established (state Disconnected)");
    match endpoint.allocate_outbound() {
        OutboundGrant::Refused { error, .. } => assert_eq!(error.message, "connect session is not established"),
        OutboundGrant::Granted { .. } => panic!("unbound endpoint refuses"),
    }
    endpoint.establish(binding("sess-r", &["spoke-baseline"]));
    assert_eq!(endpoint.check_established().expect("established"), "sess-r");
    assert!(endpoint.close_session("local shutdown").is_empty());
    // The bound session still allocates after a close; the caller's waiter
    // check then notices the close.
    assert!(matches!(endpoint.allocate_outbound(), OutboundGrant::Granted { sequence: 0, .. }));
}

#[test]
fn a_timed_out_waiter_fails_alone_and_the_session_stays_usable() {
    let mut endpoint = live_endpoint();
    for id in ["req-a", "req-b"] {
        endpoint.file_waiter(id.to_owned(), Correlation { session_id: "sess-1".into(), sequence: 0, request_id: id.into() });
    }
    assert!(endpoint.take_waiter("req-a").is_some());
    assert_eq!(endpoint.state(), RemoteAdapterState::Established);
    assert!(endpoint.has_waiter("req-b"));
    assert!(matches!(endpoint.grant_outbound(), OutboundGrant::Granted { sequence: 0, .. }));
}
