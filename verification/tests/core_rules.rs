use spoke_connect::errors::{map_dial_error, map_spoke_reject, FfiError, RemoteAdapterError};
use spoke_connect::json::JsonValue;
use spoke_connect::reject::Reject;
use spoke_connect::session::{
    check_response_correlation, dispatch_allowed, inbound_sequence_valid, is_allowlisted,
    pending_hello_capacity_available, protocol_version, required_capability, CoreInvokeError,
    InboundSequence, NonceStore, OutboundSequence, MAX_PENDING_HELLOS_PER_PEER, MAX_SEQUENCE,
};

fn details(key: &str, value: &str) -> Option<Vec<(String, JsonValue)>> {
    Some(vec![(key.to_owned(), JsonValue::Str(value.to_owned()))])
}

#[test]
fn maps_dial_errors_to_ffi_dial_kinds() {
    for (error, kind) in [
        (RemoteAdapterError::Config("bad config".into()), "config"),
        (RemoteAdapterError::Handshake("bad hello".into()), "handshake"),
        (
            RemoteAdapterError::ProtocolVersionMismatch(
                "unsupported protocol_version 2 (expected 1)".into(),
            ),
            "protocol_version_mismatch",
        ),
        (
            RemoteAdapterError::Timeout("connect: hello timed out".into()),
            "timeout",
        ),
    ] {
        let ffi = map_dial_error(error);
        assert!(matches!(ffi, FfiError::Dial { kind: k, .. } if k == kind));
    }
}

#[test]
fn maps_internal_error_kinds_verbatim() {
    for kind in [
        "transport",
        "session_closed",
        "timeout",
        "correlation_mismatch",
        "sequence_exhausted",
        "envelope_auth_missing",
        "envelope_auth_invalid",
        "envelope_auth_session_unbound",
        "panic",
    ] {
        let reject = Reject {
            code: "INTERNAL_ERROR".to_owned(),
            message: format!("{kind} failure"),
            details: details("kind", kind),
        };
        let ffi = map_spoke_reject(reject);
        assert!(matches!(
            ffi,
            FfiError::Rejected {
                code,
                kind: Some(k),
                wire_code: None,
                ..
            } if code == "INTERNAL_ERROR" && k == kind
        ));
    }
}

#[test]
fn maps_application_reject_without_kind_or_wire_code() {
    let reject = Reject {
        code: "REVISION_CONFLICT".to_owned(),
        message: "revision mismatch".into(),
        details: None,
    };
    let ffi = map_spoke_reject(reject);
    assert!(matches!(
        ffi,
        FfiError::Rejected {
            code,
            kind: None,
            wire_code: None,
            ..
        } if code == "REVISION_CONFLICT"
    ));
}

#[test]
fn maps_dispatch_deny_with_wire_code() {
    let reject = Reject {
        code: "CAPABILITY_PORT_MISSING".to_owned(),
        message: "op denied".into(),
        details: details("wire_code", "op_unsupported"),
    };
    let ffi = map_spoke_reject(reject);
    assert!(matches!(
        ffi,
        FfiError::Rejected {
            code,
            kind: None,
            wire_code: Some(wire),
            ..
        } if code == "CAPABILITY_PORT_MISSING" && wire == "op_unsupported"
    ));
}

#[test]
fn maps_unknown_wire_code_to_invalid_input() {
    let reject = Reject {
        code: "INVALID_INPUT".to_owned(),
        message: "unknown host code".into(),
        details: details("wire_code", "totally_unknown"),
    };
    let ffi = map_spoke_reject(reject);
    assert!(matches!(
        ffi,
        FfiError::Rejected {
            code,
            wire_code: Some(wire),
            ..
        } if code == "INVALID_INPUT" && wire == "totally_unknown"
    ));
}

#[test]
fn nonce_store_object_rejects_replay() {
    let mut store = NonceStore::new();
    assert!(store.check_and_record("peer-a", "nonce-1"));
    assert!(!store.check_and_record("peer-a", "nonce-1"));
    // Nonce scoping is per sender peer_id.
    assert!(store.check_and_record("peer-b", "nonce-1"));
}

#[test]
fn allowlist_check_via_ffi_fails_closed() {
    let allowlist = vec!["peer-a".to_owned(), "peer-b".to_owned()];
    assert!(is_allowlisted(allowlist.clone(), "peer-a".to_owned()));
    assert!(!is_allowlisted(allowlist, "peer-c".to_owned()));
    assert!(!is_allowlisted(Vec::new(), "peer-a".to_owned()));
}

#[test]
fn sequence_objects_allocate_and_advance() {
    let mut outbound = OutboundSequence::new();
    assert_eq!(outbound.allocate().expect("first"), 0);
    assert_eq!(outbound.allocate().expect("second"), 1);

    let mut inbound = InboundSequence::new();
    assert_eq!(inbound.advance(0).expect("first"), 1);
    let err = inbound.advance(0).expect_err("replay");
    assert!(matches!(
        err,
        CoreInvokeError::InboundSequenceMismatch {
            expected: 1,
            actual: 0
        }
    ));
}

#[test]
fn outbound_sequence_exhaustion_maps_through_wrapper() {
    let mut outbound = OutboundSequence::new();
    outbound.set_next(MAX_SEQUENCE);
    assert_eq!(outbound.allocate().expect("last valid"), MAX_SEQUENCE);
    let err = outbound.allocate().expect_err("exhausted");
    assert!(matches!(err, CoreInvokeError::SequenceExhausted));
    // Still exhausted — no wrap-around.
    let err = outbound.allocate().expect_err("still exhausted");
    assert!(matches!(err, CoreInvokeError::SequenceExhausted));
}

#[test]
fn correlation_check_via_flattened_primitives() {
    check_response_correlation(
        "sess-1".to_owned(),
        0,
        "req-1".to_owned(),
        "sess-1".to_owned(),
        0,
        "req-1".to_owned(),
    )
    .expect("exact echo passes");

    let err = check_response_correlation(
        "sess-1".to_owned(),
        0,
        "req-1".to_owned(),
        "sess-1".to_owned(),
        1,
        "req-1".to_owned(),
    )
    .expect_err("sequence mismatch");
    assert!(matches!(err, CoreInvokeError::CorrelationMismatch));
}

#[test]
fn correlation_sequences_above_i64_max_fail_guarded() {
    let over_i64 = i64::MAX as u64 + 1;
    let err = check_response_correlation(
        "sess-1".to_owned(),
        over_i64,
        "req-1".to_owned(),
        "sess-1".to_owned(),
        0,
        "req-1".to_owned(),
    )
    .expect_err("expected sequence above i64::MAX");
    assert!(matches!(err, CoreInvokeError::CorrelationMismatch));

    let err = check_response_correlation(
        "sess-1".to_owned(),
        0,
        "req-1".to_owned(),
        "sess-1".to_owned(),
        over_i64,
        "req-1".to_owned(),
    )
    .expect_err("actual sequence above i64::MAX");
    assert!(matches!(err, CoreInvokeError::CorrelationMismatch));
}

#[test]
fn dispatch_gate_required_capability_and_protocol_version() {
    assert!(dispatch_allowed("check".to_owned(), vec!["spoke-baseline".to_owned()]));
    assert!(!dispatch_allowed("check".to_owned(), vec!["l2-computable".to_owned()]));
    assert!(!dispatch_allowed("custom-op".to_owned(), vec!["spoke-baseline".to_owned()]));
    assert_eq!(
        required_capability("check".to_owned()).as_deref(),
        Some("spoke-baseline")
    );
    assert_eq!(
        required_capability("project".to_owned()).as_deref(),
        Some("l2-computable")
    );
    assert_eq!(required_capability("custom-op".to_owned()), None);
    assert_eq!(protocol_version(), 1);
}

#[test]
fn inbound_sequence_range_is_enforced() {
    assert!(inbound_sequence_valid(0));
    assert!(inbound_sequence_valid(MAX_SEQUENCE as i64));
    assert!(!inbound_sequence_valid(-1));
    assert!(!inbound_sequence_valid((MAX_SEQUENCE + 1) as i64));
}

#[test]
fn inbound_sequence_gate_rejects_replay_and_out_of_order() {
    let mut inbound = InboundSequence::new();
    for sequence in 0..=2 {
        inbound
            .advance(sequence)
            .expect("sequential inbound sequences are accepted");
    }
    assert_eq!(inbound.next_expected(), 3);
    assert!(matches!(
        inbound.advance(1),
        Err(CoreInvokeError::InboundSequenceMismatch { expected: 3, .. })
    ));
    assert!(matches!(
        inbound.advance(4),
        Err(CoreInvokeError::InboundSequenceMismatch {
            expected: 3,
            actual: 4
        })
    ));
    assert!(matches!(
        inbound.advance(-1),
        Err(CoreInvokeError::InboundSequenceMismatch { .. })
    ));
}

#[test]
fn pending_hello_buffer_is_bounded_per_peer() {
    assert!(pending_hello_capacity_available(0));
    assert!(pending_hello_capacity_available(MAX_PENDING_HELLOS_PER_PEER - 1));
    assert!(!pending_hello_capacity_available(MAX_PENDING_HELLOS_PER_PEER));
}
