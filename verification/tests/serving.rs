use spoke_connect::adapter::{panic_payload_message, RemoteError, RemoteErrorKind};
use spoke_connect::channel::{LoopbackConnection, LoopbackDirection, PopOutcome, PushOutcome};
use spoke_connect::endpoint::{Endpoint, SessionBinding};
use spoke_connect::errors::{foreign_tool_result, CoreError, FfiError, ForeignToolOutcome};
use spoke_connect::json::JsonValue;
use spoke_connect::json_text::json_text_of;
use spoke_connect::node_rules::{
    hello_disposition, invoke_admit, invoke_authorize, invoke_precheck, invoke_token_gate,
    node_required_capability, pending_dial_matches, session_completion, token_gate_satisfied,
    unix_now_seconds, Completion, HandshakeFlags, HelloDisposition, InvokeAnswer, NodeVerify,
};
use spoke_connect::receive::{
    invoke_timeout_error, receive_step, settle_port_invoke, settle_tool_invoke, InboundEvent,
    InvokeResponse, PortSettlement, ReceiveAction, Side, ToolSettlement,
};
use spoke_connect::serve::{
    adapter_dispatch, error_echo_of, gate_allows, map_error_envelope, port_call, port_op_requirement,
    map_generic_envelope, port_success_payload, put_payload_check, requires_ownership_capability, responder_dispatch, tool_result,
    validate_scope_declaration, DispatchStep, EnvelopeMapping, PortCall, WireError,
};
use spoke_connect::session::{InboundSequence, OutboundSequence};

fn s(v: &str) -> JsonValue {
    JsonValue::Str(v.to_owned())
}

fn obj(fields: Vec<(&str, JsonValue)>) -> JsonValue {
    JsonValue::Object(fields.into_iter().map(|(k, v)| (k.to_owned(), v)).collect())
}

fn field<'a>(v: &'a JsonValue, key: &str) -> Option<&'a JsonValue> {
    match v {
        JsonValue::Object(fields) => fields.iter().find(|(k, _)| k == key).map(|(_, v)| v),
        _ => None,
    }
}

fn endpoint(negotiated: &[&str]) -> Endpoint {
    let mut e = Endpoint::new();
    e.establish(SessionBinding {
        session_id: "sess-1".into(),
        peer_id: "peer-r".into(),
        negotiated: negotiated.iter().map(|c| c.to_string()).collect(),
        outbound: OutboundSequence::new(),
        inbound: InboundSequence::new(),
    });
    e
}

fn invoke(op: &str, payload: JsonValue) -> JsonValue {
    obj(vec![
        ("session_id", s("sess-1")),
        ("sequence", JsonValue::Int(0)),
        ("request_id", s("req-1")),
        ("op", s(op)),
        ("payload", payload),
    ])
}

#[test]
fn adapter_dispatch_requires_the_negotiated_tool_and_a_handler() {
    let e = endpoint(&["tools.math.add"]);
    let handlers = vec!["tools.math.add".to_owned()];
    let doc = invoke("tools.math.add", obj(vec![("arguments", obj(vec![("a", JsonValue::Int(1))]))]));
    match adapter_dispatch(&e, &doc, &handlers) {
        DispatchStep::Tool { op, arguments } => {
            assert_eq!(op, "tools.math.add");
            assert!(matches!(field(&arguments, "a"), Some(JsonValue::Int(1))));
        }
        other => panic!("must run the tool: {other:?}"),
    }
    match adapter_dispatch(&e, &invoke("tools.echo.echo", obj(vec![])), &handlers) {
        DispatchStep::Deny { code, message } => {
            assert_eq!(code, "op_unsupported");
            assert_eq!(message, "op tools.echo.echo is not authorized by this session");
        }
        other => panic!("must deny: {other:?}"),
    }
    match adapter_dispatch(&e, &doc, &Vec::new()) {
        DispatchStep::Deny { message, .. } => assert_eq!(message, "no handler registered for tools.math.add"),
        other => panic!("must deny: {other:?}"),
    }
    // A non-object `arguments` is served as `{}`.
    match adapter_dispatch(&e, &invoke("tools.math.add", obj(vec![("arguments", JsonValue::Int(3))])), &handlers) {
        DispatchStep::Tool { arguments, .. } => assert!(matches!(arguments, JsonValue::Object(f) if f.is_empty())),
        other => panic!("must run the tool: {other:?}"),
    }
    assert!(matches!(adapter_dispatch(&Endpoint::new(), &doc, &handlers), DispatchStep::Ignore));
}

#[test]
fn responder_dispatch_routes_ports_and_tools() {
    let e = endpoint(&["spoke-baseline"]);
    let doc = invoke("port.knowledge.get", obj(vec![("entry_id", s("e1"))]));
    assert!(matches!(responder_dispatch(&e, &doc, &Vec::new(), true), DispatchStep::Port { ref op, .. } if op == "port.knowledge.get"));
    match responder_dispatch(&e, &doc, &Vec::new(), false) {
        DispatchStep::Deny { code, message } => {
            assert_eq!(code, "op_unsupported");
            assert_eq!(message, "no BaselinePorts configured for port op port.knowledge.get");
        }
        other => panic!("must deny: {other:?}"),
    }
    assert!(matches!(responder_dispatch(&e, &invoke("tools.math.add", obj(vec![])), &Vec::new(), true), DispatchStep::Deny { .. }));
    assert_eq!(port_op_requirement("port.host.list_peer_manifests"), Some("spoke-baseline"));
    assert_eq!(port_op_requirement("port.fork.list_timeline_events"), None);
    assert!(gate_allows("port.rule.list", &vec!["spoke-baseline".to_owned()]));
    assert!(!gate_allows("port.rule.list", &vec!["l2-computable".to_owned()]));
}

#[test]
fn port_calls_decode_their_fields_or_reject() {
    assert!(matches!(
        port_call("port.knowledge.get", &obj(vec![("entry_id", s("e1"))])),
        Ok(PortCall::GetKnowledgeEntry { ref entry_id }) if entry_id == "e1"
    ));
    let err = port_call("port.knowledge.get", &obj(vec![("entry_id", JsonValue::Int(1))])).expect_err("non-string id");
    assert_eq!(err.code, "INVALID_INPUT");
    assert_eq!(err.message, "invalid port.knowledge.get payload");
    // The record is found first; the revision is checked only after the
    // record's typed decode.
    assert!(matches!(
        port_call("port.knowledge.put", &obj(vec![("entry", obj(vec![]))])),
        Ok(PortCall::PutKnowledgeEntry { expected_base_revision: None, .. })
    ));
    let err = port_call("port.knowledge.put", &obj(vec![("expected_base_revision", JsonValue::Null)])).expect_err("missing entry");
    assert_eq!(err.message, "invalid port.knowledge.put payload: missing entry");
    let err = put_payload_check("port.knowledge.put", Ok(()), false, Ok(())).expect_err("missing revision");
    assert_eq!(err.code, "INVALID_INPUT");
    assert_eq!(err.message, "invalid port.knowledge.put payload: missing expected_base_revision");
    let err = put_payload_check("port.knowledge.put", Err("missing field `entry_id`".into()), false, Ok(()))
        .expect_err("malformed entry");
    assert_eq!(err.message, "invalid port.knowledge.put payload: missing field `entry_id`");
    let err = put_payload_check("port.relation.put", Ok(()), true, Err("invalid type: string \"x\", expected u64".into()))
        .expect_err("malformed revision");
    assert_eq!(err.message, "invalid port.relation.put payload: invalid type: string \"x\", expected u64");
    assert!(put_payload_check("port.relation.put", Ok(()), true, Ok(())).is_ok());
    assert!(matches!(port_call("port.host.list_peer_manifests", &obj(vec![])), Ok(PortCall::ListPeerManifests)));
    let err = port_call("port.fork.list_timeline_events", &obj(vec![])).expect_err("unknown");
    assert_eq!(err.code, "CAPABILITY_PORT_MISSING");
    assert_eq!(err.message, "unimplemented port op port.fork.list_timeline_events");
    assert!(matches!(port_success_payload(JsonValue::Null), JsonValue::Object(f) if f.is_empty()));
}

#[test]
fn error_envelopes_map_deny_and_auth_codes() {
    let deny = WireError { code: "op_unsupported".into(), message: "denied".into(), details: vec![] };
    match map_error_envelope(deny) {
        EnvelopeMapping::Mapped(reject) => {
            assert_eq!(reject.code, "CAPABILITY_PORT_MISSING");
            let details = reject.details.expect("details");
            assert_eq!(details.len(), 1);
            assert_eq!(details[0].0, "wire_code");
            assert!(matches!(&details[0].1, JsonValue::Str(c) if c == "op_unsupported"));
        }
        EnvelopeMapping::Generic => panic!("deny is mapped"),
    }
    let auth = WireError {
        code: "auth_failed".into(),
        message: "bad".into(),
        details: vec![("kind".into(), s("envelope_auth_missing"))],
    };
    match map_error_envelope(auth) {
        EnvelopeMapping::Mapped(reject) => {
            assert_eq!(reject.code, "INTERNAL_ERROR");
            assert!(matches!(&reject.details.expect("details")[0].1, JsonValue::Str(k) if k == "envelope_auth_missing"));
        }
        EnvelopeMapping::Generic => panic!("auth_failed is mapped"),
    }
    let other = WireError { code: "REVISION_CONFLICT".into(), message: "m".into(), details: vec![] };
    assert!(matches!(map_error_envelope(other), EnvelopeMapping::Generic));
}

#[test]
fn tool_results_need_the_result_member() {
    let ok = tool_result(&obj(vec![("result", JsonValue::Int(3))]), "tools.math.add").expect("result");
    assert!(matches!(ok, JsonValue::Int(3)));
    let err = tool_result(&obj(vec![]), "tools.math.add").expect_err("shape");
    assert_eq!(err.code, "INTERNAL_ERROR");
    assert_eq!(err.message, "response payload decode failed: payload does not match the tools.math.add success shape");
    match settle_tool_invoke(Err(RemoteError::new(RemoteErrorKind::Timeout, "late".into())), "tools.math.add") {
        ToolSettlement::Settled(Err(reject)) => {
            assert_eq!(reject.code, "INTERNAL_ERROR");
            assert!(matches!(&reject.details.expect("details")[0].1, JsonValue::Str(k) if k == "timeout"));
        }
        other => panic!("failed invoke settles to INTERNAL_ERROR: {other:?}"),
    }
    assert!(matches!(
        settle_port_invoke(Ok(InvokeResponse::Success(JsonValue::Int(1)))),
        PortSettlement::Decode(JsonValue::Int(1))
    ));
}

#[test]
fn scope_rules_follow_the_declared_viewpoint() {
    let op = "port.scope.list_knowledge_entries";
    let with_viewpoint = obj(vec![("scope", obj(vec![("scope_id", s("s1")), ("viewpoint", s("mira"))]))]);
    assert!(requires_ownership_capability(op, &with_viewpoint));
    assert!(!requires_ownership_capability("port.knowledge.get", &with_viewpoint));
    let empty_viewpoint = obj(vec![("scope", obj(vec![("viewpoint", s(""))]))]);
    assert!(!requires_ownership_capability(op, &empty_viewpoint));
    let err = validate_scope_declaration(op, &empty_viewpoint, Ok(())).expect_err("empty viewpoint");
    assert_eq!(err.message, "invalid port.scope.list_knowledge_entries payload: scope.viewpoint must be a non-empty string");
    let err = validate_scope_declaration(op, &obj(vec![]), Ok(())).expect_err("missing scope");
    assert_eq!(err.message, "invalid port.scope.list_knowledge_entries payload: missing scope");
    let err = validate_scope_declaration(op, &with_viewpoint, Err("bad scope".into())).expect_err("decode");
    assert_eq!(err.message, "invalid port.scope.list_knowledge_entries payload: bad scope");
    assert!(validate_scope_declaration(op, &with_viewpoint, Ok(())).is_ok());
    assert!(validate_scope_declaration("port.rule.list", &obj(vec![]), Err("ignored".into())).is_ok());
}

#[test]
fn receive_loop_classifies_request_first() {
    let e = endpoint(&["spoke-baseline"]);
    assert!(matches!(receive_step(&e, Side::Adapter, InboundEvent::Document(invoke("x", obj(vec![])))), ReceiveAction::Serve));
    let response = obj(vec![
        ("session_id", s("sess-1")),
        ("sequence", JsonValue::Int(2)),
        ("request_id", s("req-9")),
        ("payload", obj(vec![])),
    ]);
    assert!(matches!(receive_step(&e, Side::Adapter, InboundEvent::Document(response)), ReceiveAction::Demux(c) if c.request_id == "req-9" && c.sequence == 2));
    assert!(matches!(receive_step(&e, Side::Adapter, InboundEvent::Document(obj(vec![]))), ReceiveAction::Continue));
    assert!(matches!(receive_step(&e, Side::Adapter, InboundEvent::RecvFailed("eof".into())), ReceiveAction::Close(r) if r == "transport loss: eof"));
    assert!(matches!(receive_step(&e, Side::Responder, InboundEvent::RecvFailed("eof".into())), ReceiveAction::Close(r) if r == "transport loss"));
    assert!(matches!(receive_step(&e, Side::Responder, InboundEvent::DecodeFailed("bad".into())), ReceiveAction::Close(r) if r == "unparseable inbound message: bad"));
    assert!(matches!(receive_step(&Endpoint::new(), Side::Adapter, InboundEvent::RecvFailed("x".into())), ReceiveAction::Stop));
    let timeout = invoke_timeout_error("port.knowledge.get", "req-1", 5000);
    assert_eq!(timeout.message, "invoke port.knowledge.get (req-1) timed out after 5000ms");
    assert_eq!(panic_payload_message(None), "tool handler panicked");
    assert_eq!(spoke_connect::errors::panic_payload_message(None), "unknown panic payload");
}

#[test]
fn error_echo_uses_a_sentinel_for_a_non_numeric_sequence() {
    let doc = obj(vec![("session_id", s("a")), ("sequence", s("x")), ("request_id", s("r"))]);
    assert_eq!(error_echo_of(&doc), Some(("a".to_owned(), -1, "r".to_owned())));
    assert_eq!(error_echo_of(&obj(vec![("session_id", s("a"))])), None);
}

#[test]
fn json_text_is_compact_and_escaped() {
    let v = obj(vec![
        ("a", JsonValue::Array(vec![JsonValue::Int(-3), JsonValue::Bool(true), JsonValue::Null])),
        ("b", s("line\nquote\"\u{1}")),
        ("c", JsonValue::Number("1.5".into())),
    ]);
    assert_eq!(json_text_of(&v), "{\"a\":[-3,true,null],\"b\":\"line\\nquote\\\"\\u0001\",\"c\":1.5}");
}

#[test]
fn loopback_connection_is_fifo_and_closes_both_directions() {
    let mut connection: LoopbackConnection<u32> = LoopbackConnection::new();
    assert!(matches!(connection.send(LoopbackDirection::ClientToServer, vec![1]), PushOutcome::Buffered));
    assert!(matches!(connection.send(LoopbackDirection::ClientToServer, vec![2]), PushOutcome::Buffered));
    assert!(matches!(connection.recv(LoopbackDirection::ServerToClient), PopOutcome::Ready(b) if b == vec![1]));
    assert!(matches!(connection.recv(LoopbackDirection::ServerToClient), PopOutcome::Ready(b) if b == vec![2]));
    assert!(matches!(connection.recv(LoopbackDirection::ClientToServer), PopOutcome::Park));
    assert_eq!(connection.server_to_client.park(7), None);
    assert!(matches!(connection.send(LoopbackDirection::ServerToClient, vec![3]), PushOutcome::Deliver(7, b) if b == vec![3]));
    assert_eq!(connection.server_to_client.park(8), None);
    let (a, b) = connection.close();
    assert!(a.is_empty());
    assert_eq!(b, vec![8]);
    assert!(matches!(connection.send(LoopbackDirection::ClientToServer, vec![4]), PushOutcome::Closed));
    assert!(matches!(connection.recv(LoopbackDirection::ClientToServer), PopOutcome::Closed));
    assert_eq!(connection.client_to_server.park(9), Some(9));
    let (a, b) = connection.close();
    assert!(a.is_empty() && b.is_empty());
}

#[test]
fn node_hello_and_session_completion_rules() {
    assert_eq!(hello_disposition(false, true, 0), HelloDisposition::Drop);
    assert_eq!(hello_disposition(true, true, 100), HelloDisposition::Check);
    assert_eq!(hello_disposition(true, false, 7), HelloDisposition::Buffer);
    assert_eq!(hello_disposition(true, false, 8), HelloDisposition::Drop);
    let both = HandshakeFlags { hello_acked: true, remote_accepted: true, has_manifest: true };
    let ours = HandshakeFlags { hello_acked: false, remote_accepted: true, has_manifest: true };
    assert_eq!(session_completion(Some(ours), true, false, true, None), Completion::Wait);
    assert_eq!(session_completion(Some(ours), false, false, true, None), Completion::Create);
    assert_eq!(session_completion(Some(both), true, true, true, Some(false)), Completion::ReuseExisting { close_surplus: true });
    assert_eq!(session_completion(Some(both), true, true, false, Some(false)), Completion::Wait);
    assert_eq!(session_completion(None, true, false, true, None), Completion::Wait);
    assert!(pending_dial_matches(Some(3), Some("p"), Some(3), None));
    assert!(!pending_dial_matches(Some(3), Some("p"), Some(4), Some("p")));
    assert!(pending_dial_matches(None, Some("p"), None, Some("p")));
    assert!(!pending_dial_matches(Some(3), Some("p"), None, None));
    assert!(token_gate_satisfied(false, None));
    assert!(!token_gate_satisfied(true, None));
    assert!(token_gate_satisfied(true, Some(true)));
    assert!(unix_now_seconds() > 0);
}

#[test]
fn node_invoke_accept_path_authenticates_before_advancing() {
    assert!(matches!(invoke_precheck("peer-x", -1, true),
        InvokeAnswer::Reject { ref code, ref message, .. } if code == "invalid_sequence" && message == "sequence -1 is outside the wire range"));
    assert!(matches!(invoke_precheck("peer-x", 0, false),
        InvokeAnswer::Reject { ref code, ref message, .. } if code == "session_not_found" && message == "no session with peer-x for this request"));
    assert!(matches!(invoke_precheck("peer-x", 0, true), InvokeAnswer::Proceed));

    let mut inbound = InboundSequence::new();
    let forged = NodeVerify::Rejected { kind: None, message: "crypto: bad key".into() };
    assert!(matches!(invoke_admit(&mut inbound, 0, forged), InvokeAnswer::Reject { ref code, ref details, .. } if code == "auth_failed" && details.is_empty()));
    assert_eq!(inbound.next_expected(), 0);
    assert!(matches!(invoke_admit(&mut inbound, 0, NodeVerify::Passed), InvokeAnswer::Proceed));
    assert_eq!(inbound.next_expected(), 1);
    assert!(matches!(invoke_admit(&mut inbound, 0, NodeVerify::Passed),
        InvokeAnswer::Reject { ref message, .. } if message == "sequence 0 is not the next expected inbound sequence 1 (replay or out-of-order)"));
    assert_eq!(inbound.next_expected(), 1);

    let requirements = vec![("product.op".to_owned(), "product-cap".to_owned())];
    assert_eq!(node_required_capability("product.op", &requirements).as_deref(), Some("product-cap"));
    assert_eq!(node_required_capability("check", &requirements).as_deref(), Some("spoke-baseline"));
    let negotiated = vec!["spoke-baseline".to_owned()];
    let gate = invoke_token_gate(None, false, false, None);
    assert!(matches!(invoke_authorize("check", &negotiated, &requirements, &gate, false, true), InvokeAnswer::Proceed));
    assert!(matches!(invoke_authorize("check", &negotiated, &requirements, &gate, false, false),
        InvokeAnswer::Reject { ref message, .. } if message == "no invoke handler configured on this node"));
    assert!(matches!(invoke_authorize("product.op", &negotiated, &requirements, &gate, true, true),
        InvokeAnswer::Reject { ref message, .. } if message == "op product.op requires a capability that is not granted in this session"));
    let granted = invoke_token_gate(Some(Ok(vec!["spoke-baseline".to_owned()])), true, false, None);
    assert!(matches!(invoke_authorize("check", &negotiated, &requirements, &granted, false, true), InvokeAnswer::Reject { .. }));
    let required = invoke_token_gate(None, true, false, None);
    assert_eq!(required.clone().expect_err("policy"), "capability token required but this session is not token-authorized");
    let invalid = invoke_token_gate(Some(Err(CoreError::TokenInvalid { message: "expired".into() })), false, true, None);
    assert_eq!(invalid.expect_err("invalid"), "invalid capability token: capability token invalid: expired");
}

/// One inbound invoke through the node's accept path, with the handler
/// counted when it would run.
fn answer(inbound: &mut InboundSequence, sequence: i64, verify: NodeVerify, calls: &mut u32) -> InvokeAnswer {
    let negotiated = vec!["spoke-baseline".to_owned()];
    if let InvokeAnswer::Reject { code, message, details } = invoke_precheck("peer-1", sequence, true) {
        return InvokeAnswer::Reject { code, message, details };
    }
    if let InvokeAnswer::Reject { code, message, details } = invoke_admit(inbound, sequence, verify) {
        return InvokeAnswer::Reject { code, message, details };
    }
    let gate = invoke_token_gate(None, false, false, None);
    let answer = invoke_authorize("upsert", &negotiated, &Vec::new(), &gate, false, true);
    if let InvokeAnswer::Proceed = answer {
        *calls += 1;
    }
    answer
}

#[test]
fn inbound_invoke_forged_signature_does_not_advance_or_dispatch() {
    let mut inbound = InboundSequence::new();
    let mut calls = 0u32;

    // Legitimate invoke at sequence 0: dispatched, counter advances to 1.
    assert!(matches!(answer(&mut inbound, 0, NodeVerify::Passed, &mut calls), InvokeAnswer::Proceed));
    assert_eq!(calls, 1);
    assert_eq!(inbound.next_expected(), 1);

    // Forged signature at the correct next sequence: auth_failed with the
    // locked kind; no advance, no handler run.
    let forged = NodeVerify::Rejected {
        kind: Some(spoke_connect::adapter::EnvelopeAuthErrorKind::Invalid),
        message: "signature does not verify".into(),
    };
    match answer(&mut inbound, 1, forged, &mut calls) {
        InvokeAnswer::Reject { code, details, .. } => {
            assert_eq!(code, "auth_failed");
            assert_eq!(details[0].0, "kind");
            assert!(matches!(&details[0].1, JsonValue::Str(k) if k == "envelope_auth_invalid"));
        }
        InvokeAnswer::Proceed => panic!("forged signature must be answered with the error branch"),
    }
    assert_eq!(calls, 1);
    assert_eq!(inbound.next_expected(), 1);

    // The session is not desynced: the next legitimate invoke at 1 runs.
    assert!(matches!(answer(&mut inbound, 1, NodeVerify::Passed, &mut calls), InvokeAnswer::Proceed));
    assert_eq!(calls, 2);
    assert_eq!(inbound.next_expected(), 2);
}

#[test]
fn foreign_tool_outcomes_map_to_results_or_containment() {
    assert!(matches!(foreign_tool_result(ForeignToolOutcome::Parsed(JsonValue::Int(5))), Ok(JsonValue::Int(5))));
    let rejected = foreign_tool_result(ForeignToolOutcome::Threw {
        error: FfiError::Rejected {
            code: "REVISION_CONFLICT".into(),
            message: "stale".into(),
            kind: None,
            wire_code: Some("w".into()),
        },
        code_known: true,
    })
    .expect_err("rejected");
    assert_eq!(rejected.code, "REVISION_CONFLICT");
    let details = rejected.details.expect("details");
    assert_eq!(details.len(), 1);
    assert_eq!(details[0].0, "wire_code");
    let unknown = foreign_tool_result(ForeignToolOutcome::Threw {
        error: FfiError::Rejected { code: "NOPE".into(), message: "m".into(), kind: None, wire_code: None },
        code_known: false,
    })
    .expect_err("unknown code");
    assert_eq!(unknown.code, "INTERNAL_ERROR");
    assert!(unknown.details.is_none());
    let dial = foreign_tool_result(ForeignToolOutcome::Threw {
        error: FfiError::Dial { kind: "config".into(), message: "boom".into() },
        code_known: true,
    })
    .expect_err("dial");
    assert_eq!(dial.message, "foreign tool handler threw Dial(config): boom");
    let malformed = foreign_tool_result(ForeignToolOutcome::Malformed("eof".into())).expect_err("malformed");
    assert_eq!(malformed.message, "foreign tool handler returned malformed JSON: eof");
}

#[test]
fn generic_error_envelopes_take_the_conversion_or_are_unmappable() {
    let wire = || WireError {
        code: "REVISION_CONFLICT".into(),
        message: "stale".into(),
        details: vec![("current_revision".into(), JsonValue::Int(4))],
    };
    let converted = spoke_connect::reject::Reject { code: "REVISION_CONFLICT".into(), message: "stale".into(), details: None };
    let reject = map_generic_envelope(wire(), Some(converted));
    assert_eq!(reject.code, "REVISION_CONFLICT");
    assert!(reject.details.is_none());
    let reject = map_generic_envelope(wire(), None);
    assert_eq!(reject.code, "INVALID_INPUT");
    assert_eq!(reject.message, "unmappable error envelope");
    let details = reject.details.expect("details kept");
    assert_eq!(details[0].0, "current_revision");
}

#[test]
fn clock_reading_before_the_epoch_is_zero() {
    assert_eq!(spoke_connect::node_rules::clock_seconds(None), 0);
    assert_eq!(spoke_connect::node_rules::clock_seconds(Some(1_700_000_000)), 1_700_000_000);
}
