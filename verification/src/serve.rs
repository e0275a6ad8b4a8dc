//! Serving decisions for inbound invokes once admitted:
//! the dispatch gate of each side, the tool and port routes, the port-op
//! catalogue with its payload fields, the tool success shape, the mapping
//! of a wire error envelope, and the `ke-ownership` scope rules.

use vstd::prelude::*;
use crate::json::{JsonValue, JsonView, json_get, json_get_str, json_get_i64, json_view, fields_view,
    lemma_fields_view_push};
use crate::text::{owned, concat2, concat3, str_eq, starts_with, has_prefix, seq_has, contains_str};
use crate::session::{dispatch_permits, dispatch_allowed_for};
use crate::endpoint::{Endpoint, EndpointView};
use crate::reject::{Reject, RejectView, reject_view};
use crate::adapter::{internal_error, internal_error_view, is_deny_code, is_dispatch_deny};

verus! {

// ── Request echo fields ──────────────────────────────────────────────────

/// The `op` of a request whose four echo fields (`op`, `session_id`,
/// `request_id` as strings, `sequence` as an integer) are all present.
pub open spec fn request_op(doc: JsonValue) -> Option<Seq<char>> {
    match (json_get_str(doc, "op"@), json_get_str(doc, "session_id"@), json_get_i64(doc, "sequence"@),
        json_get_str(doc, "request_id"@)) {
        (Some(op), Some(_), Some(_), Some(_)) => Some(op),
        _ => None,
    }
}

/// The empty JSON object.
pub open spec fn empty_object() -> JsonView {
    JsonView::Object(Seq::empty())
}

/// The tool arguments of a request: `payload.arguments` when it is an
/// object, `{}` otherwise.
pub open spec fn tool_arguments(doc: JsonValue) -> JsonView {
    match json_get(doc, "payload"@) {
        Some(p) => match json_get(p, "arguments"@) {
            Some(a) => if a is Object { json_view(a) } else { empty_object() },
            None => empty_object(),
        },
        None => empty_object(),
    }
}

/// The payload of a request, `{}` when absent.
pub open spec fn request_payload(doc: JsonValue) -> JsonView {
    match json_get(doc, "payload"@) {
        Some(p) => json_view(p),
        None => empty_object(),
    }
}

// ── Dispatch ─────────────────────────────────────────────────────────────

/// What to do with an admitted request.
#[derive(Debug)]
pub enum DispatchStep {
    /// No bound session or missing echo fields: nothing is answered.
    Ignore,
    /// Answer the error branch with this code and message.
    Deny { code: String, message: String },
    /// Run the registered tool handler with these arguments.
    Tool { op: String, arguments: JsonValue },
    /// Serve the port op through the local ports with this payload.
    Port { op: String, payload: JsonValue },
}

/// The content of a dispatch step.
pub enum DispatchView {
    Ignore,
    Deny(Seq<char>, Seq<char>),
    Tool(Seq<char>, JsonView),
    Port(Seq<char>, JsonView),
}

/// The content of a dispatch step.
pub open spec fn dispatch_view(d: DispatchStep) -> DispatchView {
    match d {
        DispatchStep::Ignore => DispatchView::Ignore,
        DispatchStep::Deny { code, message } => DispatchView::Deny(code@, message@),
        DispatchStep::Tool { op, arguments } => DispatchView::Tool(op@, json_view(arguments)),
        DispatchStep::Port { op, payload } => DispatchView::Port(op@, json_view(payload)),
    }
}

/// `op {op} is not authorized by this session`.
pub open spec fn unauthorized_message(op: Seq<char>) -> Seq<char> {
    "op "@ + op + " is not authorized by this session"@
}

/// `no handler registered for {op}`.
pub open spec fn no_handler_message(op: Seq<char>) -> Seq<char> {
    "no handler registered for "@ + op
}

/// `no BaselinePorts configured for port op {op}`.
pub open spec fn no_ports_message(op: Seq<char>) -> Seq<char> {
    "no BaselinePorts configured for port op "@ + op
}

/// The adapter serves reverse invokes of `tools.*` ops only: the core
/// dispatch gate against the negotiated capabilities, then a registered
/// handler (fail-closed: a permitted op without a handler is denied).
pub open spec fn adapter_dispatch_outcome(e: EndpointView, doc: JsonValue, handlers: Seq<String>) -> DispatchView {
    match e.binding {
        None => DispatchView::Ignore,
        Some(b) => match request_op(doc) {
            None => DispatchView::Ignore,
            Some(op) => if !dispatch_permits(op, b.negotiated) {
                DispatchView::Deny("op_unsupported"@, unauthorized_message(op))
            } else if !seq_has(handlers, op) {
                DispatchView::Deny("op_unsupported"@, no_handler_message(op))
            } else {
                DispatchView::Tool(op, tool_arguments(doc))
            },
        },
    }
}

/// The capability a baseline `port.*` op requires (`spoke-baseline` for
/// the nine catalogue ops); `None` for every other op.
pub open spec fn port_requirement(op: Seq<char>) -> Option<Seq<char>> {
    if op == "port.knowledge.get"@ || op == "port.knowledge.put"@ || op == "port.relation.get"@
        || op == "port.relation.put"@ || op == "port.scope.list_knowledge_entries"@
        || op == "port.scope.list_timeline_events"@ || op == "port.finding.put"@
        || op == "port.rule.list"@ || op == "port.host.list_peer_manifests"@ {
        Some("spoke-baseline"@)
    } else {
        None
    }
}

/// The responder's gate: the core table (which covers `tools.*`), then
/// the port catalogue, both against the negotiated capabilities.
pub open spec fn responder_permits(op: Seq<char>, negotiated: Seq<String>) -> bool {
    dispatch_permits(op, negotiated) || match port_requirement(op) {
        Some(r) => seq_has(negotiated, r),
        None => false,
    }
}

/// The responder serves `tools.*` through registered handlers and every
/// other permitted op through its ports (denied when none are configured).
pub open spec fn responder_dispatch_outcome(e: EndpointView, doc: JsonValue, handlers: Seq<String>, ports: bool)
    -> DispatchView
{
    match e.binding {
        None => DispatchView::Ignore,
        Some(b) => match request_op(doc) {
            None => DispatchView::Ignore,
            Some(op) => if !responder_permits(op, b.negotiated) {
                DispatchView::Deny("op_unsupported"@, unauthorized_message(op))
            } else if has_prefix(op, "tools."@) {
                if !seq_has(handlers, op) {
                    DispatchView::Deny("op_unsupported"@, no_handler_message(op))
                } else {
                    DispatchView::Tool(op, tool_arguments(doc))
                }
            } else if !ports {
                DispatchView::Deny("op_unsupported"@, no_ports_message(op))
            } else {
                DispatchView::Port(op, request_payload(doc))
            },
        },
    }
}

/// The op of a request with all four echo fields.
fn request_op_of(doc: &JsonValue) -> (res: Option<String>)
    ensures
        match request_op(*doc) {
            Some(op) => res is Some && res->0@ == op,
            None => res is None,
        },
{
    let op = match doc.get_str("op") {
        Some(op) => op,
        None => return None,
    };
    if doc.get_str("session_id").is_none() || doc.get_i64("sequence").is_none() || doc.get_str("request_id").is_none() {
        return None;
    }
    Some(op.clone())
}

/// The empty JSON object.
fn empty_object_value() -> (res: JsonValue)
    ensures
        json_view(res) == empty_object(),
{
    let fields: Vec<(String, JsonValue)> = Vec::new();
    let res = JsonValue::Object(fields);
    assert(fields_view(fields@) =~= Seq::<(Seq<char>, JsonView)>::empty());
    res
}

/// The tool arguments of a request (see `tool_arguments`).
pub fn tool_arguments_of(doc: &JsonValue) -> (res: JsonValue)
    ensures
        json_view(res) == tool_arguments(*doc),
{
    match doc.get("payload") {
        Some(p) => match p.get("arguments") {
            Some(a) => if a.is_object() { a.deep_clone() } else { empty_object_value() },
            None => empty_object_value(),
        },
        None => empty_object_value(),
    }
}

/// The payload of a request, `{}` when absent.
pub fn request_payload_of(doc: &JsonValue) -> (res: JsonValue)
    ensures
        json_view(res) == request_payload(*doc),
{
    match doc.get("payload") {
        Some(p) => p.deep_clone(),
        None => empty_object_value(),
    }
}

fn deny(code: &str, message: String) -> (res: DispatchStep)
    ensures
        dispatch_view(res) == DispatchView::Deny(code@, message@),
{
    DispatchStep::Deny { code: owned(code), message }
}

fn unauthorized(op: &str) -> (res: String)
    ensures
        res@ == unauthorized_message(op@),
{
    proof {
        reveal_strlit("op ");
        reveal_strlit(" is not authorized by this session");
    }
    concat3("op ", op, " is not authorized by this session")
}

fn no_handler(op: &str) -> (res: String)
    ensures
        res@ == no_handler_message(op@),
{
    proof {
        reveal_strlit("no handler registered for ");
    }
    concat2("no handler registered for ", op)
}

/// The adapter's dispatch decision for a gated reverse invoke (see
/// `adapter_dispatch_outcome`); `handlers` are the registered tool ids.
pub fn adapter_dispatch(endpoint: &Endpoint, doc: &JsonValue, handlers: &Vec<String>) -> (res: DispatchStep)
    ensures
        dispatch_view(res) == adapter_dispatch_outcome(endpoint@, *doc, handlers@),
{
    let negotiated = match endpoint.negotiated() {
        Some(n) => n,
        None => return DispatchStep::Ignore,
    };
    let op = match request_op_of(doc) {
        Some(op) => op,
        None => return DispatchStep::Ignore,
    };
    proof {
        reveal_strlit("op_unsupported");
    }
    if !dispatch_allowed_for(op.as_str(), negotiated) {
        return deny("op_unsupported", unauthorized(op.as_str()));
    }
    if !contains_str(handlers, op.as_str()) {
        return deny("op_unsupported", no_handler(op.as_str()));
    }
    DispatchStep::Tool { op, arguments: tool_arguments_of(doc) }
}

/// The capability a baseline port op requires.
pub fn port_op_requirement(op: &str) -> (res: Option<&'static str>)
    ensures
        match port_requirement(op@) {
            Some(r) => res is Some && res->0@ == r,
            None => res is None,
        },
{
    proof {
        reveal_strlit("spoke-baseline");
    }
    if str_eq(op, "port.knowledge.get") || str_eq(op, "port.knowledge.put") || str_eq(op, "port.relation.get")
        || str_eq(op, "port.relation.put") || str_eq(op, "port.scope.list_knowledge_entries")
        || str_eq(op, "port.scope.list_timeline_events") || str_eq(op, "port.finding.put")
        || str_eq(op, "port.rule.list") || str_eq(op, "port.host.list_peer_manifests") {
        Some("spoke-baseline")
    } else {
        None
    }
}

/// The responder's gate (see `responder_permits`).
pub fn gate_allows(op: &str, negotiated: &Vec<String>) -> (res: bool)
    ensures
        res == responder_permits(op@, negotiated@),
{
    if dispatch_allowed_for(op, negotiated) {
        return true;
    }
    match port_op_requirement(op) {
        Some(required) => contains_str(negotiated, required),
        None => false,
    }
}

/// The responder's dispatch decision for a gated invoke (see
/// `responder_dispatch_outcome`); `handlers` are the registered tool ids
/// and `ports` whether local ports are configured.
pub fn responder_dispatch(endpoint: &Endpoint, doc: &JsonValue, handlers: &Vec<String>, ports: bool)
    -> (res: DispatchStep)
    ensures
        dispatch_view(res) == responder_dispatch_outcome(endpoint@, *doc, handlers@, ports),
{
    let negotiated = match endpoint.negotiated() {
        Some(n) => n,
        None => return DispatchStep::Ignore,
    };
    let op = match request_op_of(doc) {
        Some(op) => op,
        None => return DispatchStep::Ignore,
    };
    proof {
        reveal_strlit("op_unsupported");
        reveal_strlit("tools.");
        reveal_strlit("no BaselinePorts configured for port op ");
    }
    if !gate_allows(op.as_str(), negotiated) {
        return deny("op_unsupported", unauthorized(op.as_str()));
    }
    if starts_with(op.as_str(), "tools.") {
        if !contains_str(handlers, op.as_str()) {
            return deny("op_unsupported", no_handler(op.as_str()));
        }
        return DispatchStep::Tool { op, arguments: tool_arguments_of(doc) };
    }
    if !ports {
        let message = concat2("no BaselinePorts configured for port op ", op.as_str());
        return deny("op_unsupported", message);
    }
    DispatchStep::Port { op, payload: request_payload_of(doc) }
}

// ── Port catalogue ───────────────────────────────────────────────────────

/// A baseline port call decoded from a `port.*` op and its payload; the
/// typed decoding of each field's value is the caller's.
#[derive(Debug)]
pub enum PortCall {
    GetKnowledgeEntry { entry_id: String },
    PutKnowledgeEntry { entry: JsonValue, expected_base_revision: Option<JsonValue> },
    GetRelation { relation_id: String },
    PutRelation { relation: JsonValue, expected_base_revision: Option<JsonValue> },
    ListKnowledgeEntries { scope: JsonValue },
    ListTimelineEvents { scope: JsonValue },
    PutFindings { findings: JsonValue },
    ListRules { rule_refs: JsonValue },
    ListPeerManifests,
}

/// The content of a port call.
pub enum PortCallView {
    GetKnowledgeEntry(Seq<char>),
    PutKnowledgeEntry(JsonView, Option<JsonView>),
    GetRelation(Seq<char>),
    PutRelation(JsonView, Option<JsonView>),
    ListKnowledgeEntries(JsonView),
    ListTimelineEvents(JsonView),
    PutFindings(JsonView),
    ListRules(JsonView),
    ListPeerManifests,
}

/// The content of a port call.
pub open spec fn port_call_view(c: PortCall) -> PortCallView {
    match c {
        PortCall::GetKnowledgeEntry { entry_id } => PortCallView::GetKnowledgeEntry(entry_id@),
        PortCall::PutKnowledgeEntry { entry, expected_base_revision } =>
            PortCallView::PutKnowledgeEntry(json_view(entry), opt_json_view(expected_base_revision)),
        PortCall::GetRelation { relation_id } => PortCallView::GetRelation(relation_id@),
        PortCall::PutRelation { relation, expected_base_revision } =>
            PortCallView::PutRelation(json_view(relation), opt_json_view(expected_base_revision)),
        PortCall::ListKnowledgeEntries { scope } => PortCallView::ListKnowledgeEntries(json_view(scope)),
        PortCall::ListTimelineEvents { scope } => PortCallView::ListTimelineEvents(json_view(scope)),
        PortCall::PutFindings { findings } => PortCallView::PutFindings(json_view(findings)),
        PortCall::ListRules { rule_refs } => PortCallView::ListRules(json_view(rule_refs)),
        PortCall::ListPeerManifests => PortCallView::ListPeerManifests,
    }
}

/// An `INVALID_INPUT` rejection without details.
pub open spec fn invalid_input(message: Seq<char>) -> RejectView {
    RejectView { code: "INVALID_INPUT"@, message, details: None }
}

/// `invalid {op} payload: missing {field}`.
pub open spec fn missing_field_message(op: Seq<char>, field: Seq<char>) -> Seq<char> {
    "invalid "@ + op + " payload: missing "@ + field
}

/// `invalid {op} payload`.
pub open spec fn invalid_payload_message(op: Seq<char>) -> Seq<char> {
    "invalid "@ + op + " payload"@
}

/// The value of a required payload field, or the `missing` rejection.
pub open spec fn required_field(op: Seq<char>, payload: JsonValue, field: Seq<char>) -> Result<JsonView, RejectView> {
    match json_get(payload, field) {
        Some(v) => Ok(json_view(v)),
        None => Err(invalid_input(missing_field_message(op, field))),
    }
}

/// An id field that must be a string: `invalid {op} payload` otherwise.
pub open spec fn id_field(op: Seq<char>, payload: JsonValue, field: Seq<char>) -> Result<Seq<char>, RejectView> {
    match json_get_str(payload, field) {
        Some(id) => Ok(id),
        None => Err(invalid_input(invalid_payload_message(op))),
    }
}

/// An optional value by its view.
pub open spec fn opt_json_view(v: Option<JsonValue>) -> Option<JsonView> {
    match v {
        Some(x) => Some(json_view(x)),
        None => None,
    }
}

/// A write op's record field (required), with its `expected_base_revision`
/// field as found (checked only after the record decoded: see
/// `put_payload_outcome`).
pub open spec fn record_and_revision(op: Seq<char>, payload: JsonValue, record: Seq<char>)
    -> Result<(JsonView, Option<JsonView>), RejectView>
{
    match required_field(op, payload, record) {
        Err(r) => Err(r),
        Ok(a) => Ok((a, opt_json_view(json_get(payload, "expected_base_revision"@)))),
    }
}

/// The port call of `op` with `payload` per the baseline catalogue; an
/// unknown op is `CAPABILITY_PORT_MISSING` (`unimplemented port op {op}`).
pub open spec fn port_call_outcome(op: Seq<char>, payload: JsonValue) -> Result<PortCallView, RejectView> {
    if op == "port.knowledge.get"@ {
        match id_field(op, payload, "entry_id"@) {
            Ok(id) => Ok(PortCallView::GetKnowledgeEntry(id)),
            Err(r) => Err(r),
        }
    } else if op == "port.knowledge.put"@ {
        match record_and_revision(op, payload, "entry"@) {
            Ok((a, b)) => Ok(PortCallView::PutKnowledgeEntry(a, b)),
            Err(r) => Err(r),
        }
    } else if op == "port.relation.get"@ {
        match id_field(op, payload, "relation_id"@) {
            Ok(id) => Ok(PortCallView::GetRelation(id)),
            Err(r) => Err(r),
        }
    } else if op == "port.relation.put"@ {
        match record_and_revision(op, payload, "relation"@) {
            Ok((a, b)) => Ok(PortCallView::PutRelation(a, b)),
            Err(r) => Err(r),
        }
    } else if op == "port.scope.list_knowledge_entries"@ {
        match required_field(op, payload, "scope"@) {
            Ok(a) => Ok(PortCallView::ListKnowledgeEntries(a)),
            Err(r) => Err(r),
        }
    } else if op == "port.scope.list_timeline_events"@ {
        match required_field(op, payload, "scope"@) {
            Ok(a) => Ok(PortCallView::ListTimelineEvents(a)),
            Err(r) => Err(r),
        }
    } else if op == "port.finding.put"@ {
        match required_field(op, payload, "findings"@) {
            Ok(a) => Ok(PortCallView::PutFindings(a)),
            Err(r) => Err(r),
        }
    } else if op == "port.rule.list"@ {
        match required_field(op, payload, "rule_refs"@) {
            Ok(a) => Ok(PortCallView::ListRules(a)),
            Err(r) => Err(r),
        }
    } else if op == "port.host.list_peer_manifests"@ {
        Ok(PortCallView::ListPeerManifests)
    } else {
        Err(RejectView { code: "CAPABILITY_PORT_MISSING"@, message: "unimplemented port op "@ + op, details: None })
    }
}

/// The content of a port-call result.
pub open spec fn port_result_view(r: Result<PortCall, Reject>) -> Result<PortCallView, RejectView> {
    match r {
        Ok(c) => Ok(port_call_view(c)),
        Err(j) => Err(reject_view(j)),
    }
}

fn invalid_input_reject(message: String) -> (res: Reject)
    ensures
        reject_view(res) == invalid_input(message@),
{
    proof {
        reveal_strlit("INVALID_INPUT");
    }
    Reject { code: owned("INVALID_INPUT"), message, details: None }
}

/// A required payload field.
fn take_field(op: &str, payload: &JsonValue, field: &str) -> (res: Result<JsonValue, Reject>)
    ensures
        match (res, required_field(op@, *payload, field@)) {
            (Ok(v), Ok(w)) => json_view(v) == w,
            (Err(j), Err(k)) => reject_view(j) == k,
            _ => false,
        },
{
    match payload.get(field) {
        Some(v) => Ok(v.deep_clone()),
        None => {
            let mut m = concat3("invalid ", op, " payload: missing ");
            m.append(field);
            proof {
                reveal_strlit("invalid ");
                reveal_strlit(" payload: missing ");
            }
            Err(invalid_input_reject(m))
        },
    }
}

/// A string id field.
fn take_id(op: &str, payload: &JsonValue, field: &str) -> (res: Result<String, Reject>)
    ensures
        match (res, id_field(op@, *payload, field@)) {
            (Ok(v), Ok(w)) => v@ == w,
            (Err(j), Err(k)) => reject_view(j) == k,
            _ => false,
        },
{
    match payload.get_str(field) {
        Some(id) => Ok(id.clone()),
        None => {
            let m = concat3("invalid ", op, " payload");
            proof {
                reveal_strlit("invalid ");
                reveal_strlit(" payload");
            }
            Err(invalid_input_reject(m))
        },
    }
}

/// A write op's record field and its revision field as found.
fn take_record(op: &str, payload: &JsonValue, record: &str) -> (res: Result<(JsonValue, Option<JsonValue>), Reject>)
    ensures
        match (res, record_and_revision(op@, *payload, record@)) {
            (Ok(v), Ok(w)) => json_view(v.0) == w.0 && opt_json_view(v.1) == w.1,
            (Err(j), Err(k)) => reject_view(j) == k,
            _ => false,
        },
{
    proof {
        reveal_strlit("expected_base_revision");
    }
    let a = match take_field(op, payload, record) {
        Ok(a) => a,
        Err(r) => return Err(r),
    };
    let revision = match payload.get("expected_base_revision") {
        Some(v) => Some(v.deep_clone()),
        None => None,
    };
    Ok((a, revision))
}

/// The order in which a write op's payload is checked once its record
/// field was found: the record's typed decode first (its failure text
/// given as `record`), then the presence of `expected_base_revision`, then
/// that field's typed decode (`revision`). Each failure is `INVALID_INPUT`.
pub open spec fn put_payload_outcome(op: Seq<char>, record: Result<(), Seq<char>>, revision_present: bool,
    revision: Result<(), Seq<char>>) -> Result<(), RejectView>
{
    match record {
        Err(e) => Err(invalid_input("invalid "@ + op + " payload: "@ + e)),
        Ok(()) => if !revision_present {
            Err(invalid_input(missing_field_message(op, "expected_base_revision"@)))
        } else {
            match revision {
                Err(e) => Err(invalid_input("invalid "@ + op + " payload: "@ + e)),
                Ok(()) => Ok(()),
            }
        },
    }
}

/// Checks a write op's payload in the catalogue's order, given the typed
/// decodes of its record and of its revision (see `put_payload_outcome`).
pub fn put_payload_check(op: &str, record: Result<(), String>, revision_present: bool, revision: Result<(), String>)
    -> (res: Result<(), Reject>)
    ensures
        match res {
            Ok(()) => put_payload_outcome(op@, result_text(record), revision_present, result_text(revision)) is Ok,
            Err(j) => put_payload_outcome(op@, result_text(record), revision_present, result_text(revision))
                == Err::<(), RejectView>(reject_view(j)),
        },
{
    proof {
        reveal_strlit("invalid ");
        reveal_strlit(" payload: ");
        reveal_strlit(" payload: missing ");
        reveal_strlit("expected_base_revision");
    }
    match record {
        Err(e) => {
            let mut m = concat3("invalid ", op, " payload: ");
            m.append(e.as_str());
            return Err(invalid_input_reject(m));
        },
        Ok(()) => {},
    }
    if !revision_present {
        let mut m = concat3("invalid ", op, " payload: missing ");
        m.append("expected_base_revision");
        return Err(invalid_input_reject(m));
    }
    match revision {
        Err(e) => {
            let mut m = concat3("invalid ", op, " payload: ");
            m.append(e.as_str());
            Err(invalid_input_reject(m))
        },
        Ok(()) => Ok(()),
    }
}

/// A decode result by its error's text.
pub open spec fn result_text(r: Result<(), String>) -> Result<(), Seq<char>> {
    match r {
        Ok(()) => Ok(()),
        Err(e) => Err(e@),
    }
}

/// Decodes a `port.*` op and its payload into a port call (see
/// `port_call_outcome`).
pub fn port_call(op: &str, payload: &JsonValue) -> (res: Result<PortCall, Reject>)
    ensures
        port_result_view(res) == port_call_outcome(op@, *payload),
{
    proof {
        reveal_strlit("entry_id");
        reveal_strlit("entry");
        reveal_strlit("expected_base_revision");
        reveal_strlit("relation_id");
        reveal_strlit("relation");
        reveal_strlit("scope");
        reveal_strlit("findings");
        reveal_strlit("rule_refs");
    }
    if str_eq(op, "port.knowledge.get") {
        match take_id(op, payload, "entry_id") {
            Ok(entry_id) => Ok(PortCall::GetKnowledgeEntry { entry_id }),
            Err(r) => Err(r),
        }
    } else if str_eq(op, "port.knowledge.put") {
        match take_record(op, payload, "entry") {
            Ok((entry, expected_base_revision)) => Ok(PortCall::PutKnowledgeEntry { entry, expected_base_revision }),
            Err(r) => Err(r),
        }
    } else if str_eq(op, "port.relation.get") {
        match take_id(op, payload, "relation_id") {
            Ok(relation_id) => Ok(PortCall::GetRelation { relation_id }),
            Err(r) => Err(r),
        }
    } else if str_eq(op, "port.relation.put") {
        match take_record(op, payload, "relation") {
            Ok((relation, expected_base_revision)) => Ok(PortCall::PutRelation { relation, expected_base_revision }),
            Err(r) => Err(r),
        }
    } else if str_eq(op, "port.scope.list_knowledge_entries") {
        match take_field(op, payload, "scope") {
            Ok(scope) => Ok(PortCall::ListKnowledgeEntries { scope }),
            Err(r) => Err(r),
        }
    } else if str_eq(op, "port.scope.list_timeline_events") {
        match take_field(op, payload, "scope") {
            Ok(scope) => Ok(PortCall::ListTimelineEvents { scope }),
            Err(r) => Err(r),
        }
    } else if str_eq(op, "port.finding.put") {
        match take_field(op, payload, "findings") {
            Ok(findings) => Ok(PortCall::PutFindings { findings }),
            Err(r) => Err(r),
        }
    } else if str_eq(op, "port.rule.list") {
        match take_field(op, payload, "rule_refs") {
            Ok(rule_refs) => Ok(PortCall::ListRules { rule_refs }),
            Err(r) => Err(r),
        }
    } else if str_eq(op, "port.host.list_peer_manifests") {
        Ok(PortCall::ListPeerManifests)
    } else {
        proof {
            reveal_strlit("CAPABILITY_PORT_MISSING");
            reveal_strlit("unimplemented port op ");
        }
        Err(Reject {
            code: owned("CAPABILITY_PORT_MISSING"),
            message: concat2("unimplemented port op ", op),
            details: None,
        })
    }
}

// ── Responses of outbound invokes ────────────────────────────────────────

/// The error branch of an invoke response.
#[derive(Debug)]
pub struct WireError {
    pub code: String,
    pub message: String,
    pub details: Vec<(String, JsonValue)>,
}

/// `fields` with `key` set to `value`: every member named `key` takes the
/// value in place; appended when there is none.
pub open spec fn fields_set(fields: Seq<(Seq<char>, JsonView)>, key: Seq<char>, value: JsonView)
    -> Seq<(Seq<char>, JsonView)>
{
    if exists|i: int| 0 <= i < fields.len() && #[trigger] fields[i].0 == key {
        fields.map_values(|e: (Seq<char>, JsonView)| if e.0 == key { (key, value) } else { e })
    } else {
        fields.push((key, value))
    }
}

/// How an error envelope settles: the deny codes and `auth_failed` are
/// mapped here; every other code goes through the generic envelope
/// mapping.
pub enum EnvelopeMapping {
    Mapped(Reject),
    Generic,
}

/// The content of an envelope mapping.
pub enum EnvelopeMappingView {
    Mapped(RejectView),
    Generic,
}

/// The content of an envelope mapping.
pub open spec fn envelope_mapping_view(m: EnvelopeMapping) -> EnvelopeMappingView {
    match m {
        EnvelopeMapping::Mapped(r) => EnvelopeMappingView::Mapped(reject_view(r)),
        EnvelopeMapping::Generic => EnvelopeMappingView::Generic,
    }
}

/// A dispatch deny settles to `CAPABILITY_PORT_MISSING` with the wire code
/// kept as `details.wire_code`; `auth_failed` settles to `INTERNAL_ERROR`
/// with the details (and their envelope-auth `kind`) as sent.
pub open spec fn error_mapping(e: WireError) -> EnvelopeMappingView {
    if is_deny_code(e.code@) {
        EnvelopeMappingView::Mapped(RejectView {
            code: "CAPABILITY_PORT_MISSING"@,
            message: e.message@,
            details: Some(fields_set(fields_view(e.details@), "wire_code"@, JsonView::Str(e.code@))),
        })
    } else if e.code@ == "auth_failed"@ {
        EnvelopeMappingView::Mapped(RejectView {
            code: "INTERNAL_ERROR"@,
            message: e.message@,
            details: Some(fields_view(e.details@)),
        })
    } else {
        EnvelopeMappingView::Generic
    }
}

/// Sets `key` to `value` in an object's members (see `fields_set`).
pub fn set_field(fields: Vec<(String, JsonValue)>, key: &str, value: JsonValue) -> (res: Vec<(String, JsonValue)>)
    ensures
        fields_view(res@) == fields_set(fields_view(fields@), key@, json_view(value)),
{
    let ghost f = fields_view(fields@);
    let ghost kv = (key@, json_view(value));
    let mut out: Vec<(String, JsonValue)> = Vec::new();
    let mut found = false;
    let mut i: usize = 0;
    proof {
        assert(fields_view(out@) =~= Seq::<(Seq<char>, JsonView)>::empty());
        lemma_fields_view_len(fields@);
    }
    while i < fields.len()
        invariant
            i <= fields@.len(),
            f == fields_view(fields@),
            f.len() == fields@.len(),
            kv == (key@, json_view(value)),
            fields_view(out@) =~= f.subrange(0, i as int).map_values(
                |e: (Seq<char>, JsonView)| if e.0 == key@ { kv } else { e }),
            found == exists|j: int| 0 <= j < i && #[trigger] f[j].0 == key@,
        decreases fields@.len() - i,
    {
        proof {
            lemma_fields_view_index(fields@, i as int);
        }
        let entry = if str_eq(fields[i].0.as_str(), key) {
            found = true;
            (owned(key), value.deep_clone())
        } else {
            (fields[i].0.clone(), fields[i].1.deep_clone())
        };
        proof {
            lemma_fields_view_push(out@, entry);
            assert(f.subrange(0, i + 1) =~= f.subrange(0, i as int).push(f[i as int]));
            if found {
                if f[i as int].0 != key@ {
                    let j = choose|j: int| 0 <= j < i && #[trigger] f[j].0 == key@;
                    assert(0 <= j < i + 1 && f[j].0 == key@);
                }
            }
        }
        out.push(entry);
        i = i + 1;
    }
    proof {
        assert(f.subrange(0, f.len() as int) =~= f);
    }
    if !found {
        let entry = (owned(key), value);
        proof {
            lemma_fields_view_push(out@, entry);
            assert(f.map_values(|e: (Seq<char>, JsonView)| if e.0 == key@ { kv } else { e }) =~= f);
        }
        out.push(entry);
    }
    out
}

/// The content of member `i` of an object.
pub proof fn lemma_fields_view_index(fields: Seq<(String, JsonValue)>, i: int)
    requires
        0 <= i < fields.len(),
    ensures
        fields_view(fields).len() == fields.len(),
        fields_view(fields)[i] == (fields[i].0@, json_view(fields[i].1)),
    decreases fields.len(),
{
    lemma_fields_view_len(fields);
    if i > 0 {
        lemma_fields_view_index(fields.subrange(1, fields.len() as int), i - 1);
    }
}

/// An object's content has one entry per member.
pub proof fn lemma_fields_view_len(fields: Seq<(String, JsonValue)>)
    ensures
        fields_view(fields).len() == fields.len(),
    decreases fields.len(),
{
    if fields.len() > 0 {
        lemma_fields_view_len(fields.subrange(1, fields.len() as int));
    }
}

/// Maps an error envelope (see `error_mapping`).
pub fn map_error_envelope(error: WireError) -> (res: EnvelopeMapping)
    ensures
        envelope_mapping_view(res) == error_mapping(error),
{
    proof {
        reveal_strlit("CAPABILITY_PORT_MISSING");
        reveal_strlit("INTERNAL_ERROR");
        reveal_strlit("wire_code");
        reveal_strlit("auth_failed");
    }
    if is_dispatch_deny(error.code.as_str()) {
        let code_value = JsonValue::Str(error.code.clone());
        let details = set_field(error.details, "wire_code", code_value);
        EnvelopeMapping::Mapped(Reject { code: owned("CAPABILITY_PORT_MISSING"), message: error.message, details: Some(details) })
    } else if str_eq(error.code.as_str(), "auth_failed") {
        EnvelopeMapping::Mapped(Reject { code: owned("INTERNAL_ERROR"), message: error.message, details: Some(error.details) })
    } else {
        EnvelopeMapping::Generic
    }
}

/// The rejection of an error envelope outside the deny and `auth_failed`
/// codes, given the shared envelope conversion's result (`None` when the
/// envelope does not convert): the converted rejection, or `INVALID_INPUT`
/// `unmappable error envelope` with the envelope's details.
pub open spec fn generic_mapping(e: WireError, converted: Option<RejectView>) -> RejectView {
    match converted {
        Some(r) => r,
        None => RejectView { code: "INVALID_INPUT"@, message: "unmappable error envelope"@, details: Some(fields_view(e.details@)) },
    }
}

/// Finishes the generic branch of the envelope mapping (see
/// `generic_mapping`).
pub fn map_generic_envelope(error: WireError, converted: Option<Reject>) -> (res: Reject)
    ensures
        reject_view(res) == generic_mapping(error, match converted {
            Some(r) => Some(reject_view(r)),
            None => None,
        }),
{
    match converted {
        Some(r) => r,
        None => {
            proof {
                reveal_strlit("INVALID_INPUT");
                reveal_strlit("unmappable error envelope");
            }
            Reject { code: owned("INVALID_INPUT"), message: owned("unmappable error envelope"), details: Some(error.details) }
        },
    }
}

/// `response payload decode failed: payload does not match the {id}
/// success shape`.
pub open spec fn tool_shape_message(capability_id: Seq<char>) -> Seq<char> {
    "response payload decode failed: payload does not match the "@ + capability_id + " success shape"@
}

/// A tool's success payload is `{ "result": <value> }`: the value, or an
/// `INTERNAL_ERROR` of kind `transport` when `result` is missing.
pub open spec fn tool_result_outcome(payload: JsonValue, capability_id: Seq<char>) -> Result<JsonView, RejectView> {
    match json_get(payload, "result"@) {
        Some(r) => Ok(json_view(r)),
        None => Err(internal_error_view("transport"@, tool_shape_message(capability_id))),
    }
}

/// The result of a tool's success payload (see `tool_result_outcome`).
pub fn tool_result(payload: &JsonValue, capability_id: &str) -> (res: Result<JsonValue, Reject>)
    ensures
        match (res, tool_result_outcome(*payload, capability_id@)) {
            (Ok(v), Ok(w)) => json_view(v) == w,
            (Err(j), Err(k)) => reject_view(j) == k,
            _ => false,
        },
{
    proof {
        reveal_strlit("result");
        reveal_strlit("transport");
        reveal_strlit("response payload decode failed: payload does not match the ");
        reveal_strlit(" success shape");
    }
    match payload.get("result") {
        Some(r) => Ok(r.deep_clone()),
        None => Err(internal_error("transport",
            concat3("response payload decode failed: payload does not match the ", capability_id, " success shape"))),
    }
}

/// A one-member object `{ key: value }`.
pub open spec fn single_member(key: Seq<char>, value: JsonView) -> JsonView {
    JsonView::Object(seq![(key, value)])
}

/// `{ key: value }`.
fn single_member_value(key: &str, value: JsonValue) -> (res: JsonValue)
    ensures
        json_view(res) == single_member(key@, json_view(value)),
{
    let mut fields: Vec<(String, JsonValue)> = Vec::new();
    let entry = (owned(key), value);
    proof {
        lemma_fields_view_push(fields@, entry);
        assert(fields_view(Seq::<(String, JsonValue)>::empty()) =~= Seq::<(Seq<char>, JsonView)>::empty());
    }
    fields.push(entry);
    let res = JsonValue::Object(fields);
    assert(fields_view(fields@) =~= seq![(key@, json_view(value))]);
    res
}

/// The payload of a tool invoke: `{ "arguments": arguments }`.
pub fn tool_invoke_payload(arguments: JsonValue) -> (res: JsonValue)
    ensures
        json_view(res) == single_member("arguments"@, json_view(arguments)),
{
    proof { reveal_strlit("arguments"); }
    single_member_value("arguments", arguments)
}

/// The success payload of a served tool: `{ "result": value }`.
pub fn tool_success_payload(value: JsonValue) -> (res: JsonValue)
    ensures
        json_view(res) == single_member("result"@, json_view(value)),
{
    proof { reveal_strlit("result"); }
    single_member_value("result", value)
}

/// The success payload of a served port op: its value, with `null`
/// sent as `{}`.
pub fn port_success_payload(value: JsonValue) -> (res: JsonValue)
    ensures
        json_view(res) == if value is Null { empty_object() } else { json_view(value) },
{
    match value {
        JsonValue::Null => empty_object_value(),
        other => other,
    }
}

// ── `ke-ownership` scope rules ───────────────────────────────────────────

/// The Scope-bearing remote ops.
pub open spec fn is_scope_bearing(op: Seq<char>) -> bool {
    op == "port.scope.list_knowledge_entries"@ || op == "port.scope.list_timeline_events"@
        || op == "port.fork.list_timeline_events"@
}

/// Whether `op` is Scope-bearing.
pub fn scope_bearing(op: &str) -> (res: bool)
    ensures
        res == is_scope_bearing(op@),
{
    str_eq(op, "port.scope.list_knowledge_entries") || str_eq(op, "port.scope.list_timeline_events")
        || str_eq(op, "port.fork.list_timeline_events")
}

/// The declared `payload.scope.viewpoint`, when `scope` is an object
/// carrying it.
pub open spec fn declared_viewpoint(payload: JsonValue) -> Option<JsonValue> {
    match json_get(payload, "scope"@) {
        Some(scope) => json_get(scope, "viewpoint"@),
        None => None,
    }
}

/// A request needs `ke-ownership` when it is Scope-bearing and declares
/// a non-empty string viewpoint.
pub open spec fn needs_ownership(op: Seq<char>, payload: JsonValue) -> bool {
    is_scope_bearing(op) && match declared_viewpoint(payload) {
        Some(JsonValue::Str(v)) => v@.len() > 0,
        _ => false,
    }
}

/// Whether the request requires the `ke-ownership` capability.
pub fn requires_ownership_capability(op: &str, payload: &JsonValue) -> (res: bool)
    ensures
        res == needs_ownership(op@, *payload),
{
    if !scope_bearing(op) {
        return false;
    }
    match payload.get("scope") {
        Some(scope) => match scope.get("viewpoint") {
            Some(JsonValue::Str(v)) => v.unicode_len() > 0,
            _ => false,
        },
        None => false,
    }
}

/// `invalid {op} payload: {detail}`.
pub open spec fn invalid_detail_message(op: Seq<char>, detail: Seq<char>) -> Seq<char> {
    "invalid "@ + op + " payload: "@ + detail
}

/// The declared Scope of a Scope-bearing request must be present, a
/// present viewpoint must be a non-empty string, and the Scope must
/// decode (`decoded` is that decoding's verdict, with its error text).
pub open spec fn scope_declaration_outcome(op: Seq<char>, payload: JsonValue, decoded: Result<(), Seq<char>>)
    -> Result<(), RejectView>
{
    if !is_scope_bearing(op) {
        Ok(())
    } else if json_get(payload, "scope"@) is None {
        Err(invalid_input(invalid_detail_message(op, "missing scope"@)))
    } else if match declared_viewpoint(payload) {
        Some(JsonValue::Str(v)) => v@.len() == 0,
        Some(_) => true,
        None => false,
    } {
        Err(invalid_input(invalid_detail_message(op, "scope.viewpoint must be a non-empty string"@)))
    } else {
        match decoded {
            Ok(()) => Ok(()),
            Err(m) => Err(invalid_input(invalid_detail_message(op, m))),
        }
    }
}

/// Validates a Scope-bearing request's declared Scope (see
/// `scope_declaration_outcome`); other ops pass untouched.
pub fn validate_scope_declaration(op: &str, payload: &JsonValue, decoded: Result<(), String>) -> (res: Result<(), Reject>)
    ensures
        match (res, scope_declaration_outcome(op@, *payload, match decoded { Ok(()) => Ok(()), Err(m) => Err(m@) })) {
            (Ok(()), Ok(())) => true,
            (Err(j), Err(k)) => reject_view(j) == k,
            _ => false,
        },
{
    if !scope_bearing(op) {
        return Ok(());
    }
    proof {
        reveal_strlit("invalid ");
        reveal_strlit(" payload: ");
        reveal_strlit("missing scope");
        reveal_strlit("scope.viewpoint must be a non-empty string");
    }
    let scope = match payload.get("scope") {
        Some(scope) => scope,
        None => {
            let mut m = concat3("invalid ", op, " payload: ");
            m.append("missing scope");
            return Err(invalid_input_reject(m));
        },
    };
    let bad_viewpoint = match scope.get("viewpoint") {
        Some(JsonValue::Str(v)) => v.unicode_len() == 0,
        Some(_) => true,
        None => false,
    };
    if bad_viewpoint {
        let mut m = concat3("invalid ", op, " payload: ");
        m.append("scope.viewpoint must be a non-empty string");
        return Err(invalid_input_reject(m));
    }
    match decoded {
        Ok(()) => Ok(()),
        Err(detail) => {
            let mut m = concat3("invalid ", op, " payload: ");
            m.append(detail.as_str());
            Err(invalid_input_reject(m))
        },
    }
}

/// A copy of an object's members.
pub fn clone_fields(fields: &Vec<(String, JsonValue)>) -> (res: Vec<(String, JsonValue)>)
    ensures
        fields_view(res@) == fields_view(fields@),
{
    let mut out: Vec<(String, JsonValue)> = Vec::new();
    let mut i: usize = 0;
    assert(fields_view(out@) =~= fields_view(fields@.subrange(0, 0)));
    while i < fields.len()
        invariant
            i <= fields@.len(),
            fields_view(out@) == fields_view(fields@.subrange(0, i as int)),
        decreases fields@.len() - i,
    {
        let entry = (fields[i].0.clone(), fields[i].1.deep_clone());
        proof {
            lemma_fields_view_push(out@, entry);
            lemma_fields_view_push(fields@.subrange(0, i as int), fields@[i as int]);
            assert(fields@.subrange(0, i as int).push(fields@[i as int]) =~= fields@.subrange(0, i + 1));
        }
        out.push(entry);
        i = i + 1;
    }
    assert(fields@.subrange(0, fields@.len() as int) =~= fields@);
    out
}

// ── Echo fields of answers ───────────────────────────────────────────────

/// The echo fields an error answer carries: `session_id` and `request_id`
/// as strings, and `sequence` when present (`-1`, below the wire floor,
/// when it is not an integer); `None` — nothing is answered — when one is
/// missing.
pub open spec fn error_echo(doc: JsonValue) -> Option<(Seq<char>, i64, Seq<char>)> {
    match (json_get_str(doc, "session_id"@), json_get(doc, "sequence"@), json_get_str(doc, "request_id"@)) {
        (Some(s), Some(v), Some(r)) => Some((s, match v { JsonValue::Int(n) => n, _ => -1i64 }, r)),
        _ => None,
    }
}

/// The echo fields a success answer carries: all three present and typed.
pub open spec fn success_echo(doc: JsonValue) -> Option<(Seq<char>, i64, Seq<char>)> {
    match (json_get_str(doc, "session_id"@), json_get_i64(doc, "sequence"@), json_get_str(doc, "request_id"@)) {
        (Some(s), Some(n), Some(r)) => Some((s, n, r)),
        _ => None,
    }
}

/// The echo fields of an error answer (see `error_echo`).
pub fn error_echo_of(doc: &JsonValue) -> (res: Option<(String, i64, String)>)
    ensures
        match error_echo(*doc) {
            Some(e) => (res matches Some((s, n, r)) && s@ == e.0 && n == e.1 && r@ == e.2),
            None => res is None,
        },
{
    let session_id = match doc.get_str("session_id") {
        Some(s) => s.clone(),
        None => return None,
    };
    let sequence: i64 = match doc.get("sequence") {
        Some(JsonValue::Int(n)) => *n,
        Some(_) => -1,
        None => return None,
    };
    let request_id = match doc.get_str("request_id") {
        Some(r) => r.clone(),
        None => return None,
    };
    Some((session_id, sequence, request_id))
}

/// The echo fields of a success answer (see `success_echo`).
pub fn success_echo_of(doc: &JsonValue) -> (res: Option<(String, i64, String)>)
    ensures
        match success_echo(*doc) {
            Some(e) => (res matches Some((s, n, r)) && s@ == e.0 && n == e.1 && r@ == e.2),
            None => res is None,
        },
{
    let session_id = match doc.get_str("session_id") {
        Some(s) => s.clone(),
        None => return None,
    };
    let sequence = match doc.get_i64("sequence") {
        Some(n) => n,
        None => return None,
    };
    let request_id = match doc.get_str("request_id") {
        Some(r) => r.clone(),
        None => return None,
    };
    Some((session_id, sequence, request_id))
}

/// Only permitted ops are served: whenever either side's dispatch decision
/// runs a handler or a port, the op passed that side's dispatch check
/// against the negotiated capabilities (and a tool had a registered
/// handler).
pub proof fn law_dispatch_only_permitted(e: EndpointView, doc: JsonValue, handlers: Seq<String>, ports: bool)
    ensures
        adapter_dispatch_outcome(e, doc, handlers) matches DispatchView::Tool(op, _) ==>
            dispatch_permits(op, e.binding->0.negotiated) && seq_has(handlers, op),
        responder_dispatch_outcome(e, doc, handlers, ports) matches DispatchView::Tool(op, _) ==>
            responder_permits(op, e.binding->0.negotiated) && seq_has(handlers, op),
        responder_dispatch_outcome(e, doc, handlers, ports) matches DispatchView::Port(op, _) ==>
            responder_permits(op, e.binding->0.negotiated) && ports,
{
}

// ── Laws of the port catalogue and the deny mapping ──────────────────────

/// The op a port call serves: the catalogue name of its port.
pub open spec fn call_op(c: PortCallView) -> Seq<char> {
    match c {
        PortCallView::GetKnowledgeEntry(_) => "port.knowledge.get"@,
        PortCallView::PutKnowledgeEntry(_, _) => "port.knowledge.put"@,
        PortCallView::GetRelation(_) => "port.relation.get"@,
        PortCallView::PutRelation(_, _) => "port.relation.put"@,
        PortCallView::ListKnowledgeEntries(_) => "port.scope.list_knowledge_entries"@,
        PortCallView::ListTimelineEvents(_) => "port.scope.list_timeline_events"@,
        PortCallView::PutFindings(_) => "port.finding.put"@,
        PortCallView::ListRules(_) => "port.rule.list"@,
        PortCallView::ListPeerManifests => "port.host.list_peer_manifests"@,
    }
}

/// `op` is in the port catalogue: decoding it never answers "unimplemented
/// port op".
pub open spec fn catalogued(op: Seq<char>, payload: JsonValue) -> bool {
    !(port_call_outcome(op, payload) is Err
        && port_call_outcome(op, payload)->Err_0.code == "CAPABILITY_PORT_MISSING"@)
}

/// Every decoded port call calls the port its op names: a request for one
/// port is never served by another (so no two ops decode to the same
/// port).
pub proof fn law_port_call_names_its_port(op: Seq<char>, payload: JsonValue)
    requires
        port_call_outcome(op, payload) is Ok,
    ensures
        call_op(port_call_outcome(op, payload)->Ok_0) == op,
{
    reveal_strlit("port.knowledge.get");
}

/// Two different ops never decode to the same port call.
pub proof fn law_port_calls_distinct(op1: Seq<char>, op2: Seq<char>, p1: JsonValue, p2: JsonValue)
    requires
        port_call_outcome(op1, p1) is Ok,
        port_call_outcome(op2, p2) is Ok,
        op1 != op2,
    ensures
        port_call_outcome(op1, p1)->Ok_0 != port_call_outcome(op2, p2)->Ok_0,
{
    law_port_call_names_its_port(op1, p1);
    law_port_call_names_its_port(op2, p2);
}

/// The responder's port gate and the port catalogue agree: every op the
/// catalogue serves requires `spoke-baseline`, every other op has no port
/// requirement; so with `spoke-baseline` negotiated the responder permits
/// every catalogued op.
pub proof fn law_catalogue_requires_baseline(op: Seq<char>, payload: JsonValue, negotiated: Seq<String>)
    ensures
        catalogued(op, payload) ==> port_requirement(op) == Some("spoke-baseline"@),
        !catalogued(op, payload) ==> port_requirement(op) is None,
        catalogued(op, payload) && seq_has(negotiated, "spoke-baseline"@) ==> responder_permits(op, negotiated),
{
    reveal_strlit("CAPABILITY_PORT_MISSING");
    reveal_strlit("INVALID_INPUT");
    assert("INVALID_INPUT"@.len() != "CAPABILITY_PORT_MISSING"@.len());
    assert("INVALID_INPUT"@ != "CAPABILITY_PORT_MISSING"@);
}

/// Both dispatch-deny wire codes of the protocol (`op_unsupported`,
/// `capability_missing`) settle to `CAPABILITY_PORT_MISSING`, keeping the
/// message and recording the wire code in the details; no other code
/// does.
pub proof fn law_deny_codes_map_to_port_missing(e: WireError)
    ensures
        (e.code@ == "op_unsupported"@ || e.code@ == "capability_missing"@) ==> {
            &&& error_mapping(e) is Mapped
            &&& error_mapping(e)->Mapped_0.code == "CAPABILITY_PORT_MISSING"@
            &&& error_mapping(e)->Mapped_0.message == e.message@
            &&& error_mapping(e)->Mapped_0.details == Some(
                fields_set(fields_view(e.details@), "wire_code"@, JsonView::Str(e.code@)))
        },
        !(e.code@ == "op_unsupported"@ || e.code@ == "capability_missing"@) ==>
            !(error_mapping(e) is Mapped && error_mapping(e)->Mapped_0.code == "CAPABILITY_PORT_MISSING"@),
{
    reveal_strlit("CAPABILITY_PORT_MISSING");
    reveal_strlit("INTERNAL_ERROR");
    assert("INTERNAL_ERROR"@.len() != "CAPABILITY_PORT_MISSING"@.len());
    assert("INTERNAL_ERROR"@ != "CAPABILITY_PORT_MISSING"@);
}

/// A deny the dispatch gates answer is read back as a dispatch deny by the
/// settling side.
pub proof fn law_gate_denies_are_recognized(e: EndpointView, doc: JsonValue, handlers: Seq<String>, ports: bool)
    ensures
        adapter_dispatch_outcome(e, doc, handlers) is Deny ==> is_deny_code(adapter_dispatch_outcome(e, doc, handlers)->Deny_0),
        responder_dispatch_outcome(e, doc, handlers, ports) is Deny ==>
            is_deny_code(responder_dispatch_outcome(e, doc, handlers, ports)->Deny_0),
{
}

} // verus!
