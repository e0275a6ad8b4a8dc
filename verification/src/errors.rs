//! Error vocabularies of the connect stack and the mappings between them.

use vstd::prelude::*;
use crate::json::{JsonValue, json_get_str, json_view, JsonView};
use crate::text::{owned, concat2, concat3, u64_to_decimal, decimal_digits};
use crate::reject::{Reject, reject_view};

verus! {

/// Typed transport failure.
#[derive(Debug, Clone, PartialEq, Eq)]
pub enum TransportError {
    /// The transport is closed; a pending `recv` fails fast.
    Closed,
    /// Transport-level I/O failure.
    Io(String),
}

impl TransportError {
    /// The human-readable rendering of this error.
    pub fn describe(&self) -> (res: String)
        ensures
            res@ == match *self {
                TransportError::Closed => "transport is closed"@,
                TransportError::Io(m) => "transport I/O error: "@ + m@,
            },
    {
        match self {
            TransportError::Closed => owned("transport is closed"),
            TransportError::Io(m) => concat2("transport I/O error: ", m.as_str()),
        }
    }
}

/// Hello-gate / identity failures.
#[derive(Debug, Clone, PartialEq, Eq)]
pub enum CoreError {
    /// The hello signature did not verify against the peer's public key.
    InvalidHelloSignature,
    /// The `(peer_id, nonce)` pair was already accepted.
    NonceReplay,
    /// Handshake-level failure (peer id binding, dial binding, …).
    HandshakeFailed { reason: String },
    /// The hello nonce does not satisfy the wire constraints.
    InvalidNonce { message: String },
    /// Cryptography-level failure (invalid key bytes, base64 decoding, …).
    Crypto { message: String },
    /// Canonicalization / serialization of the signed object failed.
    Jcs { message: String },
    /// A capability-token proof failed validation.
    TokenInvalid { message: String },
    /// The hello's `protocol_version` does not match the protocol version.
    ProtocolVersionMismatch { reason: String },
}

/// The human-readable rendering of a hello-gate / identity failure.
pub open spec fn core_error_text(e: CoreError) -> Seq<char> {
    match e {
        CoreError::InvalidHelloSignature => "hello signature invalid"@,
        CoreError::NonceReplay => "hello nonce replayed"@,
        CoreError::HandshakeFailed { reason } => "handshake failed: "@ + reason@,
        CoreError::InvalidNonce { message } => "invalid hello nonce: "@ + message@,
        CoreError::Crypto { message } => "crypto: "@ + message@,
        CoreError::Jcs { message } => "JCS canonicalization failed: "@ + message@,
        CoreError::TokenInvalid { message } => "capability token invalid: "@ + message@,
        CoreError::ProtocolVersionMismatch { reason } => "protocol version mismatch: "@ + reason@,
    }
}

impl CoreError {
    /// The human-readable rendering of this error.
    pub fn describe(&self) -> (res: String)
        ensures
            res@ == core_error_text(*self),
    {
        proof {
            reveal_strlit("hello signature invalid");
            reveal_strlit("hello nonce replayed");
        }
        match self {
            CoreError::InvalidHelloSignature => owned("hello signature invalid"),
            CoreError::NonceReplay => owned("hello nonce replayed"),
            CoreError::HandshakeFailed { reason } => concat2("handshake failed: ", reason.as_str()),
            CoreError::InvalidNonce { message } => concat2("invalid hello nonce: ", message.as_str()),
            CoreError::Crypto { message } => concat2("crypto: ", message.as_str()),
            CoreError::Jcs { message } => concat2("JCS canonicalization failed: ", message.as_str()),
            CoreError::TokenInvalid { message } => concat2("capability token invalid: ", message.as_str()),
            CoreError::ProtocolVersionMismatch { reason } => concat2("protocol version mismatch: ", reason.as_str()),
        }
    }
}

/// Dial / handshake failures, raised before an adapter exists.
#[derive(Debug, Clone, PartialEq, Eq)]
pub enum RemoteAdapterError {
    Config(String),
    Handshake(String),
    /// A mixed-version responder hello.
    ProtocolVersionMismatch(String),
    Timeout(String),
}

impl RemoteAdapterError {
    /// The human-readable rendering of this error.
    pub fn describe(&self) -> (res: String)
        ensures
            res@ == match *self {
                RemoteAdapterError::Config(m) => m@,
                RemoteAdapterError::Handshake(m) => "handshake failed: "@ + m@,
                RemoteAdapterError::ProtocolVersionMismatch(m) => "protocol version mismatch: "@ + m@,
                RemoteAdapterError::Timeout(m) => m@,
            },
    {
        match self {
            RemoteAdapterError::Config(m) => m.clone(),
            RemoteAdapterError::Handshake(m) => concat2("handshake failed: ", m.as_str()),
            RemoteAdapterError::ProtocolVersionMismatch(m) => concat2("protocol version mismatch: ", m.as_str()),
            RemoteAdapterError::Timeout(m) => m.clone(),
        }
    }
}

/// The binding-facing error surface: dial failures before an adapter
/// exists, and invoke-path rejections passed through faithfully.
#[derive(Debug, Clone, PartialEq, Eq)]
pub enum FfiError {
    Dial { kind: String, message: String },
    Rejected { code: String, message: String, kind: Option<String>, wire_code: Option<String> },
}

/// The content of a binding-facing error.
pub enum FfiErrorView {
    Dial { kind: Seq<char>, message: Seq<char> },
    Rejected { code: Seq<char>, message: Seq<char>, kind: Option<Seq<char>>, wire_code: Option<Seq<char>> },
}

/// The characters of an optional string.
pub open spec fn opt_chars(o: Option<String>) -> Option<Seq<char>> {
    match o {
        Some(s) => Some(s@),
        None => None,
    }
}

/// The content of a binding-facing error.
pub open spec fn ffi_view(e: FfiError) -> FfiErrorView {
    match e {
        FfiError::Dial { kind, message } => FfiErrorView::Dial { kind: kind@, message: message@ },
        FfiError::Rejected { code, message, kind, wire_code } => FfiErrorView::Rejected {
            code: code@,
            message: message@,
            kind: opt_chars(kind),
            wire_code: opt_chars(wire_code),
        },
    }
}

impl FfiError {
    /// The human-readable rendering of this error.
    pub fn describe(&self) -> (res: String)
        ensures
            res@ == match ffi_view(*self) {
                FfiErrorView::Dial { kind, message } => "dial failed ("@ + kind + "): "@ + message,
                FfiErrorView::Rejected { code, message, .. } => "rejected ("@ + code + "): "@ + message,
            },
    {
        match self {
            FfiError::Dial { kind, message } => {
                let mut r = concat3("dial failed (", kind.as_str(), "): ");
                r.append(message.as_str());
                r
            },
            FfiError::Rejected { code, message, .. } => {
                let mut r = concat3("rejected (", code.as_str(), "): ");
                r.append(message.as_str());
                r
            },
        }
    }
}

/// The dial kind a dial failure maps to.
pub open spec fn dial_kind(e: RemoteAdapterError) -> Seq<char> {
    match e {
        RemoteAdapterError::Config(_) => "config"@,
        RemoteAdapterError::Handshake(_) => "handshake"@,
        RemoteAdapterError::ProtocolVersionMismatch(_) => "protocol_version_mismatch"@,
        RemoteAdapterError::Timeout(_) => "timeout"@,
    }
}

/// The message a dial failure carries.
pub open spec fn dial_message(e: RemoteAdapterError) -> Seq<char> {
    match e {
        RemoteAdapterError::Config(m) => m@,
        RemoteAdapterError::Handshake(m) => m@,
        RemoteAdapterError::ProtocolVersionMismatch(m) => m@,
        RemoteAdapterError::Timeout(m) => m@,
    }
}

/// Maps a dial failure to `FfiError::Dial` with its kind
/// (`config` / `handshake` / `protocol_version_mismatch` / `timeout`).
pub fn map_dial_error(error: RemoteAdapterError) -> (res: FfiError)
    ensures
        ffi_view(res) == (FfiErrorView::Dial { kind: dial_kind(error), message: dial_message(error) }),
{
    match error {
        RemoteAdapterError::Config(message) => FfiError::Dial { kind: owned("config"), message },
        RemoteAdapterError::Handshake(message) => FfiError::Dial { kind: owned("handshake"), message },
        RemoteAdapterError::ProtocolVersionMismatch(message) => FfiError::Dial {
            kind: owned("protocol_version_mismatch"),
            message,
        },
        RemoteAdapterError::Timeout(message) => FfiError::Dial { kind: owned("timeout"), message },
    }
}

/// A string-valued entry of an optional details object.
pub open spec fn detail_str(details: Option<Vec<(String, JsonValue)>>, key: Seq<char>) -> Option<Seq<char>> {
    match details {
        Some(fields) => json_get_str(JsonValue::Object(fields), key),
        None => None,
    }
}

/// The string value of `details[key]`, when present and a string.
pub fn detail_string(details: &Option<Vec<(String, JsonValue)>>, key: &str) -> (res: Option<String>)
    ensures
        opt_chars(res) == detail_str(*details, key@),
{
    match details {
        Some(fields) => {
            let mut i: usize = 0;
            while i < fields.len()
                invariant
                    detail_str(*details, key@) == match crate::json::fields_lookup(fields@, key@) {
                        Some(JsonValue::Str(s)) => Some(s@),
                        _ => None,
                    },
                    i <= fields@.len(),
                    forall|j: int| 0 <= j < i ==> (#[trigger] fields@[j]).0@ != key@,
                decreases fields@.len() - i,
            {
                if crate::text::str_eq(fields[i].0.as_str(), key) {
                    proof {
                        crate::json::lemma_lookup_index(fields@, key@, i as int);
                    }
                    return match &fields[i].1 {
                        JsonValue::Str(s) => Some(s.clone()),
                        _ => None,
                    };
                }
                i = i + 1;
            }
            proof {
                crate::json::lemma_lookup_absent(fields@, key@);
            }
            None
        },
        None => None,
    }
}

/// Maps an invoke-path rejection to `FfiError::Rejected`: the code and
/// message pass through, `kind` and `wire_code` are lifted from the
/// details when they are strings — no invented, merged or dropped classes.
pub fn map_spoke_reject(reject: Reject) -> (res: FfiError)
    ensures
        ffi_view(res) == (FfiErrorView::Rejected {
            code: reject.code@,
            message: reject.message@,
            kind: detail_str(reject.details, "kind"@),
            wire_code: detail_str(reject.details, "wire_code"@),
        }),
{
    let kind = detail_string(&reject.details, "kind");
    let wire_code = detail_string(&reject.details, "wire_code");
    FfiError::Rejected { code: reject.code, message: reject.message, kind, wire_code }
}

/// Maps a router registration failure to an `INVALID_INPUT` rejection.
pub fn map_register_error(error: crate::registry::MultiPeerRouterError) -> (res: FfiError)
    ensures
        ffi_view(res) == (FfiErrorView::Rejected {
            code: "INVALID_INPUT"@,
            message: crate::registry::router_error_message(error),
            kind: None,
            wire_code: None,
        }),
{
    FfiError::Rejected {
        code: owned("INVALID_INPUT"),
        message: owned(error.message()),
        kind: None,
        wire_code: None,
    }
}

/// Maps a panic caught while blocking on the runtime (carrying the panic
/// message) to an `INTERNAL_ERROR` rejection of kind `panic`.
pub fn map_block_on_panic(panic_message: String) -> (res: FfiError)
    ensures
        ffi_view(res) == (FfiErrorView::Rejected {
            code: "INTERNAL_ERROR"@,
            message: panic_message@,
            kind: Some("panic"@),
            wire_code: None,
        }),
{
    FfiError::Rejected { code: owned("INTERNAL_ERROR"), message: panic_message, kind: Some(owned("panic")), wire_code: None }
}

/// Maps a JSON field that failed to parse at the binding boundary to an
/// `INVALID_INPUT` rejection: `invalid <what> JSON: <error>`.
pub fn invalid_json_field(what: &str, error: &str) -> (res: FfiError)
    ensures
        ffi_view(res) == (FfiErrorView::Rejected {
            code: "INVALID_INPUT"@,
            message: "invalid "@ + what@ + " JSON: "@ + error@,
            kind: None,
            wire_code: None,
        }),
{
    let mut message = concat3("invalid ", what, " JSON: ");
    message.append(error);
    FfiError::Rejected { code: owned("INVALID_INPUT"), message, kind: None, wire_code: None }
}

/// Copies exactly 32 bytes into an array.
fn to_array32(bytes: &Vec<u8>) -> (res: [u8; 32])
    requires
        bytes@.len() == 32,
    ensures
        res@ == bytes@,
{
    let mut out = [0u8; 32];
    let mut i: usize = 0;
    while i < 32
        invariant
            bytes@.len() == 32,
            i <= 32,
            forall|j: int| 0 <= j < i ==> out@[j] == bytes@[j],
        decreases 32 - i,
    {
        out[i] = bytes[i];
        i = i + 1;
    }
    assert(out@ =~= bytes@);
    out
}

/// Requires a 32-byte local Ed25519 seed.
pub fn ed25519_seed(bytes: Vec<u8>) -> (res: Result<[u8; 32], FfiError>)
    ensures
        bytes@.len() == 32 ==> res is Ok && res->Ok_0@ == bytes@,
        bytes@.len() != 32 ==> res is Err && ffi_view(res->Err_0) == (FfiErrorView::Dial {
            kind: "config"@,
            message: "local seed must be exactly 32 bytes"@,
        }),
{
    if bytes.len() == 32 {
        Ok(to_array32(&bytes))
    } else {
        Err(FfiError::Dial { kind: owned("config"), message: owned("local seed must be exactly 32 bytes") })
    }
}

/// Requires a 32-byte remote Ed25519 public key.
pub fn ed25519_pubkey(bytes: Vec<u8>) -> (res: Result<[u8; 32], FfiError>)
    ensures
        bytes@.len() == 32 ==> res is Ok && res->Ok_0@ == bytes@,
        bytes@.len() != 32 ==> res is Err && ffi_view(res->Err_0) == (FfiErrorView::Dial {
            kind: "config"@,
            message: "remote public key must be exactly 32 bytes"@,
        }),
{
    if bytes.len() == 32 {
        Ok(to_array32(&bytes))
    } else {
        Err(FfiError::Dial { kind: owned("config"), message: owned("remote public key must be exactly 32 bytes") })
    }
}

/// Requires `bytes` to be exactly 32 bytes (an Ed25519 secret or public
/// key); otherwise a `Crypto` error naming `what` and the length seen.
pub fn ed25519_key(bytes: Vec<u8>, what: &str) -> (res: Result<[u8; 32], CoreError>)
    ensures
        bytes@.len() == 32 ==> res is Ok && res->Ok_0@ == bytes@,
        bytes@.len() != 32 ==> res is Err && match res->Err_0 {
            CoreError::Crypto { message } => message@ == "expected a 32-byte "@ + what@ + ", got "@
                + decimal_digits(bytes@.len()),
            _ => false,
        },
{
    let len = bytes.len();
    if len == 32 {
        Ok(to_array32(&bytes))
    } else {
        let mut message = concat3("expected a 32-byte ", what, ", got ");
        let digits = u64_to_decimal(len as u64);
        message.append(digits.as_str());
        Err(CoreError::Crypto { message })
    }
}

/// The message of a caught panic on the binding surface: the panic's text
/// when it carried one, else `unknown panic payload`.
pub fn panic_payload_message(text: Option<String>) -> (res: String)
    ensures
        res@ == match text {
            Some(t) => t@,
            None => "unknown panic payload"@,
        },
{
    proof {
        reveal_strlit("unknown panic payload");
    }
    match text {
        Some(t) => t,
        None => owned("unknown panic payload"),
    }
}

/// `details` re-hung from `kind` / `wire_code` (the inverse of the lift in
/// `map_spoke_reject`); `None` when neither is present.
pub open spec fn rehung_details(kind: Option<Seq<char>>, wire_code: Option<Seq<char>>)
    -> Option<Seq<(Seq<char>, JsonView)>>
{
    match (kind, wire_code) {
        (None, None) => None,
        (Some(k), None) => Some(seq![("kind"@, JsonView::Str(k))]),
        (None, Some(w)) => Some(seq![("wire_code"@, JsonView::Str(w))]),
        (Some(k), Some(w)) => Some(seq![("kind"@, JsonView::Str(k)), ("wire_code"@, JsonView::Str(w))]),
    }
}

/// Re-hangs `kind` / `wire_code` onto a details object.
pub fn rehang_details(kind: Option<String>, wire_code: Option<String>) -> (res: Option<Vec<(String, JsonValue)>>)
    ensures
        crate::reject::details_view(res) == rehung_details(opt_chars(kind), opt_chars(wire_code)),
{
    proof {
        reveal_strlit("kind");
        reveal_strlit("wire_code");
        assert(crate::json::fields_view(Seq::<(String, JsonValue)>::empty()) =~= Seq::<(Seq<char>, JsonView)>::empty());
    }
    let mut details: Vec<(String, JsonValue)> = Vec::new();
    let present = kind.is_some() || wire_code.is_some();
    match kind {
        Some(k) => {
            let e = (owned("kind"), JsonValue::Str(k));
            proof { crate::json::lemma_fields_view_push(details@, e); }
            details.push(e);
        },
        None => {},
    }
    match wire_code {
        Some(w) => {
            let e = (owned("wire_code"), JsonValue::Str(w));
            proof { crate::json::lemma_fields_view_push(details@, e); }
            details.push(e);
        },
        None => {},
    }
    if present {
        Some(details)
    } else {
        None
    }
}

/// The `INTERNAL_ERROR` rejection without details that contains a
/// misbehaving foreign handler.
pub fn containment_reject(message: String) -> (res: Reject)
    ensures
        reject_view(res) == (crate::reject::RejectView { code: "INTERNAL_ERROR"@, message: message@, details: None }),
{
    proof {
        reveal_strlit("INTERNAL_ERROR");
    }
    Reject { code: owned("INTERNAL_ERROR"), message, details: None }
}

/// What a foreign tool handler's call came back with.
#[derive(Debug)]
pub enum ForeignToolOutcome {
    /// It returned JSON text that parsed to this value.
    Parsed(JsonValue),
    /// It returned JSON text that did not parse, with the parse error.
    Malformed(String),
    /// It threw this error; `code_known` is whether its code is a locked
    /// rejection code.
    Threw { error: FfiError, code_known: bool },
    /// Its task failed (a foreign crash), with the failure's text.
    TaskFailed(String),
}

/// Maps a foreign tool handler's outcome: a parsed value is the result; a
/// thrown rejection passes through (an unknown code becomes
/// `INTERNAL_ERROR`, the message kept, `kind` / `wire_code` re-hung);
/// everything else is contained as `INTERNAL_ERROR` without details.
pub fn foreign_tool_result(outcome: ForeignToolOutcome) -> (res: Result<JsonValue, Reject>)
    ensures
        match outcome {
            ForeignToolOutcome::Parsed(v) => res is Ok && json_view(res->Ok_0) == json_view(v),
            ForeignToolOutcome::Malformed(e) => res is Err && reject_view(res->Err_0) == (crate::reject::RejectView {
                code: "INTERNAL_ERROR"@,
                message: "foreign tool handler returned malformed JSON: "@ + e@,
                details: None,
            }),
            ForeignToolOutcome::Threw { error, code_known } => res is Err && match error {
                FfiError::Rejected { code, message, kind, wire_code } => reject_view(res->Err_0) == (crate::reject::RejectView {
                    code: if code_known { code@ } else { "INTERNAL_ERROR"@ },
                    message: message@,
                    details: rehung_details(opt_chars(kind), opt_chars(wire_code)),
                }),
                FfiError::Dial { kind, message } => reject_view(res->Err_0) == (crate::reject::RejectView {
                    code: "INTERNAL_ERROR"@,
                    message: "foreign tool handler threw Dial("@ + kind@ + "): "@ + message@,
                    details: None,
                }),
            },
            ForeignToolOutcome::TaskFailed(e) => res is Err && reject_view(res->Err_0) == (crate::reject::RejectView {
                code: "INTERNAL_ERROR"@,
                message: "foreign tool handler task failed: "@ + e@,
                details: None,
            }),
        },
{
    proof {
        reveal_strlit("foreign tool handler returned malformed JSON: ");
        reveal_strlit("foreign tool handler threw Dial(");
        reveal_strlit("): ");
        reveal_strlit("foreign tool handler task failed: ");
        reveal_strlit("INTERNAL_ERROR");
    }
    match outcome {
        ForeignToolOutcome::Parsed(v) => Ok(v),
        ForeignToolOutcome::Malformed(e) => Err(containment_reject(
            concat2("foreign tool handler returned malformed JSON: ", e.as_str()))),
        ForeignToolOutcome::Threw { error, code_known } => match error {
            FfiError::Rejected { code, message, kind, wire_code } => Err(Reject {
                code: if code_known { code } else { owned("INTERNAL_ERROR") },
                message,
                details: rehang_details(kind, wire_code),
            }),
            FfiError::Dial { kind, message } => {
                let mut m = concat3("foreign tool handler threw Dial(", kind.as_str(), "): ");
                m.append(message.as_str());
                Err(containment_reject(m))
            },
        },
        ForeignToolOutcome::TaskFailed(e) => Err(containment_reject(
            concat2("foreign tool handler task failed: ", e.as_str()))),
    }
}

} // verus!
