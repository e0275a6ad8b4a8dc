//! The rejection value the protocol operations settle to.

use vstd::prelude::*;
use crate::json::{JsonValue, JsonView, fields_view};

verus! {

/// A rejected operation: wire code (such as `INVALID_INPUT`), message and
/// optional details object.
#[derive(Debug)]
pub struct Reject {
    pub code: String,
    pub message: String,
    pub details: Option<Vec<(String, JsonValue)>>,
}

/// The content of a rejection.
pub struct RejectView {
    pub code: Seq<char>,
    pub message: Seq<char>,
    pub details: Option<Seq<(Seq<char>, JsonView)>>,
}

/// The content of a details object.
pub open spec fn details_view(d: Option<Vec<(String, JsonValue)>>) -> Option<Seq<(Seq<char>, JsonView)>> {
    match d {
        Some(fields) => Some(fields_view(fields@)),
        None => None,
    }
}

/// The content of a rejection.
pub open spec fn reject_view(r: Reject) -> RejectView {
    RejectView { code: r.code@, message: r.message@, details: details_view(r.details) }
}

} // verus!
