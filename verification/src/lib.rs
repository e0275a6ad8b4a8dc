//! Verified session rules, routing decisions and wire-shape checks for the
//! SPOKE connect protocol.

pub mod text;
pub mod session;
pub mod json;
pub mod json_text;
pub mod order;
pub mod lifecycle;
pub mod reject;
pub mod manifest;
pub mod router;
pub mod registry;
pub mod errors;
pub mod adapter;
pub mod endpoint;
pub mod serve;
pub mod identity;
pub mod dial;
pub mod handshake;
pub mod channel;
pub mod node_rules;
pub mod receive;
