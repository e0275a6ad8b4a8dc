//! Session lifecycle labels shared by the adapter, the responder and the
//! router.

use vstd::prelude::*;

verus! {

/// Session-lifecycle labels.
#[derive(Debug, Clone, Copy, PartialEq, Eq, Structural)]
pub enum RemoteAdapterState {
    Disconnected,
    Handshaking,
    Established,
    Closed,
}

/// The label of a lifecycle state.
pub open spec fn state_label(state: RemoteAdapterState) -> Seq<char> {
    match state {
        RemoteAdapterState::Disconnected => "Disconnected"@,
        RemoteAdapterState::Handshaking => "Handshaking"@,
        RemoteAdapterState::Established => "Established"@,
        RemoteAdapterState::Closed => "Closed"@,
    }
}

impl RemoteAdapterState {
    /// The label of this state.
    pub fn as_str(self) -> (res: &'static str)
        ensures
            res@ == state_label(self),
    {
        match self {
            RemoteAdapterState::Disconnected => "Disconnected",
            RemoteAdapterState::Handshaking => "Handshaking",
            RemoteAdapterState::Established => "Established",
            RemoteAdapterState::Closed => "Closed",
        }
    }
}

} // verus!
