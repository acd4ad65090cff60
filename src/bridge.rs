use vstd::prelude::*;
use crate::error::{TunnelError, spec_status_code};
use crate::router::str_eq;

verus! {

/// Where a public request goes: CONNECT is bridged to its target directly,
/// every other method is forwarded over a pooled connection.
#[derive(Debug, Clone, Copy, PartialEq, Eq, Structural)]
pub enum Dispatch {
    Bridge,
    Forward,
}

/// The path a request of `method` takes.
pub fn dispatch(method: &str) -> (r: Dispatch)
    ensures
        method@ == "CONNECT"@ ==> r == Dispatch::Bridge,
        method@ != "CONNECT"@ ==> r == Dispatch::Forward,
{
    if str_eq(method, "CONNECT") {
        Dispatch::Bridge
    } else {
        Dispatch::Forward
    }
}

/// The life of one CONNECT request.
#[derive(Debug, Clone, Copy, PartialEq, Eq, Structural)]
pub enum BridgeState {
    Received,
    Dialing,
    Bridging,
    /// Ended on an error, which was reported to the caller.
    Failed(TunnelError),
    /// Both sides finished; the bytes copied each way.
    Closed { from_client: u64, from_server: u64 },
}

#[derive(Debug, Clone, Copy, PartialEq, Eq, Structural)]
pub enum BridgeEvent {
    /// The request arrived, with or without a `host:port` authority.
    Start { has_target: bool },
    /// The outbound socket to the target is connected.
    Dialed,
    /// The target could not be dialed.
    DialError,
    /// Copying failed on either side.
    IoError,
    /// Both sides reached end of stream after these byte counts.
    Finished { from_client: u64, from_server: u64 },
}

pub open spec fn spec_bridge_step(s: BridgeState, e: BridgeEvent) -> BridgeState {
    match (s, e) {
        (BridgeState::Received, BridgeEvent::Start { has_target }) => if has_target {
            BridgeState::Dialing
        } else {
            BridgeState::Failed(TunnelError::InvalidHost)
        },
        (BridgeState::Dialing, BridgeEvent::Dialed) => BridgeState::Bridging,
        (BridgeState::Dialing, BridgeEvent::DialError) => BridgeState::Failed(TunnelError::DialFailed),
        (BridgeState::Bridging, BridgeEvent::IoError) => BridgeState::Failed(TunnelError::UpstreamIOError),
        (BridgeState::Bridging, BridgeEvent::Finished { from_client, from_server }) =>
            BridgeState::Closed { from_client, from_server },
        _ => s,
    }
}

pub open spec fn spec_bridge_status(s: BridgeState) -> u16 {
    match s {
        BridgeState::Failed(e) => spec_status_code(e),
        _ => 200,
    }
}

impl BridgeState {
    /// The state after `event`; an event that does not apply to the current
    /// state leaves it as it is, and the two terminal states never change.
    pub fn step(self, event: BridgeEvent) -> (r: BridgeState)
        ensures
            r == spec_bridge_step(self, event),
            (self is Failed || self is Closed) ==> r == self,
    {
        match (self, event) {
            (BridgeState::Received, BridgeEvent::Start { has_target }) => {
                if has_target {
                    BridgeState::Dialing
                } else {
                    BridgeState::Failed(TunnelError::InvalidHost)
                }
            },
            (BridgeState::Dialing, BridgeEvent::Dialed) => BridgeState::Bridging,
            (BridgeState::Dialing, BridgeEvent::DialError) => BridgeState::Failed(TunnelError::DialFailed),
            (BridgeState::Bridging, BridgeEvent::IoError) => BridgeState::Failed(TunnelError::UpstreamIOError),
            (BridgeState::Bridging, BridgeEvent::Finished { from_client, from_server }) => {
                BridgeState::Closed { from_client, from_server }
            },
            _ => self,
        }
    }

    /// The HTTP status the caller is answered with in this state.
    pub fn status(&self) -> (r: u16)
        ensures
            r == spec_bridge_status(*self),
    {
        match self {
            BridgeState::Failed(e) => e.status_code(),
            _ => 200,
        }
    }
}

} // verus!
