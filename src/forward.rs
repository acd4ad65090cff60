use vstd::prelude::*;
use crate::error::TunnelError;

verus! {

/// What happened to the last action of a forwarding operation.
#[derive(Debug, Clone, Copy, PartialEq, Eq, Structural)]
pub enum ForwardEvent {
    /// A pooled connection was handed out.
    Acquired,
    /// No connection came before the deadline.
    AcquireTimedOut,
    /// The HTTP/1 handshake over the acquired connection failed.
    HandshakeFailed,
    /// Sending the request or reading the response failed.
    SendFailed,
    /// The agent's response is being streamed back to the caller.
    Responded,
}

/// What a forwarding operation does next.
#[derive(Debug, Clone, Copy, PartialEq, Eq, Structural)]
pub enum ForwardAction {
    /// Acquire a pooled connection (the previous one, if any, is discarded).
    Acquire,
    /// Perform the handshake and send the request over the acquired connection.
    Handshake,
    /// Stream the response back; the connection is discarded afterwards.
    Respond,
    /// Give up and answer the caller with this error.
    Fail(TunnelError),
}

/// Progress of one forwarding operation: how many times it has gone back to
/// the pool after a failed exchange, out of how many it may.
#[derive(Debug, Clone, Copy, PartialEq, Eq, Structural)]
pub struct ForwardState {
    pub retries: u8,
    pub max_retries: u8,
}

pub open spec fn spec_forward_step(s: ForwardState, e: ForwardEvent) -> (ForwardState, ForwardAction) {
    match e {
        ForwardEvent::Acquired => (s, ForwardAction::Handshake),
        ForwardEvent::AcquireTimedOut => (s, ForwardAction::Fail(TunnelError::NoAvailableConnection)),
        ForwardEvent::HandshakeFailed => if s.retries < s.max_retries {
            (ForwardState { retries: (s.retries + 1) as u8, ..s }, ForwardAction::Acquire)
        } else {
            (s, ForwardAction::Fail(TunnelError::HandshakeFailed))
        },
        ForwardEvent::SendFailed => if s.retries < s.max_retries {
            (ForwardState { retries: (s.retries + 1) as u8, ..s }, ForwardAction::Acquire)
        } else {
            (s, ForwardAction::Fail(TunnelError::UpstreamIOError))
        },
        ForwardEvent::Responded => (s, ForwardAction::Respond),
    }
}

impl ForwardState {
    /// A new forwarding operation, which starts by acquiring a connection.
    pub fn start(max_retries: u8) -> (r: (ForwardState, ForwardAction))
        ensures
            r.0 == (ForwardState { retries: 0, max_retries }),
            r.1 == ForwardAction::Acquire,
    {
        (ForwardState { retries: 0, max_retries }, ForwardAction::Acquire)
    }

    /// The next state and action after `event`. A failed exchange discards
    /// the connection and goes back to the pool while retries remain; a
    /// timed-out acquisition ends the operation at once.
    pub fn step(self, event: ForwardEvent) -> (r: (ForwardState, ForwardAction))
        ensures
            r == spec_forward_step(self, event),
            self.retries <= self.max_retries ==> r.0.retries <= r.0.max_retries,
            r.0.max_retries == self.max_retries,
            r.1 == ForwardAction::Acquire ==> r.0.retries == self.retries + 1,
    {
        match event {
            ForwardEvent::Acquired => (self, ForwardAction::Handshake),
            ForwardEvent::AcquireTimedOut => (self, ForwardAction::Fail(TunnelError::NoAvailableConnection)),
            ForwardEvent::HandshakeFailed => {
                if self.retries < self.max_retries {
                    (ForwardState { retries: self.retries + 1, ..self }, ForwardAction::Acquire)
                } else {
                    (self, ForwardAction::Fail(TunnelError::HandshakeFailed))
                }
            },
            ForwardEvent::SendFailed => {
                if self.retries < self.max_retries {
                    (ForwardState { retries: self.retries + 1, ..self }, ForwardAction::Acquire)
                } else {
                    (self, ForwardAction::Fail(TunnelError::UpstreamIOError))
                }
            },
            ForwardEvent::Responded => (self, ForwardAction::Respond),
        }
    }
}

} // verus!
