use vstd::prelude::*;

verus! {

/// Failures of the session engine.
#[derive(Debug, Clone, Copy, PartialEq, Eq, Structural)]
pub enum TunnelError {
    EndpointNotFound,
    InvalidHost,
    PortBindFailed,
    NoAvailableConnection,
    HandshakeFailed,
    UpstreamIOError,
    DialFailed,
    AlreadyListening,
}

/// HTTP status used when an error is reported to a caller.
pub open spec fn spec_status_code(e: TunnelError) -> u16 {
    match e {
        TunnelError::EndpointNotFound => 404,
        TunnelError::InvalidHost => 400,
        TunnelError::PortBindFailed => 500,
        TunnelError::NoAvailableConnection => 504,
        TunnelError::HandshakeFailed => 502,
        TunnelError::UpstreamIOError => 502,
        TunnelError::DialFailed => 502,
        TunnelError::AlreadyListening => 500,
    }
}

impl TunnelError {
    /// The HTTP status under which this error is answered.
    pub fn status_code(&self) -> (r: u16)
        ensures
            r == spec_status_code(*self),
    {
        match self {
            TunnelError::EndpointNotFound => 404,
            TunnelError::InvalidHost => 400,
            TunnelError::PortBindFailed => 500,
            TunnelError::NoAvailableConnection => 504,
            TunnelError::HandshakeFailed => 502,
            TunnelError::UpstreamIOError => 502,
            TunnelError::DialFailed => 502,
            TunnelError::AlreadyListening => 500,
        }
    }

    /// Whether the error concerns public traffic and is answered as a gateway failure.
    pub fn is_gateway_error(&self) -> (r: bool)
        ensures
            r == (spec_status_code(*self) == 502 || spec_status_code(*self) == 504),
    {
        match self {
            TunnelError::NoAvailableConnection
            | TunnelError::HandshakeFailed
            | TunnelError::UpstreamIOError
            | TunnelError::DialFailed => true,
            _ => false,
        }
    }
}

} // verus!
