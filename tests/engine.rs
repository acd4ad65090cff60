use tunnel_relay::bridge::{dispatch, BridgeEvent, BridgeState, Dispatch};
use tunnel_relay::error::TunnelError;
use tunnel_relay::forward::{ForwardAction, ForwardEvent, ForwardState};

#[test]
fn connect_to_a_closed_port_fails_with_bad_gateway() {
    let s = BridgeState::Received.step(BridgeEvent::Start { has_target: true });
    assert_eq!(s, BridgeState::Dialing);
    let s = s.step(BridgeEvent::DialError);
    assert_eq!(s, BridgeState::Failed(TunnelError::DialFailed));
    assert_eq!(s.status(), 502);
}

#[test]
fn connect_reports_byte_counts() {
    let s = BridgeState::Received
        .step(BridgeEvent::Start { has_target: true })
        .step(BridgeEvent::Dialed);
    assert_eq!(s, BridgeState::Bridging);
    assert_eq!(s.status(), 200);
    let s = s.step(BridgeEvent::Finished { from_client: 5, from_server: 11 });
    assert_eq!(s, BridgeState::Closed { from_client: 5, from_server: 11 });
    assert_eq!(s.step(BridgeEvent::IoError), s);
}

#[test]
fn connect_without_target_is_a_bad_request() {
    let s = BridgeState::Received.step(BridgeEvent::Start { has_target: false });
    assert_eq!(s, BridgeState::Failed(TunnelError::InvalidHost));
    assert_eq!(s.status(), 400);
}

#[test]
fn bridge_io_error_while_copying() {
    let s = BridgeState::Bridging.step(BridgeEvent::IoError);
    assert_eq!(s, BridgeState::Failed(TunnelError::UpstreamIOError));
    assert_eq!(BridgeState::Dialing.step(BridgeEvent::IoError), BridgeState::Dialing);
}

#[test]
fn dispatch_by_method() {
    assert_eq!(dispatch("CONNECT"), Dispatch::Bridge);
    assert_eq!(dispatch("GET"), Dispatch::Forward);
    assert_eq!(dispatch("connect"), Dispatch::Forward);
    assert_eq!(dispatch("POST"), Dispatch::Forward);
}

#[test]
fn forward_retries_then_fails() {
    let (s, a) = ForwardState::start(1);
    assert_eq!(a, ForwardAction::Acquire);
    let (s, a) = s.step(ForwardEvent::Acquired);
    assert_eq!(a, ForwardAction::Handshake);
    let (s, a) = s.step(ForwardEvent::HandshakeFailed);
    assert_eq!(a, ForwardAction::Acquire);
    assert_eq!(s.retries, 1);
    let (s, _) = s.step(ForwardEvent::Acquired);
    let (_, a) = s.step(ForwardEvent::SendFailed);
    assert_eq!(a, ForwardAction::Fail(TunnelError::UpstreamIOError));
    let (_, a) = s.step(ForwardEvent::HandshakeFailed);
    assert_eq!(a, ForwardAction::Fail(TunnelError::HandshakeFailed));
}

#[test]
fn forward_success_and_timeout() {
    let (s, _) = ForwardState::start(2);
    let (_, a) = s.step(ForwardEvent::AcquireTimedOut);
    assert_eq!(a, ForwardAction::Fail(TunnelError::NoAvailableConnection));
    let (s, _) = s.step(ForwardEvent::Acquired);
    let (_, a) = s.step(ForwardEvent::Responded);
    assert_eq!(a, ForwardAction::Respond);
}

#[test]
fn error_statuses() {
    assert_eq!(TunnelError::EndpointNotFound.status_code(), 404);
    assert_eq!(TunnelError::InvalidHost.status_code(), 400);
    assert_eq!(TunnelError::PortBindFailed.status_code(), 500);
    assert_eq!(TunnelError::HandshakeFailed.status_code(), 502);
    assert_eq!(TunnelError::UpstreamIOError.status_code(), 502);
    assert_eq!(TunnelError::DialFailed.status_code(), 502);
    assert!(!TunnelError::InvalidHost.is_gateway_error());
    assert!(TunnelError::DialFailed.is_gateway_error());
}
