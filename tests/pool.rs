use tunnel_relay::error::TunnelError;
use tunnel_relay::pool::{Acquire, Client};

#[test]
fn take_is_lifo() {
    let mut c: Client<u32> = Client::new(10);
    assert!(c.accept(1).is_ok());
    assert!(c.accept(2).is_ok());
    assert!(c.accept(3).is_ok());
    assert_eq!(c.take(), Some(3));
    assert_eq!(c.take(), Some(2));
    assert_eq!(c.take(), Some(1));
    assert_eq!(c.take(), None);
}

#[test]
fn acquire_on_empty_pool_at_deadline_fails() {
    let mut c: Client<u32> = Client::new(4);
    assert!(matches!(c.acquire(0, 0), Acquire::Failed(TunnelError::NoAvailableConnection)));
    assert!(matches!(c.acquire(500, 100), Acquire::Failed(TunnelError::NoAvailableConnection)));
}

#[test]
fn acquire_on_empty_pool_before_deadline_waits() {
    let mut c: Client<u32> = Client::new(4);
    assert!(matches!(c.acquire(10, 100), Acquire::Wait));
    assert!(c.accept(7).is_ok());
    assert!(matches!(c.acquire(20, 100), Acquire::Ready(7)));
    assert_eq!(c.in_flight(), 1);
}

#[test]
fn taken_connections_are_not_handed_out_again() {
    let mut c: Client<u32> = Client::new(10);
    for i in 0..5u32 {
        assert!(c.accept(i).is_ok());
    }
    let mut seen = Vec::new();
    let mut before = c.idle_count();
    while let Some(x) = c.take() {
        assert!(!seen.contains(&x));
        seen.push(x);
        assert_eq!(c.idle_count(), before - 1);
        before = c.idle_count();
        c.finish();
        assert_eq!(c.idle_count(), before);
    }
    assert_eq!(seen, vec![4, 3, 2, 1, 0]);
}

#[test]
fn accept_refuses_beyond_the_cap() {
    let mut c: Client<u32> = Client::new(2);
    assert!(c.has_room());
    assert!(c.accept(1).is_ok());
    assert!(c.accept(2).is_ok());
    assert!(!c.has_room());
    assert_eq!(c.accept(3), Err(3));
    assert_eq!(c.take(), Some(2));
    assert_eq!(c.accept(4), Err(4));
    c.finish();
    assert_eq!(c.in_flight(), 0);
    assert!(c.accept(5).is_ok());
    assert_eq!(c.idle_count(), 2);
    assert_eq!(c.max_sockets(), 2);
}

#[test]
fn listen_records_the_port_once() {
    let mut c: Client<u32> = Client::new(2);
    assert_eq!(c.port(), None);
    assert_eq!(c.listen(40000), Ok(()));
    assert_eq!(c.port(), Some(40000));
    assert_eq!(c.listen(40001), Err(TunnelError::AlreadyListening));
    assert_eq!(c.port(), Some(40000));
}

#[test]
fn finish_without_in_flight_keeps_zero() {
    let mut c: Client<u32> = Client::new(2);
    c.finish();
    assert_eq!(c.in_flight(), 0);
}
