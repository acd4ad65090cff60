use tunnel_relay::error::TunnelError;
use tunnel_relay::info::proxy_info;
use tunnel_relay::pool::{Acquire, Client};
use tunnel_relay::registry::ClientManager;

#[test]
fn put_registers_an_endpoint_once() {
    let mut m: ClientManager<u8> = ClientManager::new();
    assert!(m.put("demo".to_string(), 40001, 1));
    for p in 0..8u16 {
        assert!(!m.put("demo".to_string(), 41000 + p, 2));
    }
    assert_eq!(m.tunnels_count(), 1);
    assert_eq!(m.port_of("demo"), Ok(40001));
    let i = m.find("demo").unwrap();
    assert_eq!(m.session(i).client, 1);
    assert_eq!(m.session(i).port, 40001);
}

#[test]
fn port_of_unknown_endpoint() {
    let mut m: ClientManager<u8> = ClientManager::new();
    assert!(m.put("demo".to_string(), 40001, 1));
    assert_eq!(m.port_of("other"), Err(TunnelError::EndpointNotFound));
    assert_eq!(m.find("dem"), None);
}

#[test]
fn route_by_host_header() {
    let mut m: ClientManager<u8> = ClientManager::new();
    assert!(m.put("a".to_string(), 40001, 1));
    assert!(m.put("b".to_string(), 40002, 2));
    assert_eq!(m.route("b.example.com:8080"), Ok(1));
    assert_eq!(m.route("a.example.com"), Ok(0));
    assert_eq!(m.route("c.example.com"), Err(TunnelError::EndpointNotFound));
    assert_eq!(m.route("example.com"), Err(TunnelError::InvalidHost));
}

#[test]
fn status_counts_endpoints() {
    let mut m: ClientManager<u8> = ClientManager::new();
    let s = m.status();
    assert_eq!(s.tunnels_count, 0);
    assert_eq!(s.tunels, "");
    assert!(m.put("a".to_string(), 40001, 1));
    assert!(m.put("bb".to_string(), 40002, 2));
    assert!(!m.put("a".to_string(), 40003, 3));
    let s = m.status();
    assert_eq!(s.tunnels_count, 2);
    assert_eq!(s.tunels, "a,bb");
}

#[test]
fn proxy_info_reports_the_endpoint() {
    let info = proxy_info("demo", 40001, 10, "example.com");
    assert_eq!(info.id, "demo");
    assert_eq!(info.port, 40001);
    assert_eq!(info.max_conn_count, 10);
    assert_eq!(info.url, "demo.example.com");
}

#[test]
fn two_requests_consume_two_connections_and_a_third_times_out() {
    let mut m: ClientManager<usize> = ClientManager::new();
    let mut clients: Vec<Client<&str>> = Vec::new();
    let mut demo: Client<&str> = Client::new(10);
    assert_eq!(demo.listen(40001), Ok(()));
    clients.push(demo);
    assert!(m.put("demo".to_string(), 40001, 0));
    assert!(clients[0].accept("agent-1").is_ok());
    assert!(clients[0].accept("agent-2").is_ok());

    let i = m.route("demo.example.com").unwrap();
    let h = m.session(i).client;
    let first = clients[h].acquire(0, 1000);
    let j = m.route("demo.example.com").unwrap();
    let second = clients[m.session(j).client].acquire(0, 1000);
    let (a, b) = match (first, second) {
        (Acquire::Ready(a), Acquire::Ready(b)) => (a, b),
        _ => panic!("both requests should get a connection"),
    };
    assert_ne!(a, b);
    assert!(matches!(clients[h].acquire(0, 1000), Acquire::Wait));
    match clients[h].acquire(1000, 1000) {
        Acquire::Failed(e) => {
            assert_eq!(e, TunnelError::NoAvailableConnection);
            assert!(e.is_gateway_error());
            assert_eq!(e.status_code(), 504);
        }
        _ => panic!("the third request should fail"),
    }
}

#[test]
fn resolve_binds_only_for_a_new_endpoint() {
    let mut m: ClientManager<u8> = ClientManager::new();
    assert!(m.needs_listener("demo"));
    assert_eq!(m.resolve("demo".to_string(), Some((40001, 1))), Ok(40001));
    assert!(!m.needs_listener("demo"));
    for p in 0..5u16 {
        assert_eq!(m.resolve("demo".to_string(), Some((41000 + p, 2))), Ok(40001));
        assert_eq!(m.resolve("demo".to_string(), None), Ok(40001));
    }
    assert_eq!(m.tunnels_count(), 1);
    assert_eq!(m.session(0).client, 1);
}

#[test]
fn resolve_reports_a_failed_bind() {
    let mut m: ClientManager<u8> = ClientManager::new();
    assert_eq!(m.resolve("demo".to_string(), None), Err(TunnelError::PortBindFailed));
    assert_eq!(m.tunnels_count(), 0);
    assert!(m.needs_listener("demo"));
    assert_eq!(m.port_of("demo"), Err(TunnelError::EndpointNotFound));
    assert_eq!(m.resolve("demo".to_string(), Some((40002, 3))), Ok(40002));
    assert_eq!(m.port_of("demo"), Ok(40002));
}
