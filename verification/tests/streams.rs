use harbr_router::address::AddressId;
use harbr_router::config::{TcpProxyConfig, UdpProxyConfig, UpstreamConfig};
use harbr_router::proxy::tcp::{ConnectOutcome, ConnectionPlan, CopyStep, ReadOutcome, TcpProxy};
use harbr_router::proxy::udp::{SendOutcome, UdpProxy};
use harbr_router::routing::{LoadBalancingStrategy, Router, UpstreamInfo};
use harbr_router::time::{Duration, Instant};

const SECOND: u64 = 1_000_000_000;

fn at(secs: u64) -> Instant {
    Instant { nanos: secs * SECOND }
}

fn upstream() -> UpstreamConfig {
    UpstreamConfig {
        name: "u".to_string(),
        address: "127.0.0.1:9000".to_string(),
        weight: 1,
        priority: 0,
        timeout_ms: 1500,
        retry: Default::default(),
        health_check: None,
        tls: None,
    }
}

fn router() -> Router {
    let mut router = Router::new(LoadBalancingStrategy::RoundRobin);
    router.update_upstreams(vec![upstream()], at(0)).unwrap();
    router
}

#[test]
fn idle_connections_are_reused() {
    let mut proxy = TcpProxy::new();
    let config = TcpProxyConfig { connection_pooling: true, ..Default::default() };
    assert!(proxy.return_connection_to_pool(&config, "u", 7, at(0)));
    assert!(proxy.return_connection_to_pool(&config, "u", 8, at(200)));
    let pick = proxy.try_get_pooled_connection("u", at(350));
    assert_eq!(pick.connection, Some(8));
    assert_eq!(pick.expired, vec![7]);
    assert_eq!(proxy.try_get_pooled_connection("u", at(350)).connection, None);
}

#[test]
fn a_pool_takes_a_hundred() {
    let mut proxy = TcpProxy::new();
    let config = TcpProxyConfig { connection_pooling: true, ..Default::default() };
    for i in 0..100 {
        assert!(proxy.return_connection_to_pool(&config, "u", i, at(0)));
    }
    assert!(!proxy.return_connection_to_pool(&config, "u", 100, at(0)));
    let off = TcpProxyConfig { connection_pooling: false, ..Default::default() };
    assert!(!proxy.return_connection_to_pool(&off, "v", 1, at(0)));
}

#[test]
fn connections_are_planned() {
    let mut proxy = TcpProxy::new();
    let info = UpstreamInfo::new(upstream(), at(0));
    let config = TcpProxyConfig { connection_pooling: true, ..Default::default() };
    let (plan, expired) = proxy.get_upstream_connection(&info, &config, at(1));
    assert!(matches!(plan, ConnectionPlan::Connect(d) if d == Duration::from_millis(1500)));
    assert!(expired.is_empty());
    assert_eq!(proxy.metrics.pool_misses, 1);
    proxy.return_connection_to_pool(&config, "u", 5, at(1));
    let (plan, _) = proxy.get_upstream_connection(&info, &config, at(2));
    assert!(matches!(plan, ConnectionPlan::Reuse(5)));
    assert_eq!(proxy.metrics.pool_hits, 1);
    assert!(TcpProxy::connect_result(&info, ConnectOutcome::Connected).is_ok());
    assert!(TcpProxy::connect_result(&info, ConnectOutcome::TimedOut).is_err());
    assert!(TcpProxy::connect_result(&info, ConnectOutcome::Failed("no".to_string())).is_err());
}

#[test]
fn copying_goes_on_until_the_end() {
    assert!(matches!(TcpProxy::copy_step(ReadOutcome::Bytes(10)), Ok(CopyStep::Write(10))));
    assert!(matches!(TcpProxy::copy_step(ReadOutcome::Bytes(0)), Ok(CopyStep::Finish)));
    assert!(matches!(TcpProxy::copy_step(ReadOutcome::UnexpectedEof), Ok(CopyStep::Finish)));
    assert!(TcpProxy::copy_step(ReadOutcome::Failed("x".to_string())).is_err());
    let mut proxy = TcpProxy::new();
    assert_eq!(proxy.copied(5, 10, None).unwrap(), 15);
    assert_eq!(proxy.metrics.bytes_transferred, 10);
    assert!(proxy.copied(5, 10, Some("gone")).is_err());
}

#[test]
fn streams_are_counted_at_the_upstream() {
    let mut r = router();
    TcpProxy::begin_stream(&mut r, 0);
    assert_eq!(r.get_upstreams()[0].stats.active_connections, 1);
    assert!(TcpProxy::end_stream(&mut r, 0, Ok(10), Duration::from_millis(1), at(1)).is_ok());
    assert_eq!(r.get_upstreams()[0].stats.active_connections, 0);
    assert_eq!(r.get_upstreams()[0].stats.responses_received, 1);
}

#[test]
fn sessions_live_as_long_as_they_are_used() {
    let mut proxy = UdpProxy::new();
    let config = UdpProxyConfig {
        buffer_size: 1500,
        session_timeout_secs: 30,
        connection_tracking: true,
    };
    let client = AddressId::v4(1, 1000);
    assert!(proxy.existing_session(client, &config, at(0)).is_none());
    let opened = proxy.open_session(client, 0, 9, at(0));
    assert_eq!(opened.upstream_socket, 9);
    assert_eq!(proxy.metrics.sessions_active, 1);
    proxy.touch_session(client, at(20));
    let session = proxy.existing_session(client, &config, at(45)).unwrap();
    assert_eq!(session.last_activity, at(20));
    assert!(proxy.existing_session(client, &config, at(60)).is_none());
    assert_eq!(proxy.metrics.sessions_active, 0);
    assert_eq!(proxy.metrics.sessions_expired, 1);
}

#[test]
fn old_sessions_are_cleaned_up() {
    let mut proxy = UdpProxy::new();
    let config = UdpProxyConfig {
        buffer_size: 1500,
        session_timeout_secs: 30,
        connection_tracking: true,
    };
    let old = AddressId::v4(1, 1);
    let new = AddressId::v4(1, 2);
    proxy.open_session(old, 0, 1, at(0));
    proxy.open_session(new, 0, 2, at(50));
    proxy.clean_up_sessions(&config, at(60));
    assert!(proxy.existing_session(new, &config, at(60)).is_some());
    assert!(proxy.existing_session(old, &config, at(60)).is_none());
    assert_eq!(proxy.metrics.sessions_active, 1);
    proxy.clear_sessions();
    assert!(proxy.existing_session(new, &config, at(60)).is_none());
}

#[test]
fn packets_are_counted() {
    let mut proxy = UdpProxy::new();
    let mut r = router();
    let client = AddressId::v4(1, 1);
    proxy.begin_packet();
    proxy.open_session(client, 0, 1, at(0));
    assert!(proxy.forwarded(&mut r, client, 0, SendOutcome::Sent(12), at(1)).is_ok());
    proxy.received(client, 30);
    assert_eq!(proxy.metrics.packets_total, 1);
    assert_eq!(proxy.metrics.bytes_sent, 12);
    assert_eq!(proxy.metrics.bytes_received, 30);
    let failed = SendOutcome::Failed("unreachable".to_string());
    assert!(proxy.forwarded(&mut r, client, 0, failed, at(1)).is_err());
    assert_eq!(r.get_upstreams()[0].stats.failures, 1);
    assert_eq!(UdpProxy::send_timeout(&r.get_upstreams()[0]), Duration::from_millis(1500));
}
