use harbr_router::address::{AddressId, SocketAddress};
use harbr_router::config::{
    HttpProxyConfig, ProxyInstanceConfig, ProxySpecificConfig, ProxyType, RetryConfig,
    TcpProxyConfig, UdpProxyConfig, UpstreamConfig,
};
use harbr_router::name_map::NameMap;
use harbr_router::proxy::http::HttpProxy;
use harbr_router::proxy::tcp::{PooledConnection, TcpProxy};
use harbr_router::proxy::udp::{UdpProxy, UdpSession};
use harbr_router::proxy::utils::{create_timeout, parse_address, validate_upstream_address};
use harbr_router::proxy::ProxyManager;
use harbr_router::routing::{HealthState, UpstreamInfo};
use harbr_router::time::{Duration, Instant};

fn localhost(port: u16) -> SocketAddress {
    SocketAddress { id: AddressId::v4(0x7f00_0001, port), text: format!("127.0.0.1:{}", port) }
}

fn bad_address() -> String {
    "invalid socket address syntax".to_string()
}

fn upstream_at(address: &str) -> UpstreamConfig {
    UpstreamConfig {
        name: "test-upstream".to_string(),
        address: address.to_string(),
        weight: 1,
        priority: 0,
        timeout_ms: 5000,
        retry: RetryConfig::default(),
        health_check: None,
        tls: None,
    }
}

fn create_test_config(proxy_type: ProxyType, name: &str) -> ProxyInstanceConfig {
    ProxyInstanceConfig {
        name: name.to_string(),
        proxy_type,
        listen_addr: localhost(8080),
        upstreams: vec![upstream_at("127.0.0.1:8081")],
        config: ProxySpecificConfig::default(),
    }
}

fn http_config() -> ProxyInstanceConfig {
    let mut add_headers = NameMap::new();
    add_headers.insert("X-Proxy".to_string(), "Harbr-Router".to_string());
    ProxyInstanceConfig {
        name: "test-http".to_string(),
        proxy_type: ProxyType::Http,
        listen_addr: localhost(0),
        upstreams: vec![upstream_at("http://127.0.0.1:8081")],
        config: ProxySpecificConfig {
            http: HttpProxyConfig {
                max_request_size: 1024 * 1024,
                request_timeout_secs: 30,
                add_headers,
                ..Default::default()
            },
            ..Default::default()
        },
    }
}

fn tcp_config() -> ProxyInstanceConfig {
    ProxyInstanceConfig {
        name: "test-tcp".to_string(),
        proxy_type: ProxyType::Tcp,
        listen_addr: localhost(0),
        upstreams: vec![upstream_at("127.0.0.1:8081")],
        config: ProxySpecificConfig {
            tcp: TcpProxyConfig {
                buffer_size: 8192,
                connection_pooling: true,
                ..Default::default()
            },
            ..Default::default()
        },
    }
}

fn udp_config() -> ProxyInstanceConfig {
    ProxyInstanceConfig {
        name: "test-udp".to_string(),
        proxy_type: ProxyType::Udp,
        listen_addr: localhost(0),
        upstreams: vec![upstream_at("127.0.0.1:8081")],
        config: ProxySpecificConfig {
            udp: UdpProxyConfig {
                buffer_size: 1500,
                session_timeout_secs: 300,
                connection_tracking: true,
            },
            ..Default::default()
        },
    }
}

#[test]
fn test_proxy_manager_creation() {
    let manager = ProxyManager::new();
    let supported_types = manager.supported_proxy_types();

    assert!(supported_types.contains(&ProxyType::Http));
    assert!(supported_types.contains(&ProxyType::Tcp));
    assert!(supported_types.contains(&ProxyType::Udp));
    assert_eq!(supported_types.len(), 3);
}

#[test]
fn proxy_test_config_validation() {
    let manager = ProxyManager::new();

    // Test valid configuration
    let config = create_test_config(ProxyType::Http, "test-http");
    assert!(manager.validate_config(&config).is_ok());

    // Test invalid configuration (empty upstreams)
    let mut invalid_config = config.clone();
    invalid_config.upstreams.clear();
    assert!(manager.validate_config(&invalid_config).is_err());
}

#[test]
fn test_utils() {
    // Test address parsing
    assert!(parse_address("127.0.0.1:8080", Ok(localhost(8080))).is_ok());
    assert!(parse_address("invalid", Err(bad_address())).is_err());

    // Test address validation
    assert!(validate_upstream_address("127.0.0.1:8080", Ok(localhost(8080))).is_ok());
    assert!(validate_upstream_address("", Err(bad_address())).is_err());
    assert!(validate_upstream_address("no-port", Err(bad_address())).is_err());

    // Test timeout creation
    assert!(create_timeout(1000, "test").is_ok());
    assert!(create_timeout(0, "test").is_err());
    assert!(create_timeout(400_000, "test").is_err());
}

#[test]
fn test_http_proxy_creation() {
    let proxy = HttpProxy::new();
    assert_eq!(proxy.proxy_type(), ProxyType::Http);
}

#[test]
fn http_test_config_validation() {
    let proxy = HttpProxy::new();
    let config = http_config();

    // Valid configuration should pass
    assert!(proxy.validate_config(&config).is_ok());

    // Invalid proxy type should fail
    let mut invalid_config = config.clone();
    invalid_config.proxy_type = ProxyType::Tcp;
    assert!(proxy.validate_config(&invalid_config).is_err());

    // Invalid max_request_size should fail
    let mut invalid_config = config.clone();
    invalid_config.config.http.max_request_size = 0;
    assert!(proxy.validate_config(&invalid_config).is_err());
}

#[test]
fn http_test_metrics() {
    let proxy = HttpProxy::new();
    let metrics = proxy.get_metrics().unwrap();

    assert_eq!(metrics.total_requests, 0);
    assert_eq!(metrics.active_connections, 0);
    assert_eq!(metrics.bytes_sent, 0);
    assert_eq!(metrics.bytes_received, 0);
}

#[test]
fn http_test_health_check() {
    let proxy = HttpProxy::new();
    let health = proxy.health_check().unwrap();

    assert_eq!(health.status, HealthState::Unknown);
    assert!(health.message.contains("Active connections: 0"));
}

#[test]
fn test_tcp_proxy_creation() {
    let proxy = TcpProxy::new();
    assert_eq!(proxy.proxy_type(), ProxyType::Tcp);
}

#[test]
fn tcp_test_config_validation() {
    let proxy = TcpProxy::new();
    let config = tcp_config();

    // Valid configuration should pass
    assert!(proxy.validate_config(&config).is_ok());

    // Invalid proxy type should fail
    let mut invalid_config = config.clone();
    invalid_config.proxy_type = ProxyType::Http;
    assert!(proxy.validate_config(&invalid_config).is_err());

    // Invalid buffer_size should fail
    let mut invalid_config = config.clone();
    invalid_config.config.tcp.buffer_size = 0;
    assert!(proxy.validate_config(&invalid_config).is_err());
}

#[test]
fn test_pooled_connection() {
    let now = Instant { nanos: 0 };
    let pooled = PooledConnection::new(1, now);

    assert!(pooled.is_valid(Duration::from_secs(300), Duration::from_secs(3600), now));
}

#[test]
fn tcp_test_metrics() {
    let proxy = TcpProxy::new();
    let metrics = proxy.get_metrics().unwrap();

    assert_eq!(metrics.total_requests, 0);
    assert_eq!(metrics.active_connections, 0);
    assert_eq!(metrics.bytes_sent, 0);
    assert_eq!(metrics.bytes_received, 0);
}

#[test]
fn tcp_test_health_check() {
    let proxy = TcpProxy::new();
    let health = proxy.health_check().unwrap();

    assert_eq!(health.status, HealthState::Healthy);
    assert!(health.message.contains("Active connections: 0"));
}

#[test]
fn test_udp_proxy_creation() {
    let proxy = UdpProxy::new();
    assert_eq!(proxy.proxy_type(), ProxyType::Udp);
}

#[test]
fn udp_test_config_validation() {
    let proxy = UdpProxy::new();
    let config = udp_config();

    // Valid configuration should pass
    assert!(proxy.validate_config(&config).is_ok());

    // Invalid proxy type should fail
    let mut invalid_config = config.clone();
    invalid_config.proxy_type = ProxyType::Http;
    assert!(proxy.validate_config(&invalid_config).is_err());

    // Invalid buffer_size should fail
    let mut invalid_config = config.clone();
    invalid_config.config.udp.buffer_size = 0;
    assert!(proxy.validate_config(&invalid_config).is_err());

    // Invalid session_timeout should fail
    let mut invalid_config = config.clone();
    invalid_config.config.udp.session_timeout_secs = 0;
    assert!(proxy.validate_config(&invalid_config).is_err());
}

#[test]
fn udp_test_metrics() {
    let proxy = UdpProxy::new();
    let metrics = proxy.get_metrics().unwrap();

    assert_eq!(metrics.total_requests, 0);
    assert_eq!(metrics.active_connections, 0);
    assert_eq!(metrics.bytes_sent, 0);
    assert_eq!(metrics.bytes_received, 0);
}

#[test]
fn udp_test_health_check() {
    let proxy = UdpProxy::new();
    let health = proxy.health_check().unwrap();

    assert_eq!(health.status, HealthState::Healthy);
    assert!(health.message.contains("Active sessions: 0"));
}

#[test]
fn test_udp_session() {
    let upstream_config = UpstreamConfig {
        name: "test".to_string(),
        address: "127.0.0.1:12345".to_string(),
        weight: 1,
        priority: 0,
        timeout_ms: 5000,
        retry: RetryConfig::default(),
        health_check: None,
        tls: None,
    };

    let now = Instant { nanos: 0 };
    let upstreams = vec![UpstreamInfo::new(upstream_config, now)];

    let session = UdpSession::new(upstreams.len() - 1, 3, now);
    assert_eq!(session.upstream, 0);
    assert_eq!(session.bytes_sent, 0);
    assert!(!session.is_expired(Duration::from_secs(300), now));
}
