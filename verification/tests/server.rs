use harbr_router::address::{AddressId, SocketAddress};
use harbr_router::config::{HealthCheckConfig, MetricsConfig, UpstreamConfig};
use harbr_router::metrics::{
    MetricsRegistry, MetricsRoute, MetricsServer, RenderedUpstream,
};
use harbr_router::name_map::NameMap;
use harbr_router::proxy::ProxyHealth;
use harbr_router::routing::{HealthState, UpstreamInfo};
use harbr_router::server::HealthServer;
use harbr_router::time::Instant;

fn localhost(port: u16) -> SocketAddress {
    SocketAddress { id: AddressId::v4(0x7f00_0001, port), text: format!("127.0.0.1:{}", port) }
}

fn upstream(name: &str) -> UpstreamInfo {
    UpstreamInfo::new(
        UpstreamConfig {
            name: name.to_string(),
            address: "127.0.0.1:9".to_string(),
            weight: 1,
            priority: 0,
            timeout_ms: 5000,
            retry: Default::default(),
            health_check: None,
            tls: None,
        },
        Instant { nanos: 0 },
    )
}

fn start() -> Instant {
    Instant { nanos: 0 }
}

#[test]
fn test_metrics_registry() {
    let mut registry = MetricsRegistry::new(start());

    // Test initial state
    let summary = registry.get_metrics_summary(start(), 0);
    assert_eq!(summary.system.proxy_instances_total, 0);
    assert_eq!(summary.system.upstreams_total, 0);
    assert!(summary.proxies.is_empty());
    assert!(summary.upstreams.is_empty());
}

#[test]
fn test_prometheus_export() {
    let mut registry = MetricsRegistry::new(start());
    let prometheus_output = registry.export_prometheus(&vec![], start(), 0);

    // Check that basic metrics are present
    assert!(prometheus_output.contains("harbr_proxy_instances_total"));
    assert!(prometheus_output.contains("harbr_upstreams_total"));
    assert!(prometheus_output.contains("harbr_uptime_seconds"));
}

#[test]
fn test_metrics_server_creation() {
    let config = MetricsConfig {
        enabled: true,
        listen_addr: localhost(0),
        path: "/metrics".to_string(),
        interval_secs: 60,
    };

    let server = MetricsServer::new(config);
    assert!(server.config.enabled);
    assert_eq!(server.config.listen_addr.text, "127.0.0.1:0");
}

#[test]
fn test_health_server_creation() {
    let config = HealthCheckConfig {
        enabled: true,
        listen_addr: localhost(0),
        path: "/health".to_string(),
    };

    let server = HealthServer::new(config);
    assert!(server.config.enabled);
    assert_eq!(server.config.listen_addr.text, "127.0.0.1:0");
}

#[test]
fn the_health_server_answers_its_path_only() {
    let server = HealthServer::new(HealthCheckConfig {
        enabled: true,
        listen_addr: localhost(0),
        path: "/health".to_string(),
    });
    let health = server.handle_request("/health", 77).unwrap();
    assert_eq!(health.timestamp, 77);
    assert!(server.handle_request("/other", 77).is_none());
}

#[test]
fn the_metrics_server_knows_its_paths() {
    let server = MetricsServer::new(MetricsConfig {
        enabled: true,
        listen_addr: localhost(0),
        path: "/metrics".to_string(),
        interval_secs: 60,
    });
    assert!(matches!(server.handle_request("/metrics"), MetricsRoute::Metrics));
    assert!(matches!(server.handle_request("/health"), MetricsRoute::Health));
    assert!(matches!(server.handle_request("/"), MetricsRoute::NotFound));
}

#[test]
fn upstreams_come_and_go() {
    let mut registry = MetricsRegistry::new(start());
    registry.add_upstream(upstream("a"));
    registry.add_upstream(upstream("b"));
    assert_eq!(registry.get_metrics_summary(start(), 0).system.upstreams_total, 2);
    registry.remove_upstream("a");
    let summary = registry.get_metrics_summary(Instant { nanos: 3_000_000_000 }, 5);
    assert_eq!(summary.system.upstreams_total, 1);
    assert_eq!(summary.system.uptime_seconds, 3);
    assert_eq!(summary.upstreams[0].0, "b");
    assert_eq!(summary.timestamp, 5);
}

#[test]
fn the_export_holds_what_was_rendered() {
    let mut registry = MetricsRegistry::new(start());
    registry.add_upstream(upstream("a"));
    let rendered = vec![RenderedUpstream {
        avg_response_time_ms: "12.5".to_string(),
        success_rate: "0.75".to_string(),
    }];
    let output = registry.export_prometheus(&rendered, start(), 0);
    assert!(output.contains("12.5"));
    assert!(output.contains("0.75"));
}

#[test]
fn one_unhealthy_proxy_makes_the_system_unhealthy() {
    let mut registry = MetricsRegistry::new(start());
    let mut healths = NameMap::new();
    healths.insert(
        "p".to_string(),
        ProxyHealth { status: HealthState::Unhealthy, message: "down".to_string() },
    );
    let health = registry.get_system_health(&healths, start(), 1);
    assert_eq!(health.status, HealthState::Unhealthy);
    assert_eq!(health.unhealthy_proxies, 1);
    assert_eq!(MetricsServer::health_status(&health), 503);
    healths.insert(
        "q".to_string(),
        ProxyHealth { status: HealthState::Healthy, message: "up".to_string() },
    );
    let health = registry.get_system_health(&healths, start(), 1);
    assert_eq!(health.status, HealthState::Unknown);
    assert_eq!(MetricsServer::health_status(&health), 200);
}
