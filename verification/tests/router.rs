use harbr_router::address::{AddressId, SocketAddress};
use harbr_router::config::{
    Config, GlobalConfig, HealthCheckConfig, LoggingConfig, MetricsConfig, PerformanceConfig,
    ProxyInstanceConfig, ProxySpecificConfig, ProxyType, RetryConfig, UpstreamConfig,
};
use harbr_router::metrics::MetricsRegistry;
use harbr_router::time::Instant;
use harbr_router::Router;

fn localhost(port: u16) -> SocketAddress {
    SocketAddress { id: AddressId::v4(0x7f00_0001, port), text: format!("127.0.0.1:{}", port) }
}

fn create_test_config() -> Config {
    Config {
        global: GlobalConfig {
            metrics: MetricsConfig {
                enabled: false,
                listen_addr: localhost(0),
                path: "/metrics".to_string(),
                interval_secs: 60,
            },
            health_check: HealthCheckConfig {
                enabled: false,
                listen_addr: localhost(0),
                path: "/health".to_string(),
            },
            performance: PerformanceConfig::default(),
            logging: LoggingConfig::default(),
        },
        proxy_instances: vec![ProxyInstanceConfig {
            name: "test-http".to_string(),
            proxy_type: ProxyType::Http,
            listen_addr: localhost(8080),
            upstreams: vec![UpstreamConfig {
                name: "test-upstream".to_string(),
                address: "127.0.0.1:8081".to_string(),
                weight: 1,
                priority: 0,
                timeout_ms: 5000,
                retry: RetryConfig::default(),
                health_check: None,
                tls: None,
            }],
            config: ProxySpecificConfig::default(),
        }],
    }
}

#[test]
fn test_router_creation() {
    let config = create_test_config();
    let router = Router::new(config);

    assert_eq!(router.config.proxy_instances.len(), 1);
    assert!(!router.config.global.metrics.enabled);
    assert!(!router.config.global.health_check.enabled);
}

#[test]
fn test_router_config_access() {
    let config = create_test_config();
    let router = Router::new(config);

    assert!(router.get_instance_config("test-http").is_some());
    assert!(router.get_instance_config("non-existent").is_none());

    assert_eq!(router.get_all_instance_configs().len(), 1);
}

#[test]
fn test_router_shutdown() {
    let config = create_test_config();
    let mut router = Router::new(config);

    // Test programmatic shutdown
    assert!(router.trigger_shutdown().is_ok());
}

#[test]
fn only_valid_configurations_are_taken_over() {
    let mut registry = MetricsRegistry::new(Instant { nanos: 0 });
    let mut router = Router::new(create_test_config());
    let mut broken = create_test_config();
    broken.proxy_instances[0].upstreams[0].weight = 0;
    assert!(router.reload_config(&mut registry, broken).is_err());
    assert_eq!(router.config.proxy_instances[0].upstreams[0].weight, 1);
    let mut changed = create_test_config();
    changed.proxy_instances[0].upstreams[0].weight = 7;
    assert!(router.reload_config(&mut registry, changed).is_ok());
}
