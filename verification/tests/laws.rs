use harbr_router::address::AddressId;
use harbr_router::affinity::CpuAffinityManager;
use harbr_router::builtin_plugins::tcp_proxy::{pump, PumpEvent, PumpStep};
use harbr_router::client::ConfigClient;
use harbr_router::config::{UdpProxyConfig, UpstreamConfig};
use harbr_router::config_api::{config_api_routes, ConfigAction, Routed};
use harbr_router::dynamic_config::api::TcpConfigUpdateRequest;
use harbr_router::dynamic_config::TcpProxyConfig;
use harbr_router::management_api::{ManagementApi, RouterConfig};
use harbr_router::metrics::MetricsRegistry;
use harbr_router::name_map::NameMap;
use harbr_router::proxies::http::HttpProxy as HostedHttp;
use harbr_router::proxies::HostConfig;
use harbr_router::proxy::http::HttpProxy;
use harbr_router::proxy::udp::{address_key, UdpProxy};
use harbr_router::proxy::ProxyHealth;
use harbr_router::proxy::utils::{parse_address, validate_upstream_address};
use harbr_router::routing::{
    rank, HealthState, LoadBalancingStrategy, Router, Selection, UpstreamInfo, UpstreamStats,
};
use harbr_router::time::{Duration, Instant};

fn at(secs: u64) -> Instant {
    Instant { nanos: secs * 1_000_000_000 }
}

fn upstream(name: &str) -> UpstreamConfig {
    UpstreamConfig {
        name: name.to_string(),
        address: "127.0.0.1:1".to_string(),
        weight: 1,
        priority: 0,
        timeout_ms: 1,
        retry: Default::default(),
        health_check: None,
        tls: None,
    }
}

#[test]
fn there_is_always_a_worker_and_never_too_many() {
    assert_eq!(CpuAffinityManager::with_cpus(0).optimal_worker_count(), 1);
    assert_eq!(CpuAffinityManager::with_cpus(8).optimal_worker_count(), 8);
    assert_eq!(CpuAffinityManager::with_cpus(64).optimal_worker_count(), 32);
    assert!(CpuAffinityManager::new().cpu_count() >= 1);
}

#[test]
fn averages_stay_in_between() {
    let mut stats = UpstreamStats::new(at(0));
    stats.record_success(Duration::from_nanos(800), at(0));
    assert_eq!(stats.avg_response_time_ns, 800);
    stats.record_success(Duration::from_nanos(1600), at(0));
    assert_eq!(stats.avg_response_time_ns, 900);
    stats.record_success(Duration::from_nanos(100), at(0));
    assert_eq!(stats.avg_response_time_ns, 800);
}

#[test]
fn requests_are_answered_or_failed() {
    let mut info = UpstreamInfo::new(upstream("u"), at(0));
    for _ in 0..3 {
        info.stats.record_success(Duration::from_millis(600), at(1));
    }
    info.stats.record_failure(at(2));
    assert_eq!(info.stats.requests_sent, info.stats.responses_received + info.stats.failures);
    let rate = info.stats.success_rate();
    assert_eq!((rate.numerator, rate.denominator), (3, 4));
    let score = info.health_score();
    assert_eq!((score.base_tenths, score.latency_tenths), (5, 7));
    assert_eq!(score.success, rate);
}

#[test]
fn candidates_are_ranked_by_their_keys() {
    let ranking = rank(&vec![(0, 3), (1, 0), (2, 9), (3, 3), (4, 1)]);
    assert_eq!(ranking, vec![(2, 9), (0, 3), (3, 3), (4, 1)]);
    assert!(rank(&vec![(0, 0)]).is_empty());
}

#[test]
fn the_window_of_durations_is_bounded() {
    let mut proxy = HttpProxy::new();
    for i in 0..10_001u64 {
        proxy.finish_request(Duration::from_nanos(i), Some(200));
    }
    assert_eq!(proxy.metrics.request_durations.len(), 9001);
    assert_eq!(proxy.metrics.request_durations[0], 1000);
    assert_eq!(proxy.metrics.request_durations.last(), Some(&10_000));
}

#[test]
fn error_rates_are_shares() {
    let mut proxy = HttpProxy::new();
    for status in [200, 404, 500, 302] {
        proxy.finish_request(Duration::from_millis(2), Some(status));
    }
    let metrics = proxy.get_metrics().unwrap();
    assert_eq!((metrics.error_rate.numerator, metrics.error_rate.denominator), (2, 4));
    let average = metrics.avg_response_time_ms;
    assert_eq!(average.numerator / average.denominator, 2);
}

#[test]
fn udp_sessions_add_up() {
    let config = UdpProxyConfig { session_timeout_secs: 30, ..Default::default() };
    let mut proxy = UdpProxy::new();
    let (a, b) = (AddressId::v4(1, 1), AddressId::v4(1, 2));
    let session = proxy.open_session(a, 0, 7, at(0));
    proxy.open_session(b, 0, 8, at(25));
    assert_eq!(session.age(at(40)), Duration::from_secs(40));
    assert!(proxy.existing_session(a, &config, at(40)).is_none());
    assert_eq!(proxy.existing_session(b, &config, at(40)).unwrap().upstream_socket, 8);
    let m = proxy.metrics;
    assert_eq!(m.sessions_active as u64 + m.sessions_expired, m.sessions_created);
    let rate = proxy.get_metrics().unwrap().error_rate;
    assert_eq!((rate.numerator, rate.denominator), (1, 2));
    proxy.clean_up_sessions(&config, at(60));
    assert_eq!(proxy.metrics.sessions_active, 0);
}

#[test]
fn keys_tell_addresses_apart() {
    let v4 = AddressId::v4(1, 1);
    let v6 = AddressId { v6: true, ..v4 };
    let other_port = AddressId { port: 2, ..v4 };
    let scoped = AddressId { scope_id: 1, ..v6 };
    let keys = [v4, v6, other_port, scoped].map(address_key);
    for i in 0..keys.len() {
        for j in 0..i {
            assert_ne!(keys[i], keys[j]);
        }
    }
}

#[test]
fn the_system_is_healthy_when_nothing_is_unhealthy() {
    let mut registry = MetricsRegistry::new(at(0));
    let mut healths = NameMap::new();
    let health = |status| ProxyHealth { status, message: String::new() };
    healths.insert("a".to_string(), health(HealthState::Healthy));
    let good = registry.get_system_health(&healths, at(5), 9);
    assert_eq!(good.status, HealthState::Healthy);
    assert_eq!(good.uptime_seconds, 5);
    let mut sick = UpstreamInfo::new(upstream("u"), at(0));
    sick.set_health_state(HealthState::Unhealthy, at(1));
    registry.add_upstream(sick);
    let degraded = registry.get_system_health(&healths, at(5), 9);
    assert_eq!(degraded.status, HealthState::Unknown);
    healths.insert("a".to_string(), health(HealthState::Unknown));
    let bad = registry.get_system_health(&healths, at(5), 9);
    assert_eq!(bad.status, HealthState::Unhealthy);
    assert_eq!(
        bad.message,
        "System degraded: 0 unhealthy proxies, 1 unhealthy upstreams"
    );
    registry.remove_upstream("u");
    assert_eq!(registry.system_metrics.upstreams_total, 0);
}

#[test]
fn what_is_read_is_written_before_anything_else_is_read() {
    let mut step = pump(PumpEvent::Read(5));
    assert_eq!(step, PumpStep::Write(5));
    step = pump(PumpEvent::Written);
    assert_eq!(step, PumpStep::Flush);
    step = pump(PumpEvent::Flushed);
    assert_eq!(step, PumpStep::Read);
}

#[test]
fn a_route_is_found_at_its_path() {
    let client = ConfigClient::new("");
    match config_api_routes("GET", &client.route_url("web")) {
        Routed::Action(ConfigAction::GetRoute(name)) => assert_eq!(name, "web"),
        _ => panic!("not found"),
    }
}

#[test]
fn the_same_update_twice_changes_no_more() {
    let request = TcpConfigUpdateRequest {
        enabled: None,
        listen_addr: Some("a".to_string()),
        connection_pooling: Some(false),
        max_idle_time_secs: None,
        udp_enabled: None,
        udp_listen_addr: None,
    };
    let mut config = TcpProxyConfig {
        enabled: true,
        listen_addr: "b".to_string(),
        connection_pooling: true,
        max_idle_time_secs: 3,
        udp_enabled: true,
        udp_listen_addr: "c".to_string(),
    };
    for _ in 0..2 {
        request.apply_to(&mut config);
        assert_eq!(config.listen_addr, "a");
        assert!(!config.connection_pooling);
        assert!(config.enabled && config.udp_enabled);
        assert_eq!(config.max_idle_time_secs, 3);
        assert_eq!(config.udp_listen_addr, "c");
    }
}

#[test]
fn management_groups_do_not_overlap() {
    let api = ManagementApi::new(1, RouterConfig { domains: NameMap::new() });
    let paths = [
        "/api/system/status",
        "/api/plugins",
        "/api/config",
        "/api/health",
        "/api/metrics",
    ];
    for path in paths {
        assert!(matches!(api.create_routes("GET", path), Routed::Action(_)));
        let longer = format!("{}/a/b/c", path);
        assert!(matches!(api.create_routes("GET", &longer), Routed::NotFound));
    }
}

#[test]
fn equal_hosts_are_told_apart_by_name() {
    let host = |name: &str| HostConfig {
        name: name.to_string(),
        upstream: String::new(),
        weight: None,
        health_check: None,
        timeout_ms: None,
        retry_count: None,
        priority: Some(1),
        preserve_host_header: None,
    };
    let mut proxy = HostedHttp::new();
    proxy.hosts = vec![host("/b"), host("/"), host("/a")];
    assert_eq!(proxy.select_host("/a/x"), Some(2));
    assert_eq!(proxy.select_host("/b/x"), Some(0));
    assert_eq!(proxy.select_host("/c"), Some(1));
}

fn chosen(router: &mut Router, key: &str) -> Option<usize> {
    match router.select_upstream(Some(key)) {
        Selection::Upstream(i) => Some(i),
        _ => None,
    }
}

#[test]
fn sessions_stay_while_others_fail() {
    let mut router = Router::new(LoadBalancingStrategy::ConsistentHashing);
    let names = ["a", "b", "c", "d"];
    router.update_upstreams(names.iter().map(|n| upstream(n)).collect(), at(0)).unwrap();
    for k in 0..40 {
        let key = format!("session-{}", k);
        let first = chosen(&mut router, &key).unwrap();
        for i in 0..names.len() {
            if i != first {
                router.update_upstream_health(names[i], HealthState::Unhealthy, at(1));
                assert_eq!(chosen(&mut router, &key), Some(first));
            }
        }
        router.update_upstream_health(names[first], HealthState::Unhealthy, at(2));
        assert_eq!(chosen(&mut router, &key), None);
        for name in names {
            router.update_upstream_health(name, HealthState::Healthy, at(3));
        }
    }
}

#[test]
fn removing_a_tracked_upstream_takes_one_off() {
    let mut registry = MetricsRegistry::new(at(0));
    registry.add_upstream(UpstreamInfo::new(upstream("u"), at(0)));
    registry.add_upstream(UpstreamInfo::new(upstream("v"), at(0)));
    registry.remove_upstream("u");
    assert_eq!(registry.system_metrics.upstreams_total, 1);
    registry.remove_upstream("u");
    assert_eq!(registry.system_metrics.upstreams_total, 1);
}

#[test]
fn valid_targets_are_addresses() {
    let refused = || Err("invalid socket address syntax".to_string());
    for text in ["", "localhost", "localhost:80", ":"] {
        assert!(parse_address(text, refused()).unwrap_err().is_config());
        assert!(validate_upstream_address(text, refused()).unwrap_err().is_config());
    }
}
