use harbr_router::builtin_plugins::tcp_proxy::{
    get_tcp_proxy_plugin_info, pump, ConnectOutcome, ConnectionPool, ConnectionSource, ListenerEvent, LoadBalancer,
    LoadBalancingStrategy, PooledConnection, PumpEvent, PumpStep, RetryPolicy,
    SessionAffinityConfig, SessionAffinityStrategy, TcpBackend, TcpCommand, TcpProxyConfig,
    TcpProxyPlugin,
};
use harbr_router::builtin_plugins::{
    calculate_retry_delay, find_host, get_http_proxy_plugin_info, outgoing_request,
    CircuitBreakerConfig, CircuitBreakerState, FailedAttempt, HttpCommand, HttpProxyConfig,
    HttpProxyPlugin, RequestMetadata, RetryStrategy,
};
use harbr_router::error::RouterError;
use harbr_router::name_map::NameMap;
use harbr_router::time::{Duration, Instant, SystemTime};

fn now() -> SystemTime {
    SystemTime { secs: 1, nanos: 0 }
}

fn at_ms(ms: u64) -> Instant {
    Instant { nanos: ms * 1_000_000 }
}

fn breaker() -> CircuitBreakerConfig {
    CircuitBreakerConfig {
        enabled: true,
        failure_threshold: 5,
        recovery_timeout_ms: 1000,
        half_open_max_calls: 2,
    }
}

fn http_config() -> HttpProxyConfig {
    let mut custom_headers = NameMap::new();
    custom_headers.insert("X-Via".to_string(), "router".to_string());
    HttpProxyConfig {
        default_backend: "http://backend:8080".to_string(),
        timeout_ms: 250,
        retry_count: 2,
        preserve_host_header: false,
        follow_redirects: false,
        max_redirects: 0,
        buffer_size: 1024,
        connection_pool_size: 1,
        connection_timeout_ms: 1,
        read_timeout_ms: 1,
        write_timeout_ms: 1,
        enable_compression: false,
        custom_headers,
        remove_headers: vec!["X-Secret".to_string()],
        circuit_breaker: breaker(),
        retry_strategy: RetryStrategy::Exponential { base_delay_ms: 100, max_delay_ms: 350 },
    }
}

fn request(method: &str) -> RequestMetadata {
    let mut headers = NameMap::new();
    headers.insert("X-Secret".to_string(), "1".to_string());
    headers.insert("Accept".to_string(), "*/*".to_string());
    let mut query_params = NameMap::new();
    query_params.insert("q".to_string(), "a b".to_string());
    RequestMetadata {
        method: method.to_string(),
        path: "/p".to_string(),
        upstream_url: None,
        query_params,
        headers,
    }
}

fn ready() -> HttpProxyPlugin {
    let mut plugin = HttpProxyPlugin::new(now());
    plugin.initialize(Ok(http_config()), Ok(()), now()).unwrap();
    plugin
}

#[test]
fn requests_are_built_for_the_backend() {
    let mut plugin = ready();
    let out = plugin.proxy_request(&request("GET"), at_ms(0)).unwrap();
    assert_eq!(out.method, "GET");
    assert_eq!(out.url, "http://backend:8080/p?q=a+b");
    assert_eq!(out.timeout, Duration::from_millis(250));
    assert_eq!(
        out.headers,
        vec![
            ("Accept".to_string(), "*/*".to_string()),
            ("X-Via".to_string(), "router".to_string()),
            ("Host".to_string(), "backend:8080".to_string()),
        ]
    );
    let mut own = request("GET");
    own.upstream_url = Some("http://other/x".to_string());
    own.query_params = NameMap::new();
    assert_eq!(plugin.proxy_request(&own, at_ms(0)).unwrap().url, "http://other/x");
}

#[test]
fn bad_requests_are_refused() {
    let mut plugin = HttpProxyPlugin::new(now());
    assert!(matches!(
        plugin.proxy_request(&request("GET"), at_ms(0)),
        Err(RouterError::PluginError { message, .. }) if message == "Plugin not initialized"
    ));
    let mut plugin = ready();
    assert!(matches!(
        plugin.proxy_request(&request("no method"), at_ms(0)),
        Err(RouterError::RequestError { message }) if message == "Invalid HTTP method: invalid HTTP method"
    ));
    let mut bad = request("GET");
    bad.upstream_url = Some("not a url".to_string());
    assert!(matches!(
        plugin.proxy_request(&bad, at_ms(0)),
        Err(RouterError::UpstreamError { message }) if message.starts_with("Invalid upstream URL: ")
    ));
    plugin.stop();
    assert!(matches!(
        plugin.proxy_request(&request("GET"), at_ms(0)),
        Err(RouterError::PluginError { message, .. }) if message == "HTTP client not initialized"
    ));
    let refused = outgoing_request(&http_config(), &request("GET"), Err("empty host".to_string()));
    assert!(matches!(
        refused,
        Err(RouterError::UpstreamError { message }) if message == "Invalid upstream URL: empty host"
    ));
}

#[test]
fn the_breaker_opens_and_recovers() {
    let mut plugin = ready();
    assert!(matches!(plugin.attempt_failed(0, "x", at_ms(0)), FailedAttempt::RetryAfter(d) if d == Duration::from_millis(100)));
    assert!(matches!(plugin.attempt_failed(1, "x", at_ms(0)), FailedAttempt::RetryAfter(d) if d == Duration::from_millis(200)));
    match plugin.attempt_failed(2, "refused", at_ms(10)) {
        FailedAttempt::GaveUp(RouterError::UpstreamError { message }) => {
            assert_eq!(message, "All retry attempts failed: refused")
        }
        _ => panic!("did not give up"),
    }
    assert!(matches!(
        plugin.proxy_request(&request("GET"), at_ms(1010)),
        Err(RouterError::CircuitBreakerOpen { .. })
    ));
    assert!(plugin.proxy_request(&request("GET"), at_ms(1011)).is_ok());
    assert_eq!(plugin.circuit_breaker, CircuitBreakerState::HalfOpen { calls_made: 0 });
    let answer = plugin
        .answered(200, NameMap::new(), Ok(vec![1, 2, 3]), Duration::from_millis(40), now())
        .unwrap();
    assert_eq!(answer.upstream_response_time_ms, Some(40));
    assert_eq!(plugin.circuit_breaker, CircuitBreakerState::Closed);
    assert_eq!(plugin.metrics.connections_total, 1);
    assert_eq!(plugin.metrics.bytes_sent, 3);
    let unread = plugin.answered(200, NameMap::new(), Err("cut".to_string()), Duration::from_millis(1), now());
    assert!(unread.is_err());
    assert_eq!(plugin.metrics.connections_total, 1);
}

#[test]
fn a_disabled_breaker_never_opens() {
    let mut config = http_config();
    config.circuit_breaker.enabled = false;
    let mut plugin = HttpProxyPlugin::new(now());
    plugin.initialize(Ok(config), Ok(()), now()).unwrap();
    plugin.record_failure(at_ms(0));
    assert_eq!(plugin.circuit_breaker, CircuitBreakerState::Closed);
}

#[test]
fn delays_follow_the_strategy() {
    let fixed = RetryStrategy::Fixed { delay_ms: 7 };
    assert_eq!(calculate_retry_delay(&fixed, 9), Duration::from_millis(7));
    let linear = RetryStrategy::Linear { initial_delay_ms: 10, increment_ms: 5 };
    assert_eq!(calculate_retry_delay(&linear, 3), Duration::from_millis(25));
    let exponential = RetryStrategy::Exponential { base_delay_ms: 100, max_delay_ms: 350 };
    assert_eq!(calculate_retry_delay(&exponential, 2), Duration::from_millis(350));
    assert_eq!(calculate_retry_delay(&exponential, 4_000_000_000), Duration::from_millis(350));
    assert_eq!(find_host("http://h:1/p"), Some("h:1".to_string()));
    assert_eq!(find_host("h:1/p"), None);
}

#[test]
fn http_commands_are_understood() {
    let plugin = ready();
    assert!(matches!(plugin.handle_command("get_backends", None), Ok(HttpCommand::Backends)));
    assert!(matches!(
        plugin.handle_command("health_check_backend", Some("http://b")),
        Ok(HttpCommand::CheckBackend(u)) if u == "http://b"
    ));
    assert!(matches!(
        plugin.handle_command("health_check_backend", None),
        Err(RouterError::InvalidApiRequest { .. })
    ));
    assert!(matches!(
        plugin.handle_command("circuit_breaker_status", None),
        Ok(HttpCommand::BreakerStatus(s)) if s == "closed"
    ));
    assert!(matches!(plugin.handle_command("dance", None), Err(RouterError::NotSupported { .. })));
    assert!(plugin.check_backend_health(Some(204)));
    assert!(!plugin.check_backend_health(Some(301)));
    assert!(!plugin.check_backend_health(None));
}

#[test]
fn plugins_describe_themselves() {
    assert_eq!(get_http_proxy_plugin_info().name, "http_proxy");
    assert_eq!(ready().info().version, "1.0.0");
    assert!(ready().capabilities().supports_hot_reload);
    assert!(TcpProxyPlugin::new(now()).capabilities().requires_dedicated_port);
    let mut plugin = HttpProxyPlugin::new(now());
    assert!(matches!(
        plugin.initialize(Err("no field".to_string()), Ok(()), now()),
        Err(RouterError::ConfigError { .. })
    ));
    assert!(matches!(
        plugin.initialize(Ok(http_config()), Err("tls".to_string()), now()),
        Err(RouterError::PluginInitError { .. })
    ));
}

fn backend(address: &str) -> TcpBackend {
    TcpBackend {
        address: address.to_string(),
        weight: 1,
        max_connections: None,
        health_check_port: None,
        metadata: NameMap::new(),
    }
}

fn tcp_config(strategy: LoadBalancingStrategy, backends: Vec<&str>) -> TcpProxyConfig {
    TcpProxyConfig {
        listen_addresses: vec!["0.0.0.0:1".to_string()],
        backends: backends.iter().map(|b| backend(b)).collect(),
        load_balancing_strategy: strategy,
        connection_timeout_ms: 900,
        read_timeout_ms: 1,
        write_timeout_ms: 1,
        max_connections: 1,
        connection_pool_size: 5,
        health_check_interval_ms: 1,
        buffer_size: 1,
        tcp_nodelay: true,
        tcp_keepalive: None,
        circuit_breaker: breaker(),
        retry_policy: RetryPolicy { max_retries: 1, retry_delay_ms: 1, exponential_backoff: false },
        session_affinity: SessionAffinityConfig {
            enabled: false,
            strategy: SessionAffinityStrategy::ClientIp,
            timeout_secs: 1,
        },
    }
}

#[test]
fn backends_take_turns() {
    let mut balancer = LoadBalancer::new();
    assert_eq!(balancer.select_backend(None), None);
    balancer.initialize(&tcp_config(LoadBalancingStrategy::RoundRobin, vec!["a", "b", "c"]));
    let picks: Vec<String> = (0..4).map(|_| balancer.select_backend(None).unwrap()).collect();
    assert_eq!(picks, vec!["a", "b", "c", "a"]);
}

#[test]
fn clients_are_hashed_or_sent_anywhere() {
    let mut balancer = LoadBalancer::new();
    balancer.initialize(&tcp_config(LoadBalancingStrategy::IpHash, vec!["a", "b", "c"]));
    assert_eq!(balancer.select_backend(Some(5)), Some("c".to_string()));
    assert_eq!(balancer.select_backend(Some(5)), Some("c".to_string()));
    assert_eq!(balancer.select_backend(None), Some("a".to_string()));
    assert_eq!(balancer.select_backend(None), Some("b".to_string()));
    balancer.initialize(&tcp_config(LoadBalancingStrategy::Random, vec!["a", "b", "c"]));
    let picks: Vec<String> = (0..200).map(|_| balancer.select_backend(None).unwrap()).collect();
    for name in ["a", "b", "c"] {
        assert!(picks.iter().any(|p| p == name));
    }
    assert_eq!(balancer.backend_at(7), None);
}

#[test]
fn pools_hand_out_the_latest_connection() {
    let config = tcp_config(LoadBalancingStrategy::RoundRobin, vec!["a"]);
    let mut pool = ConnectionPool::new();
    pool.initialize(&config, at_ms(0));
    assert!(matches!(
        pool.get_connection("x", &config),
        Err(RouterError::BackendConnectionError { backend }) if backend == "x"
    ));
    assert_eq!(
        pool.get_connection("a", &config).unwrap(),
        ConnectionSource::New(Duration::from_millis(900))
    );
    for stream in [1, 2] {
        pool.pools.get_mut("a").unwrap().connections.push(PooledConnection {
            stream,
            created_at: at_ms(0),
            last_used: at_ms(0),
            connection_count: 0,
        });
    }
    assert_eq!(pool.get_connection("a", &config).unwrap(), ConnectionSource::Pooled(2));
    assert_eq!(pool.get_statistics()[0].connections_count, 1);
    assert_eq!(ConnectionPool::connected("a", ConnectOutcome::Connected(3)).unwrap(), 3);
    assert!(matches!(
        ConnectionPool::connected("a", ConnectOutcome::TimedOut),
        Err(RouterError::NetworkTimeout { operation }) if operation == "connect to a"
    ));
    assert!(matches!(
        ConnectionPool::connected("a", ConnectOutcome::Failed("no".to_string())),
        Err(RouterError::BackendConnectionError { backend }) if backend == "Failed to connect to a: no"
    ));
    assert!(matches!(
        ConnectionPool::connected("a", ConnectOutcome::BadAddress("no".to_string())),
        Err(RouterError::BackendConnectionError { backend }) if backend == "Invalid address a: no"
    ));
}

#[test]
fn three_failures_make_a_backend_unhealthy() {
    let mut pool = ConnectionPool::new();
    pool.initialize(&tcp_config(LoadBalancingStrategy::RoundRobin, vec!["a"]), at_ms(0));
    assert_eq!(pool.health_check_all(), vec!["a"]);
    for i in 0..3 {
        assert!(pool.pools.get("a").unwrap().health_status.healthy);
        pool.health_check_backend("a", None, at_ms(i));
    }
    assert!(!pool.pools.get("a").unwrap().health_status.healthy);
    pool.health_check_backend("a", Some(12), at_ms(9));
    let health = pool.pools.get("a").unwrap().health_status;
    assert!(health.healthy);
    assert_eq!(health.consecutive_failures, 0);
    assert_eq!(health.response_time_ms, 12);
}

#[test]
fn data_is_pumped_until_something_stops() {
    assert_eq!(pump(PumpEvent::Read(9)), PumpStep::Write(9));
    assert_eq!(pump(PumpEvent::Written), PumpStep::Flush);
    assert_eq!(pump(PumpEvent::Flushed), PumpStep::Read);
    for event in [
        PumpEvent::Read(0),
        PumpEvent::ReadFailed,
        PumpEvent::ReadTimedOut,
        PumpEvent::WriteTimedOut,
        PumpEvent::FlushFailed,
    ] {
        assert_eq!(pump(event), PumpStep::Stop);
    }
}

#[test]
fn tcp_connections_are_handled() {
    let mut plugin = TcpProxyPlugin::new(now());
    assert!(matches!(plugin.start_listeners(), Err(RouterError::PluginError { .. })));
    let config = tcp_config(LoadBalancingStrategy::RoundRobin, vec!["a:1"]);
    plugin.initialize(Ok(config), at_ms(0), now()).unwrap();
    plugin.start();
    assert_eq!(plugin.start_listeners().unwrap(), &vec!["0.0.0.0:1".to_string()]);
    let step = plugin.listener_event(ListenerEvent::Accepted);
    assert!(step.handle && step.go_on);
    assert_eq!(plugin.metrics.connections_active, 1);
    let (address, source) = plugin.handle_connection(17).unwrap();
    assert_eq!(address, "a:1");
    assert_eq!(source, ConnectionSource::New(Duration::from_millis(900)));
    plugin.connection_ended(true, Duration::from_millis(30));
    assert_eq!(plugin.metrics.connections_active, 0);
    let average = plugin.metrics.custom_metrics.get("avg_connection_duration_ms").unwrap();
    assert_eq!(average.numerator, 30);
    plugin.connection_ended(false, Duration::from_millis(30));
    assert_eq!(plugin.metrics.errors_total, 1);
    assert!(!plugin.listener_event(ListenerEvent::ShutdownRequested).go_on);
    plugin.stop();
    assert!(!plugin.listener_event(ListenerEvent::AcceptFailed).go_on);
    assert!(matches!(
        TcpProxyPlugin::listening("x", Err("syntax".to_string()), Ok(())),
        Err(RouterError::BindError { .. })
    ));
    assert!(matches!(plugin.handle_command("get_pool_stats", None), Ok(TcpCommand::PoolStatistics)));
    assert!(matches!(plugin.handle_command("drain_backend", None), Err(RouterError::InvalidApiRequest { .. })));
    let mut empty = TcpProxyPlugin::new(now());
    empty.initialize(Ok(tcp_config(LoadBalancingStrategy::RoundRobin, vec![])), at_ms(0), now()).unwrap();
    assert!(matches!(empty.handle_connection(1), Err(RouterError::LoadBalancingError { .. })));
}

#[test]
fn the_tcp_plugin_describes_itself() {
    let info = get_tcp_proxy_plugin_info();
    assert_eq!(info.name, "tcp_proxy");
    assert_eq!(info.repository.as_deref(), Some("https://github.com/router/plugins"));
    assert_eq!(info.tags, vec!["tcp", "proxy", "load-balancer"]);
    assert!(info.config_schema.unwrap().contains("listen_addresses"));
}

#[test]
fn urls_that_are_too_long_are_refused() {
    let mut plugin = ready();
    let mut long = request("GET");
    long.upstream_url = Some(format!("http://other/{}", "x".repeat(20_000_000)));
    assert!(matches!(
        plugin.proxy_request(&long, at_ms(0)),
        Err(RouterError::UpstreamError { message }) if message == "Invalid upstream URL: URL is too long"
    ));
}

#[test]
fn a_connection_leaves_the_other_pools_alone() {
    let mut plugin = TcpProxyPlugin::new(now());
    let config = tcp_config(LoadBalancingStrategy::RoundRobin, vec!["a:1", "b:2"]);
    plugin.initialize(Ok(config), at_ms(0), now()).unwrap();
    for turn in 0..4 {
        let (address, _) = plugin.handle_connection(17).unwrap();
        assert_eq!(address, ["a:1", "b:2"][turn % 2]);
        assert_eq!(plugin.connection_pool.get_statistics().len(), 2);
    }
}
