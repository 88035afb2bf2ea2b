use harbr_router::address::AddressId;
use harbr_router::modern_router::ModernRouter;
use harbr_router::new_config::{
    file_format, GlobalConfig, HealthCheckServerConfig, LoggingConfig, MetricsConfig,
    NewProxyConfig,
};
use harbr_router::config::ConfigFormat;
use harbr_router::proxies::http::{has_room, AttemptStep, HttpProxy, RoutePlan};
use harbr_router::proxies::tcp::{PumpStep, SideEvent, TcpProxy};
use harbr_router::proxies::udp::{
    AnswerEvent, ForwardOutcome, ReceiveEvent, ReceiveStep, UdpCounter, UdpProxy,
};
use harbr_router::proxies::{
    extract_host_port, HostConfig, HostedProxy, InstanceSettings, IoFailureKind, ProxyInstance,
    ProxyManager,
};
use harbr_router::time::{Duration, Instant};
use hyper::header::HeaderValue;
use hyper::HeaderMap;

fn host(name: &str, upstream: &str, priority: Option<i32>) -> HostConfig {
    HostConfig {
        name: name.to_string(),
        upstream: upstream.to_string(),
        weight: None,
        health_check: None,
        timeout_ms: Some(700),
        retry_count: Some(2),
        priority,
        preserve_host_header: None,
    }
}

fn instance(name: &str, kind: &str, addr: &str) -> ProxyInstance {
    ProxyInstance {
        name: name.to_string(),
        proxy_type: kind.to_string(),
        listen_addr: addr.to_string(),
        config: InstanceSettings { max_idle_time_secs: None, text: "{}".to_string() },
        hosts: vec![host("/", "http://127.0.0.1:9000", None)],
    }
}

fn config(instances: Vec<ProxyInstance>) -> NewProxyConfig {
    NewProxyConfig {
        proxy_instances: instances,
        global: GlobalConfig {
            metrics: MetricsConfig {
                enabled: true,
                listen_addr: "0.0.0.0:9090".to_string(),
                path: "/metrics".to_string(),
            },
            health_check: HealthCheckServerConfig {
                enabled: true,
                listen_addr: "0.0.0.0:8081".to_string(),
                path: "/health".to_string(),
            },
            logging: LoggingConfig { level: "info".to_string(), format: "json".to_string() },
        },
    }
}

fn at(secs: u64) -> Instant {
    Instant { nanos: secs * 1_000_000_000 }
}

#[test]
fn paths_go_to_the_most_specific_host() {
    let mut proxy = HttpProxy::new();
    proxy.hosts = vec![
        host("/", "http://root:1", None),
        host("/api", "http://api:1", None),
        host("/api/users", "http://users:1", None),
        host("/adm", "http://adm:1", Some(9)),
    ];
    assert_eq!(proxy.select_host("/api/users/7"), Some(2));
    assert_eq!(proxy.select_host("/api/x"), Some(1));
    assert_eq!(proxy.select_host("/other"), Some(0));
    assert_eq!(proxy.select_host("/adm/api"), Some(3));
    proxy.hosts.clear();
    assert_eq!(proxy.select_host("/"), None);
}

#[test]
fn requests_are_planned() {
    let mut proxy = HttpProxy::new();
    assert!(matches!(proxy.handle_request("/a", ""), RoutePlan::NotFound));
    proxy.hosts = vec![host("/api", "http://api:1/base", None), host("/bad", "no url", None)];
    match proxy.handle_request("/api/users", "?x=1") {
        RoutePlan::Forward(plan) => {
            assert_eq!(plan.host, 0);
            assert_eq!(plan.url, "http://api:1/base/users?x=1");
            assert_eq!(plan.timeout, Duration::from_millis(700));
            assert_eq!(plan.retry_count, 2);
            assert_eq!(plan.host_header, Some("api".to_string()));
        }
        _ => panic!("not forwarded"),
    }
    assert!(matches!(proxy.handle_request("/bad", ""), RoutePlan::InvalidUpstream));
}

#[test]
fn attempts_are_limited() {
    assert_eq!(HttpProxy::after_attempt(0, 2, true), AttemptStep::Done);
    assert_eq!(HttpProxy::after_attempt(0, 2, false), AttemptStep::Retry(1));
    assert_eq!(HttpProxy::after_attempt(2, 2, false), AttemptStep::GiveUp);
    assert_eq!(HttpProxy::route_not_found().status, 404);
    assert_eq!(HttpProxy::service_unavailable().status, 503);
}

#[test]
fn methods_and_headers_are_carried_over() {
    assert_eq!(HttpProxy::convert_method("PATCH"), "PATCH");
    assert_eq!(HttpProxy::convert_method("not a method"), "GET");
    let mut fields: HeaderMap<HeaderValue> = HeaderMap::new();
    fields.append("x-a", HeaderValue::from_static("1"));
    fields.append("x-a", HeaderValue::from_static("2"));
    assert_eq!(HttpProxy::convert_headers(&fields).unwrap().get("x-a").unwrap(), "2");
}

#[test]
fn hosts_and_ports_are_extracted() {
    assert_eq!(extract_host_port("http://host:80/path"), "host:80");
    assert_eq!(extract_host_port("host:80"), "host:80");
    assert_eq!(extract_host_port("tcp://a:1://b"), "a:1");
}

#[test]
fn tcp_connections_go_to_the_first_host() {
    let mut proxy = TcpProxy::new();
    assert_eq!(
        proxy.handle_connection(at(0)).unwrap_err().kind,
        IoFailureKind::NotFound
    );
    proxy.hosts = vec![host("a", "tcp://a:1", None), host("b", "tcp://b:1", Some(5))];
    let plan = proxy.handle_connection(at(0)).unwrap();
    assert_eq!(plan.target, "b:1");
    assert_eq!(plan.reuse, None);
    assert_eq!(plan.timeout, Duration::from_millis(700));
}

#[test]
fn cached_connections_are_used_while_fresh() {
    let mut proxy = TcpProxy::new();
    proxy.hosts = vec![host("a", "tcp://a:1", None)];
    proxy.connection_cache.insert(
        "a:1".to_string(),
        vec![(1, 0), (2, at(50).nanos), (3, at(10).nanos)],
    );
    let plan = proxy.handle_connection(at(100)).unwrap();
    assert_eq!(plan.reuse, Some(2));
    assert_eq!(plan.expired, vec![3]);
    proxy.clean_idle_connections(at(100));
    assert!(proxy.connection_cache.get("a:1").unwrap().is_empty());
}

#[test]
fn tcp_data_is_pumped() {
    assert_eq!(TcpProxy::pump(SideEvent::Read(4)), PumpStep::Forward(4));
    assert_eq!(TcpProxy::pump(SideEvent::Read(0)), PumpStep::Stop);
    assert_eq!(TcpProxy::pump(SideEvent::Failed), PumpStep::Stop);
    assert_eq!(TcpProxy::pump(SideEvent::TimedOut), PumpStep::StopTimedOut);
}

#[test]
fn idle_times_are_limited() {
    let proxy = TcpProxy::new();
    let fine = InstanceSettings { max_idle_time_secs: Some(3600), text: String::new() };
    assert!(proxy.validate_config(&fine).is_ok());
    let long = InstanceSettings { max_idle_time_secs: Some(3601), text: String::new() };
    assert!(proxy.validate_config(&long).is_err());
}

#[test]
fn udp_clients_keep_their_destination() {
    let mut proxy = UdpProxy::new();
    let client = AddressId::v4(1, 1);
    assert!(proxy.handle_datagram(client).is_err());
    proxy.hosts = vec![host("a", "udp://a:1", None)];
    assert_eq!(proxy.handle_datagram(client).unwrap().destination, "a:1");
    proxy.hosts.push(host("b", "udp://b:1", Some(9)));
    assert_eq!(proxy.handle_datagram(client).unwrap().destination, "a:1");
    assert_eq!(proxy.handle_datagram(AddressId::v4(2, 1)).unwrap().destination, "b:1");
}

#[test]
fn udp_outcomes_are_counted() {
    assert_eq!(UdpProxy::forwarded(ForwardOutcome::Sent).1, UdpCounter::DatagramForwarded);
    let (result, counter) = UdpProxy::forwarded(ForwardOutcome::TimedOut);
    assert_eq!(result.unwrap_err().message, "Timed out forwarding UDP datagram");
    assert_eq!(counter.name(), "udp_proxy.timeout");
    let (result, _) = UdpProxy::forwarded(ForwardOutcome::Failed("x".to_string()));
    assert_eq!(result.unwrap_err().message, "x");
    assert_eq!(UdpProxy::answered(AnswerEvent::Received(3)), (Some(3), None));
    assert_eq!(UdpProxy::answered(AnswerEvent::TimedOut), (None, Some(UdpCounter::Timeout)));
    assert_eq!(UdpProxy::response_address(true, "1.2.3.4"), "0.0.0.0:0");
    assert_eq!(UdpProxy::response_address(false, "1.2.3.4"), "1.2.3.4:0");
    assert_eq!(
        UdpProxy::received(ReceiveEvent::Received(9)),
        (ReceiveStep::Handle(9), UdpCounter::DatagramReceived)
    );
    assert_eq!(
        UdpProxy::invalid_destination("bad").message,
        "Invalid destination address: bad"
    );
}

#[test]
fn the_manager_creates_and_removes_instances() {
    let mut manager = ProxyManager::new();
    let unknown = manager.create_instance(instance("i", "http", "0.0.0.0:1"), Ok(()));
    assert!(unknown.is_err());
    manager.register_proxy_type(HostedProxy::Http(HttpProxy::new()));
    assert!(manager.create_instance(instance("i", "http", "0.0.0.0:1"), Ok(())).is_ok());
    let failed = manager.create_instance(instance("j", "http", "0.0.0.0:2"), Err("in use".to_string()));
    assert!(failed.is_err());
    assert!(manager.get_instance("j").is_none());
    assert!(manager.create_instance(instance("i", "http", "0.0.0.0:3"), Ok(())).is_ok());
    assert_eq!(manager.get_instance("i").unwrap().listen_addr, "0.0.0.0:3");
    assert!(manager.add_host_to_instance("i", host("/new", "http://n:1", None)).is_ok());
    assert!(manager.add_host_to_instance("i", host("/new", "http://n:1", None)).is_err());
    assert_eq!(manager.get_instance("i").unwrap().hosts.len(), 2);
    assert!(manager.remove_host_from_instance("i", "/new").is_ok());
    assert!(manager.remove_host_from_instance("i", "/new").is_err());
    assert_eq!(manager.list_instances().len(), 1);
    assert!(manager.remove_instance("i").is_ok());
    assert!(manager.remove_instance("i").is_err());
}

#[test]
fn configurations_of_instances_are_checked() {
    assert!(config(vec![instance("a", "http", "0.0.0.0:1")]).validate().is_ok());
    assert_eq!(
        config(vec![instance("", "http", "0.0.0.0:1")]).validate().unwrap_err(),
        "Proxy instance name cannot be empty"
    );
    assert_eq!(
        config(vec![instance("a", "", "0.0.0.0:1")]).validate().unwrap_err(),
        "Proxy instance type cannot be empty"
    );
    assert_eq!(
        config(vec![instance("a", "http", "")]).validate().unwrap_err(),
        "Proxy instance listen_addr cannot be empty"
    );
    let twice = vec![instance("a", "http", "0.0.0.0:1"), instance("a", "http", "0.0.0.0:2")];
    assert_eq!(config(twice).validate().unwrap_err(), "Duplicate proxy instance name: a");
    let shared = vec![instance("a", "http", "0.0.0.0:1"), instance("b", "http", "0.0.0.0:1")];
    assert_eq!(config(shared).validate().unwrap_err(), "Duplicate listen address: 0.0.0.0:1");
    let mut hostless = instance("a", "http", "0.0.0.0:1");
    hostless.hosts[0].upstream = String::new();
    assert_eq!(
        config(vec![hostless]).validate().unwrap_err(),
        "Host upstream cannot be empty in instance 'a'"
    );
    assert_eq!(file_format("x.toml"), ConfigFormat::Toml);
    assert_eq!(file_format("x.json"), ConfigFormat::Json);
    assert_eq!(file_format("x"), ConfigFormat::Yaml);
}

#[test]
fn the_router_serves_what_is_configured() {
    let wanted = config(vec![
        instance("a", "http", "0.0.0.0:1"),
        instance("b", "ftp", "0.0.0.0:2"),
    ]);
    let mut router = ModernRouter::from_parsed(wanted).unwrap();
    router.register_proxy_types();
    assert!(router.check_configured(0).is_ok());
    assert!(router.check_configured(1).is_err());
    assert!(router.create_configured(0, Err("in use".to_string())).is_err());
    assert!(router.create_configured(0, Ok(())).is_ok());
    assert_eq!(router.list_instances().len(), 1);
    assert_eq!(router.health_segment(), "health");
    assert_eq!(router.metrics_segment(), "metrics");
    assert!(router.add_host_to_instance("a", host("/x", "http://x:1", None)).is_ok());
    assert_eq!(router.get_instance("a").unwrap().hosts.len(), 2);
    assert!(router.remove_host_from_instance("a", "/x").is_ok());
    let outcomes = router.shutdown();
    assert!(outcomes[0].is_ok());
    assert!(outcomes[1].is_err());
    assert!(router.list_instances().is_empty());
    assert!(ModernRouter::from_parsed(config(vec![instance("", "http", "x")])).is_err());
}

#[test]
fn hosts_are_replaced_by_name() {
    let mut proxy = HostedProxy::Tcp(TcpProxy::new());
    assert_eq!(proxy.proxy_type(), "tcp");
    assert!(proxy.update_host(host("a", "tcp://a:1", None)).is_err());
    proxy.add_host(host("a", "tcp://a:1", None)).unwrap();
    proxy.update_host(host("a", "tcp://a:2", Some(3))).unwrap();
    assert_eq!(proxy.get_hosts().len(), 1);
    assert_eq!(proxy.get_hosts()[0].upstream, "tcp://a:2");
    assert!(proxy.health_check());
    assert_eq!(
        proxy.remove_host("b").unwrap_err(),
        "Host 'b' not found"
    );
}

#[test]
fn urls_have_a_longest_length() {
    assert!(has_room("http://h/", "path"));
    let long = "x".repeat(20_000_000);
    assert!(!has_room(&long, ""));
    assert!(has_room("http://h/", &long));
    let mut proxy = HttpProxy::new();
    proxy.hosts.push(host("/", &format!("http://h/{}", long), None));
    assert!(matches!(proxy.handle_request("/a", ""), RoutePlan::InvalidUpstream));
}
