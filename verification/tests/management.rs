use harbr_router::address::AddressId;
use harbr_router::client::ConfigClient;
use harbr_router::config_api::{
    config_api_routes, handle_delete_route, handle_get_config, handle_get_route,
    handle_list_routes, handle_reload_config, handle_update_global_settings, handle_update_route,
    handle_update_tcp_config, path_segments, route_updated, ConfigAction, Routed,
};
use harbr_router::dynamic_config::api::{
    GlobalSettingsUpdateRequest, RouteUpdateRequest, TcpConfigUpdateRequest,
};
use harbr_router::dynamic_config::{
    ConfigEvent, DynamicConfigManager, FileContent, ProxyConfig, RouteConfig, TcpProxyConfig,
    WatchStep,
};
use harbr_router::management_api::{
    command_or_status, get_memory_usage, handle_get_overall_health, handle_get_prometheus_metrics,
    handle_get_version, handle_rejection, handle_reload_plugin, ApiAuthentication, ApiResponse, ManagementAction,
    ManagementApi,
    RejectionReasons, RouteCreateRequest, RouterConfig,
};
use harbr_router::name_map::NameMap;
use harbr_router::plugin::{PluginHealth, PluginMetrics};
use harbr_router::tcp_proxy::{RelayEvent, RelayStep, Side, TcpProxyServer};
use harbr_router::time::{Duration, Instant, SystemTime};
use harbr_router::udp_proxy::UdpProxyServer;

fn at(secs: u64) -> SystemTime {
    SystemTime { secs, nanos: 0 }
}

fn route(upstream: &str) -> RouteConfig {
    RouteConfig {
        upstream: upstream.to_string(),
        timeout_ms: Some(100),
        retry_count: None,
        priority: None,
        preserve_host_header: None,
        is_tcp: false,
        tcp_listen_port: None,
        is_udp: None,
        udp_listen_port: None,
        db_type: None,
    }
}

fn proxy_config() -> ProxyConfig {
    ProxyConfig {
        listen_addr: "0.0.0.0:80".to_string(),
        global_timeout_ms: 5000,
        max_connections: 10,
        routes: NameMap::new(),
        tcp_proxy: TcpProxyConfig {
            enabled: true,
            listen_addr: "0.0.0.0:81".to_string(),
            connection_pooling: true,
            max_idle_time_secs: 60,
            udp_enabled: false,
            udp_listen_addr: "0.0.0.0:82".to_string(),
        },
    }
}

fn route_request(upstream: &str, is_tcp: Option<bool>) -> RouteUpdateRequest {
    RouteUpdateRequest {
        upstream: upstream.to_string(),
        timeout_ms: None,
        retry_count: None,
        priority: None,
        preserve_host_header: None,
        is_tcp,
        tcp_listen_port: None,
        is_udp: None,
        udp_listen_port: None,
        db_type: None,
    }
}

#[test]
fn routes_come_and_go() {
    let mut manager = DynamicConfigManager::new(proxy_config());
    let change = manager.add_route("r", route("http://a")).unwrap();
    assert!(matches!(change.event, ConfigEvent::RouteAdded(n, _) if n == "r"));
    assert_eq!(change.save_to, None);
    assert_eq!(manager.add_route("r", route("x")).unwrap_err(), "Route 'r' already exists");
    manager.update_route("r", route("http://b"));
    assert_eq!(manager.get_config().routes.get("r").unwrap().upstream, "http://b");
    assert!(matches!(manager.remove_route("r").unwrap().event, ConfigEvent::RouteRemoved(_)));
    assert_eq!(manager.remove_route("r").unwrap_err(), "Route 'r' does not exist");
}

#[test]
fn settings_change_only_where_given() {
    let mut manager = DynamicConfigManager::new(proxy_config());
    manager.update_global_settings(None, Some(7), None);
    assert_eq!(manager.config.global_timeout_ms, 7);
    assert_eq!(manager.config.max_connections, 10);
    assert_eq!(manager.config.listen_addr, "0.0.0.0:80");
    let req = TcpConfigUpdateRequest {
        enabled: Some(false),
        listen_addr: None,
        connection_pooling: None,
        max_idle_time_secs: Some(9),
        udp_enabled: None,
        udp_listen_addr: Some("u".to_string()),
    };
    handle_update_tcp_config(&req, &mut manager);
    assert!(!manager.config.tcp_proxy.enabled);
    assert_eq!(manager.config.tcp_proxy.listen_addr, "0.0.0.0:81");
    assert_eq!(manager.config.tcp_proxy.max_idle_time_secs, 9);
    assert_eq!(manager.config.tcp_proxy.udp_listen_addr, "u");
    let settings = GlobalSettingsUpdateRequest {
        listen_addr: Some("x".to_string()),
        global_timeout_ms: None,
        max_connections: None,
    };
    handle_update_global_settings(settings, &mut manager);
    assert_eq!(manager.config.listen_addr, "x");
}

#[test]
fn files_are_loaded_reloaded_and_watched() {
    assert_eq!(
        DynamicConfigManager::from_file("f".to_string(), FileContent::Unreadable, None)
            .err()
            .unwrap(),
        "Failed to read config from f"
    );
    assert_eq!(
        DynamicConfigManager::from_file("f".to_string(), FileContent::Unparsable, None)
            .err()
            .unwrap(),
        "Failed to parse config from f"
    );
    let content = FileContent::Config(proxy_config());
    let mut manager =
        DynamicConfigManager::from_file("f".to_string(), content, Some(at(10))).unwrap();
    assert_eq!(manager.update_route("r", route("a")).save_to, Some("f".to_string()));
    let id = manager.start_file_watcher().unwrap();
    assert_eq!(id.len(), 36);
    assert_eq!(manager.watch(&id, Some(at(10))), WatchStep::Wait);
    assert_eq!(manager.watch(&id, None), WatchStep::Wait);
    assert_eq!(manager.watch(&id, Some(at(11))), WatchStep::Reload);
    assert!(manager.reload_from_file(FileContent::Unreadable).is_err());
    manager.reload_from_file(FileContent::Config(proxy_config())).unwrap();
    assert_eq!(manager.config.routes.len(), 0);
    manager.file_seen(Some(at(11)));
    assert_eq!(manager.watch(&id, Some(at(11))), WatchStep::Wait);
    manager.stop_file_watchers();
    assert_eq!(manager.watch(&id, Some(at(99))), WatchStep::Stop);
    let mut fileless = DynamicConfigManager::new(proxy_config());
    assert_eq!(
        fileless.start_file_watcher().unwrap_err(),
        "No configuration file path set for watching"
    );
    assert!(fileless.reload_from_file(FileContent::Unreadable).is_err());
}

#[test]
fn requests_lead_to_configuration_actions() {
    assert_eq!(path_segments("/a/b/"), vec!["a", "b"]);
    assert!(matches!(
        config_api_routes("GET", "/api/config"),
        Routed::Action(ConfigAction::GetConfig)
    ));
    assert!(matches!(
        config_api_routes("PUT", "/api/config/routes/x"),
        Routed::Action(ConfigAction::UpdateRoute(n)) if n == "x"
    ));
    assert!(matches!(
        config_api_routes("DELETE", "/api/config/routes/x/"),
        Routed::Action(ConfigAction::DeleteRoute(_))
    ));
    assert!(matches!(config_api_routes("POST", "/api/config"), Routed::MethodNotAllowed));
    assert!(matches!(config_api_routes("GET", "/api/other"), Routed::NotFound));
    assert!(matches!(config_api_routes("GET", "/api/config/routes/x/y"), Routed::NotFound));
    assert!(matches!(
        config_api_routes("PUT", "/api/config/global"),
        Routed::Action(ConfigAction::UpdateGlobalSettings)
    ));
}

#[test]
fn what_is_put_can_be_got() {
    let mut manager = DynamicConfigManager::new(proxy_config());
    assert!(!handle_get_route("r", &manager).success);
    let (_, existed) = handle_update_route("r", route_request("http://a", None), &mut manager).unwrap();
    assert!(!existed);
    assert_eq!(route_updated("r", existed, Ok(())).message, "Route 'r' created successfully");
    let (_, existed) =
        handle_update_route("r", route_request("http://b", Some(true)), &mut manager).unwrap();
    assert!(existed);
    assert_eq!(route_updated("r", existed, Ok(())).message, "Route 'r' updated successfully");
    let answer = handle_get_route("r", &manager);
    assert!(answer.success);
    let got = answer.data.unwrap();
    assert_eq!(got.upstream, "http://b");
    assert!(got.is_tcp);
    assert_eq!(handle_list_routes(&manager).data.unwrap().len(), 1);
    assert_eq!(handle_get_config(&manager).data.unwrap().max_connections, 10);
    assert_eq!(
        handle_delete_route("r", Err("Route 'r' does not exist".to_string())).message,
        "Failed to delete route: Route 'r' does not exist"
    );
    assert!(handle_reload_config(Ok(())).success);
}

#[test]
fn clients_read_the_answers() {
    let client = ConfigClient::new("http://localhost:8082//");
    assert_eq!(client.config_url(), "http://localhost:8082/api/config");
    assert_eq!(client.route_url("r"), "http://localhost:8082/api/config/routes/r");
    let mut manager = DynamicConfigManager::new(proxy_config());
    manager.update_route("r", route("http://a"));
    assert_eq!(client.get_route(handle_get_route("r", &manager)).unwrap().upstream, "http://a");
    assert_eq!(
        client.get_route(handle_get_route("s", &manager)).unwrap_err(),
        "Failed to get route: Route 's' not found"
    );
    assert_eq!(client.get_routes(handle_list_routes(&manager)).unwrap().len(), 1);
    let mut empty = handle_get_config(&manager);
    empty.data = None;
    assert_eq!(client.get_config(empty).unwrap_err(), "No configuration data returned");
    let mut sent = route("http://x");
    sent.is_tcp = true;
    sent.db_type = Some("postgres".to_string());
    let arrived = RouteConfig::from(ConfigClient::route_request(sent));
    assert!(arrived.is_tcp);
    assert_eq!(arrived.db_type, Some("postgres".to_string()));
    let mut tcp = proxy_config().tcp_proxy;
    ConfigClient::tcp_request(&TcpProxyConfig {
        enabled: false,
        listen_addr: "a".to_string(),
        connection_pooling: false,
        max_idle_time_secs: 1,
        udp_enabled: true,
        udp_listen_addr: "b".to_string(),
    })
    .apply_to(&mut tcp);
    assert_eq!(tcp.listen_addr, "a");
    assert!(tcp.udp_enabled);
}

fn api() -> ManagementApi {
    ManagementApi::new(8083, RouterConfig { domains: NameMap::new() })
}

#[test]
fn requests_lead_to_management_actions() {
    let api = api();
    let get = |path: &str| api.create_routes("GET", path);
    assert!(matches!(get("/api/system/status"), Routed::Action(ManagementAction::SystemStatus)));
    assert!(matches!(get("/api/plugins"), Routed::Action(ManagementAction::ListPlugins)));
    assert!(matches!(get("/api/plugins/p"), Routed::Action(ManagementAction::GetPlugin(n)) if n == "p"));
    assert!(matches!(get("/api/health/plugins"), Routed::Action(ManagementAction::PluginHealth)));
    assert!(matches!(get("/api/metrics/prometheus"), Routed::Action(ManagementAction::PrometheusMetrics)));
    assert!(matches!(get("/api/plugins/p/reload"), Routed::MethodNotAllowed));
    assert!(matches!(get("/api/plugins//reload"), Routed::NotFound));
    assert!(matches!(get("/nowhere"), Routed::NotFound));
    assert!(matches!(
        api.create_routes("PUT", "/api/config"),
        Routed::Action(ManagementAction::UpdateConfig)
    ));
    assert!(matches!(
        api.create_routes("DELETE", "/api/routes/x.org"),
        Routed::Action(ManagementAction::DeleteRoute(d)) if d == "x.org"
    ));
    assert!(matches!(
        api.create_routes("POST", "/api/plugins/p/command"),
        Routed::Action(ManagementAction::PluginCommand(_))
    ));
}

#[test]
fn domains_get_and_lose_routes() {
    let mut api = api();
    let req = RouteCreateRequest {
        domain: "x.org".to_string(),
        proxy_instance: "web".to_string(),
        config: None,
    };
    assert_eq!(api.handle_create_route(req).message, "Route created for domain 'x.org'");
    assert_eq!(api.config.domains.get("x.org").unwrap().proxy_instance, "web");
    assert!(api.handle_delete_route("x.org").success);
    let gone = api.handle_delete_route("x.org");
    assert!(!gone.success);
    assert_eq!(gone.message, "Route not found for domain 'x.org'");
}

#[test]
fn answers_carry_a_timestamp() {
    let answer: ApiResponse<()> = ApiResponse::success("done", None);
    assert!(answer.timestamp.contains('T'));
    let answer = handle_reload_plugin("p", Err("gone".to_string()));
    assert_eq!(answer.message, "Failed to reload plugin 'p'");
    assert_eq!(answer.error, Some("gone".to_string()));
    assert_eq!(command_or_status(None), "status");
    assert_eq!(command_or_status(Some("go")), "go");
    let megabyte = get_memory_usage(Some(256));
    assert_eq!(megabyte.numerator as f64 / megabyte.denominator as f64, 1.0);
}

#[test]
fn rejections_have_a_status() {
    let code = |not_found, invalid_body, method_not_allowed| {
        handle_rejection(RejectionReasons { not_found, invalid_body, method_not_allowed }).0
    };
    assert_eq!(code(true, false, false), 404);
    assert_eq!(code(false, true, true), 400);
    assert_eq!(code(false, false, true), 405);
    assert_eq!(code(false, false, false), 500);
}

#[test]
fn health_and_metrics_are_reported() {
    let mut well = PluginHealth::pending("", at(0));
    well.healthy = true;
    let reports = vec![
        ("a".to_string(), Some(well)),
        ("b".to_string(), None),
        ("c".to_string(), Some(PluginHealth::pending("cold", at(0)))),
    ];
    let overall = handle_get_overall_health(&reports).data.unwrap();
    assert!(!overall.healthy);
    assert_eq!(overall.plugins.get("a"), Some(&true));
    assert_eq!(overall.plugins.get("c"), Some(&false));
    assert_eq!(overall.plugins.len(), 2);

    let mut metrics = PluginMetrics::zero(at(0));
    metrics.connections_total = 3;
    metrics.errors_total = 1;
    let mut all = NameMap::new();
    all.insert("p".to_string(), metrics);
    assert_eq!(
        handle_get_prometheus_metrics(&all),
        "# HELP router_plugin_connections_total Total connections for plugin\n\
         # TYPE router_plugin_connections_total counter\n\
         router_plugin_connections_total{plugin=\"p\"} 3\n\
         router_plugin_connections_active{plugin=\"p\"} 0\n\
         router_plugin_bytes_sent_total{plugin=\"p\"} 0\n\
         router_plugin_bytes_received_total{plugin=\"p\"} 0\n\
         router_plugin_errors_total{plugin=\"p\"} 1\n"
    );
}

#[test]
fn the_first_route_serves_tcp() {
    let mut config = proxy_config();
    let mut server = TcpProxyServer::new(&config);
    let start = Instant { nanos: 0 };
    assert_eq!(
        server.handle_connection(&config, start).unwrap_err().message,
        "No routes configured"
    );
    let mut first = route("tcp://db:5432/x");
    first.timeout_ms = None;
    config.routes.insert("r".to_string(), first);
    let plan = server.handle_connection(&config, start).unwrap();
    assert_eq!(plan.target, "db:5432");
    assert_eq!(plan.timeout, Duration::from_millis(5000));
    server.connection_cache.insert("db:5432".to_string(), vec![(4, 0)]);
    let later = Instant { nanos: 59_000_000_000 };
    assert_eq!(server.handle_connection(&config, later).unwrap().reuse, Some(4));
    server.connection_cache.insert("db:5432".to_string(), vec![(5, 0)]);
    server.clean_idle_connections(Instant { nanos: 60_000_000_000 });
    assert!(server.connection_cache.get("db:5432").unwrap().is_empty());
}

#[test]
fn tcp_sides_take_turns() {
    assert_eq!(
        TcpProxyServer::relay(RelayEvent::Read(Side::Client, 5)),
        RelayStep::WriteTo(Side::Server, 5)
    );
    assert_eq!(
        TcpProxyServer::relay(RelayEvent::Written(Side::Server)),
        RelayStep::ReadFrom(Side::Server)
    );
    assert_eq!(TcpProxyServer::relay(RelayEvent::Read(Side::Client, 0)), RelayStep::Stop);
    assert_eq!(
        TcpProxyServer::relay(RelayEvent::ReadTimedOut(Side::Server)),
        RelayStep::StopTimedOut
    );
}

#[test]
fn the_first_udp_route_serves_udp() {
    let mut config = proxy_config();
    let mut server = UdpProxyServer::new();
    let client = AddressId::v4(1, 1);
    config.routes.insert("web".to_string(), route("http://web"));
    assert_eq!(
        server.handle_datagram(&config, client).unwrap_err().message,
        "No UDP route configured"
    );
    let mut dns = route("udp://dns:53");
    dns.is_udp = Some(true);
    config.routes.insert("dns".to_string(), dns);
    let plan = server.handle_datagram(&config, client).unwrap();
    assert_eq!(plan.destination, "dns:53");
    assert_eq!(plan.timeout, Duration::from_millis(100));
    config.routes.remove("dns");
    let plan = server.handle_datagram(&config, client).unwrap();
    assert_eq!(plan.destination, "dns:53");
    assert_eq!(plan.timeout, Duration::from_millis(5000));
    assert_eq!(UdpProxyServer::receive_timeout(&config), Duration::from_millis(5000));
}

#[test]
fn authentication_is_kept() {
    let auth = ApiAuthentication { api_keys: vec!["k".to_string()], basic_auth: None, jwt_secret: None };
    let api = api().with_authentication(auth);
    assert_eq!(api.port, 8083);
    assert_eq!(api.authentication.unwrap().api_keys, vec!["k"]);
}

#[test]
fn version_tells_of_the_build() {
    let told = handle_get_version(Some("2024-05-01"), None);
    assert!(told.success);
    assert_eq!(told.message, "Version information");
    let info = told.data.unwrap();
    assert_eq!(info.version, "0.1.0");
    assert_eq!(info.build_date, "2024-05-01");
    assert_eq!(info.git_hash, "unknown");
}
