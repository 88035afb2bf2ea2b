use harbr_router::address::{AddressId, SocketAddress};
use harbr_router::name_map::NameMap;
use harbr_router::plugin::domains::find_for_domain;
use harbr_router::plugin::loader::{LoaderConfig, PluginLoader, PluginScanner};
use harbr_router::plugin::manager::{
    handle_router_event, EventBus, EventData, EventHandling, HealthMonitor, LogLevel,
    PluginManager, PluginManagerConfig,
};
use harbr_router::plugin::registry::{
    get_aggregated_metrics, EventRouter, MetricsAggregator, PluginRegistry,
};
use harbr_router::plugin::utils::{
    create_connection_context, extract_domain, generate_connection_id, parse_query_params,
    record_param,
};
use harbr_router::plugin::{
    DomainMatcher, PluginConfig, PluginHealth, PluginInfo, PluginMetrics, RouterEvent,
    SimpleDomainMatcher,
};
use harbr_router::routing::Ratio;
use harbr_router::time::SystemTime;

fn now() -> SystemTime {
    SystemTime { secs: 1000, nanos: 5 }
}

fn plugin_config(name: &str, ports: Vec<u16>, domains: Vec<&str>) -> PluginConfig {
    PluginConfig {
        name: name.to_string(),
        enabled: true,
        priority: 0,
        bind_ports: ports,
        bind_addresses: vec![],
        domains: domains.iter().map(|d| d.to_string()).collect(),
        config: "{}".to_string(),
        middleware_chain: vec![],
        load_balancing: None,
        health_check: None,
    }
}

fn info(name: &str, version: &str) -> PluginInfo {
    PluginInfo {
        name: name.to_string(),
        version: version.to_string(),
        description: String::new(),
        author: String::new(),
        license: String::new(),
        repository: None,
        min_router_version: String::new(),
        config_schema: None,
        dependencies: vec![],
        tags: vec![],
    }
}

fn metrics(total: u64, active: u64, errors: u64) -> PluginMetrics {
    let mut m = PluginMetrics::zero(now());
    m.connections_total = total;
    m.connections_active = active;
    m.errors_total = errors;
    m
}

fn register(r: &mut PluginRegistry, name: &str, ports: Vec<u16>, domains: Vec<&str>) -> Result<(), String> {
    r.register_plugin(name.to_string(), 1, plugin_config(name, ports, domains), now())
}

#[test]
fn patterns_match_domains() {
    let matcher = SimpleDomainMatcher {
        patterns: vec!["*.example.com".to_string(), "exact.org".to_string()],
        priority: 4,
    };
    assert!(matcher.matches("www.example.com", "/"));
    assert!(matcher.matches("example.com", "/"));
    assert!(matcher.matches("exact.org", "/"));
    assert!(!matcher.matches("www.exact.org", "/"));
    assert_eq!(matcher.priority(), 4);
}

#[test]
fn plugins_are_registered_and_unregistered() {
    let mut registry = PluginRegistry::new();
    assert!(register(&mut registry, "a", vec![80, 443], vec!["x.org", "*.y.org"]).is_ok());
    assert_eq!(registry.find_plugin_for_port(443), Some("a".to_string()));
    assert_eq!(registry.find_plugins_for_domain("x.org", "/"), vec!["a"]);
    assert_eq!(registry.find_plugins_for_domain("w.y.org", "/"), vec!["a"]);
    assert_eq!(registry.get_plugin("a"), Some(1));

    let event = registry.unregister_plugin("a", Ok(())).unwrap();
    assert!(matches!(event, RouterEvent::PluginStopped(n) if n == "a"));
    assert_eq!(registry.find_plugin_for_port(443), None);
    assert!(registry.find_plugins_for_domain("x.org", "/").is_empty());
    assert!(registry.domain_mappings.entries.is_empty());
    assert!(registry.get_plugin_config("a").is_none());
    assert_eq!(registry.get_plugin("a"), None);
}

#[test]
fn refused_plugins_change_nothing() {
    let mut registry = PluginRegistry::new();
    register(&mut registry, "a", vec![80], vec![]).unwrap();
    assert_eq!(
        register(&mut registry, "a", vec![81], vec![]).unwrap_err(),
        "Plugin 'a' is already registered"
    );
    assert_eq!(
        register(&mut registry, "b", vec![79, 80], vec!["b.org"]).unwrap_err(),
        "Port 80 is already in use by plugin 'a'"
    );
    assert_eq!(
        register(&mut registry, "b", vec![], vec![]).unwrap_err(),
        "Plugin must bind to at least one port or handle at least one domain"
    );
    assert_eq!(register(&mut registry, "b", vec![0], vec![]).unwrap_err(), "Invalid port: 0");
    assert_eq!(register(&mut registry, "b", vec![], vec![""]).unwrap_err(), "Empty domain pattern");
    let mismatch = registry.register_plugin("b".to_string(), 2, plugin_config("c", vec![1], vec![]), now());
    assert_eq!(mismatch.unwrap_err(), "Plugin name mismatch");
    assert_eq!(registry.list_plugins(), vec!["a"]);
    assert_eq!(registry.find_plugin_for_port(79), None);
    assert!(registry.find_plugins_for_domain("b.org", "/").is_empty());
}

#[test]
fn found_plugins_are_in_order_and_unique() {
    let mut registry = PluginRegistry::new();
    register(&mut registry, "zeta", vec![], vec!["a.org", "*.org"]).unwrap();
    register(&mut registry, "alpha", vec![], vec!["*.a.org"]).unwrap();
    register(&mut registry, "beta", vec![], vec!["a.org", "a.org"]).unwrap();
    assert_eq!(registry.find_plugins_for_domain("a.org", "/"), vec!["alpha", "beta", "zeta"]);
    assert_eq!(registry.find_plugins_for_domain("b.org", "/"), vec!["zeta"]);
    assert_eq!(find_for_domain(&registry.domain_mappings, "c.net"), Vec::<String>::new());
}

#[test]
fn plugins_start_and_stop() {
    let mut registry = PluginRegistry::new();
    register(&mut registry, "a", vec![80], vec![]).unwrap();
    assert_eq!(registry.start_plugin("x", Ok(()), Ok(())).unwrap_err(), "Plugin 'x' not found");
    assert_eq!(registry.start_plugin("a", Err("no".to_string()), Ok(())).unwrap_err(), "no");
    assert!(matches!(registry.start_plugin("a", Ok(()), Ok(())), Ok(RouterEvent::PluginStarted(_))));
    assert!(registry.plugins.get("a").unwrap().running);
    assert!(registry.stop_plugin("a", Err("stuck".to_string())).is_err());
    assert!(!registry.plugins.get("a").unwrap().running);
    assert_eq!(registry.unregister_plugin("a", Err("stuck".to_string())).unwrap_err(), "stuck");
    assert_eq!(registry.find_plugin_for_port(80), Some("a".to_string()));
    registry.start_plugin("a", Ok(()), Ok(())).unwrap();
    assert_eq!(registry.shutdown_all(), vec!["a"]);
    assert!(!registry.plugins.get("a").unwrap().running);
}

#[test]
fn configurations_are_updated() {
    let mut registry = PluginRegistry::new();
    register(&mut registry, "a", vec![80], vec![]).unwrap();
    let refused = registry.update_plugin_config("a", plugin_config("b", vec![1], vec![]), Ok(()));
    assert_eq!(refused.unwrap_err(), "Plugin name mismatch");
    let failed = registry.update_plugin_config(
        "a",
        plugin_config("a", vec![81], vec![]),
        Err("plugin refuses".to_string()),
    );
    assert_eq!(failed.unwrap_err(), "plugin refuses");
    assert_eq!(registry.get_plugin_config("a").unwrap().bind_ports, vec![80]);
    registry.update_plugin_config("a", plugin_config("a", vec![81], vec![]), Ok(())).unwrap();
    assert_eq!(registry.get_plugin_config("a").unwrap().bind_ports, vec![81]);
    assert!(registry.send_event_to_plugin("a", Ok(())).is_ok());
    assert_eq!(
        registry.send_event_to_plugin("a", Err("closed".to_string())).unwrap_err(),
        "Failed to send event: closed"
    );
    assert!(registry.send_event_to_plugin("b", Ok(())).is_err());
}

#[test]
fn events_go_to_subscribers() {
    let mut router = EventRouter::new();
    router.subscribe("p".to_string(), "t".to_string());
    router.subscribe("q".to_string(), "t".to_string());
    assert_eq!(router.get_subscribers("t"), vec!["p", "q"]);
    router.unsubscribe("p", "t");
    router.unsubscribe("p", "unknown");
    assert_eq!(router.get_subscribers("t"), vec!["q"]);
    assert!(router.get_subscribers("u").is_empty());
}

#[test]
fn metrics_add_up() {
    let all = get_aggregated_metrics(vec![
        ("a".to_string(), Some(metrics(3, 1, 0))),
        ("b".to_string(), None),
        ("c".to_string(), Some(metrics(4, 2, 5))),
    ]);
    let sums = MetricsAggregator::new().aggregate_metrics(&all);
    assert_eq!(sums.total_connections, 7);
    assert_eq!(sums.total_errors, 5);
    assert_eq!(sums.plugin_count, 2);
}

#[test]
fn domains_are_extracted_from_headers() {
    let mut headers = NameMap::new();
    assert_eq!(extract_domain(&headers), None);
    headers.insert("SERVER_NAME".to_string(), "c.org".to_string());
    assert_eq!(extract_domain(&headers), Some("c.org".to_string()));
    headers.insert("Host".to_string(), "b.org:80".to_string());
    assert_eq!(extract_domain(&headers), Some("b.org".to_string()));
    headers.insert("host".to_string(), "a.org:8080:1".to_string());
    assert_eq!(extract_domain(&headers), Some("a.org".to_string()));
}

#[test]
fn query_parameters_are_decoded() {
    let params = parse_query_params("a=1&b=x%20y&novalue&c=p=q&a=2&d=%FF");
    assert_eq!(params.get("a").unwrap(), "2");
    assert_eq!(params.get("b").unwrap(), "x y");
    assert_eq!(params.get("c").unwrap(), "p=q");
    assert_eq!(params.get("d").unwrap(), "");
    assert!(!params.contains_key("novalue"));
    let mut own = NameMap::new();
    record_param(&mut own, None, Some("v".to_string()));
    assert_eq!(own.get("").unwrap(), "v");
}

#[test]
fn connections_have_ids() {
    assert_eq!(generate_connection_id(now()), "conn-1000-5");
    let addr = SocketAddress { id: AddressId::v4(1, 2), text: "0.0.0.1:2".to_string() };
    let context = create_connection_context(addr.copy(), addr, NameMap::new(), now());
    assert_eq!(context.connection_id, "conn-1000-5");
    assert_eq!(context.created_at, now());
}

#[test]
fn plugin_files_are_checked() {
    let loader = PluginLoader::new(LoaderConfig { max_plugin_memory_mb: 1, ..Default::default() });
    assert!(loader.validate_plugin_file("p.so", true, &Ok(1_048_576)).is_ok());
    assert_eq!(
        loader.validate_plugin_file("p.so", true, &Ok(1_048_577)).unwrap_err(),
        "Plugin file too large: 1048577 bytes (max: 1048576 bytes)"
    );
    assert_eq!(
        loader.validate_plugin_file("p.so", false, &Ok(1)).unwrap_err(),
        "Plugin file does not exist: p.so"
    );
    assert_eq!(
        loader.validate_plugin_file("p.txt", true, &Ok(1)).unwrap_err(),
        "Invalid plugin file extension: p.txt"
    );
    assert_eq!(
        loader.validate_plugin_file("p.so", true, &Err("x".to_string())).unwrap_err(),
        "Failed to get metadata for: p.so"
    );
}

#[test]
fn plugins_are_accepted_by_name_and_version() {
    let mut config = LoaderConfig::default();
    config.blocked_plugins.push("bad".to_string());
    let loader = PluginLoader::new(config.clone());
    assert!(loader.accept(&info("p", "1.0")).is_ok());
    assert_eq!(loader.accept(&info("", "1.0")).unwrap_err(), "Plugin name cannot be empty");
    assert_eq!(loader.accept(&info("p", "")).unwrap_err(), "Plugin version cannot be empty");
    assert_eq!(loader.accept(&info("p", "one")).unwrap_err(), "Invalid version format: one");
    assert_eq!(loader.accept(&info("bad", "1")).unwrap_err(), "Plugin 'bad' is not allowed");
    config.allowed_plugins = Some(vec!["p".to_string(), "bad".to_string()]);
    let strict = PluginLoader::new(config);
    assert!(strict.is_plugin_allowed("p"));
    assert!(!strict.is_plugin_allowed("q"));
    assert!(!strict.is_plugin_allowed("bad"));
}

#[test]
fn plugins_are_loaded_watched_and_unloaded() {
    let mut loader = PluginLoader::new(LoaderConfig { auto_reload: true, ..Default::default() });
    let name = loader.load_plugin(info("p", "1.2"), "d/p.so", 7, &b"abc".to_vec(), 3, now()).unwrap();
    assert_eq!(name, "p");
    let loaded = loader.get_loaded_plugin("p").unwrap();
    assert_eq!(loaded.library_handle, "p_1.2");
    assert_eq!(
        loaded.file_hash,
        "ba7816bf8f01cfea414140de5dae2223b00361a396177a9cb410ff61f20015ad"
    );
    let files = loader.start_auto_reload();
    assert_eq!(files.len(), 1);
    assert_eq!(loader.file_changed(&files[0].1, &b"abc".to_vec()), None);
    assert!(loader.file_changed(&files[0].1, &b"abd".to_vec()).is_some());
    assert_eq!(loader.watcher_started("d/p.so".to_string(), 9), None);
    let stats = loader.get_statistics();
    assert_eq!(stats.total_plugins, 1);
    assert_eq!(stats.total_file_size_bytes, 3);
    assert_eq!(stats.active_watchers, 1);
    let released = loader.unload_plugin("p").unwrap();
    assert_eq!(released.library, Some(7));
    assert_eq!(released.watcher, Some(9));
    assert_eq!(loader.unload_plugin("p").unwrap_err(), "Plugin 'p' is not loaded");
    loader.shutdown();
    assert_eq!(loader.get_loaded_plugins().len(), 0);
}

#[test]
fn the_scanner_finds_libraries() {
    let scanner = PluginScanner::new(vec!["d".to_string()]);
    let files = vec!["d/a.so".to_string(), "d/b.txt".to_string(), "d/c.dll".to_string()];
    assert_eq!(scanner.scan(&files), vec!["d/a.so", "d/c.dll"]);
    assert!(scanner.is_plugin_file("x.dylib"));
}

#[test]
fn the_manager_starts_once() {
    let mut manager = PluginManager::new(PluginManagerConfig::default());
    assert!(manager.start().is_ok());
    assert!(manager.running && manager.health_monitor.running && manager.metrics_collector.running);
    assert_eq!(manager.start().unwrap_err(), "Event processor already started");
    assert!(manager.stop().is_empty());
    assert!(!manager.running);
}

#[test]
fn the_manager_loads_routes_and_unloads() {
    let mut manager = PluginManager::new(PluginManagerConfig::default());
    manager.loader.load_plugin(info("p", "1"), "p.so", 7, &vec![], 0, now()).unwrap();
    let config = plugin_config("p", vec![80], vec!["p.org"]);
    let name = manager.load_plugin_from_path(Ok(("p".to_string(), 4)), Some(config), now()).unwrap();
    assert_eq!(name, "p");
    assert_eq!(manager.route_request("p.org", "/").unwrap(), vec!["p"]);
    assert_eq!(
        manager.route_request("q.org", "/").unwrap_err(),
        "No plugin found for domain: q.org"
    );
    assert_eq!(manager.execute_plugin_command("p"), Ok(4));
    let (path, config) = manager.reload_source("p").unwrap();
    assert_eq!(path, "p.so");
    assert_eq!(config.unwrap().domains, vec!["p.org"]);
    assert_eq!(manager.unload_plugin("p", Ok(()), Ok(())).unwrap().library, Some(7));
    assert!(manager.unload_plugin("p", Ok(()), Ok(())).is_err());
    assert_eq!(manager.reload_source("p").unwrap_err(), "Cannot find plugin file for 'p'");
}

#[test]
fn router_events_are_published_or_logged() {
    match handle_router_event(RouterEvent::PluginStarted("p".to_string())) {
        EventHandling::Publish { event_type, data: EventData::Name(n) } => {
            assert_eq!(event_type, "plugin.started");
            assert_eq!(n, "p");
        }
        _ => panic!("not published"),
    }
    let custom = RouterEvent::CustomEvent { plugin_name: "p".to_string(), event: "{}".to_string() };
    assert!(matches!(
        handle_router_event(custom),
        EventHandling::Publish { event_type, .. } if event_type == "plugin.p.custom"
    ));
    let log = RouterEvent::LogMessage {
        plugin_name: "p".to_string(),
        level: "warn".to_string(),
        message: "hot".to_string(),
    };
    match handle_router_event(log) {
        EventHandling::Log { level, message } => {
            assert_eq!(level, LogLevel::Warn);
            assert_eq!(message, "[p] hot");
        }
        _ => panic!("not logged"),
    }
}

#[test]
fn the_bus_delivers_to_listeners() {
    let mut bus = EventBus::new();
    bus.subscribe("t", 3);
    bus.subscribe("t", 1);
    bus.subscribe("u", 9);
    assert_eq!(bus.publish("t"), vec![3, 1]);
    assert!(bus.publish("v").is_empty());
    let sick = PluginHealth::pending("cold", now());
    assert_eq!(
        HealthMonitor::warning("p", &sick),
        Some("Plugin 'p' is unhealthy: cold".to_string())
    );
}

#[test]
fn managers_keep_statistics() {
    let mut manager = PluginManager::new(PluginManagerConfig::default());
    register(&mut manager.registry, "a", vec![1], vec![]).unwrap();
    let mut all = NameMap::new();
    all.insert("a".to_string(), metrics(10, 4, 2));
    let stats = manager.get_statistics(&all);
    assert_eq!(stats.total_plugins, 1);
    assert_eq!(stats.total_connections, 4);
    assert_eq!(stats.total_requests, 10);
    assert_eq!(stats.total_errors, 2);
}

#[test]
fn all_plugins_that_are_loaded_are_registered() {
    let mut manager = PluginManager::new(PluginManagerConfig::default());
    let loaded = vec![("p".to_string(), 4), ("q".to_string(), 5), ("p".to_string(), 6)];
    let outcomes = manager.load_all_plugins(loaded, now());
    assert_eq!(outcomes[0], Ok("p".to_string()));
    assert_eq!(outcomes[1], Ok("q".to_string()));
    assert_eq!(outcomes[2], Err("Plugin 'p' is already registered".to_string()));
    let mut names = manager.registry.list_plugins();
    names.sort();
    assert_eq!(names, vec!["p", "q"]);
    assert_eq!(manager.registry.get_plugin("p"), Some(4));
    let config = manager.registry.get_plugin_config("q").unwrap();
    assert!(config.enabled && config.bind_ports.is_empty() && config.domains.is_empty());
    assert_eq!(config.config, "{}");
    let alone = manager.load_plugin_from_path(Ok(("r".to_string(), 7)), None, now());
    assert_eq!(alone, Ok("r".to_string()));
}

#[test]
fn a_given_configuration_needs_a_port_or_a_domain() {
    let mut manager = PluginManager::new(PluginManagerConfig::default());
    let config = plugin_config("p", vec![], vec![]);
    let refused = manager.load_plugin_from_path(Ok(("p".to_string(), 4)), Some(config), now());
    assert_eq!(
        refused.unwrap_err(),
        "Plugin must bind to at least one port or handle at least one domain"
    );
    assert!(manager.registry.list_plugins().is_empty());
}

#[test]
fn a_reload_gives_the_configuration_back() {
    let mut manager = PluginManager::new(PluginManagerConfig::default());
    for name in ["p", "q"] {
        let path = format!("{}.so", name);
        manager.loader.load_plugin(info(name, "1"), &path, 7, &vec![], 0, now()).unwrap();
    }
    let config = plugin_config("p", vec![80], vec!["p.org"]);
    manager.load_plugin_from_path(Ok(("p".to_string(), 4)), Some(config), now()).unwrap();
    manager.load_all_plugins(vec![("q".to_string(), 5)], now());
    for name in ["p", "q"] {
        let (path, config) = manager.reload_source(name).unwrap();
        manager.unload_plugin(name, Ok(()), Ok(())).unwrap();
        assert_eq!(manager.registry.get_plugin(name), None);
        manager.loader.load_plugin(info(name, "1"), &path, 8, &vec![], 0, now()).unwrap();
        let restored = manager.restore_plugin(Ok((name.to_string(), 9)), config, now());
        assert_eq!(restored, Ok(name.to_string()));
        assert_eq!(manager.registry.get_plugin(name), Some(9));
    }
    let config = manager.registry.get_plugin_config("p").unwrap();
    assert_eq!(config.bind_ports, vec![80]);
    assert_eq!(config.domains, vec!["p.org"]);
    assert_eq!(manager.registry.find_plugin_for_port(80), Some("p".to_string()));
    assert_eq!(manager.route_request("p.org", "/").unwrap(), vec!["p"]);
    assert!(manager.registry.get_plugin_config("q").unwrap().bind_ports.is_empty());
}

#[test]
fn reports_of_plugins_are_kept() {
    let mut manager = PluginManager::new(PluginManagerConfig::default());
    manager.load_all_plugins(vec![("p".to_string(), 4)], now());
    let mut counted = PluginMetrics::zero(now());
    counted.errors_total = 3;
    counted.custom_metrics.insert("m".to_string(), Ratio { numerator: 1, denominator: 2 });
    let events = manager.registry.plugin_reported("p", None, Some(counted));
    assert!(events.0.is_none());
    match events.1 {
        Some(RouterEvent::MetricsUpdated { plugin_name, metrics }) => {
            assert_eq!(plugin_name, "p");
            assert_eq!(metrics.errors_total, 3);
            assert_eq!(metrics.custom_metrics.get("m").unwrap().denominator, 2);
        }
        _ => panic!("no event"),
    }
    let health = PluginHealth::pending("fine", now());
    match manager.registry.plugin_reported("p", Some(health), None).0 {
        Some(RouterEvent::HealthUpdated { plugin_name, health }) => {
            assert_eq!(plugin_name, "p");
            assert_eq!(health.message, "fine");
        }
        _ => panic!("no event"),
    }
    let unknown = manager.registry.plugin_reported("q", None, Some(PluginMetrics::zero(now())));
    assert!(unknown.0.is_none() && unknown.1.is_none());
    let kept = manager.registry.plugins.get("p").unwrap().context.metrics.errors_total;
    assert_eq!(kept, 3);
}
