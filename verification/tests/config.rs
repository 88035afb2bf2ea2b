use harbr_router::address::{AddressId, SocketAddress};
use harbr_router::buffers::{
    buffer_size, get_buffer, get_large_buffer, get_medium_buffer, get_small_buffer,
};
use harbr_router::config::{
    Config, ConfigFormat, GlobalConfig, ProxyInstanceConfig, ProxySpecificConfig, ProxyType,
    UpstreamConfig,
};
use harbr_router::error::{Error, IoErrorKind, NetworkErrorKind};

fn localhost(port: u16) -> SocketAddress {
    SocketAddress { id: AddressId::v4(0x7f00_0001, port), text: format!("127.0.0.1:{}", port) }
}

fn upstream(name: &str) -> UpstreamConfig {
    UpstreamConfig {
        name: name.to_string(),
        address: "127.0.0.1:8081".to_string(),
        weight: 1,
        priority: 0,
        timeout_ms: 5000,
        retry: Default::default(),
        health_check: None,
        tls: None,
    }
}

fn instance(name: &str, port: u16) -> ProxyInstanceConfig {
    ProxyInstanceConfig {
        name: name.to_string(),
        proxy_type: ProxyType::Http,
        listen_addr: localhost(port),
        upstreams: vec![upstream("u")],
        config: ProxySpecificConfig::default(),
    }
}

fn config(instances: Vec<ProxyInstanceConfig>) -> Config {
    Config { global: GlobalConfig::default(), proxy_instances: instances }
}

fn refusal(mut c: Config) -> String {
    c.validate().unwrap_err().text()
}

#[test]
fn a_valid_configuration_is_accepted() {
    assert!(config(vec![]).validate().is_ok());
    assert!(config(vec![instance("a", 1), instance("b", 2)]).validate().is_ok());
    assert!(Config::from_parsed(config(vec![instance("a", 1)])).is_ok());
}

#[test]
fn each_fault_is_named() {
    assert!(refusal(config(vec![instance("a", 1), instance("a", 2)])).contains("a"));
    assert!(config(vec![instance("a", 1), instance("b", 1)]).validate().is_err());
    let mut nameless = instance("", 1);
    nameless.upstreams[0].name = "u".to_string();
    assert!(config(vec![nameless]).validate().is_err());
    let mut portless = instance("a", 1);
    portless.upstreams[0].address = "localhost".to_string();
    assert_eq!(
        refusal(config(vec![portless])),
        "Configuration error: Upstream 'u' address must include port (e.g., 'host:port')"
    );
    let mut weightless = instance("a", 1);
    weightless.upstreams[0].weight = 0;
    assert_eq!(
        refusal(config(vec![weightless])),
        "Configuration error: Upstream 'u' weight must be greater than 0"
    );
    let mut hasty = instance("a", 1);
    hasty.upstreams[0].timeout_ms = 0;
    assert_eq!(
        refusal(config(vec![hasty])),
        "Configuration error: Upstream 'u' timeout must be greater than 0"
    );
    let mut loud = config(vec![instance("a", 1)]);
    loud.global.logging.level = "shout".to_string();
    assert!(loud.validate().is_err());
}

#[test]
fn instances_are_found_by_name_and_type() {
    let mut tcp = instance("b", 2);
    tcp.proxy_type = ProxyType::Tcp;
    let c = config(vec![instance("a", 1), tcp]);
    assert_eq!(c.get_instance("b").unwrap().listen_addr.text, "127.0.0.1:2");
    assert!(c.get_instance("c").is_none());
    let found = c.instances_by_type(ProxyType::Tcp);
    assert_eq!(found.len(), 1);
    assert_eq!(found[0].name, "b");
}

#[test]
fn formats_go_by_the_extension() {
    assert_eq!(ConfigFormat::of_extension(Some("yml")).unwrap(), ConfigFormat::Yaml);
    assert_eq!(ConfigFormat::of_extension(Some("yaml")).unwrap(), ConfigFormat::Yaml);
    assert_eq!(ConfigFormat::of_extension(Some("json")).unwrap(), ConfigFormat::Json);
    assert_eq!(ConfigFormat::of_extension(Some("toml")).unwrap(), ConfigFormat::Toml);
    assert!(ConfigFormat::of_extension(Some("ini")).is_err());
    assert!(ConfigFormat::of_extension(None).is_err());
}

#[test]
fn errors_are_written_out() {
    assert_eq!(Error::config("bad").text(), "Configuration error: bad");
    assert_eq!(
        Error::config_with_source("bad", "io").text(),
        "Configuration error: bad (source: io)"
    );
    assert_eq!(
        Error::network("slow", NetworkErrorKind::Timeout).text(),
        "Network error (timeout): slow"
    );
    assert!(Error::proxy("m", "http", "i").is_proxy());
    assert!(Error::resource("m", "pool").is_resource());
    assert!(Error::internal("m").is_internal());
    assert!(Error::internal_with_context("m", "c").text().contains("c"));
    assert!(Error::from_io(IoErrorKind::TimedOut, "late").is_network());
    assert!(Error::from_yaml("x").is_config());
    assert!(Error::from_json("x").is_config());
    assert!(Error::from_toml("x").is_config());
    assert!(Error::from_address("x").is_config() || Error::from_address("x").is_network());
}

#[test]
fn buffers_come_in_classes() {
    assert_eq!(buffer_size(1), 1024);
    assert_eq!(buffer_size(1025), 4096);
    assert_eq!(buffer_size(65536), 65536);
    assert_eq!(buffer_size(65537), 131072);
    assert_eq!(get_small_buffer().len(), 0);
    assert!(get_buffer(5000).capacity() >= 8192);
    assert!(get_small_buffer().capacity() >= 4096);
    assert!(get_medium_buffer().capacity() >= 16384);
    assert!(get_large_buffer().capacity() >= 65536);
}
