//! A modular reverse proxy: routing, load balancing, health tracking and configuration.
pub mod address;
pub mod affinity;
pub mod buffers;
pub mod builtin_plugins;
pub mod client;
pub mod config;
pub mod config_api;
pub mod dynamic_config;
pub mod error;
pub mod hash_ring;
pub mod headers;
pub mod management_api;
pub mod metrics;
pub mod modern_router;
pub mod name_map;
pub mod new_config;
pub mod plugin;
pub mod proxies;
pub mod proxy;
pub mod router;
pub mod routing;
pub mod server;
pub mod startup;
pub mod tcp_proxy;
pub mod text;
pub mod time;
pub mod udp_proxy;

pub use config::Config;
pub use error::{Error, Result};
pub use router::Router;
pub use startup::{DEFAULT_CONFIG_FILE, MAX_PROXY_INSTANCES, VERSION};
