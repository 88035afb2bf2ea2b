//! Requests to change the configuration.
use vstd::prelude::*;

use crate::dynamic_config::{copy_option, RouteConfig, TcpProxyConfig};

verus! {

/// A route as it is sent to be created or changed.
#[derive(Debug, Clone)]
pub struct RouteUpdateRequest {
    pub upstream: String,
    pub timeout_ms: Option<u64>,
    pub retry_count: Option<u32>,
    pub priority: Option<i32>,
    pub preserve_host_header: Option<bool>,
    pub is_tcp: Option<bool>,
    pub tcp_listen_port: Option<u16>,
    pub is_udp: Option<bool>,
    pub udp_listen_port: Option<u16>,
    pub db_type: Option<String>,
}

/// The route that a request asks for; it is a TCP route only where the request says so.
pub open spec fn requested_route(req: RouteUpdateRequest) -> RouteConfig {
    RouteConfig {
        upstream: req.upstream,
        timeout_ms: req.timeout_ms,
        retry_count: req.retry_count,
        priority: req.priority,
        preserve_host_header: req.preserve_host_header,
        is_tcp: match req.is_tcp {
            Some(b) => b,
            None => false,
        },
        tcp_listen_port: req.tcp_listen_port,
        is_udp: req.is_udp,
        udp_listen_port: req.udp_listen_port,
        db_type: req.db_type,
    }
}

impl From<RouteUpdateRequest> for RouteConfig {
    fn from(req: RouteUpdateRequest) -> (result: Self) {
        RouteConfig {
            upstream: req.upstream,
            timeout_ms: req.timeout_ms,
            retry_count: req.retry_count,
            priority: req.priority,
            preserve_host_header: req.preserve_host_header,
            is_tcp: match req.is_tcp {
                Some(b) => b,
                None => false,
            },
            tcp_listen_port: req.tcp_listen_port,
            is_udp: req.is_udp,
            udp_listen_port: req.udp_listen_port,
            db_type: req.db_type,
        }
    }
}

impl vstd::std_specs::convert::FromSpecImpl<RouteUpdateRequest> for RouteConfig {
    open spec fn obeys_from_spec() -> bool {
        true
    }

    open spec fn from_spec(req: RouteUpdateRequest) -> Self {
        requested_route(req)
    }
}

/// Settings of the TCP proxy as they are sent to be changed; those that are not given stay.
#[derive(Debug, Clone)]
pub struct TcpConfigUpdateRequest {
    pub enabled: Option<bool>,
    pub listen_addr: Option<String>,
    pub connection_pooling: Option<bool>,
    pub max_idle_time_secs: Option<u64>,
    pub udp_enabled: Option<bool>,
    pub udp_listen_addr: Option<String>,
}

/// The value that is given, or else the one that was there.
pub open spec fn given_or<T>(given: Option<T>, there: T) -> T {
    match given {
        Some(v) => v,
        None => there,
    }
}

/// The settings after a request.
pub open spec fn requested_tcp(req: TcpConfigUpdateRequest, config: TcpProxyConfig) ->
    TcpProxyConfig {
    TcpProxyConfig {
        enabled: given_or(req.enabled, config.enabled),
        listen_addr: given_or(req.listen_addr, config.listen_addr),
        connection_pooling: given_or(req.connection_pooling, config.connection_pooling),
        max_idle_time_secs: given_or(req.max_idle_time_secs, config.max_idle_time_secs),
        udp_enabled: given_or(req.udp_enabled, config.udp_enabled),
        udp_listen_addr: given_or(req.udp_listen_addr, config.udp_listen_addr),
    }
}

impl TcpConfigUpdateRequest {
    /// Changes the settings that are given.
    pub fn apply_to(&self, config: &mut TcpProxyConfig)
        ensures
            *final(config) == requested_tcp(*self, *old(config)),
    {
        if let Some(enabled) = self.enabled {
            config.enabled = enabled;
        }
        if let Some(listen_addr) = copy_option(&self.listen_addr) {
            config.listen_addr = listen_addr;
        }
        if let Some(connection_pooling) = self.connection_pooling {
            config.connection_pooling = connection_pooling;
        }
        if let Some(max_idle_time_secs) = self.max_idle_time_secs {
            config.max_idle_time_secs = max_idle_time_secs;
        }
        if let Some(udp_enabled) = self.udp_enabled {
            config.udp_enabled = udp_enabled;
        }
        if let Some(udp_listen_addr) = copy_option(&self.udp_listen_addr) {
            config.udp_listen_addr = udp_listen_addr;
        }
    }
}

/// Settings of the proxy as they are sent to be changed; those that are not given stay.
#[derive(Debug, Clone)]
pub struct GlobalSettingsUpdateRequest {
    pub listen_addr: Option<String>,
    pub global_timeout_ms: Option<u64>,
    pub max_connections: Option<usize>,
}

/// Applying the same request a second time changes nothing more.
pub proof fn law_tcp_update_is_idempotent(req: TcpConfigUpdateRequest, config: TcpProxyConfig)
    ensures
        requested_tcp(req, requested_tcp(req, config)) == requested_tcp(req, config),
{
}

/// A TCP setting that is given takes the place of the one that was there; the others stay.
pub proof fn law_tcp_settings_that_are_given_change(
    req: TcpConfigUpdateRequest,
    config: TcpProxyConfig,
)
    ensures
        ({
            let after = requested_tcp(req, config);
            &&& req.enabled is Some ==> Some(after.enabled) == req.enabled
            &&& req.enabled is None ==> after.enabled == config.enabled
            &&& req.listen_addr is Some ==> Some(after.listen_addr) == req.listen_addr
            &&& req.listen_addr is None ==> after.listen_addr == config.listen_addr
            &&& req.connection_pooling is Some ==> Some(after.connection_pooling)
                == req.connection_pooling
            &&& req.connection_pooling is None ==> after.connection_pooling
                == config.connection_pooling
            &&& req.max_idle_time_secs is Some ==> Some(after.max_idle_time_secs)
                == req.max_idle_time_secs
            &&& req.max_idle_time_secs is None ==> after.max_idle_time_secs
                == config.max_idle_time_secs
            &&& req.udp_enabled is Some ==> Some(after.udp_enabled) == req.udp_enabled
            &&& req.udp_enabled is None ==> after.udp_enabled == config.udp_enabled
            &&& req.udp_listen_addr is Some ==> Some(after.udp_listen_addr) == req.udp_listen_addr
            &&& req.udp_listen_addr is None ==> after.udp_listen_addr == config.udp_listen_addr
        }),
{
}

/// A route is as it was asked for, field by field, and for TCP only where that was asked for.
pub proof fn law_routes_are_as_requested(req: RouteUpdateRequest)
    ensures
        ({
            let route = requested_route(req);
            &&& route.upstream == req.upstream
            &&& route.timeout_ms == req.timeout_ms
            &&& route.retry_count == req.retry_count
            &&& route.priority == req.priority
            &&& route.preserve_host_header == req.preserve_host_header
            &&& route.is_tcp <==> req.is_tcp == Some(true)
            &&& route.tcp_listen_port == req.tcp_listen_port
            &&& route.is_udp == req.is_udp
            &&& route.udp_listen_port == req.udp_listen_port
            &&& route.db_type == req.db_type
        }),
{
}

} // verus!
