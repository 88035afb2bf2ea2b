//! Proxy implementations for different protocols, and the manager that knows them all.
pub mod http;
pub mod tcp;
pub mod udp;
pub mod utils;

use vstd::prelude::*;

use crate::config::{ProxyInstanceConfig, ProxyType};
use crate::error::{config_error, fails_by, Error, ErrorView, Result};
use crate::proxy::http::{http_fault, HttpProxy};
use crate::proxy::tcp::{pool_in, tcp_fault, TcpProxy, TcpProxyMetrics};
use crate::proxy::udp::{udp_fault, AddressKey, UdpProxy, UdpProxyMetrics, UdpSession};
use crate::routing::{HealthState, Ratio};
use crate::text;

verus! {

broadcast use vstd::string::group_string_axioms;

/// Metrics collected by proxy implementations.
#[derive(Debug, Clone, Copy, PartialEq, Eq, Structural)]
pub struct ProxyMetrics {
    /// Total requests/connections handled
    pub total_requests: u64,
    /// Currently active connections
    pub active_connections: u64,
    /// Total bytes sent
    pub bytes_sent: u64,
    /// Total bytes received
    pub bytes_received: u64,
    /// Request rate (requests per second)
    pub request_rate: Ratio,
    /// Error rate (0 to 1)
    pub error_rate: Ratio,
    /// Average response time in milliseconds
    pub avg_response_time_ms: Ratio,
}

/// Health check result for a proxy.
#[derive(Debug, Clone)]
pub struct ProxyHealth {
    /// Current health state
    pub status: HealthState,
    /// Human-readable health message
    pub message: String,
}

/// Manager for proxy instances.
pub struct ProxyManager {
    /// The proxy for HTTP
    pub http: HttpProxy,
    /// The proxy for TCP
    pub tcp: TcpProxy,
    /// The proxy for UDP
    pub udp: UdpProxy,
    /// Whether the proxies were told to stop
    pub stopping: bool,
}

/// The name of a proxy type.
pub open spec fn type_text(proxy_type: ProxyType) -> Seq<char> {
    match proxy_type {
        ProxyType::Http => "Http"@,
        ProxyType::Tcp => "Tcp"@,
        ProxyType::Udp => "Udp"@,
    }
}

/// The name of a proxy type.
pub fn name_of_type(proxy_type: ProxyType) -> (result: String)
    ensures
        result@ == type_text(proxy_type),
{
    match proxy_type {
        ProxyType::Http => "Http".to_string(),
        ProxyType::Tcp => "Tcp".to_string(),
        ProxyType::Udp => "Udp".to_string(),
    }
}

/// The first thing that keeps an instance from being served: it has no upstream, or the proxy of its
/// type refuses it.
pub open spec fn instance_fault(config: ProxyInstanceConfig) -> Option<ErrorView> {
    if config.upstreams@.len() == 0 {
        Some(
            config_error("Proxy instance '"@ + config.name@ + "' must have at least one upstream"@),
        )
    } else {
        match config.proxy_type {
            ProxyType::Http => http_fault(config),
            ProxyType::Tcp => tcp_fault(config),
            ProxyType::Udp => udp_fault(config),
        }
    }
}

/// The health that is reported for the outcome of a health check.
pub open spec fn reported(check: Result<ProxyHealth>, health: ProxyHealth) -> bool {
    match check {
        Ok(h) => health == h,
        Err(e) => health.status == HealthState::Unhealthy && health.message@
            == "Health check failed: "@ + crate::error::error_text(e@),
    }
}

/// The health to report for the outcome of a health check: one that fails makes a proxy unhealthy.
pub fn report_health(check: Result<ProxyHealth>) -> (result: ProxyHealth)
    ensures
        reported(check, result),
{
    match check {
        Ok(health) => health,
        Err(e) => {
            let description = e.text();
            ProxyHealth {
                status: HealthState::Unhealthy,
                message: text::cat2("Health check failed: ", description.as_str()),
            }
        },
    }
}

impl ProxyManager {
    /// The proxies keep their invariants.
    pub open spec fn wf(self) -> bool {
        &&& self.http.metrics.wf()
        &&& self.tcp.wf()
    }

    /// Nothing was served yet, and the proxies may run.
    pub open spec fn is_new(self) -> bool {
        &&& self.http.metrics.is_zero()
        &&& forall|name: Seq<char>| (#[trigger] pool_in(self.tcp.connection_pools, name)).len() == 0
        &&& self.tcp.metrics == TcpProxyMetrics::zero()
        &&& self.udp.clients() == Map::<AddressKey, UdpSession>::empty()
        &&& self.udp.metrics == UdpProxyMetrics::zero()
        &&& !self.stopping
    }

    /// Create a new proxy manager.
    pub fn new() -> (result: Self)
        ensures
            result.wf(),
            result.is_new(),
    {
        ProxyManager {
            http: HttpProxy::new(),
            tcp: TcpProxy::new(),
            udp: UdpProxy::new(),
            stopping: false,
        }
    }

    /// Whether a proxy instance may start.
    pub fn start_proxy(&self, config: &ProxyInstanceConfig) -> (result: Result<()>)
        ensures
            fails_by(result, instance_fault(*config)),
    {
        self.validate_config(config)
    }

    /// Validate a proxy configuration without starting it.
    pub fn validate_config(&self, config: &ProxyInstanceConfig) -> (result: Result<()>)
        ensures
            fails_by(result, instance_fault(*config)),
    {
        if config.upstreams.len() == 0 {
            let message = text::cat3(
                "Proxy instance '",
                config.name.as_str(),
                "' must have at least one upstream",
            );
            return Err(Error::config(message.as_str()));
        }
        match config.proxy_type {
            ProxyType::Http => self.http.validate_config(config),
            ProxyType::Tcp => self.tcp.validate_config(config),
            ProxyType::Udp => self.udp.validate_config(config),
        }
    }

    /// Get metrics from all running proxies.
    pub fn get_all_metrics(&self) -> (result: Vec<(ProxyType, ProxyMetrics)>)
        requires
            self.wf(),
        ensures
            result@ == seq![
                (ProxyType::Http, self.http.reported_metrics()),
                (ProxyType::Tcp, self.tcp.reported_metrics()),
                (ProxyType::Udp, self.udp.reported_metrics()),
            ],
    {
        let mut metrics: Vec<(ProxyType, ProxyMetrics)> = Vec::new();
        if let Ok(m) = self.http.get_metrics() {
            metrics.push((ProxyType::Http, m));
        }
        if let Ok(m) = self.tcp.get_metrics() {
            metrics.push((ProxyType::Tcp, m));
        }
        if let Ok(m) = self.udp.get_metrics() {
            metrics.push((ProxyType::Udp, m));
        }
        metrics
    }

    /// Perform health checks on all proxies.
    pub fn health_check_all(&self) -> (result: Vec<(ProxyType, ProxyHealth)>)
        ensures
            result@.len() == 3,
            result@[0].0 == ProxyType::Http,
            self.http.has_health(result@[0].1),
            result@[1].0 == ProxyType::Tcp,
            self.tcp.has_health(result@[1].1),
            result@[2].0 == ProxyType::Udp,
            self.udp.has_health(result@[2].1),
    {
        let mut results: Vec<(ProxyType, ProxyHealth)> = Vec::new();
        results.push((ProxyType::Http, report_health(self.http.health_check())));
        results.push((ProxyType::Tcp, report_health(self.tcp.health_check())));
        results.push((ProxyType::Udp, report_health(self.udp.health_check())));
        results
    }

    /// Initiate graceful shutdown of all proxies.
    pub fn shutdown(&mut self) -> (result: Result<()>)
        ensures
            result is Ok,
            *final(self) == (ProxyManager { stopping: true, ..*old(self) }),
    {
        self.stopping = true;
        Ok(())
    }

    /// Get the list of supported proxy types.
    pub fn supported_proxy_types(&self) -> (result: Vec<ProxyType>)
        ensures
            result@ == seq![ProxyType::Http, ProxyType::Tcp, ProxyType::Udp],
    {
        let mut types: Vec<ProxyType> = Vec::new();
        types.push(ProxyType::Http);
        types.push(ProxyType::Tcp);
        types.push(ProxyType::Udp);
        assert(types@ =~= seq![ProxyType::Http, ProxyType::Tcp, ProxyType::Udp]);
        types
    }
}

impl Default for ProxyManager {
    fn default() -> (result: Self)
        ensures
            result.wf(),
            result.is_new(),
    {
        ProxyManager::new()
    }
}

/// An instance is served exactly where it has an upstream and the proxy of its own type accepts it.
pub proof fn law_instances_are_checked_by_their_type(config: ProxyInstanceConfig)
    ensures
        config.upstreams@.len() == 0 ==> instance_fault(config) is Some,
        config.upstreams@.len() > 0 && config.proxy_type == ProxyType::Http ==> instance_fault(
            config,
        ) == http_fault(config),
        config.upstreams@.len() > 0 && config.proxy_type == ProxyType::Tcp ==> instance_fault(config)
            == tcp_fault(config),
        config.upstreams@.len() > 0 && config.proxy_type == ProxyType::Udp ==> instance_fault(config)
            == udp_fault(config),
{
}

/// A health check that fails makes a proxy unhealthy; any other is reported as it is.
pub proof fn law_failed_checks_are_unhealthy(check: Result<ProxyHealth>, health: ProxyHealth)
    requires
        reported(check, health),
    ensures
        check is Err ==> health.status == HealthState::Unhealthy,
        check matches Ok(h) ==> health == h,
        check matches Err(e) ==> crate::error::error_text(e@).is_suffix_of(health.message@),
{
    if let Err(e) = check {
        let m = health.message@;
        let t = crate::error::error_text(e@);
        assert(m.subrange(m.len() - t.len(), m.len() as int) =~= t);
    }
}

} // verus!
