//! The router that orchestrates all proxy instances, with their load balancers and the servers for
//! metrics and health.
use vstd::prelude::*;

use crate::config::{Config, GlobalConfig, ProxyInstanceConfig, ProxyType, UpstreamConfig};
use crate::error::{fails_by, Result};
use crate::metrics::{MetricsRegistry, MetricsServer, SystemMetrics};
use crate::name_map::NameMap;
use crate::proxy::{instance_fault, ProxyManager};
use crate::routing::{
    next_ticket, LoadBalancingStrategy, Router as LoadBalancer, UpstreamInfo,
};
use crate::server::HealthServer;
use crate::time::Instant;

verus! {

broadcast use vstd::string::group_string_axioms;

/// Main router that orchestrates all system components.
pub struct Router {
    /// System configuration
    pub config: Config,
    /// Proxy manager for handling different proxy types
    pub proxy_manager: ProxyManager,
    /// Metrics server for observability
    pub metrics_server: Option<MetricsServer>,
    /// Health server for monitoring
    pub health_server: Option<HealthServer>,
    /// Whether a shutdown was asked for
    pub shutdown_requested: bool,
    /// Running proxy instances with their load balancers
    pub running_instances: NameMap<LoadBalancer>,
}

/// The strategy for the upstreams of an instance: by health for HTTP, by load for TCP, by weight for
/// UDP.
pub open spec fn strategy_of(proxy_type: ProxyType) -> LoadBalancingStrategy {
    match proxy_type {
        ProxyType::Http => LoadBalancingStrategy::HealthAware,
        ProxyType::Tcp => LoadBalancingStrategy::LeastConnections,
        ProxyType::Udp => LoadBalancingStrategy::WeightedRoundRobin,
    }
}

/// The strategy for the upstreams of an instance.
pub fn strategy_for(proxy_type: ProxyType) -> (result: LoadBalancingStrategy)
    ensures
        result == strategy_of(proxy_type),
{
    match proxy_type {
        ProxyType::Http => LoadBalancingStrategy::HealthAware,
        ProxyType::Tcp => LoadBalancingStrategy::LeastConnections,
        ProxyType::Udp => LoadBalancingStrategy::WeightedRoundRobin,
    }
}

/// Upstreams after one more was noted for each of the first `n` configurations.
pub open spec fn with_upstreams(
    known: Map<Seq<char>, UpstreamInfo>,
    configs: Seq<UpstreamConfig>,
    n: int,
    now: Instant,
) -> Map<Seq<char>, UpstreamInfo>
    decreases n,
{
    if n <= 0 {
        known
    } else {
        with_upstreams(known, configs, n - 1, now).insert(
            configs[n - 1].name@,
            UpstreamInfo::fresh(configs[n - 1], now),
        )
    }
}

/// The counter after `n` more.
pub open spec fn counted_up(count: usize, n: nat) -> usize
    decreases n,
{
    if n == 0 {
        count
    } else {
        next_ticket(counted_up(count, (n - 1) as nat))
    }
}

/// Has the registry follow these upstreams.
pub fn observe_upstreams(
    registry: &mut MetricsRegistry,
    upstreams: Vec<UpstreamConfig>,
    now: Instant,
)
    requires
        old(registry).wf(),
    ensures
        final(registry).wf(),
        old(registry).counts_tracked() && old(registry).system_metrics.upstreams_total
            + upstreams@.len() <= usize::MAX ==> final(registry).counts_tracked(),
        final(registry).upstream_metrics@ == with_upstreams(
            old(registry).upstream_metrics@,
            upstreams@,
            upstreams@.len() as int,
            now,
        ),
        final(registry).system_metrics == (SystemMetrics {
            upstreams_total: counted_up(
                old(registry).system_metrics.upstreams_total,
                upstreams@.len(),
            ),
            ..old(registry).system_metrics
        }),
        final(registry).proxy_metrics == old(registry).proxy_metrics,
        final(registry).start_time == old(registry).start_time,
{
    let ghost all = upstreams@;
    let ghost known = registry.upstream_metrics@;
    let ghost system = registry.system_metrics;
    for upstream in it: upstreams
        invariant
            it.seq() == all,
            registry.wf(),
            old(registry).counts_tracked() && system.upstreams_total + all.len() <= usize::MAX
                ==> registry.counts_tracked() && registry.system_metrics.upstreams_total
                == system.upstreams_total + it.index(),
            system == old(registry).system_metrics,
            registry.upstream_metrics@ == with_upstreams(known, all, it.index() as int, now),
            registry.system_metrics == (SystemMetrics {
                upstreams_total: counted_up(system.upstreams_total, it.index() as nat),
                ..system
            }),
            registry.proxy_metrics == old(registry).proxy_metrics,
            registry.start_time == old(registry).start_time,
    {
        registry.add_upstream(UpstreamInfo::new(upstream, now));
    }
}

impl Router {
    /// No instance runs twice, and the load balancers and proxies keep their invariants.
    pub open spec fn wf(self) -> bool {
        &&& self.running_instances.wf()
        &&& forall|name: Seq<char>| #[trigger]
            self.running_instances@.contains_key(name) ==> self.running_instances@[name].wf()
        &&& self.proxy_manager.wf()
    }

    /// Create a new router from configuration.
    pub fn new(config: Config) -> (result: Self)
        ensures
            result.wf(),
            result.config == config,
            result.metrics_server is Some <==> config.global.metrics.enabled,
            result.metrics_server matches Some(s) ==> s.config.path@ == config.global.metrics.path@
                && s.config.enabled && s.config.interval_secs == config.global.metrics.interval_secs
                && s.config.listen_addr == config.global.metrics.listen_addr,
            result.health_server is Some <==> config.global.health_check.enabled,
            result.health_server matches Some(s) ==> s.config.path@
                == config.global.health_check.path@ && s.config.enabled && s.config.listen_addr
                == config.global.health_check.listen_addr && !s.stopping,
            result.proxy_manager.is_new(),
            !result.shutdown_requested,
            result.running_instances.entries@.len() == 0,
    {
        let metrics_server = if config.global.metrics.enabled {
            let m = &config.global.metrics;
            Some(
                MetricsServer::new(
                    crate::config::MetricsConfig {
                        enabled: m.enabled,
                        listen_addr: m.listen_addr.copy(),
                        path: m.path.clone(),
                        interval_secs: m.interval_secs,
                    },
                ),
            )
        } else {
            None
        };
        let health_server = if config.global.health_check.enabled {
            let h = &config.global.health_check;
            Some(
                HealthServer::new(
                    crate::config::HealthCheckConfig {
                        enabled: h.enabled,
                        listen_addr: h.listen_addr.copy(),
                        path: h.path.clone(),
                    },
                ),
            )
        } else {
            None
        };
        Router {
            config,
            proxy_manager: ProxyManager::new(),
            metrics_server,
            health_server,
            shutdown_requested: false,
            running_instances: NameMap::new(),
        }
    }

    /// Readies a proxy instance to be started: its configuration is checked, and a load balancer
    /// stands ready with these upstreams.
    pub fn start_proxy_instance(
        &mut self,
        config: &ProxyInstanceConfig,
        upstreams: Vec<UpstreamConfig>,
        now: Instant,
    ) -> (result: Result<()>)
        requires
            old(self).wf(),
        ensures
            final(self).wf(),
            fails_by(result, instance_fault(*config)),
            final(self).config == old(self).config,
            final(self).proxy_manager == old(self).proxy_manager,
            final(self).metrics_server == old(self).metrics_server,
            final(self).health_server == old(self).health_server,
            final(self).shutdown_requested == old(self).shutdown_requested,
            if instance_fault(*config) is Some {
                final(self).running_instances == old(self).running_instances
            } else {
                let balancer = final(self).running_instances@[config.name@];
                &&& final(self).running_instances@ == old(self).running_instances@.insert(
                    config.name@,
                    balancer,
                )
                &&& balancer.wf()
                &&& balancer.strategy() == strategy_of(config.proxy_type)
                &&& balancer.counter() == 0
                &&& balancer.upstreams() == upstreams@.map_values(
                    |c: UpstreamConfig| UpstreamInfo::fresh(c, now),
                )
            },
    {
        let mut balancer = LoadBalancer::new(strategy_for(config.proxy_type));
        match balancer.update_upstreams(upstreams, now) {
            Ok(()) => {},
            Err(e) => {
                return Err(e);
            },
        }
        match self.proxy_manager.start_proxy(config) {
            Ok(()) => {},
            Err(e) => {
                return Err(e);
            },
        }
        let _ = self.running_instances.insert(config.name.clone(), balancer);
        Ok(())
    }

    /// Trigger programmatic shutdown. It succeeds whether or not anything waits for it.
    pub fn trigger_shutdown(&mut self) -> (result: Result<()>)
        ensures
            result is Ok,
            *final(self) == (Router { shutdown_requested: true, ..*old(self) }),
    {
        self.shutdown_requested = true;
        Ok(())
    }

    /// Perform graceful shutdown of all components.
    pub fn shutdown(&mut self) -> (result: Result<()>)
        ensures
            result is Ok,
            final(self).proxy_manager == (ProxyManager {
                stopping: true,
                ..old(self).proxy_manager
            }),
            match old(self).health_server {
                Some(s) => final(self).health_server == Some(HealthServer { stopping: true, ..s }),
                None => final(self).health_server is None,
            },
            final(self).config == old(self).config,
            final(self).metrics_server == old(self).metrics_server,
            final(self).shutdown_requested == old(self).shutdown_requested,
            final(self).running_instances == old(self).running_instances,
    {
        let _ = self.proxy_manager.shutdown();
        if let Some(server) = self.health_server.take() {
            let mut stopped = server;
            let _ = stopped.shutdown();
            self.health_server = Some(stopped);
        }
        Ok(())
    }

    /// Get configuration for a specific proxy instance.
    pub fn get_instance_config(&self, name: &str) -> (result: Option<&ProxyInstanceConfig>)
        ensures
            match result {
                Some(found) => exists|i: int|
                    0 <= i < self.config.proxy_instances@.len() && *found
                        == #[trigger] self.config.proxy_instances@[i] && found.name@ == name@
                        && forall|j: int|
                        0 <= j < i ==> (#[trigger] self.config.proxy_instances@[j]).name@ != name@,
                None => forall|j: int|
                    0 <= j < self.config.proxy_instances@.len() ==> (
                    #[trigger] self.config.proxy_instances@[j]).name@ != name@,
            },
    {
        self.config.get_instance(name)
    }

    /// Get all proxy instance configurations.
    pub fn get_all_instance_configs(&self) -> (result: &Vec<ProxyInstanceConfig>)
        ensures
            *result == self.config.proxy_instances,
    {
        &self.config.proxy_instances
    }

    /// Get the current system configuration.
    pub fn get_config(&self) -> (result: &Config)
        ensures
            *result == self.config,
    {
        &self.config
    }

    /// Takes over a configuration that was read anew, where it is valid; otherwise everything stays
    /// as it is.
    pub fn reload_config(&mut self, registry: &mut MetricsRegistry, new_config: Config) -> (result:
        Result<()>)
        ensures
            fails_by(result, new_config.fault()),
            if new_config.fault() is None {
                &&& *final(self) == (Router { config: new_config, ..*old(self) })
                &&& *final(registry) == (MetricsRegistry {
                    system_metrics: SystemMetrics {
                        config_reloads: crate::routing::one_more(
                            old(registry).system_metrics.config_reloads,
                        ),
                        ..old(registry).system_metrics
                    },
                    ..*old(registry)
                })
            } else {
                *final(self) == *old(self) && *final(registry) == *old(registry)
            },
    {
        match Config::from_parsed(new_config) {
            Ok(config) => {
                self.config = config;
                registry.record_config_reload();
                Ok(())
            },
            Err(e) => Err(e),
        }
    }
}

impl Default for Router {
    fn default() -> (result: Self)
        ensures
            result.wf(),
            result.config.proxy_instances@.len() == 0,
            result.config.global.metrics.is_default(),
            result.config.global.health_check.is_default(),
            result.config.global.performance.is_default(),
            result.config.global.logging.is_default(),
            result.config.fault() is None,
            result.proxy_manager.is_new(),
            !result.shutdown_requested,
            result.running_instances.entries@.len() == 0,
    {
        let config = Config { global: GlobalConfig::default(), proxy_instances: Vec::new() };
        proof {
            assert(crate::config::instance_names(config.proxy_instances@).no_duplicates());
            assert(crate::config::listen_ids(config.proxy_instances@).no_duplicates());
            crate::config::law_valid_config(config);
        }
        Router::new(config)
    }
}

/// Every configured upstream is noted, fresh and as it was configured last; others stay as they were.
pub proof fn law_upstreams_are_noted(
    known: Map<Seq<char>, UpstreamInfo>,
    configs: Seq<UpstreamConfig>,
    n: int,
    now: Instant,
    name: Seq<char>,
    k: int,
)
    requires
        0 <= n <= configs.len(),
        -1 <= k < n,
        k >= 0 ==> configs[k].name@ == name,
        forall|j: int| k < j < n ==> (#[trigger] configs[j]).name@ != name,
    ensures
        k >= 0 ==> with_upstreams(known, configs, n, now).contains_key(name) && with_upstreams(
            known,
            configs,
            n,
            now,
        )[name] == UpstreamInfo::fresh(configs[k], now),
        k == -1 ==> (with_upstreams(known, configs, n, now).contains_key(name)
            <==> known.contains_key(name)) && with_upstreams(known, configs, n, now)[name]
            == known[name],
    decreases n,
{
    if n > 0 && k < n - 1 {
        assert(configs[n - 1].name@ != name);
        law_upstreams_are_noted(known, configs, n - 1, now, name, k);
    }
}

/// Counting so many more adds them, as long as they fit.
pub proof fn law_counting_adds(count: usize, n: nat)
    requires
        count + n <= usize::MAX,
    ensures
        counted_up(count, n) == count + n,
    decreases n,
{
    if n > 0 {
        law_counting_adds(count, (n - 1) as nat);
    }
}

/// HTTP instances choose by health, TCP instances by load and UDP instances by weight, and no two
/// types choose alike.
pub proof fn law_types_choose_differently(a: ProxyType, b: ProxyType)
    ensures
        strategy_of(a) == strategy_of(b) ==> a == b,
        strategy_of(a) == LoadBalancingStrategy::HealthAware <==> a == ProxyType::Http,
        strategy_of(a) == LoadBalancingStrategy::LeastConnections <==> a == ProxyType::Tcp,
        strategy_of(a) == LoadBalancingStrategy::WeightedRoundRobin <==> a == ProxyType::Udp,
{
}

} // verus!
