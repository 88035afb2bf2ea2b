//! Plugins: what describes them, what they report, and the events between them and the router.
pub mod domains;
pub mod loader;
pub mod manager;
pub mod ports;
pub mod registry;
pub mod utils;

use vstd::prelude::*;

use crate::address::SocketAddress;
use crate::name_map::NameMap;
use crate::routing::Ratio;
use crate::text;
use crate::time::SystemTime;

verus! {

broadcast use vstd::string::group_string_axioms;

/// Generic connection context; what it means is up to the plugin.
#[derive(Debug)]
pub struct ConnectionContext {
    pub connection_id: String,
    pub client_addr: SocketAddress,
    pub server_addr: SocketAddress,
    pub metadata: NameMap<String>,
    pub created_at: SystemTime,
}

/// Generic data packet, opaque to the router.
#[derive(Debug)]
pub struct DataPacket {
    pub data: Vec<u8>,
    pub metadata: NameMap<String>,
    pub context: ConnectionContext,
}

/// What a plugin can handle.
#[derive(Debug, Clone)]
pub struct PluginCapabilities {
    pub can_handle_tcp: bool,
    pub can_handle_udp: bool,
    pub can_handle_unix_socket: bool,
    pub requires_dedicated_port: bool,
    pub supports_hot_reload: bool,
    pub supports_load_balancing: bool,
    pub custom_protocols: Vec<String>,
    /// Specific ports this plugin needs
    pub port_requirements: Vec<u16>,
}

/// Plugin configuration.
#[derive(Debug)]
pub struct PluginConfig {
    pub name: String,
    pub enabled: bool,
    pub priority: i32,
    pub bind_ports: Vec<u16>,
    pub bind_addresses: Vec<String>,
    /// Domains this plugin should handle
    pub domains: Vec<String>,
    /// Plugin-specific configuration, as JSON text
    pub config: String,
    pub middleware_chain: Vec<String>,
    pub load_balancing: Option<LoadBalancingConfig>,
    pub health_check: Option<HealthCheckConfig>,
}

/// How a plugin spreads its work.
#[derive(Debug)]
pub struct LoadBalancingConfig {
    /// The plugin defines what strategies it supports
    pub strategy: String,
    pub backends: Vec<BackendConfig>,
    pub session_affinity: bool,
    pub health_check_path: Option<String>,
}

/// A server behind a plugin.
#[derive(Debug)]
pub struct BackendConfig {
    pub address: String,
    pub weight: Option<u32>,
    pub metadata: NameMap<String>,
}

/// How the health of a plugin is checked.
#[derive(Debug, Clone)]
pub struct HealthCheckConfig {
    pub enabled: bool,
    pub interval_seconds: u64,
    pub timeout_seconds: u64,
    /// A check of the plugin's own, as JSON text
    pub custom_check: Option<String>,
}

/// Plugin metrics.
#[derive(Debug)]
pub struct PluginMetrics {
    pub connections_total: u64,
    pub connections_active: u64,
    pub bytes_sent: u64,
    pub bytes_received: u64,
    pub errors_total: u64,
    pub custom_metrics: NameMap<Ratio>,
    pub last_updated: SystemTime,
}

/// Plugin health status.
#[derive(Debug)]
pub struct PluginHealth {
    pub healthy: bool,
    pub message: String,
    pub last_check: SystemTime,
    pub response_time_ms: Option<u64>,
    /// Data of the plugin's own, as JSON texts
    pub custom_health_data: NameMap<String>,
}

/// Events that plugins can emit or receive.
#[derive(Debug)]
pub enum PluginEvent {
    ConnectionEstablished(ConnectionContext),
    /// With the id of the connection
    ConnectionClosed(String),
    DataReceived(DataPacket),
    /// With the configuration as JSON text
    ConfigurationChanged(String),
    HealthCheckRequested,
    MetricsRequested,
    ShutdownRequested,
    Custom { event_type: String, data: String },
}

/// Plugin metadata.
#[derive(Debug)]
pub struct PluginInfo {
    pub name: String,
    pub version: String,
    pub description: String,
    pub author: String,
    pub license: String,
    pub repository: Option<String>,
    pub min_router_version: String,
    /// As JSON text
    pub config_schema: Option<String>,
    pub dependencies: Vec<String>,
    pub tags: Vec<String>,
}

/// Events that plugins can send to the router.
#[derive(Debug)]
pub enum RouterEvent {
    PluginStarted(String),
    PluginStopped(String),
    PluginError { plugin_name: String, error: String },
    MetricsUpdated { plugin_name: String, metrics: PluginMetrics },
    HealthUpdated { plugin_name: String, health: PluginHealth },
    CustomEvent { plugin_name: String, event: String },
    LogMessage { plugin_name: String, level: String, message: String },
}

// ---------------------------------------------------------------------------------------------
// Copies
// ---------------------------------------------------------------------------------------------

/// Whether two lists of backends say the same.
pub open spec fn same_backends(a: Seq<BackendConfig>, b: Seq<BackendConfig>) -> bool {
    a.len() == b.len() && forall|i: int|
        0 <= i < a.len() ==> (#[trigger] a[i]).address == b[i].address && a[i].weight == b[i].weight
            && a[i].metadata.entries@ == b[i].metadata.entries@
}

/// Whether two ways of spreading work are the same.
pub open spec fn same_balancing(
    a: Option<LoadBalancingConfig>,
    b: Option<LoadBalancingConfig>,
) -> bool {
    match (a, b) {
        (Some(x), Some(y)) => x.strategy == y.strategy && same_backends(x.backends@, y.backends@)
            && x.session_affinity == y.session_affinity && x.health_check_path
            == y.health_check_path,
        (None, None) => true,
        _ => false,
    }
}

/// Whether two configurations say the same.
pub open spec fn same_config(a: PluginConfig, b: PluginConfig) -> bool {
    &&& a.name == b.name
    &&& a.enabled == b.enabled
    &&& a.priority == b.priority
    &&& a.bind_ports@ == b.bind_ports@
    &&& a.bind_addresses@ == b.bind_addresses@
    &&& a.domains@ == b.domains@
    &&& a.config == b.config
    &&& a.middleware_chain@ == b.middleware_chain@
    &&& same_balancing(a.load_balancing, b.load_balancing)
    &&& a.health_check == b.health_check
}

/// Whether two reports of health say the same.
pub open spec fn same_health(a: PluginHealth, b: PluginHealth) -> bool {
    &&& a.healthy == b.healthy
    &&& a.message == b.message
    &&& a.last_check == b.last_check
    &&& a.response_time_ms == b.response_time_ms
    &&& a.custom_health_data.entries@ == b.custom_health_data.entries@
}

/// Whether two reports of metrics say the same.
pub open spec fn same_metrics(a: PluginMetrics, b: PluginMetrics) -> bool {
    &&& a.connections_total == b.connections_total
    &&& a.connections_active == b.connections_active
    &&& a.bytes_sent == b.bytes_sent
    &&& a.bytes_received == b.bytes_received
    &&& a.errors_total == b.errors_total
    &&& a.custom_metrics.entries@ == b.custom_metrics.entries@
    &&& a.last_updated == b.last_updated
}

fn copy_ratios(ratios: &Vec<(String, Ratio)>) -> (result: Vec<(String, Ratio)>)
    ensures
        result@ == ratios@,
{
    let mut result: Vec<(String, Ratio)> = Vec::new();
    let mut i: usize = 0;
    while i < ratios.len()
        invariant
            i <= ratios@.len(),
            result@ == ratios@.take(i as int),
        decreases ratios@.len() - i,
    {
        result.push((ratios[i].0.clone(), ratios[i].1));
        i += 1;
    }
    result
}

fn copy_text(s: &Option<String>) -> (result: Option<String>)
    ensures
        result == *s,
{
    match s {
        Some(t) => Some(t.clone()),
        None => None,
    }
}

pub(crate) fn copy_pairs(pairs: &Vec<(String, String)>) -> (result: Vec<(String, String)>)
    ensures
        result@ == pairs@,
{
    let mut result: Vec<(String, String)> = Vec::new();
    let mut i: usize = 0;
    while i < pairs.len()
        invariant
            i <= pairs@.len(),
            result@ == pairs@.take(i as int),
        decreases pairs@.len() - i,
    {
        result.push((pairs[i].0.clone(), pairs[i].1.clone()));
        i += 1;
    }
    result
}

fn copy_ports(ports: &Vec<u16>) -> (result: Vec<u16>)
    ensures
        result@ == ports@,
{
    let mut result: Vec<u16> = Vec::new();
    let mut i: usize = 0;
    while i < ports.len()
        invariant
            i <= ports@.len(),
            result@ == ports@.take(i as int),
        decreases ports@.len() - i,
    {
        result.push(ports[i]);
        i += 1;
    }
    result
}

fn copy_backends(backends: &Vec<BackendConfig>) -> (result: Vec<BackendConfig>)
    ensures
        same_backends(result@, backends@),
{
    let mut result: Vec<BackendConfig> = Vec::new();
    let mut i: usize = 0;
    while i < backends.len()
        invariant
            i <= backends@.len(),
            same_backends(result@, backends@.take(i as int)),
        decreases backends@.len() - i,
    {
        let b = &backends[i];
        result.push(
            BackendConfig {
                address: b.address.clone(),
                weight: b.weight,
                metadata: NameMap { entries: copy_pairs(&b.metadata.entries) },
            },
        );
        i += 1;
    }
    assert(backends@.take(i as int) =~= backends@);
    result
}

impl PluginConfig {
    /// The same once more.
    pub fn copy(&self) -> (result: Self)
        ensures
            same_config(result, *self),
    {
        PluginConfig {
            name: self.name.clone(),
            enabled: self.enabled,
            priority: self.priority,
            bind_ports: copy_ports(&self.bind_ports),
            bind_addresses: text::copy_strings(&self.bind_addresses),
            domains: text::copy_strings(&self.domains),
            config: self.config.clone(),
            middleware_chain: text::copy_strings(&self.middleware_chain),
            load_balancing: match &self.load_balancing {
                Some(l) => Some(
                    LoadBalancingConfig {
                        strategy: l.strategy.clone(),
                        backends: copy_backends(&l.backends),
                        session_affinity: l.session_affinity,
                        health_check_path: copy_text(&l.health_check_path),
                    },
                ),
                None => None,
            },
            health_check: match &self.health_check {
                Some(h) => Some(
                    HealthCheckConfig {
                        enabled: h.enabled,
                        interval_seconds: h.interval_seconds,
                        timeout_seconds: h.timeout_seconds,
                        custom_check: copy_text(&h.custom_check),
                    },
                ),
                None => None,
            },
        }
    }
}

// ---------------------------------------------------------------------------------------------
// Domains
// ---------------------------------------------------------------------------------------------

/// Decides whether a domain and path are for a plugin.
pub trait DomainMatcher {
    /// Whether the matcher takes this domain and path.
    spec fn takes(&self, domain: Seq<char>, path: Seq<char>) -> bool;

    /// The rank of the matcher.
    spec fn rank(&self) -> i32;

    fn matches(&self, domain: &str, path: &str) -> (result: bool)
        ensures
            result == self.takes(domain@, path@),
    ;

    fn priority(&self) -> (result: i32)
        ensures
            result == self.rank(),
    ;
}

/// Whether a pattern begins with `*.`.
pub open spec fn is_wildcard(pattern: Seq<char>) -> bool {
    pattern.len() >= 2 && pattern[0] == '*' && pattern[1] == '.'
}

/// Whether a pattern with a wildcard takes a domain: the domain ends with what follows the `*.`.
pub open spec fn wildcard_takes(pattern: Seq<char>, domain: Seq<char>) -> bool {
    is_wildcard(pattern) && pattern.skip(2).is_suffix_of(domain)
}

/// Whether a pattern takes a domain: one with a wildcard as above, any other its own name.
pub open spec fn pattern_takes(pattern: Seq<char>, domain: Seq<char>) -> bool {
    if is_wildcard(pattern) {
        wildcard_takes(pattern, domain)
    } else {
        pattern == domain
    }
}

/// Whether a pattern with a wildcard takes a domain; none where the pattern has no wildcard.
pub fn wildcard_match(pattern: &str, domain: &str) -> (result: Option<bool>)
    ensures
        match result {
            Some(b) => is_wildcard(pattern@) && b == wildcard_takes(pattern@, domain@),
            None => !is_wildcard(pattern@),
        },
{
    let cs = text::chars(pattern);
    if cs.len() >= 2 && cs[0] == '*' && cs[1] == '.' {
        let suffix = text::from_range(&cs, 2, cs.len());
        assert(suffix@ =~= pattern@.skip(2));
        Some(text::ends_with(domain, suffix.as_str()))
    } else {
        None
    }
}

/// Matches by a list of patterns.
#[derive(Debug, Clone)]
pub struct SimpleDomainMatcher {
    pub patterns: Vec<String>,
    pub priority: i32,
}

impl DomainMatcher for SimpleDomainMatcher {
    open spec fn takes(&self, domain: Seq<char>, path: Seq<char>) -> bool {
        exists|i: int|
            0 <= i < self.patterns@.len() && pattern_takes(
                (#[trigger] self.patterns@[i])@,
                domain,
            )
    }

    open spec fn rank(&self) -> i32 {
        self.priority
    }

    fn matches(&self, domain: &str, path: &str) -> (result: bool) {
        let mut i: usize = 0;
        while i < self.patterns.len()
            invariant
                i <= self.patterns@.len(),
                forall|j: int|
                    0 <= j < i ==> !pattern_takes((#[trigger] self.patterns@[j])@, domain@),
            decreases self.patterns@.len() - i,
        {
            let pattern = self.patterns[i].as_str();
            let taken = match wildcard_match(pattern, domain) {
                Some(b) => b,
                None => text::eq(pattern, domain),
            };
            if taken {
                assert(pattern_takes(self.patterns@[i as int]@, domain@));
                return true;
            }
            i += 1;
        }
        false
    }

    fn priority(&self) -> (result: i32) {
        self.priority
    }
}

// ---------------------------------------------------------------------------------------------
// A plugin's life
// ---------------------------------------------------------------------------------------------

/// State shared between the router and a plugin.
#[derive(Debug)]
pub struct PluginContext {
    pub plugin_name: String,
    pub config: PluginConfig,
    pub metrics: PluginMetrics,
    pub health: PluginHealth,
}

/// A plugin with its context and whether it is meant to run. The plugin itself is known by a
/// number.
#[derive(Debug)]
pub struct PluginWrapper {
    pub plugin: u64,
    pub context: PluginContext,
    pub running: bool,
}

impl PluginMetrics {
    /// Nothing counted yet.
    pub open spec fn is_zero(self) -> bool {
        &&& self.connections_total == 0
        &&& self.connections_active == 0
        &&& self.bytes_sent == 0
        &&& self.bytes_received == 0
        &&& self.errors_total == 0
        &&& self.custom_metrics.wf()
        &&& self.custom_metrics@ == Map::<Seq<char>, Ratio>::empty()
    }

    /// Metrics with nothing counted.
    pub fn zero(now: SystemTime) -> (result: Self)
        ensures
            result.is_zero(),
            result.last_updated == now,
    {
        PluginMetrics {
            connections_total: 0,
            connections_active: 0,
            bytes_sent: 0,
            bytes_received: 0,
            errors_total: 0,
            custom_metrics: NameMap::new(),
            last_updated: now,
        }
    }
}

impl PluginHealth {
    /// A plugin that is not healthy yet, for this reason.
    pub open spec fn is_pending(self, message: Seq<char>) -> bool {
        &&& !self.healthy
        &&& self.message@ == message
        &&& self.response_time_ms is None
        &&& self.custom_health_data.wf()
        &&& self.custom_health_data@ == Map::<Seq<char>, String>::empty()
    }

    /// A plugin that is not healthy yet, for this reason.
    pub fn pending(message: &str, now: SystemTime) -> (result: Self)
        ensures
            result.is_pending(message@),
            result.last_check == now,
    {
        PluginHealth {
            healthy: false,
            message: message.to_string(),
            last_check: now,
            response_time_ms: None,
            custom_health_data: NameMap::new(),
        }
    }
}

/// The event that tells of the health of a plugin.
pub open spec fn is_health_event(event: RouterEvent, name: String, health: PluginHealth) -> bool {
    event matches RouterEvent::HealthUpdated { plugin_name, health: h } && plugin_name == name
        && same_health(h, health)
}

/// The event that tells of the metrics of a plugin.
pub open spec fn is_metrics_event(
    event: RouterEvent,
    name: String,
    metrics: PluginMetrics,
) -> bool {
    event matches RouterEvent::MetricsUpdated { plugin_name, metrics: m } && plugin_name == name
        && same_metrics(m, metrics)
}

impl PluginHealth {
    /// The same health once more.
    pub fn copy(&self) -> (result: Self)
        ensures
            same_health(result, *self),
    {
        PluginHealth {
            healthy: self.healthy,
            message: self.message.clone(),
            last_check: self.last_check,
            response_time_ms: self.response_time_ms,
            custom_health_data: NameMap { entries: copy_pairs(&self.custom_health_data.entries) },
        }
    }
}

impl PluginMetrics {
    /// The same metrics once more.
    pub fn copy(&self) -> (result: Self)
        ensures
            same_metrics(result, *self),
    {
        PluginMetrics {
            connections_total: self.connections_total,
            connections_active: self.connections_active,
            bytes_sent: self.bytes_sent,
            bytes_received: self.bytes_received,
            errors_total: self.errors_total,
            custom_metrics: NameMap { entries: copy_ratios(&self.custom_metrics.entries) },
            last_updated: self.last_updated,
        }
    }
}

impl PluginWrapper {
    /// A plugin that does not run yet.
    pub fn new(plugin: u64, context: PluginContext) -> (result: Self)
        ensures
            result == (PluginWrapper { plugin, context, running: false }),
    {
        PluginWrapper { plugin, context, running: false }
    }

    /// Starts the plugin, given what came of its `initialize` with the configuration of the context
    /// and of its `start`. The event is the one to send to the router.
    pub fn start(
        &mut self,
        initialized: std::result::Result<(), String>,
        started: std::result::Result<(), String>,
    ) -> (result: std::result::Result<RouterEvent, String>)
        ensures
            *final(self) == (PluginWrapper { running: true, ..*old(self) }),
            match (initialized, started) {
                (Err(e), _) => result == Err::<RouterEvent, String>(e),
                (Ok(()), Err(e)) => result == Err::<RouterEvent, String>(e),
                (Ok(()), Ok(())) => result == Ok::<RouterEvent, String>(
                    RouterEvent::PluginStarted(old(self).context.plugin_name),
                ),
            },
    {
        self.running = true;
        match initialized {
            Err(e) => Err(e),
            Ok(()) => match started {
                Err(e) => Err(e),
                Ok(()) => Ok(RouterEvent::PluginStarted(self.context.plugin_name.clone())),
            },
        }
    }

    /// Stops the plugin, given what came of its `stop`. The event is the one to send to the router.
    pub fn stop(&mut self, stopped: std::result::Result<(), String>) -> (result:
        std::result::Result<RouterEvent, String>)
        ensures
            *final(self) == (PluginWrapper { running: false, ..*old(self) }),
            match stopped {
                Err(e) => result == Err::<RouterEvent, String>(e),
                Ok(()) => result == Ok::<RouterEvent, String>(
                    RouterEvent::PluginStopped(old(self).context.plugin_name),
                ),
            },
    {
        self.running = false;
        match stopped {
            Err(e) => Err(e),
            Ok(()) => Ok(RouterEvent::PluginStopped(self.context.plugin_name.clone())),
        }
    }

    /// What the event loop sends to the router once the plugin has handled an event.
    pub fn event_handled(&self, handled: std::result::Result<(), String>) -> (result: Option<
        RouterEvent,
    >)
        ensures
            result == match handled {
                Ok(()) => None,
                Err(error) => Some(
                    RouterEvent::PluginError { plugin_name: self.context.plugin_name, error },
                ),
            },
    {
        match handled {
            Ok(()) => None,
            Err(error) => Some(
                RouterEvent::PluginError { plugin_name: self.context.plugin_name.clone(), error },
            ),
        }
    }

    /// Keeps the health that a plugin reported in a periodic check. The event is the one to send to
    /// the router.
    pub fn health_reported(&mut self, health: PluginHealth) -> (result: RouterEvent)
        ensures
            is_health_event(result, old(self).context.plugin_name, health),
            *final(self) == (PluginWrapper {
                context: PluginContext { health, ..old(self).context },
                ..*old(self)
            }),
    {
        let event = RouterEvent::HealthUpdated {
            plugin_name: self.context.plugin_name.clone(),
            health: health.copy(),
        };
        self.context.health = health;
        event
    }

    /// Keeps the metrics that a plugin reported in a periodic check. The event is the one to send to
    /// the router.
    pub fn metrics_reported(&mut self, metrics: PluginMetrics) -> (result: RouterEvent)
        ensures
            is_metrics_event(result, old(self).context.plugin_name, metrics),
            *final(self) == (PluginWrapper {
                context: PluginContext { metrics, ..old(self).context },
                ..*old(self)
            }),
    {
        let event = RouterEvent::MetricsUpdated {
            plugin_name: self.context.plugin_name.clone(),
            metrics: metrics.copy(),
        };
        self.context.metrics = metrics;
        event
    }
}

/// A pattern `*.base` takes exactly the domains that end with the base; a pattern without a wildcard
/// takes its own name alone.
pub proof fn law_patterns(base: Seq<char>, domain: Seq<char>, pattern: Seq<char>, front: Seq<char>)
    ensures
        pattern_takes(seq!['*', '.'] + base, front + base),
        pattern_takes(seq!['*', '.'] + base, domain) ==> domain.len() >= base.len() && domain.skip(
            domain.len() - base.len(),
        ) == base,
        !(pattern.len() >= 2 && pattern[0] == '*' && pattern[1] == '.') ==> (pattern_takes(
            pattern,
            domain,
        ) <==> pattern == domain),
{
    let p = seq!['*', '.'] + base;
    assert(p.skip(2) =~= base);
    let d = front + base;
    assert(d.subrange(d.len() - base.len(), d.len() as int) =~= base);
    if pattern_takes(p, domain) {
        assert(domain.skip(domain.len() - base.len()) =~= base);
    }
}

/// A matcher takes a domain exactly where one of its patterns does, whatever the path.
pub proof fn law_matchers_go_by_their_patterns(
    matcher: SimpleDomainMatcher,
    domain: Seq<char>,
    path: Seq<char>,
    k: int,
)
    ensures
        0 <= k < matcher.patterns@.len() && pattern_takes(matcher.patterns@[k]@, domain)
            ==> matcher.takes(domain, path),
        matcher.patterns@.len() == 0 ==> !matcher.takes(domain, path),
        matcher.rank() == matcher.priority,
{
}

} // verus!
