//! Metrics of the whole system, its health, and their export.
use vstd::prelude::*;

use crate::config::MetricsConfig;
use crate::name_map::NameMap;
use crate::proxy::http::one_less;
use crate::proxy::{ProxyHealth, ProxyMetrics};
use crate::routing::{next_ticket, one_more, HealthScore, HealthState, Ratio, UpstreamInfo};
use crate::text;
use crate::text::decimal;
use crate::time::{nanos_between, Instant};

verus! {

broadcast use vstd::string::group_string_axioms;

/// Central metrics registry for collecting and exporting metrics.
#[derive(Debug)]
pub struct MetricsRegistry {
    /// System-wide metrics
    pub system_metrics: SystemMetrics,
    /// Per-proxy metrics
    pub proxy_metrics: NameMap<ProxyMetrics>,
    /// Per-upstream metrics
    pub upstream_metrics: NameMap<UpstreamInfo>,
    /// Metrics collection start time
    pub start_time: Instant,
}

/// System-wide metrics.
#[derive(Debug, Clone, Copy, PartialEq, Eq, Structural)]
pub struct SystemMetrics {
    /// Total number of proxy instances
    pub proxy_instances_total: usize,
    /// Total number of upstream servers
    pub upstreams_total: usize,
    /// Memory usage metrics
    pub memory_usage: MemoryUsage,
    /// System uptime in seconds
    pub uptime_seconds: u64,
    /// Configuration reload count
    pub config_reloads: u64,
}

/// Memory usage information.
#[derive(Debug, Clone, Copy, PartialEq, Eq, Structural)]
pub struct MemoryUsage {
    /// RSS memory in bytes
    pub rss_bytes: u64,
    /// Virtual memory in bytes
    pub vsize_bytes: u64,
    /// Heap allocated bytes
    pub heap_bytes: u64,
    /// Buffer pool usage
    pub buffer_pool_bytes: u64,
}

/// Metrics server for exposing metrics via HTTP.
#[derive(Debug)]
pub struct MetricsServer {
    pub config: MetricsConfig,
}

/// Health check information for the entire system.
#[derive(Debug, Clone)]
pub struct SystemHealth {
    /// Overall system status
    pub status: HealthState,
    /// System uptime in seconds
    pub uptime_seconds: u64,
    /// Number of healthy proxies
    pub healthy_proxies: usize,
    /// Number of unhealthy proxies
    pub unhealthy_proxies: usize,
    /// Number of healthy upstreams
    pub healthy_upstreams: usize,
    /// Number of unhealthy upstreams
    pub unhealthy_upstreams: usize,
    /// Last health check timestamp
    pub timestamp: u64,
    /// Additional status message
    pub message: String,
}

/// Detailed metrics summary for export.
#[derive(Debug)]
pub struct MetricsSummary {
    /// System metrics
    pub system: SystemMetricsSnapshot,
    /// Proxy metrics by instance name
    pub proxies: Vec<(String, ProxyMetrics)>,
    /// Upstream metrics by name
    pub upstreams: Vec<(String, UpstreamMetricsSnapshot)>,
    /// Collection timestamp
    pub timestamp: u64,
}

/// Snapshot of system metrics.
#[derive(Debug, Clone, Copy, PartialEq, Eq, Structural)]
pub struct SystemMetricsSnapshot {
    /// Total proxy instances
    pub proxy_instances_total: usize,
    /// Total upstream servers
    pub upstreams_total: usize,
    /// System uptime in seconds
    pub uptime_seconds: u64,
    /// Configuration reload count
    pub config_reloads: u64,
    /// Memory usage information
    pub memory_usage: MemoryUsage,
}

/// Snapshot of upstream metrics.
#[derive(Debug)]
pub struct UpstreamMetricsSnapshot {
    /// Upstream name
    pub name: String,
    /// Current health state
    pub health_state: HealthState,
    /// Total requests sent
    pub requests_sent: u64,
    /// Successful responses
    pub responses_received: u64,
    /// Failed requests
    pub failures: u64,
    /// Active connections
    pub active_connections: usize,
    /// Average response time in milliseconds
    pub avg_response_time_ms: Ratio,
    /// Success rate (0 to 1)
    pub success_rate: Ratio,
    /// Health score (0 to 1)
    pub health_score: HealthScore,
}

/// The written forms of the two fractions in the export of an upstream.
#[derive(Debug)]
pub struct RenderedUpstream {
    pub avg_response_time_ms: String,
    pub success_rate: String,
}

// ---------------------------------------------------------------------------------------------
// Health of the system
// ---------------------------------------------------------------------------------------------

/// How many of the states are this one.
pub open spec fn count_state(states: Seq<HealthState>, state: HealthState) -> nat
    decreases states.len(),
{
    if states.len() == 0 {
        0
    } else {
        count_state(states.drop_last(), state) + if states.last() == state {
            1nat
        } else {
            0nat
        }
    }
}

/// The states of proxies.
pub open spec fn proxy_states(healths: Seq<(String, ProxyHealth)>) -> Seq<HealthState> {
    healths.map_values(|h: (String, ProxyHealth)| h.1.status)
}

/// The states of upstreams.
pub open spec fn upstream_states(upstreams: Seq<(String, UpstreamInfo)>) -> Seq<HealthState> {
    upstreams.map_values(|u: (String, UpstreamInfo)| u.1.health_state)
}

/// The state of the system: unhealthy where something is and no proxy is healthy, unknown where
/// something is but some proxy is healthy, and otherwise healthy as soon as one proxy is.
pub open spec fn overall(
    healthy_proxies: nat,
    unhealthy_proxies: nat,
    unhealthy_upstreams: nat,
) -> HealthState {
    if unhealthy_proxies > 0 || unhealthy_upstreams > 0 {
        if healthy_proxies == 0 {
            HealthState::Unhealthy
        } else {
            HealthState::Unknown
        }
    } else if healthy_proxies > 0 {
        HealthState::Healthy
    } else {
        HealthState::Unknown
    }
}

/// What is said of the state of the system.
pub open spec fn overall_message(
    status: HealthState,
    unhealthy_proxies: nat,
    unhealthy_upstreams: nat,
) -> Seq<char> {
    match status {
        HealthState::Healthy => "All systems operational"@,
        HealthState::Unhealthy => "System degraded: "@ + decimal(unhealthy_proxies)
            + " unhealthy proxies, "@ + decimal(unhealthy_upstreams) + " unhealthy upstreams"@,
        HealthState::Unknown => "System status unknown or starting up"@,
    }
}

/// The system is healthy exactly when some proxy is and nothing is unhealthy.
pub proof fn law_healthy_means_nothing_unhealthy(
    healthy_proxies: nat,
    unhealthy_proxies: nat,
    unhealthy_upstreams: nat,
)
    ensures
        overall(healthy_proxies, unhealthy_proxies, unhealthy_upstreams) == HealthState::Healthy
            <==> healthy_proxies > 0 && unhealthy_proxies == 0 && unhealthy_upstreams == 0,
{
}

proof fn lemma_count_bound(states: Seq<HealthState>, state: HealthState)
    ensures
        count_state(states, state) <= states.len(),
    decreases states.len(),
{
    if states.len() > 0 {
        lemma_count_bound(states.drop_last(), state);
    }
}

// ---------------------------------------------------------------------------------------------
// Prometheus text
// ---------------------------------------------------------------------------------------------

/// One metric in the Prometheus text format.
pub open spec fn metric(
    name: Seq<char>,
    help: Seq<char>,
    kind: Seq<char>,
    label: Seq<char>,
    value: Seq<char>,
) -> Seq<char> {
    ("# HELP "@ + name + " "@ + help + "\n# TYPE "@) + (name + " "@ + kind + "\n"@ + name) + (label
        + " "@ + value + "\n\n"@)
}

/// The label of a metric that belongs to something with a name.
pub open spec fn label(kind: Seq<char>, name: Seq<char>) -> Seq<char> {
    "{"@ + kind + "=\""@ + name + "\"}"@
}

/// The metrics of the system.
pub open spec fn system_text(s: SystemMetricsSnapshot) -> Seq<char> {
    metric(
        "harbr_proxy_instances_total"@,
        "Total number of proxy instances"@,
        "gauge"@,
        ""@,
        decimal(s.proxy_instances_total as nat),
    ) + metric(
        "harbr_upstreams_total"@,
        "Total number of upstream servers"@,
        "gauge"@,
        ""@,
        decimal(s.upstreams_total as nat),
    ) + metric(
        "harbr_uptime_seconds"@,
        "System uptime in seconds"@,
        "gauge"@,
        ""@,
        decimal(s.uptime_seconds as nat),
    ) + metric(
        "harbr_memory_rss_bytes"@,
        "RSS memory usage in bytes"@,
        "gauge"@,
        ""@,
        decimal(s.memory_usage.rss_bytes as nat),
    )
}

/// The metrics of one proxy.
pub open spec fn proxy_text(name: Seq<char>, m: ProxyMetrics) -> Seq<char> {
    metric(
        "harbr_proxy_requests_total"@,
        "Total requests handled by proxy"@,
        "counter"@,
        label("instance"@, name),
        decimal(m.total_requests as nat),
    ) + metric(
        "harbr_proxy_connections_active"@,
        "Active connections for proxy"@,
        "gauge"@,
        label("instance"@, name),
        decimal(m.active_connections as nat),
    ) + metric(
        "harbr_proxy_bytes_sent_total"@,
        "Total bytes sent by proxy"@,
        "counter"@,
        label("instance"@, name),
        decimal(m.bytes_sent as nat),
    ) + metric(
        "harbr_proxy_bytes_received_total"@,
        "Total bytes received by proxy"@,
        "counter"@,
        label("instance"@, name),
        decimal(m.bytes_received as nat),
    )
}

/// A health state as a number.
pub open spec fn health_value(state: HealthState) -> Seq<char> {
    match state {
        HealthState::Healthy => "1"@,
        HealthState::Unknown => "0.5"@,
        HealthState::Unhealthy => "0"@,
    }
}

/// The metrics of one upstream.
pub open spec fn upstream_text(
    name: Seq<char>,
    m: UpstreamMetricsSnapshot,
    rendered: RenderedUpstream,
) -> Seq<char> {
    metric(
        "harbr_upstream_health"@,
        "Upstream health status (1=healthy, 0.5=unknown, 0=unhealthy)"@,
        "gauge"@,
        label("upstream"@, name),
        health_value(m.health_state),
    ) + metric(
        "harbr_upstream_requests_total"@,
        "Total requests sent to upstream"@,
        "counter"@,
        label("upstream"@, name),
        decimal(m.requests_sent as nat),
    ) + metric(
        "harbr_upstream_response_time_ms"@,
        "Average response time in milliseconds"@,
        "gauge"@,
        label("upstream"@, name),
        rendered.avg_response_time_ms@,
    ) + metric(
        "harbr_upstream_success_rate"@,
        "Success rate (0.0 to 1.0)"@,
        "gauge"@,
        label("upstream"@, name),
        rendered.success_rate@,
    )
}

/// The metrics of all proxies.
pub open spec fn proxies_text(proxies: Seq<(String, ProxyMetrics)>) -> Seq<char>
    decreases proxies.len(),
{
    if proxies.len() == 0 {
        Seq::empty()
    } else {
        proxies_text(proxies.drop_last()) + proxy_text(proxies.last().0@, proxies.last().1)
    }
}

/// The metrics of all upstreams.
pub open spec fn upstreams_text(
    upstreams: Seq<(String, UpstreamMetricsSnapshot)>,
    rendered: Seq<RenderedUpstream>,
) -> Seq<char>
    decreases upstreams.len(),
{
    if upstreams.len() == 0 {
        Seq::empty()
    } else {
        upstreams_text(upstreams.drop_last(), rendered) + upstream_text(
            upstreams.last().0@,
            upstreams.last().1,
            rendered[upstreams.len() - 1],
        )
    }
}

fn metric_text(name: &str, help: &str, kind: &str, label: &str, value: &str) -> (result: String)
    ensures
        result@ == metric(name@, help@, kind@, label@, value@),
{
    let mut s = text::cat5("# HELP ", name, " ", help, "\n# TYPE ");
    let middle = text::cat5(name, " ", kind, "\n", name);
    let end = text::cat4(label, " ", value, "\n\n");
    s.append(middle.as_str());
    s.append(end.as_str());
    s
}

fn number_metric(name: &str, help: &str, kind: &str, label: &str, value: u64) -> (result: String)
    ensures
        result@ == metric(name@, help@, kind@, label@, decimal(value as nat)),
{
    let number = text::number(value);
    metric_text(name, help, kind, label, number.as_str())
}

fn write_system(s: &SystemMetricsSnapshot) -> (result: String)
    ensures
        result@ == system_text(*s),
{
    let mut out = number_metric(
        "harbr_proxy_instances_total",
        "Total number of proxy instances",
        "gauge",
        "",
        s.proxy_instances_total as u64,
    );
    let upstreams = number_metric(
        "harbr_upstreams_total",
        "Total number of upstream servers",
        "gauge",
        "",
        s.upstreams_total as u64,
    );
    out.append(upstreams.as_str());
    let uptime = number_metric(
        "harbr_uptime_seconds",
        "System uptime in seconds",
        "gauge",
        "",
        s.uptime_seconds,
    );
    out.append(uptime.as_str());
    let memory = number_metric(
        "harbr_memory_rss_bytes",
        "RSS memory usage in bytes",
        "gauge",
        "",
        s.memory_usage.rss_bytes,
    );
    out.append(memory.as_str());
    out
}

fn write_proxy(name: &str, m: &ProxyMetrics) -> (result: String)
    ensures
        result@ == proxy_text(name@, *m),
{
    let instance = text::cat5("{", "instance", "=\"", name, "\"}");
    let mut out = number_metric(
        "harbr_proxy_requests_total",
        "Total requests handled by proxy",
        "counter",
        instance.as_str(),
        m.total_requests,
    );
    let active = number_metric(
        "harbr_proxy_connections_active",
        "Active connections for proxy",
        "gauge",
        instance.as_str(),
        m.active_connections,
    );
    out.append(active.as_str());
    let sent = number_metric(
        "harbr_proxy_bytes_sent_total",
        "Total bytes sent by proxy",
        "counter",
        instance.as_str(),
        m.bytes_sent,
    );
    out.append(sent.as_str());
    let received = number_metric(
        "harbr_proxy_bytes_received_total",
        "Total bytes received by proxy",
        "counter",
        instance.as_str(),
        m.bytes_received,
    );
    out.append(received.as_str());
    out
}

fn write_upstream(name: &str, m: &UpstreamMetricsSnapshot, rendered: &RenderedUpstream) -> (result:
    String)
    ensures
        result@ == upstream_text(name@, *m, *rendered),
{
    let upstream = text::cat5("{", "upstream", "=\"", name, "\"}");
    let health = match m.health_state {
        HealthState::Healthy => "1",
        HealthState::Unknown => "0.5",
        HealthState::Unhealthy => "0",
    };
    let mut out = metric_text(
        "harbr_upstream_health",
        "Upstream health status (1=healthy, 0.5=unknown, 0=unhealthy)",
        "gauge",
        upstream.as_str(),
        health,
    );
    let requests = number_metric(
        "harbr_upstream_requests_total",
        "Total requests sent to upstream",
        "counter",
        upstream.as_str(),
        m.requests_sent,
    );
    out.append(requests.as_str());
    let response_time = metric_text(
        "harbr_upstream_response_time_ms",
        "Average response time in milliseconds",
        "gauge",
        upstream.as_str(),
        rendered.avg_response_time_ms.as_str(),
    );
    out.append(response_time.as_str());
    let success = metric_text(
        "harbr_upstream_success_rate",
        "Success rate (0.0 to 1.0)",
        "gauge",
        upstream.as_str(),
        rendered.success_rate.as_str(),
    );
    out.append(success.as_str());
    out
}

// ---------------------------------------------------------------------------------------------
// The registry
// ---------------------------------------------------------------------------------------------

/// Whole seconds from `start` to `now`.
pub open spec fn seconds_between(start: Instant, now: Instant) -> nat {
    nanos_between(start, now) / 1_000_000_000
}

/// Whether this is the snapshot of an upstream.
pub open spec fn is_snapshot(
    s: (String, UpstreamMetricsSnapshot),
    u: (String, UpstreamInfo),
) -> bool {
    &&& s.0@ == u.0@
    &&& s.1.name@ == u.0@
    &&& s.1.health_state == u.1.health_state
    &&& s.1.requests_sent == u.1.stats.requests_sent
    &&& s.1.responses_received == u.1.stats.responses_received
    &&& s.1.failures == u.1.stats.failures
    &&& s.1.active_connections == u.1.stats.active_connections
    &&& s.1.avg_response_time_ms == (Ratio {
        numerator: u.1.stats.avg_response_time_ns as u128,
        denominator: 1_000_000,
    })
    &&& s.1.success_rate == u.1.stats.success_ratio()
    &&& s.1.health_score == u.1.score()
}

impl MetricsRegistry {
    /// No proxy and no upstream is tracked twice.
    pub open spec fn wf(self) -> bool {
        &&& self.proxy_metrics.wf()
        &&& self.upstream_metrics.wf()
    }

    /// Every upstream that is tracked is counted. It may be counted more than once, where it was
    /// added more than once.
    pub open spec fn counts_tracked(self) -> bool {
        self.system_metrics.upstreams_total >= self.upstream_metrics.keys().len()
    }

    /// What the system metrics show.
    pub open spec fn system_snapshot(self) -> SystemMetricsSnapshot {
        SystemMetricsSnapshot {
            proxy_instances_total: self.system_metrics.proxy_instances_total,
            upstreams_total: self.system_metrics.upstreams_total,
            uptime_seconds: self.system_metrics.uptime_seconds,
            config_reloads: self.system_metrics.config_reloads,
            memory_usage: self.system_metrics.memory_usage,
        }
    }

    /// The registry with its uptime brought up to date.
    pub open spec fn at(self, now: Instant) -> MetricsRegistry {
        MetricsRegistry {
            system_metrics: SystemMetrics {
                uptime_seconds: seconds_between(self.start_time, now) as u64,
                ..self.system_metrics
            },
            ..self
        }
    }

    /// Create a new metrics registry.
    pub fn new(now: Instant) -> (result: Self)
        ensures
            result.wf(),
            result.counts_tracked(),
            result.system_metrics == (SystemMetrics {
                proxy_instances_total: 0,
                upstreams_total: 0,
                memory_usage: MemoryUsage {
                    rss_bytes: 0,
                    vsize_bytes: 0,
                    heap_bytes: 0,
                    buffer_pool_bytes: 0,
                },
                uptime_seconds: 0,
                config_reloads: 0,
            }),
            result.proxy_metrics.entries@.len() == 0,
            result.upstream_metrics.entries@.len() == 0,
            result.start_time == now,
    {
        MetricsRegistry {
            system_metrics: SystemMetrics {
                proxy_instances_total: 0,
                upstreams_total: 0,
                memory_usage: collect_memory_usage(),
                uptime_seconds: 0,
                config_reloads: 0,
            },
            proxy_metrics: NameMap::new(),
            upstream_metrics: NameMap::new(),
            start_time: now,
        }
    }

    /// Update system uptime.
    pub fn update_uptime(&mut self, now: Instant)
        ensures
            *final(self) == old(self).at(now),
    {
        let uptime = self.start_time.elapsed(now);
        self.system_metrics.uptime_seconds = (uptime.as_nanos() / 1_000_000_000) as u64;
    }

    /// Record configuration reload.
    pub fn record_config_reload(&mut self)
        ensures
            *final(self) == (MetricsRegistry {
                system_metrics: SystemMetrics {
                    config_reloads: one_more(old(self).system_metrics.config_reloads),
                    ..old(self).system_metrics
                },
                ..*old(self)
            }),
    {
        self.system_metrics.config_reloads = self.system_metrics.config_reloads.wrapping_add(1);
    }

    /// Update proxy metrics.
    pub fn update_proxy_metrics(&mut self, instance_name: String, metrics: ProxyMetrics)
        requires
            old(self).wf(),
        ensures
            final(self).wf(),
            final(self).proxy_metrics@ == old(self).proxy_metrics@.insert(instance_name@, metrics),
            final(self).system_metrics == old(self).system_metrics,
            final(self).upstream_metrics == old(self).upstream_metrics,
            final(self).start_time == old(self).start_time,
    {
        let _ = self.proxy_metrics.insert(instance_name, metrics);
    }

    /// Add upstream for tracking.
    pub fn add_upstream(&mut self, upstream: UpstreamInfo)
        requires
            old(self).wf(),
        ensures
            final(self).wf(),
            final(self).upstream_metrics@ == old(self).upstream_metrics@.insert(
                upstream.config.name@,
                upstream,
            ),
            old(self).counts_tracked() && old(self).system_metrics.upstreams_total < usize::MAX
                ==> final(self).counts_tracked(),
            final(self).system_metrics == (SystemMetrics {
                upstreams_total: next_ticket(old(self).system_metrics.upstreams_total),
                ..old(self).system_metrics
            }),
            final(self).proxy_metrics == old(self).proxy_metrics,
            final(self).start_time == old(self).start_time,
    {
        let name = upstream.config.name.clone();
        let _ = self.upstream_metrics.insert(name, upstream);
        self.system_metrics.upstreams_total = self.system_metrics.upstreams_total.wrapping_add(1);
    }

    /// Remove upstream from tracking.
    pub fn remove_upstream(&mut self, name: &str)
        requires
            old(self).wf(),
        ensures
            final(self).wf(),
            final(self).upstream_metrics@ == old(self).upstream_metrics@.remove(name@),
            old(self).counts_tracked() ==> final(self).counts_tracked(),
            final(self).system_metrics == (if old(self).upstream_metrics@.contains_key(name@) {
                SystemMetrics {
                    upstreams_total: one_less(old(self).system_metrics.upstreams_total),
                    ..old(self).system_metrics
                }
            } else {
                old(self).system_metrics
            }),
            final(self).proxy_metrics == old(self).proxy_metrics,
            final(self).start_time == old(self).start_time,
    {
        if self.upstream_metrics.remove(name).is_some() {
            self.system_metrics.upstreams_total =
            self.system_metrics.upstreams_total.wrapping_sub(1);
        }
    }

    /// Set proxy instance count.
    pub fn set_proxy_instances_count(&mut self, count: usize)
        ensures
            *final(self) == (MetricsRegistry {
                system_metrics: SystemMetrics {
                    proxy_instances_total: count,
                    ..old(self).system_metrics
                },
                ..*old(self)
            }),
    {
        self.system_metrics.proxy_instances_total = count;
    }

    /// Update memory usage information.
    pub fn update_memory_usage(&mut self, usage: MemoryUsage)
        ensures
            *final(self) == (MetricsRegistry {
                system_metrics: SystemMetrics { memory_usage: usage, ..old(self).system_metrics },
                ..*old(self)
            }),
    {
        self.system_metrics.memory_usage = usage;
    }

    /// Get comprehensive metrics summary.
    pub fn get_metrics_summary(&mut self, now: Instant, timestamp: u64) -> (result: MetricsSummary)
        requires
            old(self).wf(),
        ensures
            *final(self) == old(self).at(now),
            result.system == old(self).at(now).system_snapshot(),
            result.proxies@ == old(self).proxy_metrics.entries@,
            result.upstreams@.len() == old(self).upstream_metrics.entries@.len(),
            forall|i: int|
                0 <= i < result.upstreams@.len() ==> is_snapshot(
                    #[trigger] result.upstreams@[i],
                    old(self).upstream_metrics.entries@[i],
                ),
            result.timestamp == timestamp,
    {
        self.update_uptime(now);
        let system = SystemMetricsSnapshot {
            proxy_instances_total: self.system_metrics.proxy_instances_total,
            upstreams_total: self.system_metrics.upstreams_total,
            uptime_seconds: self.system_metrics.uptime_seconds,
            config_reloads: self.system_metrics.config_reloads,
            memory_usage: self.system_metrics.memory_usage,
        };
        let mut proxies: Vec<(String, ProxyMetrics)> = Vec::new();
        let mut i: usize = 0;
        while i < self.proxy_metrics.entries.len()
            invariant
                i <= self.proxy_metrics.entries@.len(),
                proxies@ == self.proxy_metrics.entries@.take(i as int),
            decreases self.proxy_metrics.entries@.len() - i,
        {
            proxies.push((self.proxy_metrics.entries[i].0.clone(), self.proxy_metrics.entries[i].1));
            i += 1;
        }
        assert(self.proxy_metrics.entries@.take(i as int) =~= self.proxy_metrics.entries@);
        let mut upstreams: Vec<(String, UpstreamMetricsSnapshot)> = Vec::new();
        i = 0;
        while i < self.upstream_metrics.entries.len()
            invariant
                i <= self.upstream_metrics.entries@.len(),
                upstreams@.len() == i,
                forall|k: int|
                    0 <= k < i ==> is_snapshot(
                        #[trigger] upstreams@[k],
                        self.upstream_metrics.entries@[k],
                    ),
            decreases self.upstream_metrics.entries@.len() - i,
        {
            let name = &self.upstream_metrics.entries[i].0;
            let upstream = &self.upstream_metrics.entries[i].1;
            let snapshot = UpstreamMetricsSnapshot {
                name: name.clone(),
                health_state: upstream.health_state,
                requests_sent: upstream.stats.requests_sent,
                responses_received: upstream.stats.responses_received,
                failures: upstream.stats.failures,
                active_connections: upstream.stats.active_connections,
                avg_response_time_ms: upstream.stats.avg_response_time_ms(),
                success_rate: upstream.stats.success_rate(),
                health_score: upstream.health_score(),
            };
            upstreams.push((name.clone(), snapshot));
            i += 1;
        }
        MetricsSummary { system, proxies, upstreams, timestamp }
    }

    /// Get system health status.
    pub fn get_system_health(
        &mut self,
        proxy_healths: &NameMap<ProxyHealth>,
        now: Instant,
        timestamp: u64,
    ) -> (result: SystemHealth)
        requires
            old(self).wf(),
        ensures
            *final(self) == old(self).at(now),
            ({
                let proxies = proxy_states(proxy_healths.entries@);
                let upstreams = upstream_states(old(self).upstream_metrics.entries@);
                &&& result.healthy_proxies == count_state(proxies, HealthState::Healthy)
                &&& result.unhealthy_proxies == count_state(proxies, HealthState::Unhealthy)
                &&& result.healthy_upstreams == count_state(upstreams, HealthState::Healthy)
                &&& result.unhealthy_upstreams == count_state(upstreams, HealthState::Unhealthy)
            }),
            result.status == overall(
                result.healthy_proxies as nat,
                result.unhealthy_proxies as nat,
                result.unhealthy_upstreams as nat,
            ),
            result.message@ == overall_message(
                result.status,
                result.unhealthy_proxies as nat,
                result.unhealthy_upstreams as nat,
            ),
            result.uptime_seconds == seconds_between(old(self).start_time, now),
            result.timestamp == timestamp,
    {
        self.update_uptime(now);
        let mut healthy_proxies: usize = 0;
        let mut unhealthy_proxies: usize = 0;
        let ghost proxies = proxy_states(proxy_healths.entries@);
        let mut i: usize = 0;
        while i < proxy_healths.entries.len()
            invariant
                i <= proxy_healths.entries@.len(),
                proxies == proxy_states(proxy_healths.entries@),
                healthy_proxies == count_state(proxies.take(i as int), HealthState::Healthy),
                unhealthy_proxies == count_state(proxies.take(i as int), HealthState::Unhealthy),
            decreases proxy_healths.entries@.len() - i,
        {
            proof {
                assert(proxies.take(i + 1).drop_last() =~= proxies.take(i as int));
                lemma_count_bound(proxies.take(i as int), HealthState::Healthy);
                lemma_count_bound(proxies.take(i as int), HealthState::Unhealthy);
            }
            match proxy_healths.entries[i].1.status {
                HealthState::Healthy => {
                    healthy_proxies = healthy_proxies + 1;
                },
                HealthState::Unhealthy => {
                    unhealthy_proxies = unhealthy_proxies + 1;
                },
                HealthState::Unknown => {},
            }
            i += 1;
        }
        assert(proxies.take(i as int) =~= proxies);
        let mut healthy_upstreams: usize = 0;
        let mut unhealthy_upstreams: usize = 0;
        let ghost upstreams = upstream_states(self.upstream_metrics.entries@);
        i = 0;
        while i < self.upstream_metrics.entries.len()
            invariant
                i <= self.upstream_metrics.entries@.len(),
                upstreams == upstream_states(self.upstream_metrics.entries@),
                healthy_upstreams == count_state(upstreams.take(i as int), HealthState::Healthy),
                unhealthy_upstreams == count_state(
                    upstreams.take(i as int),
                    HealthState::Unhealthy,
                ),
            decreases self.upstream_metrics.entries@.len() - i,
        {
            proof {
                assert(upstreams.take(i + 1).drop_last() =~= upstreams.take(i as int));
                lemma_count_bound(upstreams.take(i as int), HealthState::Healthy);
                lemma_count_bound(upstreams.take(i as int), HealthState::Unhealthy);
            }
            match self.upstream_metrics.entries[i].1.health_state {
                HealthState::Healthy => {
                    healthy_upstreams = healthy_upstreams + 1;
                },
                HealthState::Unhealthy => {
                    unhealthy_upstreams = unhealthy_upstreams + 1;
                },
                HealthState::Unknown => {},
            }
            i += 1;
        }
        assert(upstreams.take(i as int) =~= upstreams);
        let status = if unhealthy_proxies > 0 || unhealthy_upstreams > 0 {
            if healthy_proxies == 0 {
                HealthState::Unhealthy
            } else {
                HealthState::Unknown
            }
        } else if healthy_proxies > 0 {
            HealthState::Healthy
        } else {
            HealthState::Unknown
        };
        let message = match status {
            HealthState::Healthy => "All systems operational".to_string(),
            HealthState::Unhealthy => text::cat5(
                "System degraded: ",
                text::number(unhealthy_proxies as u64).as_str(),
                " unhealthy proxies, ",
                text::number(unhealthy_upstreams as u64).as_str(),
                " unhealthy upstreams",
            ),
            HealthState::Unknown => "System status unknown or starting up".to_string(),
        };
        SystemHealth {
            status,
            uptime_seconds: self.system_metrics.uptime_seconds,
            healthy_proxies,
            unhealthy_proxies,
            healthy_upstreams,
            unhealthy_upstreams,
            timestamp,
            message,
        }
    }

    /// Export metrics in Prometheus format. The fractions of the upstreams are given in the form in
    /// which they are written, in the order of the upstreams.
    pub fn export_prometheus(
        &mut self,
        rendered: &Vec<RenderedUpstream>,
        now: Instant,
        timestamp: u64,
    ) -> (result: String)
        requires
            old(self).wf(),
            rendered@.len() == old(self).upstream_metrics.entries@.len(),
        ensures
            *final(self) == old(self).at(now),
            exists|summary: MetricsSummary|
                {
                    &&& summary.system == old(self).at(now).system_snapshot()
                    &&& summary.proxies@ == old(self).proxy_metrics.entries@
                    &&& summary.upstreams@.len() == old(self).upstream_metrics.entries@.len()
                    &&& forall|i: int|
                        0 <= i < summary.upstreams@.len() ==> is_snapshot(
                            #[trigger] summary.upstreams@[i],
                            old(self).upstream_metrics.entries@[i],
                        )
                    &&& result@ == #[trigger] summary.exported(rendered@)
                },
    {
        let summary = self.get_metrics_summary(now, timestamp);
        summary.to_prometheus(rendered)
    }
}

impl MetricsSummary {
    /// The summary in the Prometheus text format.
    pub open spec fn exported(self, rendered: Seq<RenderedUpstream>) -> Seq<char> {
        system_text(self.system) + proxies_text(self.proxies@) + upstreams_text(
            self.upstreams@,
            rendered,
        )
    }

    /// Writes the summary in the Prometheus text format.
    pub fn to_prometheus(&self, rendered: &Vec<RenderedUpstream>) -> (result: String)
        requires
            rendered@.len() == self.upstreams@.len(),
        ensures
            result@ == self.exported(rendered@),
    {
        let mut output = write_system(&self.system);
        let ghost head = output@;
        let mut i: usize = 0;
        assert(head + proxies_text(self.proxies@.take(0)) =~= head);
        while i < self.proxies.len()
            invariant
                i <= self.proxies@.len(),
                output@ == head + proxies_text(self.proxies@.take(i as int)),
            decreases self.proxies@.len() - i,
        {
            assert(self.proxies@.take(i + 1).drop_last() =~= self.proxies@.take(i as int));
            let part = write_proxy(self.proxies[i].0.as_str(), &self.proxies[i].1);
            output.append(part.as_str());
            assert(output@ =~= head + proxies_text(self.proxies@.take(i + 1)));
            i += 1;
        }
        assert(self.proxies@.take(i as int) =~= self.proxies@);
        let ghost body = output@;
        i = 0;
        assert(body + upstreams_text(self.upstreams@.take(0), rendered@) =~= body);
        while i < self.upstreams.len()
            invariant
                i <= self.upstreams@.len(),
                rendered@.len() == self.upstreams@.len(),
                output@ == body + upstreams_text(self.upstreams@.take(i as int), rendered@),
            decreases self.upstreams@.len() - i,
        {
            assert(self.upstreams@.take(i + 1).drop_last() =~= self.upstreams@.take(i as int));
            let part = write_upstream(
                self.upstreams[i].0.as_str(),
                &self.upstreams[i].1,
                &rendered[i],
            );
            output.append(part.as_str());
            assert(output@ =~= body + upstreams_text(self.upstreams@.take(i + 1), rendered@));
            i += 1;
        }
        assert(self.upstreams@.take(i as int) =~= self.upstreams@);
        output
    }
}

/// An upstream that was not known is gone again, and counted no more, once it is removed.
pub proof fn law_tracking_round_trip(
    known: Map<Seq<char>, UpstreamInfo>,
    total: usize,
    upstream: UpstreamInfo,
)
    requires
        !known.contains_key(upstream.config.name@),
    ensures
        known.insert(upstream.config.name@, upstream).remove(upstream.config.name@) == known,
        one_less(next_ticket(total)) == total,
{
    assert(known.insert(upstream.config.name@, upstream).remove(upstream.config.name@)
        =~= known);
}

/// Removing an upstream that is tracked takes one off the count, and removing it once more changes
/// nothing.
pub proof fn law_removal_takes_one_off(registry: MetricsRegistry, name: Seq<char>)
    requires
        registry.wf(),
        registry.counts_tracked(),
        registry.upstream_metrics@.contains_key(name),
    ensures
        one_less(registry.system_metrics.upstreams_total) == registry.system_metrics.upstreams_total
            - 1,
        !registry.upstream_metrics@.remove(name).contains_key(name),
        registry.upstream_metrics@.remove(name).remove(name)
            == registry.upstream_metrics@.remove(name),
{
    assert(registry.upstream_metrics.keys().contains(name));
    assert(registry.upstream_metrics@.remove(name).remove(name)
        =~= registry.upstream_metrics@.remove(name));
}

/// Current memory usage, which is not measured yet.
pub fn collect_memory_usage() -> (result: MemoryUsage)
    ensures
        result == (MemoryUsage {
            rss_bytes: 0,
            vsize_bytes: 0,
            heap_bytes: 0,
            buffer_pool_bytes: 0,
        }),
{
    MemoryUsage { rss_bytes: 0, vsize_bytes: 0, heap_bytes: 0, buffer_pool_bytes: 0 }
}

// ---------------------------------------------------------------------------------------------
// The metrics server
// ---------------------------------------------------------------------------------------------

/// What a request to the metrics server is answered with.
#[derive(Debug, Clone, Copy, PartialEq, Eq, Structural)]
pub enum MetricsRoute {
    /// The Prometheus export
    Metrics,
    /// The health of the system
    Health,
    /// Nothing stands under this path
    NotFound,
}

/// The status of an answer about health: an unknown state passes as working.
pub open spec fn health_code(status: HealthState) -> u16 {
    match status {
        HealthState::Unhealthy => 503,
        _ => 200,
    }
}

impl MetricsServer {
    /// Create a new metrics server.
    pub fn new(config: MetricsConfig) -> (result: Self)
        ensures
            result.config == config,
    {
        MetricsServer { config }
    }

    /// Whether the server is to run.
    pub fn enabled(&self) -> (result: bool)
        ensures
            result == self.config.enabled,
    {
        self.config.enabled
    }

    /// What a request for this path is answered with. The configured path comes first.
    pub fn handle_request(&self, path: &str) -> (result: MetricsRoute)
        ensures
            result == (if path@ == self.config.path@ {
                MetricsRoute::Metrics
            } else if path@ == "/health"@ {
                MetricsRoute::Health
            } else {
                MetricsRoute::NotFound
            }),
    {
        if text::eq(path, self.config.path.as_str()) {
            MetricsRoute::Metrics
        } else if text::eq(path, "/health") {
            MetricsRoute::Health
        } else {
            MetricsRoute::NotFound
        }
    }

    /// The status with which the health of the system is answered.
    pub fn health_status(health: &SystemHealth) -> (result: u16)
        ensures
            result == health_code(health.status),
    {
        match health.status {
            HealthState::Healthy => 200,
            HealthState::Unknown => 200,
            HealthState::Unhealthy => 503,
        }
    }
}

/// Record configuration reload.
pub fn record_config_reload(registry: &mut MetricsRegistry)
    ensures
        *final(registry) == (MetricsRegistry {
            system_metrics: SystemMetrics {
                config_reloads: one_more(old(registry).system_metrics.config_reloads),
                ..old(registry).system_metrics
            },
            ..*old(registry)
        }),
{
    registry.record_config_reload();
}

/// Update proxy metrics.
pub fn update_proxy_metrics(
    registry: &mut MetricsRegistry,
    instance_name: String,
    metrics: ProxyMetrics,
)
    requires
        old(registry).wf(),
    ensures
        final(registry).wf(),
        final(registry).proxy_metrics@ == old(registry).proxy_metrics@.insert(
            instance_name@,
            metrics,
        ),
        final(registry).system_metrics == old(registry).system_metrics,
        final(registry).upstream_metrics == old(registry).upstream_metrics,
        final(registry).start_time == old(registry).start_time,
{
    registry.update_proxy_metrics(instance_name, metrics);
}

/// Add upstream for tracking.
pub fn add_upstream(registry: &mut MetricsRegistry, upstream: UpstreamInfo)
    requires
        old(registry).wf(),
    ensures
        final(registry).wf(),
        final(registry).upstream_metrics@ == old(registry).upstream_metrics@.insert(
            upstream.config.name@,
            upstream,
        ),
        old(registry).counts_tracked() && old(registry).system_metrics.upstreams_total < usize::MAX
            ==> final(registry).counts_tracked(),
        final(registry).system_metrics == (SystemMetrics {
            upstreams_total: next_ticket(old(registry).system_metrics.upstreams_total),
            ..old(registry).system_metrics
        }),
        final(registry).proxy_metrics == old(registry).proxy_metrics,
        final(registry).start_time == old(registry).start_time,
{
    registry.add_upstream(upstream);
}

/// Remove upstream from tracking.
pub fn remove_upstream(registry: &mut MetricsRegistry, name: &str)
    requires
        old(registry).wf(),
    ensures
        final(registry).wf(),
        final(registry).upstream_metrics@ == old(registry).upstream_metrics@.remove(name@),
        old(registry).counts_tracked() ==> final(registry).counts_tracked(),
        final(registry).system_metrics == (if old(registry).upstream_metrics@.contains_key(name@) {
            SystemMetrics {
                upstreams_total: one_less(old(registry).system_metrics.upstreams_total),
                ..old(registry).system_metrics
            }
        } else {
            old(registry).system_metrics
        }),
        final(registry).proxy_metrics == old(registry).proxy_metrics,
        final(registry).start_time == old(registry).start_time,
{
    registry.remove_upstream(name);
}

/// Set proxy instances count.
pub fn set_proxy_instances_count(registry: &mut MetricsRegistry, count: usize)
    ensures
        *final(registry) == (MetricsRegistry {
            system_metrics: SystemMetrics {
                proxy_instances_total: count,
                ..old(registry).system_metrics
            },
            ..*old(registry)
        }),
{
    registry.set_proxy_instances_count(count);
}

/// The system is unhealthy exactly where something is and no proxy is healthy to make up for it.
pub proof fn law_unhealthy_means_no_proxy_left(
    healthy_proxies: nat,
    unhealthy_proxies: nat,
    unhealthy_upstreams: nat,
)
    ensures
        overall(healthy_proxies, unhealthy_proxies, unhealthy_upstreams) == HealthState::Unhealthy
            <==> healthy_proxies == 0 && unhealthy_proxies + unhealthy_upstreams > 0,
        health_code(overall(healthy_proxies, unhealthy_proxies, unhealthy_upstreams)) == 503 <==> (
        healthy_proxies == 0 && unhealthy_proxies + unhealthy_upstreams > 0),
        health_code(HealthState::Healthy) == 200,
        health_code(HealthState::Unknown) == 200,
{
}

/// A state is counted as often as it occurs.
pub proof fn law_states_are_counted(states: Seq<HealthState>, state: HealthState)
    ensures
        count_state(states, state) == states.to_multiset().count(state),
    decreases states.len(),
{
    broadcast use vstd::seq_lib::group_to_multiset_ensures;

    if states.len() > 0 {
        let rest = states.drop_last();
        law_states_are_counted(rest, state);
        assert(states =~= rest.push(states.last()));
        vstd::seq_lib::to_multiset_build(rest, states.last());
    }
}

/// The uptime is the number of whole seconds since the start.
pub proof fn law_uptime_is_in_whole_seconds(registry: MetricsRegistry, now: Instant)
    requires
        registry.start_time.nanos <= now.nanos,
    ensures
        ({
            let secs = registry.at(now).system_metrics.uptime_seconds;
            secs * 1_000_000_000 <= now.nanos - registry.start_time.nanos < (secs + 1)
                * 1_000_000_000
        }),
        registry.at(now).system_metrics.upstreams_total == registry.system_metrics.upstreams_total,
        registry.at(now).system_metrics.config_reloads == registry.system_metrics.config_reloads,
        registry.at(now).proxy_metrics == registry.proxy_metrics,
        registry.at(now).upstream_metrics == registry.upstream_metrics,
        registry.at(now).start_time == registry.start_time,
{
}

/// Whether a line stands somewhere in a text.
pub open spec fn has_line(t: Seq<char>, line: Seq<char>) -> bool {
    exists|i: int| #[trigger] crate::text::occurs_at(t, line + "\n"@, i)
}

pub(crate) proof fn lemma_line(before: Seq<char>, line: Seq<char>, after: Seq<char>)
    ensures
        has_line(before + (line + "\n"@) + after, line),
{
    let t = before + (line + "\n"@) + after;
    let n = before.len() as int;
    assert(t.subrange(n, n + (line + "\n"@).len()) =~= line + "\n"@);
    assert(crate::text::occurs_at(t, line + "\n"@, n));
}

/// A line of a part is a line of the whole.
pub(crate) proof fn lemma_line_of_part(before: Seq<char>, part: Seq<char>, after: Seq<char>, line: Seq<char>)
    requires
        has_line(part, line),
    ensures
        has_line(before + part + after, line),
{
    let wanted = line + "\n"@;
    let i = choose|i: int| #[trigger] crate::text::occurs_at(part, wanted, i);
    let t = before + part + after;
    let k = before.len() + i;
    assert(t.subrange(k, k + wanted.len()) =~= part.subrange(i, i + wanted.len()));
    assert(crate::text::occurs_at(t, wanted, k));
}

/// A metric is written with its help and its kind, and then its name, label and value in a line.
pub proof fn law_metrics_are_lines(
    name: Seq<char>,
    help: Seq<char>,
    kind: Seq<char>,
    label: Seq<char>,
    value: Seq<char>,
)
    ensures
        has_line(metric(name, help, kind, label, value), "# HELP "@ + name + " "@ + help),
        has_line(metric(name, help, kind, label, value), "# TYPE "@ + name + " "@ + kind),
        has_line(metric(name, help, kind, label, value), name + label + " "@ + value),
{
    reveal_strlit("\n");
    reveal_strlit("\n\n");
    reveal_strlit("\n# TYPE ");
    reveal_strlit("# TYPE ");
    reveal_strlit("# HELP ");
    reveal_strlit(" ");
    let t = metric(name, help, kind, label, value);
    assert("\n# TYPE "@ =~= "\n"@ + "# TYPE "@);
    assert("\n\n"@ =~= "\n"@ + "\n"@);
    let none = Seq::<char>::empty();
    let l1 = "# HELP "@ + name + " "@ + help;
    let l2 = "# TYPE "@ + name + " "@ + kind;
    let l3 = name + label + " "@ + value;
    assert(t =~= none + (l1 + "\n"@) + (l2 + "\n"@ + l3 + "\n"@ + "\n"@));
    assert(t =~= (l1 + "\n"@) + (l2 + "\n"@) + (l3 + "\n"@ + "\n"@));
    assert(t =~= (l1 + "\n"@ + l2 + "\n"@) + (l3 + "\n"@) + "\n"@);
    lemma_line(none, l1, l2 + "\n"@ + l3 + "\n"@ + "\n"@);
    lemma_line(l1 + "\n"@, l2, l3 + "\n"@ + "\n"@);
    lemma_line(l1 + "\n"@ + l2 + "\n"@, l3, "\n"@);
}

/// The text for a proxy has a line for each of its counters, with the proxy's name.
pub proof fn law_proxy_counters_are_written(name: Seq<char>, m: ProxyMetrics)
    ensures
        ({
            let t = proxy_text(name, m);
            let of = "{instance=\""@ + name + "\"}"@;
            &&& has_line(
                t,
                "harbr_proxy_requests_total"@ + of + " "@ + decimal(m.total_requests as nat),
            )
            &&& has_line(
                t,
                "harbr_proxy_connections_active"@ + of + " "@ + decimal(
                    m.active_connections as nat,
                ),
            )
            &&& has_line(
                t,
                "harbr_proxy_bytes_sent_total"@ + of + " "@ + decimal(m.bytes_sent as nat),
            )
            &&& has_line(
                t,
                "harbr_proxy_bytes_received_total"@ + of + " "@ + decimal(m.bytes_received as nat),
            )
        }),
{
    let t = proxy_text(name, m);
    let of = "{instance=\""@ + name + "\"}"@;
    assert(label("instance"@, name) =~= of) by {
        reveal_strlit("{");
        reveal_strlit("instance");
        reveal_strlit("=\"");
        reveal_strlit("{instance=\"");
        assert("{"@ + "instance"@ + "=\""@ =~= "{instance=\""@);
    }
    let a = metric(
        "harbr_proxy_requests_total"@,
        "Total requests handled by proxy"@,
        "counter"@,
        of,
        decimal(m.total_requests as nat),
    );
    let b = metric(
        "harbr_proxy_connections_active"@,
        "Active connections for proxy"@,
        "gauge"@,
        of,
        decimal(m.active_connections as nat),
    );
    let c = metric(
        "harbr_proxy_bytes_sent_total"@,
        "Total bytes sent by proxy"@,
        "counter"@,
        of,
        decimal(m.bytes_sent as nat),
    );
    let d = metric(
        "harbr_proxy_bytes_received_total"@,
        "Total bytes received by proxy"@,
        "counter"@,
        of,
        decimal(m.bytes_received as nat),
    );
    lemma_four_metrics(a, b, c, d, t);
    law_metrics_are_lines(
        "harbr_proxy_requests_total"@,
        "Total requests handled by proxy"@,
        "counter"@,
        of,
        decimal(m.total_requests as nat),
    );
    law_metrics_are_lines(
        "harbr_proxy_connections_active"@,
        "Active connections for proxy"@,
        "gauge"@,
        of,
        decimal(m.active_connections as nat),
    );
    law_metrics_are_lines(
        "harbr_proxy_bytes_sent_total"@,
        "Total bytes sent by proxy"@,
        "counter"@,
        of,
        decimal(m.bytes_sent as nat),
    );
    law_metrics_are_lines(
        "harbr_proxy_bytes_received_total"@,
        "Total bytes received by proxy"@,
        "counter"@,
        of,
        decimal(m.bytes_received as nat),
    );
}

/// The lines of four metrics are those of the text that they make up.
proof fn lemma_four_metrics(
    a: Seq<char>,
    b: Seq<char>,
    c: Seq<char>,
    d: Seq<char>,
    t: Seq<char>,
)
    requires
        t == a + b + c + d,
    ensures
        forall|line: Seq<char>| #[trigger] has_line(a, line) ==> has_line(t, line),
        forall|line: Seq<char>| #[trigger] has_line(b, line) ==> has_line(t, line),
        forall|line: Seq<char>| #[trigger] has_line(c, line) ==> has_line(t, line),
        forall|line: Seq<char>| #[trigger] has_line(d, line) ==> has_line(t, line),
{
    let none = Seq::<char>::empty();
    assert(t =~= none + a + (b + c + d));
    assert(t =~= a + b + (c + d));
    assert(t =~= (a + b) + c + d);
    assert(t =~= (a + b + c) + d + none);
    assert forall|line: Seq<char>| #[trigger] has_line(a, line) implies has_line(t, line) by {
        lemma_line_of_part(none, a, b + c + d, line);
    }
    assert forall|line: Seq<char>| #[trigger] has_line(b, line) implies has_line(t, line) by {
        lemma_line_of_part(a, b, c + d, line);
    }
    assert forall|line: Seq<char>| #[trigger] has_line(c, line) implies has_line(t, line) by {
        lemma_line_of_part(a + b, c, d, line);
    }
    assert forall|line: Seq<char>| #[trigger] has_line(d, line) implies has_line(t, line) by {
        lemma_line_of_part(a + b + c, d, none, line);
    }
}

/// The summary has every line of every proxy that it covers.
pub proof fn law_every_proxy_is_exported(
    proxies: Seq<(String, ProxyMetrics)>,
    k: int,
    line: Seq<char>,
)
    requires
        0 <= k < proxies.len(),
        has_line(proxy_text(proxies[k].0@, proxies[k].1), line),
    ensures
        has_line(proxies_text(proxies), line),
    decreases proxies.len(),
{
    let none = Seq::<char>::empty();
    let rest = proxies.drop_last();
    let last = proxy_text(proxies.last().0@, proxies.last().1);
    if k < rest.len() {
        law_every_proxy_is_exported(rest, k, line);
        lemma_line_of_part(none, proxies_text(rest), last, line);
        assert(none + proxies_text(rest) + last =~= proxies_text(rest) + last);
    } else {
        lemma_line_of_part(proxies_text(rest), last, none, line);
        assert(proxies_text(rest) + last + none =~= proxies_text(rest) + last);
    }
}

/// The summary has every line of every upstream that it covers.
pub proof fn law_every_upstream_is_exported(
    upstreams: Seq<(String, UpstreamMetricsSnapshot)>,
    rendered: Seq<RenderedUpstream>,
    k: int,
    line: Seq<char>,
)
    requires
        0 <= k < upstreams.len(),
        has_line(upstream_text(upstreams[k].0@, upstreams[k].1, rendered[k]), line),
    ensures
        has_line(upstreams_text(upstreams, rendered), line),
    decreases upstreams.len(),
{
    let none = Seq::<char>::empty();
    let rest = upstreams.drop_last();
    let last = upstream_text(
        upstreams.last().0@,
        upstreams.last().1,
        rendered[upstreams.len() - 1],
    );
    if k < rest.len() {
        law_every_upstream_is_exported(rest, rendered, k, line);
        lemma_line_of_part(none, upstreams_text(rest, rendered), last, line);
        assert(none + upstreams_text(rest, rendered) + last =~= upstreams_text(rest, rendered)
            + last);
    } else {
        lemma_line_of_part(upstreams_text(rest, rendered), last, none, line);
        assert(upstreams_text(rest, rendered) + last + none =~= upstreams_text(rest, rendered)
            + last);
    }
}

/// The text for an upstream has a line for its health, as a number between zero and one, and for the
/// requests that were sent to it.
pub proof fn law_upstream_counters_are_written(
    name: Seq<char>,
    m: UpstreamMetricsSnapshot,
    rendered: RenderedUpstream,
)
    ensures
        ({
            let t = upstream_text(name, m, rendered);
            let of = "{upstream=\""@ + name + "\"}"@;
            &&& m.health_state == HealthState::Healthy ==> has_line(
                t,
                "harbr_upstream_health"@ + of + " "@ + "1"@,
            )
            &&& m.health_state == HealthState::Unknown ==> has_line(
                t,
                "harbr_upstream_health"@ + of + " "@ + "0.5"@,
            )
            &&& m.health_state == HealthState::Unhealthy ==> has_line(
                t,
                "harbr_upstream_health"@ + of + " "@ + "0"@,
            )
            &&& has_line(
                t,
                "harbr_upstream_requests_total"@ + of + " "@ + decimal(m.requests_sent as nat),
            )
            &&& has_line(
                t,
                "harbr_upstream_response_time_ms"@ + of + " "@ + rendered.avg_response_time_ms@,
            )
            &&& has_line(
                t,
                "harbr_upstream_success_rate"@ + of + " "@ + rendered.success_rate@,
            )
        }),
{
    let t = upstream_text(name, m, rendered);
    let of = "{upstream=\""@ + name + "\"}"@;
    assert(label("upstream"@, name) =~= of) by {
        reveal_strlit("{");
        reveal_strlit("upstream");
        reveal_strlit("=\"");
        reveal_strlit("{upstream=\"");
        assert("{"@ + "upstream"@ + "=\""@ =~= "{upstream=\""@);
    }
    let h = "Upstream health status (1=healthy, 0.5=unknown, 0=unhealthy)"@;
    let a = metric("harbr_upstream_health"@, h, "gauge"@, of, health_value(m.health_state));
    let b = metric(
        "harbr_upstream_requests_total"@,
        "Total requests sent to upstream"@,
        "counter"@,
        of,
        decimal(m.requests_sent as nat),
    );
    let c = metric(
        "harbr_upstream_response_time_ms"@,
        "Average response time in milliseconds"@,
        "gauge"@,
        of,
        rendered.avg_response_time_ms@,
    );
    let d = metric(
        "harbr_upstream_success_rate"@,
        "Success rate (0.0 to 1.0)"@,
        "gauge"@,
        of,
        rendered.success_rate@,
    );
    lemma_four_metrics(a, b, c, d, t);
    law_metrics_are_lines("harbr_upstream_health"@, h, "gauge"@, of, health_value(m.health_state));
    law_metrics_are_lines(
        "harbr_upstream_requests_total"@,
        "Total requests sent to upstream"@,
        "counter"@,
        of,
        decimal(m.requests_sent as nat),
    );
    law_metrics_are_lines(
        "harbr_upstream_response_time_ms"@,
        "Average response time in milliseconds"@,
        "gauge"@,
        of,
        rendered.avg_response_time_ms@,
    );
    law_metrics_are_lines(
        "harbr_upstream_success_rate"@,
        "Success rate (0.0 to 1.0)"@,
        "gauge"@,
        of,
        rendered.success_rate@,
    );
}

/// The text for the system has a line for each of its counters.
pub proof fn law_system_counters_are_written(s: SystemMetricsSnapshot)
    ensures
        ({
            let t = system_text(s);
            &&& has_line(
                t,
                "harbr_proxy_instances_total"@ + " "@ + decimal(s.proxy_instances_total as nat),
            )
            &&& has_line(t, "harbr_upstreams_total"@ + " "@ + decimal(s.upstreams_total as nat))
            &&& has_line(t, "harbr_uptime_seconds"@ + " "@ + decimal(s.uptime_seconds as nat))
            &&& has_line(
                t,
                "harbr_memory_rss_bytes"@ + " "@ + decimal(s.memory_usage.rss_bytes as nat),
            )
        }),
{
    reveal_strlit("");
    let t = system_text(s);
    let none = ""@;
    let a = metric(
        "harbr_proxy_instances_total"@,
        "Total number of proxy instances"@,
        "gauge"@,
        none,
        decimal(s.proxy_instances_total as nat),
    );
    let b = metric(
        "harbr_upstreams_total"@,
        "Total number of upstream servers"@,
        "gauge"@,
        none,
        decimal(s.upstreams_total as nat),
    );
    let c = metric(
        "harbr_uptime_seconds"@,
        "System uptime in seconds"@,
        "gauge"@,
        none,
        decimal(s.uptime_seconds as nat),
    );
    let d = metric(
        "harbr_memory_rss_bytes"@,
        "RSS memory usage in bytes"@,
        "gauge"@,
        none,
        decimal(s.memory_usage.rss_bytes as nat),
    );
    lemma_four_metrics(a, b, c, d, t);
    law_metrics_are_lines(
        "harbr_proxy_instances_total"@,
        "Total number of proxy instances"@,
        "gauge"@,
        none,
        decimal(s.proxy_instances_total as nat),
    );
    law_metrics_are_lines(
        "harbr_upstreams_total"@,
        "Total number of upstream servers"@,
        "gauge"@,
        none,
        decimal(s.upstreams_total as nat),
    );
    law_metrics_are_lines(
        "harbr_uptime_seconds"@,
        "System uptime in seconds"@,
        "gauge"@,
        none,
        decimal(s.uptime_seconds as nat),
    );
    law_metrics_are_lines(
        "harbr_memory_rss_bytes"@,
        "RSS memory usage in bytes"@,
        "gauge"@,
        none,
        decimal(s.memory_usage.rss_bytes as nat),
    );
    assert("harbr_proxy_instances_total"@ + none =~= "harbr_proxy_instances_total"@);
    assert("harbr_upstreams_total"@ + none =~= "harbr_upstreams_total"@);
    assert("harbr_uptime_seconds"@ + none =~= "harbr_uptime_seconds"@);
    assert("harbr_memory_rss_bytes"@ + none =~= "harbr_memory_rss_bytes"@);
}

/// The export is made of all lines of the system, of every proxy and of every upstream.
pub proof fn law_export_covers_everything(
    summary: MetricsSummary,
    rendered: Seq<RenderedUpstream>,
    line: Seq<char>,
)
    requires
        has_line(system_text(summary.system), line) || has_line(
            proxies_text(summary.proxies@),
            line,
        ) || has_line(upstreams_text(summary.upstreams@, rendered), line),
    ensures
        has_line(summary.exported(rendered), line),
{
    let none = Seq::<char>::empty();
    let a = system_text(summary.system);
    let b = proxies_text(summary.proxies@);
    let c = upstreams_text(summary.upstreams@, rendered);
    assert(a + b + c + none =~= a + b + c);
    lemma_four_metrics(a, b, c, none, a + b + c);
}

} // verus!
