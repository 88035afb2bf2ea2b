//! Configuration of the router: its structure, its default values and its validation.
use vstd::prelude::*;

use crate::address::{AddressId, SocketAddress, v4_id};
use crate::error::{config_error, Error, ErrorView, Result};
use crate::name_map::NameMap;
use crate::text;

verus! {

broadcast use vstd::string::group_string_axioms;

/// Main configuration structure.
#[derive(Debug, Clone)]
pub struct Config {
    /// Global configuration settings
    pub global: GlobalConfig,
    /// Proxy instance configurations
    pub proxy_instances: Vec<ProxyInstanceConfig>,
}

/// Global configuration settings that apply to all proxy instances.
#[derive(Debug, Clone)]
pub struct GlobalConfig {
    /// Metrics configuration
    pub metrics: MetricsConfig,
    /// Health check configuration
    pub health_check: HealthCheckConfig,
    /// Performance settings
    pub performance: PerformanceConfig,
    /// Logging configuration
    pub logging: LoggingConfig,
}

/// Metrics collection and export configuration.
#[derive(Debug, Clone)]
pub struct MetricsConfig {
    /// Enable metrics collection
    pub enabled: bool,
    /// Metrics server listen address
    pub listen_addr: SocketAddress,
    /// Metrics endpoint path
    pub path: String,
    /// Metrics collection interval in seconds
    pub interval_secs: u64,
}

/// Health check endpoint configuration.
#[derive(Debug, Clone)]
pub struct HealthCheckConfig {
    /// Enable health check endpoint
    pub enabled: bool,
    /// Health check server listen address
    pub listen_addr: SocketAddress,
    /// Health check endpoint path
    pub path: String,
}

/// Performance tuning configuration.
#[derive(Debug, Clone)]
pub struct PerformanceConfig {
    /// Number of worker threads (0 = auto-detect)
    pub worker_threads: usize,
    /// Enable CPU affinity binding
    pub cpu_affinity: bool,
    /// Buffer pool configuration
    pub buffer_pool: BufferPoolConfig,
    /// Connection pool configuration
    pub connection_pool: ConnectionPoolConfig,
}

/// Buffer pool configuration for zero-copy operations.
#[derive(Debug, Clone)]
pub struct BufferPoolConfig {
    /// Initial buffer pool size per size class
    pub initial_size: usize,
    /// Maximum buffer pool size per size class
    pub max_size: usize,
    /// Enable buffer pool statistics
    pub enable_stats: bool,
}

/// Connection pool configuration for upstream connections.
#[derive(Debug, Clone)]
pub struct ConnectionPoolConfig {
    /// Maximum connections per upstream
    pub max_connections_per_upstream: usize,
    /// Connection idle timeout in seconds
    pub idle_timeout_secs: u64,
    /// Connection keep-alive timeout in seconds
    pub keepalive_timeout_secs: u64,
}

/// Logging configuration.
#[derive(Debug, Clone)]
pub struct LoggingConfig {
    /// Log level (error, warn, info, debug, trace)
    pub level: String,
    /// Log format (json, pretty, compact)
    pub format: String,
    /// Enable request tracing
    pub enable_tracing: bool,
}

/// Configuration for a single proxy instance.
#[derive(Debug, Clone)]
pub struct ProxyInstanceConfig {
    /// Unique instance name
    pub name: String,
    /// Proxy type (http, tcp, udp)
    pub proxy_type: ProxyType,
    /// Listen address for incoming connections
    pub listen_addr: SocketAddress,
    /// Upstream host configurations
    pub upstreams: Vec<UpstreamConfig>,
    /// Proxy-specific configuration
    pub config: ProxySpecificConfig,
}

/// Supported proxy types.
#[derive(Debug, Clone, Copy, PartialEq, Eq, Hash, Structural)]
pub enum ProxyType {
    Http,
    Tcp,
    Udp,
}

/// Configuration for an upstream server.
#[derive(Debug, Clone)]
pub struct UpstreamConfig {
    /// Unique upstream name/identifier
    pub name: String,
    /// Upstream server address
    pub address: String,
    /// Load balancing weight (default: 1)
    pub weight: u32,
    /// Route priority (higher = preferred)
    pub priority: i32,
    /// Request timeout in milliseconds
    pub timeout_ms: u64,
    /// Retry configuration
    pub retry: RetryConfig,
    /// Health check configuration
    pub health_check: Option<UpstreamHealthCheckConfig>,
    /// TLS configuration for upstream connection
    pub tls: Option<TlsConfig>,
}

/// Retry configuration for upstream requests.
#[derive(Debug, Clone, Copy, PartialEq, Eq, Structural)]
pub struct RetryConfig {
    /// Maximum number of retry attempts
    pub max_attempts: u32,
    /// Retry backoff strategy
    pub backoff: BackoffStrategy,
}

/// Backoff strategies for retries.
#[derive(Debug, Clone, Copy, PartialEq, Eq, Structural)]
pub enum BackoffStrategy {
    /// Fixed delay between retries
    Fixed { delay_ms: u64 },
    /// Exponential backoff with optional jitter
    Exponential { base_delay_ms: u64, max_delay_ms: u64, jitter: bool },
    /// Linear backoff
    Linear { initial_delay_ms: u64, increment_ms: u64 },
}

/// Health check configuration for upstreams.
#[derive(Debug, Clone)]
pub struct UpstreamHealthCheckConfig {
    /// Health check interval in seconds
    pub interval_secs: u64,
    /// Health check timeout in seconds
    pub timeout_secs: u64,
    /// Number of consecutive failures before marking unhealthy
    pub failure_threshold: u32,
    /// Number of consecutive successes before marking healthy
    pub success_threshold: u32,
    /// Protocol-specific health check configuration
    pub protocol_config: HealthCheckProtocolConfig,
}

/// Protocol-specific health check configuration.
#[derive(Debug, Clone)]
pub enum HealthCheckProtocolConfig {
    /// HTTP health check
    Http {
        /// HTTP path to check
        path: String,
        /// Expected HTTP status codes
        expected_status: Vec<u16>,
        /// Request headers
        headers: NameMap<String>,
    },
    /// TCP health check
    Tcp,
    /// UDP health check (echo test)
    Udp,
}

/// TLS configuration for upstream connections.
#[derive(Debug, Clone)]
pub struct TlsConfig {
    /// Enable TLS
    pub enabled: bool,
    /// Skip certificate verification (dangerous!)
    pub insecure_skip_verify: bool,
    /// CA certificate file path
    pub ca_cert_file: Option<String>,
    /// Client certificate file path
    pub client_cert_file: Option<String>,
    /// Client private key file path
    pub client_key_file: Option<String>,
    /// SNI server name
    pub server_name: Option<String>,
}

/// Proxy-specific configuration options.
#[derive(Debug, Clone)]
pub struct ProxySpecificConfig {
    /// HTTP-specific configuration
    pub http: HttpProxyConfig,
    /// TCP-specific configuration
    pub tcp: TcpProxyConfig,
    /// UDP-specific configuration
    pub udp: UdpProxyConfig,
}

/// HTTP proxy specific configuration.
#[derive(Debug, Clone)]
pub struct HttpProxyConfig {
    /// Enable HTTP/2 support
    pub http2_enabled: bool,
    /// Enable request/response compression
    pub compression_enabled: bool,
    /// Maximum request body size in bytes
    pub max_request_size: usize,
    /// Request timeout in seconds
    pub request_timeout_secs: u64,
    /// Headers to add to all requests
    pub add_headers: NameMap<String>,
    /// Headers to remove from all requests
    pub remove_headers: Vec<String>,
    /// Enable sticky sessions
    pub sticky_sessions: bool,
}

/// TCP proxy specific configuration.
#[derive(Debug, Clone, Copy, PartialEq, Eq, Structural)]
pub struct TcpProxyConfig {
    /// Enable connection pooling
    pub connection_pooling: bool,
    /// Buffer size for data transfer
    pub buffer_size: usize,
    /// TCP keep-alive settings
    pub keep_alive: Option<TcpKeepAliveConfig>,
    /// Enable Nagle's algorithm
    pub nodelay: bool,
}

/// TCP keep-alive configuration.
#[derive(Debug, Clone, Copy, PartialEq, Eq, Structural)]
pub struct TcpKeepAliveConfig {
    /// Enable TCP keep-alive
    pub enabled: bool,
    /// Time before first keep-alive probe (seconds)
    pub idle_secs: u64,
    /// Interval between keep-alive probes (seconds)
    pub interval_secs: u64,
    /// Number of probes before declaring connection dead
    pub retries: u32,
}

/// UDP proxy specific configuration.
#[derive(Debug, Clone, Copy, PartialEq, Eq, Structural)]
pub struct UdpProxyConfig {
    /// Buffer size for UDP packets
    pub buffer_size: usize,
    /// Session timeout in seconds
    pub session_timeout_secs: u64,
    /// Enable connection tracking
    pub connection_tracking: bool,
}

/// The file formats in which a configuration can be written.
#[derive(Debug, Clone, Copy, PartialEq, Eq, Structural)]
pub enum ConfigFormat {
    Yaml,
    Json,
    Toml,
}

// ---------------------------------------------------------------------------------------------
// What makes a configuration valid
// ---------------------------------------------------------------------------------------------

/// The place, at or behind `i`, of the first item that has occurred before it in the sequence.
pub open spec fn first_repeat<A>(s: Seq<A>, i: int) -> Option<int>
    decreases s.len() - i,
{
    if i < 0 || i >= s.len() {
        None
    } else if s.take(i).contains(s[i]) {
        Some(i)
    } else {
        first_repeat(s, i + 1)
    }
}

/// A sequence without a repeated item is one whose items differ pairwise.
pub proof fn lemma_first_repeat<A>(s: Seq<A>, i: int)
    requires
        0 <= i <= s.len(),
        forall|a: int, b: int| 0 <= a < b < i ==> s[a] != s[b],
    ensures
        first_repeat(s, i) is None <==> s.no_duplicates(),
        first_repeat(s, i) matches Some(k) ==> i <= k < s.len() && s.take(k).contains(s[k]),
    decreases s.len() - i,
{
    if i < s.len() {
        if s.take(i).contains(s[i]) {
            let a = s.take(i).index_of(s[i]);
            assert(s.take(i)[a] == s[i]);
            assert(s[a] == s[i]);
        } else {
            assert forall|a: int, b: int| 0 <= a < b < i + 1 implies s[a] != s[b] by {
                if b == i {
                    assert(s.take(i)[a] == s[a]);
                }
            }
            lemma_first_repeat(s, i + 1);
        }
    }
}

/// The names of proxy instances.
pub open spec fn instance_names(s: Seq<ProxyInstanceConfig>) -> Seq<Seq<char>> {
    s.map_values(|i: ProxyInstanceConfig| i.name@)
}

/// The listen addresses of proxy instances.
pub open spec fn listen_ids(s: Seq<ProxyInstanceConfig>) -> Seq<AddressId> {
    s.map_values(|i: ProxyInstanceConfig| i.listen_addr.id)
}

/// The names of upstreams.
pub open spec fn upstream_names(s: Seq<UpstreamConfig>) -> Seq<Seq<char>> {
    s.map_values(|u: UpstreamConfig| u.name@)
}

/// The fault of the first upstream at or behind `i` that has one.
pub open spec fn upstreams_fault(s: Seq<UpstreamConfig>, i: int) -> Option<ErrorView>
    decreases s.len() - i,
{
    if i < 0 || i >= s.len() {
        None
    } else if s[i].fault() is Some {
        s[i].fault()
    } else {
        upstreams_fault(s, i + 1)
    }
}

/// The fault of the first instance at or behind `i` that has one.
pub open spec fn instances_fault(s: Seq<ProxyInstanceConfig>, i: int) -> Option<ErrorView>
    decreases s.len() - i,
{
    if i < 0 || i >= s.len() {
        None
    } else if s[i].fault() is Some {
        s[i].fault()
    } else {
        instances_fault(s, i + 1)
    }
}

/// The log levels that are accepted.
pub open spec fn is_log_level(level: Seq<char>) -> bool {
    ||| level == "error"@
    ||| level == "warn"@
    ||| level == "info"@
    ||| level == "debug"@
    ||| level == "trace"@
}

/// The log formats that are accepted.
pub open spec fn is_log_format(format: Seq<char>) -> bool {
    ||| format == "json"@
    ||| format == "pretty"@
    ||| format == "compact"@
}

impl UpstreamConfig {
    /// The first thing wrong with this upstream.
    pub open spec fn fault(self) -> Option<ErrorView> {
        if self.name@.len() == 0 {
            Some(config_error("Upstream name cannot be empty"@))
        } else if self.address@.len() == 0 {
            Some(config_error("Upstream '"@ + self.name@ + "' address cannot be empty"@))
        } else if !self.address@.contains(':') {
            Some(
                config_error(
                    "Upstream '"@ + self.name@
                        + "' address must include port (e.g., 'host:port')"@,
                ),
            )
        } else if self.weight == 0 {
            Some(config_error("Upstream '"@ + self.name@ + "' weight must be greater than 0"@))
        } else if self.timeout_ms == 0 {
            Some(config_error("Upstream '"@ + self.name@ + "' timeout must be greater than 0"@))
        } else {
            None
        }
    }

    /// What a valid upstream is: named, with an address that holds a port, a weight and a timeout.
    pub open spec fn valid(self) -> bool {
        &&& self.name@.len() > 0
        &&& self.address@.contains(':')
        &&& self.weight > 0
        &&& self.timeout_ms > 0
    }
}

impl ProxyInstanceConfig {
    /// The first thing wrong with this instance.
    pub open spec fn fault(self) -> Option<ErrorView> {
        if self.name@.len() == 0 {
            Some(config_error("Proxy instance name cannot be empty"@))
        } else if self.upstreams@.len() == 0 {
            Some(
                config_error(
                    "Proxy instance '"@ + self.name@ + "' must have at least one upstream"@,
                ),
            )
        } else {
            match first_repeat(upstream_names(self.upstreams@), 0) {
                Some(k) => Some(
                    config_error(
                        "Duplicate upstream name '"@ + self.upstreams@[k].name@ + "' in instance '"@
                            + self.name@ + "'"@,
                    ),
                ),
                None => upstreams_fault(self.upstreams@, 0),
            }
        }
    }

    /// What a valid instance is: named, with at least one upstream, all of them valid and no two
    /// of the same name.
    pub open spec fn valid(self) -> bool {
        &&& self.name@.len() > 0
        &&& self.upstreams@.len() > 0
        &&& upstream_names(self.upstreams@).no_duplicates()
        &&& forall|i: int| 0 <= i < self.upstreams@.len() ==> (#[trigger] self.upstreams@[i]).valid()
    }
}

impl GlobalConfig {
    /// The first thing wrong with the global settings.
    pub open spec fn fault(self) -> Option<ErrorView> {
        if self.metrics.enabled && self.metrics.interval_secs == 0 {
            Some(config_error("Metrics interval must be greater than 0"@))
        } else if self.performance.buffer_pool.initial_size
            > self.performance.buffer_pool.max_size {
            Some(config_error("Buffer pool initial size cannot be greater than max size"@))
        } else if !is_log_level(self.logging.level@) {
            Some(
                config_error(
                    "Invalid log level. Must be one of: error, warn, info, debug, trace"@,
                ),
            )
        } else if !is_log_format(self.logging.format@) {
            Some(config_error("Invalid log format. Must be one of: json, pretty, compact"@))
        } else {
            None
        }
    }

    /// What valid global settings are.
    pub open spec fn valid(self) -> bool {
        &&& self.metrics.enabled ==> self.metrics.interval_secs > 0
        &&& self.performance.buffer_pool.initial_size <= self.performance.buffer_pool.max_size
        &&& is_log_level(self.logging.level@)
        &&& is_log_format(self.logging.format@)
    }
}

impl Config {
    /// The first thing wrong with the configuration.
    pub open spec fn fault(self) -> Option<ErrorView> {
        let instances = self.proxy_instances@;
        match first_repeat(instance_names(instances), 0) {
            Some(k) => Some(
                config_error("Duplicate proxy instance name: '"@ + instances[k].name@ + "'"@),
            ),
            None => match first_repeat(listen_ids(instances), 0) {
                Some(k) => Some(
                    config_error(
                        "Duplicate listen address: "@ + instances[k].listen_addr.text@
                            + " (instance: "@ + instances[k].name@ + ")"@,
                    ),
                ),
                None => match instances_fault(instances, 0) {
                    Some(e) => Some(e),
                    None => self.global.fault(),
                },
            },
        }
    }

    /// What a valid configuration is: valid global settings, and valid instances no two of which
    /// share a name or a listen address.
    pub open spec fn valid(self) -> bool {
        &&& instance_names(self.proxy_instances@).no_duplicates()
        &&& listen_ids(self.proxy_instances@).no_duplicates()
        &&& forall|i: int|
            0 <= i < self.proxy_instances@.len() ==> (#[trigger] self.proxy_instances@[i]).valid()
        &&& self.global.valid()
    }
}

proof fn lemma_upstreams_fault(s: Seq<UpstreamConfig>, i: int)
    requires
        0 <= i,
    ensures
        upstreams_fault(s, i) is None <==> forall|j: int|
            i <= j < s.len() ==> (#[trigger] s[j]).valid(),
    decreases s.len() - i,
{
    if i < s.len() {
        lemma_upstreams_fault(s, i + 1);
        assert(s[i].fault() is None <==> s[i].valid());
    }
}

proof fn lemma_instances_fault(s: Seq<ProxyInstanceConfig>, i: int)
    requires
        0 <= i,
    ensures
        instances_fault(s, i) is None <==> forall|j: int|
            i <= j < s.len() ==> (#[trigger] s[j]).valid(),
    decreases s.len() - i,
{
    if i < s.len() {
        lemma_instances_fault(s, i + 1);
        law_valid_instance(s[i]);
    }
}

/// An instance is refused exactly when it is not valid.
pub proof fn law_valid_instance(instance: ProxyInstanceConfig)
    ensures
        instance.fault() is None <==> instance.valid(),
{
    lemma_first_repeat(upstream_names(instance.upstreams@), 0);
    lemma_upstreams_fault(instance.upstreams@, 0);
}

/// A configuration is refused exactly when it is not valid.
pub proof fn law_valid_config(config: Config)
    ensures
        config.fault() is None <==> config.valid(),
{
    lemma_first_repeat(instance_names(config.proxy_instances@), 0);
    lemma_first_repeat(listen_ids(config.proxy_instances@), 0);
    lemma_instances_fault(config.proxy_instances@, 0);
}

// ---------------------------------------------------------------------------------------------
// Default values
// ---------------------------------------------------------------------------------------------

/// The path under which metrics are served.
pub fn default_metrics_path() -> (result: String)
    ensures
        result@ == "/metrics"@,
{
    "/metrics".to_string()
}

/// Seconds between two collections of metrics.
pub fn default_metrics_interval() -> (result: u64)
    ensures
        result == 60,
{
    60
}

/// The path under which health is served and checked.
pub fn default_health_path() -> (result: String)
    ensures
        result@ == "/health"@,
{
    "/health".to_string()
}

/// The value of switches that are on unless they are set.
pub fn default_true() -> (result: bool)
    ensures
        result,
{
    true
}

/// Buffers in a pool at the start.
pub fn default_buffer_pool_size() -> (result: usize)
    ensures
        result == 1024,
{
    1024
}

/// Buffers in a pool at most.
pub fn default_buffer_pool_max_size() -> (result: usize)
    ensures
        result == 4096,
{
    4096
}

/// Connections to one upstream at most.
pub fn default_max_connections() -> (result: usize)
    ensures
        result == 100,
{
    100
}

/// Seconds after which an idle connection is closed.
pub fn default_idle_timeout() -> (result: u64)
    ensures
        result == 300,
{
    300
}

/// Seconds for which a connection is kept alive.
pub fn default_keepalive_timeout() -> (result: u64)
    ensures
        result == 60,
{
    60
}

/// The level at which messages are logged.
pub fn default_log_level() -> (result: String)
    ensures
        result@ == "info"@,
{
    "info".to_string()
}

/// The format in which messages are logged.
pub fn default_log_format() -> (result: String)
    ensures
        result@ == "pretty"@,
{
    "pretty".to_string()
}

/// The load balancing weight of an upstream.
pub fn default_weight() -> (result: u32)
    ensures
        result == 1,
{
    1
}

/// Milliseconds that a request may take.
pub fn default_timeout_ms() -> (result: u64)
    ensures
        result == 30000,
{
    30000
}

/// Seconds between two health checks.
pub fn default_health_interval() -> (result: u64)
    ensures
        result == 30,
{
    30
}

/// Seconds that a health check may take.
pub fn default_health_timeout() -> (result: u64)
    ensures
        result == 5,
{
    5
}

/// Consecutive failures that make an upstream unhealthy.
pub fn default_failure_threshold() -> (result: u32)
    ensures
        result == 3,
{
    3
}

/// Consecutive successes that make an upstream healthy.
pub fn default_success_threshold() -> (result: u32)
    ensures
        result == 2,
{
    2
}

/// The statuses that an HTTP health check accepts.
pub fn default_expected_status() -> (result: Vec<u16>)
    ensures
        result@ == seq![200u16],
{
    let mut v: Vec<u16> = Vec::new();
    v.push(200);
    assert(v@ =~= seq![200u16]);
    v
}

/// Bytes in a request body at most.
pub fn default_max_request_size() -> (result: usize)
    ensures
        result == 67108864,
{
    64 * 1024 * 1024
}

/// Seconds that an HTTP request may take.
pub fn default_request_timeout() -> (result: u64)
    ensures
        result == 60,
{
    60
}

/// Bytes in a TCP transfer buffer.
pub fn default_tcp_buffer_size() -> (result: usize)
    ensures
        result == 8192,
{
    8192
}

/// Bytes in a UDP packet buffer.
pub fn default_udp_buffer_size() -> (result: usize)
    ensures
        result == 1500,
{
    1500
}

/// Seconds after which a UDP session ends.
pub fn default_udp_timeout() -> (result: u64)
    ensures
        result == 30,
{
    30
}

impl Default for GlobalConfig {
    fn default() -> (result: Self)
        ensures
            result.metrics.is_default(),
            result.health_check.is_default(),
            result.performance.is_default(),
            result.logging.is_default(),
            result.valid(),
    {
        GlobalConfig {
            metrics: MetricsConfig::default(),
            health_check: HealthCheckConfig::default(),
            performance: PerformanceConfig::default(),
            logging: LoggingConfig::default(),
        }
    }
}

impl MetricsConfig {
    /// Metrics on port 9090 of every interface, under `/metrics`, once a minute.
    pub open spec fn is_default(self) -> bool {
        &&& self.enabled
        &&& self.listen_addr.id == v4_id(0, 9090)
        &&& self.listen_addr.text@ == "0.0.0.0:9090"@
        &&& self.path@ == "/metrics"@
        &&& self.interval_secs == 60
    }
}

impl Default for MetricsConfig {
    fn default() -> (result: Self)
        ensures
            result.is_default(),
    {
        MetricsConfig {
            enabled: true,
            listen_addr: SocketAddress {
                id: AddressId::v4(0, 9090),
                text: "0.0.0.0:9090".to_string(),
            },
            path: default_metrics_path(),
            interval_secs: default_metrics_interval(),
        }
    }
}

impl HealthCheckConfig {
    /// Health on port 8080 of every interface, under `/health`.
    pub open spec fn is_default(self) -> bool {
        &&& self.enabled
        &&& self.listen_addr.id == v4_id(0, 8080)
        &&& self.listen_addr.text@ == "0.0.0.0:8080"@
        &&& self.path@ == "/health"@
    }
}

impl Default for HealthCheckConfig {
    fn default() -> (result: Self)
        ensures
            result.is_default(),
    {
        HealthCheckConfig {
            enabled: true,
            listen_addr: SocketAddress {
                id: AddressId::v4(0, 8080),
                text: "0.0.0.0:8080".to_string(),
            },
            path: default_health_path(),
        }
    }
}

impl PerformanceConfig {
    /// As many workers as fit the machine, bound to processors, with the default pools.
    pub open spec fn is_default(self) -> bool {
        &&& self.worker_threads == 0
        &&& self.cpu_affinity
        &&& self.buffer_pool.is_default()
        &&& self.connection_pool.is_default()
    }
}

impl Default for PerformanceConfig {
    fn default() -> (result: Self)
        ensures
            result.is_default(),
    {
        PerformanceConfig {
            worker_threads: 0,
            cpu_affinity: true,
            buffer_pool: BufferPoolConfig::default(),
            connection_pool: ConnectionPoolConfig::default(),
        }
    }
}

impl BufferPoolConfig {
    /// 1024 buffers at the start, 4096 at most, no statistics.
    pub open spec fn is_default(self) -> bool {
        &&& self.initial_size == 1024
        &&& self.max_size == 4096
        &&& !self.enable_stats
    }
}

impl Default for BufferPoolConfig {
    fn default() -> (result: Self)
        ensures
            result.is_default(),
    {
        BufferPoolConfig {
            initial_size: default_buffer_pool_size(),
            max_size: default_buffer_pool_max_size(),
            enable_stats: false,
        }
    }
}

impl ConnectionPoolConfig {
    /// 100 connections per upstream, five minutes idle, one minute kept alive.
    pub open spec fn is_default(self) -> bool {
        &&& self.max_connections_per_upstream == 100
        &&& self.idle_timeout_secs == 300
        &&& self.keepalive_timeout_secs == 60
    }
}

impl Default for ConnectionPoolConfig {
    fn default() -> (result: Self)
        ensures
            result.is_default(),
    {
        ConnectionPoolConfig {
            max_connections_per_upstream: default_max_connections(),
            idle_timeout_secs: default_idle_timeout(),
            keepalive_timeout_secs: default_keepalive_timeout(),
        }
    }
}

impl LoggingConfig {
    /// Level `info`, format `pretty`, no request tracing.
    pub open spec fn is_default(self) -> bool {
        &&& self.level@ == "info"@
        &&& self.format@ == "pretty"@
        &&& !self.enable_tracing
    }
}

impl Default for LoggingConfig {
    fn default() -> (result: Self)
        ensures
            result.is_default(),
    {
        LoggingConfig {
            level: default_log_level(),
            format: default_log_format(),
            enable_tracing: false,
        }
    }
}

impl Default for RetryConfig {
    fn default() -> (result: Self)
        ensures
            result == (RetryConfig {
                max_attempts: 0,
                backoff: BackoffStrategy::Fixed { delay_ms: 1000 },
            }),
    {
        RetryConfig { max_attempts: 0, backoff: BackoffStrategy::Fixed { delay_ms: 1000 } }
    }
}

impl Default for BackoffStrategy {
    fn default() -> (result: Self)
        ensures
            result == (BackoffStrategy::Fixed { delay_ms: 1000 }),
    {
        BackoffStrategy::Fixed { delay_ms: 1000 }
    }
}

impl HttpProxyConfig {
    /// HTTP/2 and compression on, 64 MB and one minute per request, headers left as they are.
    pub open spec fn is_default(self) -> bool {
        &&& self.http2_enabled
        &&& self.compression_enabled
        &&& self.max_request_size == 67108864
        &&& self.request_timeout_secs == 60
        &&& self.add_headers.wf()
        &&& self.add_headers.entries@.len() == 0
        &&& self.remove_headers@.len() == 0
        &&& !self.sticky_sessions
    }
}

impl Default for HttpProxyConfig {
    fn default() -> (result: Self)
        ensures
            result.is_default(),
    {
        HttpProxyConfig {
            http2_enabled: true,
            compression_enabled: true,
            max_request_size: default_max_request_size(),
            request_timeout_secs: default_request_timeout(),
            add_headers: NameMap::new(),
            remove_headers: Vec::new(),
            sticky_sessions: false,
        }
    }
}

impl Default for TcpProxyConfig {
    fn default() -> (result: Self)
        ensures
            result == (TcpProxyConfig {
                connection_pooling: true,
                buffer_size: 8192,
                keep_alive: None,
                nodelay: false,
            }),
    {
        TcpProxyConfig {
            connection_pooling: true,
            buffer_size: default_tcp_buffer_size(),
            keep_alive: None,
            nodelay: false,
        }
    }
}

impl Default for UdpProxyConfig {
    fn default() -> (result: Self)
        ensures
            result == (UdpProxyConfig {
                buffer_size: 1500,
                session_timeout_secs: 30,
                connection_tracking: true,
            }),
    {
        UdpProxyConfig {
            buffer_size: default_udp_buffer_size(),
            session_timeout_secs: default_udp_timeout(),
            connection_tracking: true,
        }
    }
}

impl Default for ProxySpecificConfig {
    fn default() -> (result: Self)
        ensures
            result.http.is_default(),
            result.tcp == (TcpProxyConfig {
                connection_pooling: true,
                buffer_size: 8192,
                keep_alive: None,
                nodelay: false,
            }),
            result.udp == (UdpProxyConfig {
                buffer_size: 1500,
                session_timeout_secs: 30,
                connection_tracking: true,
            }),
    {
        ProxySpecificConfig {
            http: HttpProxyConfig::default(),
            tcp: TcpProxyConfig::default(),
            udp: UdpProxyConfig::default(),
        }
    }
}

// ---------------------------------------------------------------------------------------------
// Loading, validation and lookup
// ---------------------------------------------------------------------------------------------

/// The format that a file extension stands for.
pub open spec fn format_of(extension: Option<Seq<char>>) -> Option<ConfigFormat> {
    match extension {
        Some(e) => if e == "yml"@ || e == "yaml"@ {
            Some(ConfigFormat::Yaml)
        } else if e == "json"@ {
            Some(ConfigFormat::Json)
        } else if e == "toml"@ {
            Some(ConfigFormat::Toml)
        } else {
            None
        },
        None => None,
    }
}

impl ConfigFormat {
    /// The format of a file with this extension.
    pub fn of_extension(extension: Option<&str>) -> (result: Result<ConfigFormat>)
        ensures
            ({
                let ext = match extension {
                    Some(e) => Some(e@),
                    None => None,
                };
                match format_of(ext) {
                    Some(f) => result == Ok::<ConfigFormat, Error>(f),
                    None => result matches Err(e) && e@ == config_error(
                        "Unsupported config file format. Use .yml, .json, or .toml"@,
                    ),
                }
            }),
    {
        if let Some(e) = extension {
            if text::eq(e, "yml") || text::eq(e, "yaml") {
                return Ok(ConfigFormat::Yaml);
            }
            if text::eq(e, "json") {
                return Ok(ConfigFormat::Json);
            }
            if text::eq(e, "toml") {
                return Ok(ConfigFormat::Toml);
            }
        }
        Err(Error::config("Unsupported config file format. Use .yml, .json, or .toml"))
    }
}

/// The error for a configuration file that could not be read.
pub fn unreadable_file(path: &str, description: &str) -> (result: Error)
    ensures
        result@ == config_error(
            "Failed to read config file '"@ + path@ + "': "@ + description@,
        ),
{
    let message = text::cat4("Failed to read config file '", path, "': ", description);
    Error::config(message.as_str())
}

impl Config {
    /// The configuration that was read, where it is valid.
    pub fn from_parsed(config: Config) -> (result: Result<Config>)
        ensures
            match config.fault() {
                Some(f) => result matches Err(e) && e@ == f,
                None => result matches Ok(c) && c == config,
            },
    {
        match config.check() {
            Ok(()) => Ok(config),
            Err(e) => Err(e),
        }
    }

    /// Validate the configuration for correctness and consistency.
    pub fn validate(&mut self) -> (result: Result<()>)
        ensures
            *final(self) == *old(self),
            match old(self).fault() {
                Some(f) => result matches Err(e) && e@ == f,
                None => result is Ok,
            },
    {
        self.check()
    }

    fn check(&self) -> (result: Result<()>)
        ensures
            match self.fault() {
                Some(f) => result matches Err(e) && e@ == f,
                None => result is Ok,
            },
    {
        let n = self.proxy_instances.len();
        let ghost names = instance_names(self.proxy_instances@);
        let ghost ids = listen_ids(self.proxy_instances@);
        let mut i: usize = 0;
        while i < n
            invariant
                i <= n,
                n == self.proxy_instances@.len(),
                names == instance_names(self.proxy_instances@),
                first_repeat(names, 0) == first_repeat(names, i as int),
            decreases n - i,
        {
            let mut j: usize = 0;
            while j < i
                invariant
                    j <= i < n,
                    n == self.proxy_instances@.len(),
                    names == instance_names(self.proxy_instances@),
                    first_repeat(names, 0) == first_repeat(names, i as int),
                    forall|k: int| 0 <= k < j ==> names[k] != names[i as int],
                decreases i - j,
            {
                if text::eq(
                    self.proxy_instances[j].name.as_str(),
                    self.proxy_instances[i].name.as_str(),
                ) {
                    assert(names.take(i as int)[j as int] == names[i as int]);
                    let message = text::cat3(
                        "Duplicate proxy instance name: '",
                        self.proxy_instances[i].name.as_str(),
                        "'",
                    );
                    return Err(Error::config(message.as_str()));
                }
                j += 1;
            }
            assert(!names.take(i as int).contains(names[i as int]));
            i += 1;
        }
        i = 0;
        while i < n
            invariant
                i <= n,
                n == self.proxy_instances@.len(),
                names == instance_names(self.proxy_instances@),
                ids == listen_ids(self.proxy_instances@),
                first_repeat(names, 0) is None,
                first_repeat(ids, 0) == first_repeat(ids, i as int),
            decreases n - i,
        {
            let mut j: usize = 0;
            while j < i
                invariant
                    j <= i < n,
                    n == self.proxy_instances@.len(),
                    names == instance_names(self.proxy_instances@),
                    ids == listen_ids(self.proxy_instances@),
                    first_repeat(names, 0) is None,
                    first_repeat(ids, 0) == first_repeat(ids, i as int),
                    forall|k: int| 0 <= k < j ==> ids[k] != ids[i as int],
                decreases i - j,
            {
                if self.proxy_instances[j].listen_addr.id == self.proxy_instances[i].listen_addr.id {
                    assert(ids.take(i as int)[j as int] == ids[i as int]);
                    let message = text::cat5(
                        "Duplicate listen address: ",
                        self.proxy_instances[i].listen_addr.text.as_str(),
                        " (instance: ",
                        self.proxy_instances[i].name.as_str(),
                        ")",
                    );
                    return Err(Error::config(message.as_str()));
                }
                j += 1;
            }
            assert(!ids.take(i as int).contains(ids[i as int]));
            i += 1;
        }
        i = 0;
        while i < n
            invariant
                i <= n,
                n == self.proxy_instances@.len(),
                first_repeat(instance_names(self.proxy_instances@), 0) is None,
                first_repeat(listen_ids(self.proxy_instances@), 0) is None,
                instances_fault(self.proxy_instances@, 0) == instances_fault(
                    self.proxy_instances@,
                    i as int,
                ),
            decreases n - i,
        {
            match self.proxy_instances[i].check() {
                Ok(()) => {},
                Err(e) => {
                    return Err(e);
                },
            }
            i += 1;
        }
        self.global.validate()
    }

    /// Get proxy instance by name.
    pub fn get_instance(&self, name: &str) -> (result: Option<&ProxyInstanceConfig>)
        ensures
            match result {
                Some(found) => exists|i: int|
                    0 <= i < self.proxy_instances@.len() && *found == #[trigger] self.proxy_instances@[i]
                        && found.name@ == name@ && forall|j: int|
                        0 <= j < i ==> (#[trigger] self.proxy_instances@[j]).name@ != name@,
                None => forall|j: int|
                    0 <= j < self.proxy_instances@.len() ==> (#[trigger] self.proxy_instances@[j]).name@
                        != name@,
            },
    {
        let mut i: usize = 0;
        while i < self.proxy_instances.len()
            invariant
                i <= self.proxy_instances@.len(),
                forall|j: int|
                    0 <= j < i ==> (#[trigger] self.proxy_instances@[j]).name@ != name@,
            decreases self.proxy_instances@.len() - i,
        {
            if text::eq(self.proxy_instances[i].name.as_str(), name) {
                return Some(&self.proxy_instances[i]);
            }
            i += 1;
        }
        None
    }

    /// Get all instances of a specific proxy type.
    pub fn instances_by_type(&self, proxy_type: ProxyType) -> (result: Vec<&ProxyInstanceConfig>)
        ensures
            result@.map_values(|r: &ProxyInstanceConfig| *r) == self.proxy_instances@.filter(
                |i: ProxyInstanceConfig| i.proxy_type == proxy_type,
            ),
    {
        broadcast use vstd::seq_lib::group_filter_ensures;

        let ghost of_type = |i: ProxyInstanceConfig| i.proxy_type == proxy_type;
        let ghost plain = |r: &ProxyInstanceConfig| *r;
        let mut result: Vec<&ProxyInstanceConfig> = Vec::new();
        let mut i: usize = 0;
        assert(self.proxy_instances@.take(0).filter(of_type) =~= Seq::empty());
        while i < self.proxy_instances.len()
            invariant
                i <= self.proxy_instances@.len(),
                of_type == |i: ProxyInstanceConfig| i.proxy_type == proxy_type,
                plain == |r: &ProxyInstanceConfig| *r,
                result@.map_values(plain) == self.proxy_instances@.take(i as int).filter(of_type),
            decreases self.proxy_instances@.len() - i,
        {
            proof {
                let next = self.proxy_instances@.take(i + 1);
                assert(next.drop_last() =~= self.proxy_instances@.take(i as int));
                reveal(Seq::filter);
            }
            let ghost before = result@;
            if self.proxy_instances[i].proxy_type == proxy_type {
                result.push(&self.proxy_instances[i]);
                assert(result@.map_values(plain) =~= before.map_values(plain).push(
                    self.proxy_instances@[i as int],
                ));
            }
            i += 1;
        }
        assert(self.proxy_instances@.take(i as int) =~= self.proxy_instances@);
        result
    }
}

impl ProxyInstanceConfig {
    /// Validate this proxy instance configuration.
    pub fn validate(&mut self) -> (result: Result<()>)
        ensures
            *final(self) == *old(self),
            match old(self).fault() {
                Some(f) => result matches Err(e) && e@ == f,
                None => result is Ok,
            },
    {
        self.check()
    }

    fn check(&self) -> (result: Result<()>)
        ensures
            match self.fault() {
                Some(f) => result matches Err(e) && e@ == f,
                None => result is Ok,
            },
    {
        if text::is_empty(self.name.as_str()) {
            return Err(Error::config("Proxy instance name cannot be empty"));
        }
        if self.upstreams.len() == 0 {
            let message = text::cat3(
                "Proxy instance '",
                self.name.as_str(),
                "' must have at least one upstream",
            );
            return Err(Error::config(message.as_str()));
        }
        let n = self.upstreams.len();
        let ghost names = upstream_names(self.upstreams@);
        let mut i: usize = 0;
        while i < n
            invariant
                i <= n,
                n == self.upstreams@.len(),
                n > 0,
                self.name@.len() > 0,
                names == upstream_names(self.upstreams@),
                first_repeat(names, 0) == first_repeat(names, i as int),
            decreases n - i,
        {
            let mut j: usize = 0;
            while j < i
                invariant
                    j <= i < n,
                    n == self.upstreams@.len(),
                    self.name@.len() > 0,
                    names == upstream_names(self.upstreams@),
                    first_repeat(names, 0) == first_repeat(names, i as int),
                    forall|k: int| 0 <= k < j ==> names[k] != names[i as int],
                decreases i - j,
            {
                if text::eq(self.upstreams[j].name.as_str(), self.upstreams[i].name.as_str()) {
                    assert(names.take(i as int)[j as int] == names[i as int]);
                    let message = text::cat5(
                        "Duplicate upstream name '",
                        self.upstreams[i].name.as_str(),
                        "' in instance '",
                        self.name.as_str(),
                        "'",
                    );
                    return Err(Error::config(message.as_str()));
                }
                j += 1;
            }
            assert(!names.take(i as int).contains(names[i as int]));
            i += 1;
        }
        i = 0;
        while i < n
            invariant
                i <= n,
                n == self.upstreams@.len(),
                n > 0,
                self.name@.len() > 0,
                first_repeat(upstream_names(self.upstreams@), 0) is None,
                upstreams_fault(self.upstreams@, 0) == upstreams_fault(self.upstreams@, i as int),
            decreases n - i,
        {
            match self.upstreams[i].check() {
                Ok(()) => {},
                Err(e) => {
                    return Err(e);
                },
            }
            i += 1;
        }
        Ok(())
    }
}

impl UpstreamConfig {
    /// Validate this upstream configuration.
    pub fn validate(&mut self) -> (result: Result<()>)
        ensures
            *final(self) == *old(self),
            match old(self).fault() {
                Some(f) => result matches Err(e) && e@ == f,
                None => result is Ok,
            },
    {
        self.check()
    }

    fn check(&self) -> (result: Result<()>)
        ensures
            match self.fault() {
                Some(f) => result matches Err(e) && e@ == f,
                None => result is Ok,
            },
    {
        if text::is_empty(self.name.as_str()) {
            return Err(Error::config("Upstream name cannot be empty"));
        }
        let complaint = if text::is_empty(self.address.as_str()) {
            "' address cannot be empty"
        } else if !text::contains_char(self.address.as_str(), ':') {
            "' address must include port (e.g., 'host:port')"
        } else if self.weight == 0 {
            "' weight must be greater than 0"
        } else if self.timeout_ms == 0 {
            "' timeout must be greater than 0"
        } else {
            return Ok(());
        };
        let message = text::cat3("Upstream '", self.name.as_str(), complaint);
        Err(Error::config(message.as_str()))
    }
}

impl GlobalConfig {
    /// Validate global configuration.
    pub fn validate(&self) -> (result: Result<()>)
        ensures
            match self.fault() {
                Some(f) => result matches Err(e) && e@ == f,
                None => result is Ok,
            },
    {
        if self.metrics.enabled && self.metrics.interval_secs == 0 {
            return Err(Error::config("Metrics interval must be greater than 0"));
        }
        if self.performance.buffer_pool.initial_size > self.performance.buffer_pool.max_size {
            return Err(
                Error::config("Buffer pool initial size cannot be greater than max size"),
            );
        }
        let level = self.logging.level.as_str();
        if !(text::eq(level, "error") || text::eq(level, "warn") || text::eq(level, "info")
            || text::eq(level, "debug") || text::eq(level, "trace")) {
            return Err(
                Error::config("Invalid log level. Must be one of: error, warn, info, debug, trace"),
            );
        }
        let format = self.logging.format.as_str();
        if !(text::eq(format, "json") || text::eq(format, "pretty") || text::eq(format, "compact")) {
            return Err(Error::config("Invalid log format. Must be one of: json, pretty, compact"));
        }
        Ok(())
    }
}

/// The log levels are five and the log formats three, and there are no others.
pub proof fn law_log_settings(t: Seq<char>)
    ensures
        is_log_level(t) <==> seq!["error"@, "warn"@, "info"@, "debug"@, "trace"@].contains(t),
        is_log_format(t) <==> seq!["json"@, "pretty"@, "compact"@].contains(t),
{
    let levels = seq!["error"@, "warn"@, "info"@, "debug"@, "trace"@];
    assert(levels[0] == "error"@ && levels[1] == "warn"@ && levels[2] == "info"@ && levels[3]
        == "debug"@ && levels[4] == "trace"@);
    let formats = seq!["json"@, "pretty"@, "compact"@];
    assert(formats[0] == "json"@ && formats[1] == "pretty"@ && formats[2] == "compact"@);
}

/// The fault that is told is that of the first upstream that has one.
pub proof fn law_first_upstream_fault_is_told(s: Seq<UpstreamConfig>, i: int, k: int)
    requires
        0 <= i <= k < s.len(),
        forall|j: int| i <= j < k ==> (#[trigger] s[j]).fault() is None,
        s[k].fault() is Some,
    ensures
        upstreams_fault(s, i) == s[k].fault(),
    decreases k - i,
{
    if i < k {
        assert(s[i].fault() is None);
        law_first_upstream_fault_is_told(s, i + 1, k);
    }
}

/// The fault that is told is that of the first instance that has one.
pub proof fn law_first_instance_fault_is_told(s: Seq<ProxyInstanceConfig>, i: int, k: int)
    requires
        0 <= i <= k < s.len(),
        forall|j: int| i <= j < k ==> (#[trigger] s[j]).fault() is None,
        s[k].fault() is Some,
    ensures
        instances_fault(s, i) == s[k].fault(),
    decreases k - i,
{
    if i < k {
        assert(s[i].fault() is None);
        law_first_instance_fault_is_told(s, i + 1, k);
    }
}

/// The upstreams that are accepted are those that have a name, an address with a port, a weight and a
/// timeout.
pub proof fn law_accepted_upstreams(u: UpstreamConfig)
    ensures
        u.fault() is None <==> u.name@.len() > 0 && u.address@.contains(':') && u.weight > 0
            && u.timeout_ms > 0,
{
}

/// A configuration file is read as what its extension stands for, and not at all where that is none
/// of the known ones.
pub proof fn law_formats_go_by_extension(extension: Seq<char>)
    ensures
        format_of(Some(extension)) == Some(ConfigFormat::Yaml) <==> extension == "yml"@ || extension
            == "yaml"@,
        format_of(Some(extension)) == Some(ConfigFormat::Json) <==> extension == "json"@,
        format_of(Some(extension)) == Some(ConfigFormat::Toml) <==> extension == "toml"@,
        format_of(None) is None,
{
    reveal_strlit("yml");
    reveal_strlit("yaml");
    reveal_strlit("json");
    reveal_strlit("toml");
    assert("json"@[0] == 'j' && "toml"@[0] == 't' && "yml"@[0] == 'y' && "yaml"@[0] == 'y');
}

/// What is left to the defaults can be served: metrics once a minute under `/metrics`, health under
/// `/health`, pools of at most a hundred connections that are idle for up to five minutes, and HTTP
/// requests of up to 64 megabytes and a minute.
pub proof fn law_defaults(
    metrics: MetricsConfig,
    health: HealthCheckConfig,
    performance: PerformanceConfig,
    logging: LoggingConfig,
    http: HttpProxyConfig,
)
    requires
        metrics.is_default(),
        health.is_default(),
        performance.is_default(),
        logging.is_default(),
        http.is_default(),
    ensures
        metrics.enabled && metrics.interval_secs == 60 && metrics.path@ == "/metrics"@,
        metrics.listen_addr.id.port == 9090 && !metrics.listen_addr.id.v6,
        health.enabled && health.path@ == "/health"@ && health.listen_addr.id.port == 8080,
        performance.worker_threads == 0 && performance.cpu_affinity,
        performance.buffer_pool.initial_size == 1024,
        performance.buffer_pool.max_size == 4096,
        performance.connection_pool.max_connections_per_upstream == 100,
        performance.connection_pool.idle_timeout_secs == 5 * 60,
        performance.connection_pool.keepalive_timeout_secs == 60,
        is_log_level(logging.level@) && is_log_format(logging.format@),
        logging.level@ == "info"@ && logging.format@ == "pretty"@,
        http.max_request_size == 64 * 1024 * 1024 && http.request_timeout_secs == 60,
        http.http2_enabled && http.compression_enabled && !http.sticky_sessions,
        http.add_headers.entries@.len() == 0 && http.remove_headers@.len() == 0,
{
}

} // verus!
