//! The TCP proxy plugin: backends, pooled connections, health, and the steps of carrying data.
use vstd::prelude::*;

use rand::Rng;

use crate::builtin_plugins::{describe, is_info, plugin_error};
pub use crate::builtin_plugins::CircuitBreakerConfig;
use crate::error::{opt_text, router_fails, RouterError, RouterErrorView};
use crate::name_map::NameMap;
use crate::plugin::{copy_pairs, PluginCapabilities, PluginHealth, PluginInfo, PluginMetrics};
use crate::routing::Ratio;
use crate::text;
use crate::time::{Duration, Instant, SystemTime};

verus! {

broadcast use vstd::string::group_string_axioms;

/// Configuration of the TCP proxy.
#[derive(Debug)]
pub struct TcpProxyConfig {
    pub listen_addresses: Vec<String>,
    pub backends: Vec<TcpBackend>,
    pub load_balancing_strategy: LoadBalancingStrategy,
    pub connection_timeout_ms: u64,
    pub read_timeout_ms: u64,
    pub write_timeout_ms: u64,
    pub max_connections: usize,
    pub connection_pool_size: usize,
    pub health_check_interval_ms: u64,
    pub buffer_size: usize,
    pub tcp_nodelay: bool,
    pub tcp_keepalive: Option<TcpKeepalive>,
    pub circuit_breaker: CircuitBreakerConfig,
    pub retry_policy: RetryPolicy,
    pub session_affinity: SessionAffinityConfig,
}

/// A server behind the TCP proxy.
#[derive(Debug)]
pub struct TcpBackend {
    pub address: String,
    pub weight: u32,
    pub max_connections: Option<usize>,
    pub health_check_port: Option<u16>,
    pub metadata: NameMap<String>,
}

/// How a backend is chosen.
#[derive(Debug, Clone, Copy, PartialEq, Eq, Structural)]
pub enum LoadBalancingStrategy {
    RoundRobin,
    WeightedRoundRobin,
    LeastConnections,
    IpHash,
    Random,
    ConsistentHash,
}

/// How idle connections are kept alive.
#[derive(Debug, Clone, Copy, PartialEq, Eq, Structural)]
pub struct TcpKeepalive {
    pub enabled: bool,
    pub idle_secs: u64,
    pub interval_secs: u64,
    pub retries: u32,
}

/// How often and when something is tried again.
#[derive(Debug, Clone, Copy, PartialEq, Eq, Structural)]
pub struct RetryPolicy {
    pub max_retries: u32,
    pub retry_delay_ms: u64,
    pub exponential_backoff: bool,
}

/// Whether clients stay with their backend, and how they are recognized.
#[derive(Debug)]
pub struct SessionAffinityConfig {
    pub enabled: bool,
    pub strategy: SessionAffinityStrategy,
    pub timeout_secs: u64,
}

/// What a client is recognized by.
#[derive(Debug)]
pub enum SessionAffinityStrategy {
    ClientIp,
    Cookie(String),
    Header(String),
}

/// The health of a backend.
#[derive(Debug, Clone, Copy, PartialEq, Eq, Structural)]
pub struct BackendHealth {
    pub healthy: bool,
    pub last_check: Instant,
    pub consecutive_failures: u32,
    pub response_time_ms: u64,
}

/// A connection that waits to be used. The connection itself is known by its number.
#[derive(Debug, Clone, Copy, PartialEq, Eq, Structural)]
pub struct PooledConnection {
    pub stream: u64,
    pub created_at: Instant,
    pub last_used: Instant,
    pub connection_count: u64,
}

/// The connections to one backend, and its health.
#[derive(Debug)]
pub struct BackendPool {
    pub address: String,
    pub connections: Vec<PooledConnection>,
    /// How many connections the pool is meant for
    pub size: usize,
    pub health_status: BackendHealth,
}

// ---------------------------------------------------------------------------------------------
// Choosing a backend
// ---------------------------------------------------------------------------------------------

/// Load balancer for selecting backend servers.
#[derive(Debug)]
pub struct LoadBalancer {
    pub strategy: LoadBalancingStrategy,
    pub backends: Vec<TcpBackend>,
    pub current_index: usize,
}

/// `Rng::gen_range` on the thread's generator: some number below the bound.
#[verifier::external_body]
fn random_below(bound: usize) -> (result: usize)
    requires
        bound > 0,
    ensures
        result < bound,
{
    rand::thread_rng().gen_range(0..bound)
}

/// Whether two lists of backends say the same.
pub open spec fn same_backends(a: Seq<TcpBackend>, b: Seq<TcpBackend>) -> bool {
    a.len() == b.len() && forall|i: int|
        0 <= i < a.len() ==> (#[trigger] a[i]).address == b[i].address && a[i].weight == b[i].weight
            && a[i].max_connections == b[i].max_connections && a[i].health_check_port
            == b[i].health_check_port && a[i].metadata.entries@ == b[i].metadata.entries@
}

fn copy_backends(backends: &Vec<TcpBackend>) -> (result: Vec<TcpBackend>)
    ensures
        same_backends(result@, backends@),
{
    let mut result: Vec<TcpBackend> = Vec::new();
    let mut i: usize = 0;
    while i < backends.len()
        invariant
            i <= backends@.len(),
            same_backends(result@, backends@.take(i as int)),
        decreases backends@.len() - i,
    {
        let b = &backends[i];
        result.push(
            TcpBackend {
                address: b.address.clone(),
                weight: b.weight,
                max_connections: b.max_connections,
                health_check_port: b.health_check_port,
                metadata: NameMap { entries: copy_pairs(&b.metadata.entries) },
            },
        );
        i += 1;
    }
    assert(backends@.take(i as int) =~= backends@);
    result
}

impl LoadBalancer {
    /// The next place in turn can be counted on.
    pub open spec fn wf(self) -> bool {
        self.current_index < usize::MAX
    }

    /// Whether the choice goes by turns for a client: unless it is random, or goes by the client's
    /// address and that is known.
    pub open spec fn takes_turns(self, client_hash: Option<usize>) -> bool {
        !(self.strategy is Random) && !(self.strategy is IpHash && client_hash is Some)
    }

    pub fn new() -> (result: Self)
        ensures
            result.wf(),
            result.strategy is RoundRobin,
            result.backends@.len() == 0,
            result.current_index == 0,
    {
        LoadBalancer {
            strategy: LoadBalancingStrategy::RoundRobin,
            backends: Vec::new(),
            current_index: 0,
        }
    }

    /// Chooses among these backends from now on.
    pub fn initialize(&mut self, config: &TcpProxyConfig)
        ensures
            final(self).strategy == config.load_balancing_strategy,
            same_backends(final(self).backends@, config.backends@),
            final(self).current_index == old(self).current_index,
    {
        self.strategy = config.load_balancing_strategy;
        self.backends = copy_backends(&config.backends);
    }

    /// The backend whose turn it is.
    fn next_in_turn(&mut self) -> (result: Option<String>)
        requires
            old(self).wf(),
            old(self).backends@.len() > 0,
        ensures
            final(self).wf(),
            final(self).backends == old(self).backends,
            final(self).strategy == old(self).strategy,
            ({
                let n = old(self).backends@.len() as int;
                let i = old(self).current_index as int;
                &&& final(self).current_index == (i + 1) % n
                &&& result == Some(old(self).backends@[i % n].address)
            }),
    {
        let n: usize = self.backends.len();
        let i: usize = self.current_index;
        let address = self.backends[i % n].address.clone();
        self.current_index = (i + 1) % n;
        Some(address)
    }

    /// The address of the backend for a client, given the hash of the client's address where that is
    /// known.
    pub fn select_backend(&mut self, client_hash: Option<usize>) -> (result: Option<String>)
        requires
            old(self).wf(),
        ensures
            final(self).wf(),
            final(self).backends == old(self).backends,
            final(self).strategy == old(self).strategy,
            ({
                let backends = old(self).backends@;
                let n = backends.len() as int;
                let i = old(self).current_index as int;
                if n == 0 {
                    result is None && *final(self) == *old(self)
                } else if old(self).takes_turns(client_hash) {
                    &&& result == Some(backends[i % n].address)
                    &&& final(self).current_index == (i + 1) % n
                } else {
                    &&& *final(self) == *old(self)
                    &&& old(self).strategy is IpHash ==> result == Some(
                        backends[client_hash->0 as int % n].address,
                    )
                    &&& exists|k: int|
                        0 <= k < n && result == Some((#[trigger] backends[k]).address)
                }
            }),
    {
        if self.backends.len() == 0 {
            return None;
        }
        match self.strategy {
            LoadBalancingStrategy::Random => {
                let index = random_below(self.backends.len());
                assert(0 <= index < self.backends@.len());
                self.backend_at(index)
            },
            LoadBalancingStrategy::IpHash => match client_hash {
                Some(hash) => {
                    let index: usize = hash % self.backends.len();
                    assert(0 <= index < self.backends@.len());
                    self.backend_at(index)
                },
                None => self.next_in_turn(),
            },
            _ => self.next_in_turn(),
        }
    }

    /// The address of the backend at a place.
    pub fn backend_at(&self, index: usize) -> (result: Option<String>)
        ensures
            result == (if index < self.backends@.len() {
                Some(self.backends@[index as int].address)
            } else {
                None
            }),
    {
        if index < self.backends.len() {
            Some(self.backends[index].address.clone())
        } else {
            None
        }
    }

    pub fn get_backends(&self) -> (result: &Vec<TcpBackend>)
        ensures
            *result == self.backends,
    {
        &self.backends
    }

    /// Draining a backend changes nothing yet.
    pub fn drain_backend(&mut self, backend_addr: &str) -> (result: std::result::Result<
        (),
        RouterError,
    >)
        ensures
            *final(self) == *old(self),
            result is Ok,
    {
        Ok(())
    }
}

/// The place from which the backend of the next turn is taken, after so many turns.
pub open spec fn turn(start: int, turns: nat, n: int) -> int
    decreases turns,
{
    if turns == 0 {
        start
    } else {
        (turn(start, (turns - 1) as nat, n) + 1) % n
    }
}

proof fn lemma_turn(start: int, turns: nat, n: int)
    requires
        0 < n,
        0 <= start < n,
    ensures
        turn(start, turns, n) == (start + turns) % n,
    decreases turns,
{
    if turns == 0 {
        vstd::arithmetic::div_mod::lemma_small_mod(start as nat, n as nat);
    } else {
        lemma_turn(start, (turns - 1) as nat, n);
        vstd::arithmetic::div_mod::lemma_add_mod_noop(start + turns - 1, 1, n);
        vstd::arithmetic::div_mod::lemma_add_mod_noop((start + turns - 1) % n, 1, n);
        vstd::arithmetic::div_mod::lemma_mod_twice(start + turns - 1, n);
    }
}

/// By turns, as many clients as there are backends go to as many different backends, and then it
/// begins anew.
pub proof fn law_turns_visit_all(start: int, n: int, a: nat, b: nat)
    requires
        0 < n,
        0 <= start < n,
        a < b < n,
    ensures
        turn(start, a, n) != turn(start, b, n),
        turn(start, n as nat, n) == start,
{
    lemma_turn(start, a, n);
    lemma_turn(start, b, n);
    lemma_turn(start, n as nat, n);
    vstd::arithmetic::div_mod::lemma_mod_add_multiples_vanish(start, n);
    vstd::arithmetic::div_mod::lemma_small_mod(start as nat, n as nat);
    let x = start + a;
    let y = start + b;
    if x < n {
        vstd::arithmetic::div_mod::lemma_small_mod(x as nat, n as nat);
    } else {
        vstd::arithmetic::div_mod::lemma_mod_add_multiples_vanish(x - n, n);
        vstd::arithmetic::div_mod::lemma_small_mod((x - n) as nat, n as nat);
    }
    if y < n {
        vstd::arithmetic::div_mod::lemma_small_mod(y as nat, n as nat);
    } else {
        vstd::arithmetic::div_mod::lemma_mod_add_multiples_vanish(y - n, n);
        vstd::arithmetic::div_mod::lemma_small_mod((y - n) as nat, n as nat);
    }
}

// ---------------------------------------------------------------------------------------------
// Pools
// ---------------------------------------------------------------------------------------------

/// Connection pool for managing backend connections.
#[derive(Debug)]
pub struct ConnectionPool {
    pub pools: NameMap<BackendPool>,
}

/// Where a connection comes from.
#[derive(Debug, Clone, Copy, PartialEq, Eq, Structural)]
pub enum ConnectionSource {
    /// This one was waiting
    Pooled(u64),
    /// A new one is to be made, within this time
    New(Duration),
}

/// What came of an attempt to connect.
#[derive(Debug)]
pub enum ConnectOutcome {
    /// The address cannot be read, for this reason
    BadAddress(String),
    TimedOut,
    Failed(String),
    Connected(u64),
}

/// What the pool of a backend holds, for the statistics.
#[derive(Debug)]
pub struct PoolStatistics {
    pub address: String,
    pub connections_count: usize,
    pub healthy: bool,
    pub consecutive_failures: u32,
    pub response_time_ms: u64,
}

/// Failures in a row after which a backend is not healthy.
pub const UNHEALTHY_AFTER: u32 = 3;

/// The health of a backend after a check, which either took so many milliseconds or failed.
pub open spec fn health_after(
    health: BackendHealth,
    response_time_ms: Option<u64>,
    now: Instant,
) -> BackendHealth {
    match response_time_ms {
        Some(t) => BackendHealth {
            healthy: true,
            last_check: now,
            consecutive_failures: 0,
            response_time_ms: t,
        },
        None => {
            let failures = (health.consecutive_failures + 1) as u32;
            BackendHealth {
                healthy: health.healthy && failures < UNHEALTHY_AFTER,
                last_check: now,
                consecutive_failures: failures,
                response_time_ms: health.response_time_ms,
            }
        },
    }
}

impl BackendHealth {
    /// Takes the outcome of a check in.
    pub fn checked(&mut self, response_time_ms: Option<u64>, now: Instant)
        requires
            response_time_ms is None ==> old(self).consecutive_failures < u32::MAX,
        ensures
            *final(self) == health_after(*old(self), response_time_ms, now),
    {
        match response_time_ms {
            Some(t) => {
                self.healthy = true;
                self.consecutive_failures = 0;
                self.response_time_ms = t;
            },
            None => {
                self.consecutive_failures += 1;
                if self.consecutive_failures >= UNHEALTHY_AFTER {
                    self.healthy = false;
                }
            },
        }
        self.last_check = now;
    }
}

/// A healthy backend without failures stays healthy through two failed checks in a row, is not
/// healthy after the third, and is healthy again after one that went well.
pub proof fn law_three_failures(health: BackendHealth, a: Instant, b: Instant, c: Instant, t: u64)
    requires
        health.healthy,
        health.consecutive_failures == 0,
    ensures
        health_after(health, None, a).healthy,
        health_after(health_after(health, None, a), None, b).healthy,
        !health_after(health_after(health_after(health, None, a), None, b), None, c).healthy,
        health_after(
            health_after(health_after(health_after(health, None, a), None, b), None, c),
            Some(t),
            c,
        ).healthy,
{
}

/// The pool of a backend before anything happened.
pub open spec fn is_fresh_pool(
    pool: BackendPool,
    address: Seq<char>,
    size: usize,
    now: Instant,
) -> bool {
    &&& pool.address@ == address
    &&& pool.connections@.len() == 0
    &&& pool.size == size
    &&& pool.health_status == (BackendHealth {
        healthy: true,
        last_check: now,
        consecutive_failures: 0,
        response_time_ms: 0,
    })
}

/// That a backend cannot be reached.
pub open spec fn unreachable_backend(backend: Seq<char>) -> RouterErrorView {
    RouterErrorView::BackendConnectionError { backend }
}

/// The addresses of backends.
pub open spec fn addresses(backends: Seq<TcpBackend>) -> Seq<Seq<char>> {
    backends.map_values(|b: TcpBackend| b.address@)
}

impl ConnectionPool {
    pub open spec fn wf(self) -> bool {
        self.pools.wf()
    }

    pub fn new() -> (result: Self)
        ensures
            result.wf(),
            result.pools@ == Map::<Seq<char>, BackendPool>::empty(),
    {
        ConnectionPool { pools: NameMap::new() }
    }

    /// Has a fresh pool for each backend from now on, and no other.
    pub fn initialize(&mut self, config: &TcpProxyConfig, now: Instant)
        ensures
            final(self).wf(),
            forall|a: Seq<char>| #[trigger]
                final(self).pools@.contains_key(a) <==> addresses(config.backends@).contains(a),
            forall|a: Seq<char>| #[trigger]
                final(self).pools@.contains_key(a) ==> is_fresh_pool(
                    final(self).pools@[a],
                    a,
                    config.connection_pool_size,
                    now,
                ),
    {
        self.pools = NameMap::new();
        let ghost all = addresses(config.backends@);
        let mut i: usize = 0;
        while i < config.backends.len()
            invariant
                i <= config.backends@.len(),
                all == addresses(config.backends@),
                self.pools.wf(),
                forall|a: Seq<char>| #[trigger]
                    self.pools@.contains_key(a) <==> (exists|j: int|
                        0 <= j < i && #[trigger] all[j] == a),
                forall|a: Seq<char>| #[trigger]
                    self.pools@.contains_key(a) ==> is_fresh_pool(
                        self.pools@[a],
                        a,
                        config.connection_pool_size,
                        now,
                    ),
            decreases config.backends@.len() - i,
        {
            let ghost before = self.pools@;
            let address = config.backends[i].address.clone();
            let pool = BackendPool {
                address: config.backends[i].address.clone(),
                connections: Vec::new(),
                size: config.connection_pool_size,
                health_status: BackendHealth {
                    healthy: true,
                    last_check: now,
                    consecutive_failures: 0,
                    response_time_ms: 0,
                },
            };
            let _ = self.pools.insert(address, pool);
            proof {
                assert(all[i as int] == address@);
                assert forall|a: Seq<char>| #[trigger] self.pools@.contains_key(a) <==> (exists|
                    j: int,
                |
                    0 <= j < i + 1 && #[trigger] all[j] == a) by {
                    assert(before.contains_key(a) <==> (exists|j: int|
                        0 <= j < i && #[trigger] all[j] == a));
                }
            }
            i += 1;
        }
    }

    /// Where the connection to a backend comes from: the one last put into its pool, or a new one.
    pub fn get_connection(&mut self, backend_addr: &str, config: &TcpProxyConfig) -> (result:
        std::result::Result<ConnectionSource, RouterError>)
        requires
            old(self).wf(),
        ensures
            final(self).wf(),
            if !old(self).pools@.contains_key(backend_addr@) {
                *final(self) == *old(self) && router_fails(
                    result,
                    unreachable_backend(backend_addr@),
                )
            } else {
                let pool = old(self).pools@[backend_addr@];
                let left = final(self).pools@[backend_addr@];
                &&& final(self).pools@ == old(self).pools@.insert(backend_addr@, left)
                &&& left.address == pool.address && left.size == pool.size && left.health_status
                    == pool.health_status
                &&& if pool.connections@.len() > 0 {
                    &&& result == Ok::<ConnectionSource, RouterError>(
                        ConnectionSource::Pooled(pool.connections@.last().stream),
                    )
                    &&& left.connections@ == pool.connections@.drop_last()
                } else {
                    &&& result matches Ok(ConnectionSource::New(limit))
                    &&& limit.wf()
                    &&& limit.total_nanos() == config.connection_timeout_ms * 1_000_000
                    &&& left.connections@ == pool.connections@
                }
            },
    {
        let ghost before = self.pools@;
        match self.pools.get_mut(backend_addr) {
            None => Err(
                RouterError::BackendConnectionError { backend: backend_addr.to_string() },
            ),
            Some(pool) => match pool.connections.pop() {
                Some(connection) => Ok(ConnectionSource::Pooled(connection.stream)),
                None => Ok(
                    ConnectionSource::New(Duration::from_millis(config.connection_timeout_ms)),
                ),
            },
        }
    }

    /// The new connection to a backend, given what came of the attempt to connect.
    pub fn connected(backend_addr: &str, outcome: ConnectOutcome) -> (result: std::result::Result<
        u64,
        RouterError,
    >)
        ensures
            match outcome {
                ConnectOutcome::BadAddress(e) => router_fails(
                    result,
                    unreachable_backend("Invalid address "@ + backend_addr@ + ": "@ + e@),
                ),
                ConnectOutcome::TimedOut => router_fails(
                    result,
                    RouterErrorView::NetworkTimeout { operation: "connect to "@ + backend_addr@ },
                ),
                ConnectOutcome::Failed(e) => router_fails(
                    result,
                    unreachable_backend("Failed to connect to "@ + backend_addr@ + ": "@ + e@),
                ),
                ConnectOutcome::Connected(stream) => result == Ok::<u64, RouterError>(stream),
            },
    {
        match outcome {
            ConnectOutcome::BadAddress(e) => Err(
                RouterError::BackendConnectionError {
                    backend: text::cat4("Invalid address ", backend_addr, ": ", e.as_str()),
                },
            ),
            ConnectOutcome::TimedOut => Err(
                RouterError::NetworkTimeout { operation: text::cat2("connect to ", backend_addr) },
            ),
            ConnectOutcome::Failed(e) => Err(
                RouterError::BackendConnectionError {
                    backend: text::cat4(
                        "Failed to connect to ",
                        backend_addr,
                        ": ",
                        e.as_str(),
                    ),
                },
            ),
            ConnectOutcome::Connected(stream) => Ok(stream),
        }
    }

    /// Takes the outcome of a check of a backend in.
    pub fn health_check_backend(
        &mut self,
        addr: &str,
        response_time_ms: Option<u64>,
        now: Instant,
    )
        requires
            old(self).wf(),
            old(self).pools@.contains_key(addr@) && response_time_ms is None
                ==> old(self).pools@[addr@].health_status.consecutive_failures < u32::MAX,
        ensures
            final(self).wf(),
            if old(self).pools@.contains_key(addr@) {
                final(self).pools@ == old(self).pools@.insert(
                    addr@,
                    (BackendPool {
                        health_status: health_after(
                            old(self).pools@[addr@].health_status,
                            response_time_ms,
                            now,
                        ),
                        ..old(self).pools@[addr@]
                    }),
                )
            } else {
                *final(self) == *old(self)
            },
    {
        if let Some(pool) = self.pools.get_mut(addr) {
            pool.health_status.checked(response_time_ms, now);
        }
    }

    /// The addresses of the backends whose health is to be checked.
    pub fn health_check_all(&self) -> (result: Vec<String>)
        ensures
            text::views(result@) == self.pools.keys(),
    {
        let mut result: Vec<String> = Vec::new();
        let mut i: usize = 0;
        assert(text::views(result@) =~= self.pools.keys().take(0));
        while i < self.pools.entries.len()
            invariant
                i <= self.pools.entries@.len(),
                text::views(result@) == self.pools.keys().take(i as int),
            decreases self.pools.entries@.len() - i,
        {
            let ghost before = result@;
            result.push(self.pools.entries[i].0.clone());
            proof {
                assert(text::views(result@) =~= text::views(before).push(
                    self.pools.keys()[i as int],
                ));
                assert(self.pools.keys().take(i + 1) =~= self.pools.keys().take(i as int).push(
                    self.pools.keys()[i as int],
                ));
            }
            i += 1;
        }
        assert(self.pools.keys().take(i as int) =~= self.pools.keys());
        result
    }

    /// What each pool holds.
    pub fn get_statistics(&self) -> (result: Vec<PoolStatistics>)
        ensures
            result@.len() == self.pools.entries@.len(),
            forall|i: int|
                0 <= i < result@.len() ==> is_statistics_of(
                    #[trigger] result@[i],
                    self.pools.entries@[i],
                ),
    {
        let mut stats: Vec<PoolStatistics> = Vec::new();
        let mut i: usize = 0;
        while i < self.pools.entries.len()
            invariant
                i <= self.pools.entries@.len(),
                stats@.len() == i,
                forall|j: int|
                    0 <= j < i ==> is_statistics_of(#[trigger] stats@[j], self.pools.entries@[j]),
            decreases self.pools.entries@.len() - i,
        {
            let pool = &self.pools.entries[i].1;
            stats.push(
                PoolStatistics {
                    address: self.pools.entries[i].0.clone(),
                    connections_count: pool.connections.len(),
                    healthy: pool.health_status.healthy,
                    consecutive_failures: pool.health_status.consecutive_failures,
                    response_time_ms: pool.health_status.response_time_ms,
                },
            );
            i += 1;
        }
        stats
    }
}

/// Whether these are the statistics of a pool.
pub open spec fn is_statistics_of(stats: PoolStatistics, entry: (String, BackendPool)) -> bool {
    &&& stats.address == entry.0
    &&& stats.connections_count == entry.1.connections@.len()
    &&& stats.healthy == entry.1.health_status.healthy
    &&& stats.consecutive_failures == entry.1.health_status.consecutive_failures
    &&& stats.response_time_ms == entry.1.health_status.response_time_ms
}

// ---------------------------------------------------------------------------------------------
// Carrying data
// ---------------------------------------------------------------------------------------------

/// What happened in one direction of a connection.
#[derive(Debug, Clone, Copy, PartialEq, Eq, Structural)]
pub enum PumpEvent {
    /// So many bytes were read; none at the end of the stream
    Read(usize),
    ReadFailed,
    ReadTimedOut,
    /// What was read was written, or the attempt failed in time
    Written,
    WriteTimedOut,
    Flushed,
    FlushFailed,
}

/// What is done next in one direction of a connection.
#[derive(Debug, Clone, Copy, PartialEq, Eq, Structural)]
pub enum PumpStep {
    /// Read, within the time for reading
    Read,
    /// Write so many of the bytes that were read, within the time for writing
    Write(usize),
    Flush,
    Stop,
}

/// What follows what happened.
pub open spec fn step_after(event: PumpEvent) -> PumpStep {
    match event {
        PumpEvent::Read(n) => if n == 0 {
            PumpStep::Stop
        } else {
            PumpStep::Write(n)
        },
        PumpEvent::Written => PumpStep::Flush,
        PumpEvent::Flushed => PumpStep::Read,
        PumpEvent::ReadFailed | PumpEvent::ReadTimedOut | PumpEvent::WriteTimedOut
        | PumpEvent::FlushFailed => PumpStep::Stop,
    }
}

/// What follows what happened in one direction of a connection.
pub fn pump(event: PumpEvent) -> (result: PumpStep)
    ensures
        result == step_after(event),
{
    match event {
        PumpEvent::Read(n) => if n == 0 {
            PumpStep::Stop
        } else {
            PumpStep::Write(n)
        },
        PumpEvent::Written => PumpStep::Flush,
        PumpEvent::Flushed => PumpStep::Read,
        _ => PumpStep::Stop,
    }
}

/// Whether an event can follow a step.
pub open spec fn answers(step: PumpStep, event: PumpEvent) -> bool {
    match step {
        PumpStep::Read => event is Read || event is ReadFailed || event is ReadTimedOut,
        PumpStep::Write(_) => event is Written || event is WriteTimedOut,
        PumpStep::Flush => event is Flushed || event is FlushFailed,
        PumpStep::Stop => false,
    }
}

/// Whether events can follow each other in one direction, each answering the step before it.
pub open spec fn is_run(events: Seq<PumpEvent>) -> bool {
    forall|i: int|
        0 <= i < events.len() ==> answers(
            if i == 0 {
                PumpStep::Read
            } else {
                step_after(events[i - 1])
            },
            #[trigger] events[i],
        )
}

/// The bytes that events read.
pub open spec fn bytes_read(events: Seq<PumpEvent>) -> int
    decreases events.len(),
{
    if events.len() == 0 {
        0
    } else {
        bytes_read(events.drop_last()) + (match events.last() {
            PumpEvent::Read(n) => n as int,
            _ => 0,
        })
    }
}

/// The bytes that the steps after events write.
pub open spec fn bytes_to_write(events: Seq<PumpEvent>) -> int
    decreases events.len(),
{
    if events.len() == 0 {
        0
    } else {
        bytes_to_write(events.drop_last()) + (match step_after(events.last()) {
            PumpStep::Write(n) => n as int,
            _ => 0,
        })
    }
}

/// Every byte that is read is passed on to be written, once and no more.
pub proof fn law_nothing_is_lost(events: Seq<PumpEvent>)
    ensures
        bytes_read(events) == bytes_to_write(events),
    decreases events.len(),
{
    if events.len() > 0 {
        law_nothing_is_lost(events.drop_last());
    }
}

/// Once a direction has stopped, nothing follows in it.
pub proof fn law_stop_is_last(events: Seq<PumpEvent>, i: int)
    requires
        is_run(events),
        0 <= i < events.len(),
        step_after(events[i]) is Stop,
    ensures
        i == events.len() - 1,
{
    if i + 1 < events.len() {
        assert(answers(step_after(events[i]), events[i + 1]));
    }
}

// ---------------------------------------------------------------------------------------------
// The TCP proxy
// ---------------------------------------------------------------------------------------------

/// TCP Proxy Plugin - handles TCP connections with load balancing and connection pooling.
#[derive(Debug)]
pub struct TcpProxyPlugin {
    pub name: String,
    pub config: Option<TcpProxyConfig>,
    pub metrics: PluginMetrics,
    pub health: PluginHealth,
    pub connection_pool: ConnectionPool,
    pub load_balancer: LoadBalancer,
    pub running: bool,
}

/// What happened at a listener.
#[derive(Debug, Clone, Copy, PartialEq, Eq, Structural)]
pub enum ListenerEvent {
    Accepted,
    AcceptFailed,
    ShutdownRequested,
}

/// What a listener does next.
#[derive(Debug, Clone, Copy, PartialEq, Eq, Structural)]
pub struct ListenerStep {
    /// Handle the connection that was accepted
    pub handle: bool,
    /// Wait for the next one
    pub go_on: bool,
}

/// What a command asks for.
#[derive(Debug)]
pub enum TcpCommand {
    Backends,
    PoolStatistics,
    /// The backend with this address was drained
    Drained(String),
}

/// Whether a connection goes to the backend at this place: by turns it is the one whose turn it is,
/// by the client's address the one for its hash. A connection that waits for that backend is used, and
/// no other connection is touched.
pub open spec fn is_handled_by(
    before: TcpProxyPlugin,
    after: TcpProxyPlugin,
    client_hash: usize,
    result: std::result::Result<(String, ConnectionSource), RouterError>,
    k: int,
) -> bool {
    let lb = before.load_balancer;
    let n = lb.backends@.len() as int;
    let a = lb.backends@[k].address@;
    let pools = before.connection_pool.pools@;
    &&& 0 <= k < n
    &&& if lb.takes_turns(Some(client_hash)) {
        k == lb.current_index as int % n && after.load_balancer.current_index == (
        lb.current_index + 1) % n
    } else {
        after.load_balancer == lb
    }
    &&& lb.strategy is IpHash ==> lb.backends@[k].address == lb.backends@[client_hash as int
        % n].address
    &&& if !pools.contains_key(a) {
        router_fails(result, unreachable_backend(a)) && after.connection_pool
            == before.connection_pool
    } else {
        let left = after.connection_pool.pools@[a];
        &&& result is Ok
        &&& result->Ok_0.0@ == a
        &&& after.connection_pool.pools@ == pools.insert(a, left)
        &&& left.address == pools[a].address
        &&& left.size == pools[a].size
        &&& left.health_status == pools[a].health_status
        &&& if pools[a].connections@.len() > 0 {
            &&& result->Ok_0.1 == ConnectionSource::Pooled(pools[a].connections@.last().stream)
            &&& left.connections@ == pools[a].connections@.drop_last()
        } else {
            &&& left.connections@ == pools[a].connections@
            &&& result->Ok_0.1 is New
            &&& result->Ok_0.1->New_0.total_nanos() == before.config->0.connection_timeout_ms
                * 1_000_000
        }
    }
}

impl TcpProxyPlugin {
    pub open spec fn wf(self) -> bool {
        &&& self.connection_pool.wf()
        &&& self.load_balancer.wf()
        &&& self.metrics.custom_metrics.wf()
    }

    pub fn new(now: SystemTime) -> (result: Self)
        ensures
            result.wf(),
            result.name@ == "tcp_proxy"@,
            result.config is None,
            result.metrics.is_zero(),
            result.metrics.last_updated == now,
            result.health.is_pending("Not initialized"@),
            result.health.last_check == now,
            result.connection_pool.pools@ == Map::<Seq<char>, BackendPool>::empty(),
            result.load_balancer.strategy is RoundRobin,
            result.load_balancer.backends@.len() == 0,
            result.load_balancer.current_index == 0,
            !result.running,
    {
        TcpProxyPlugin {
            name: "tcp_proxy".to_string(),
            config: None,
            metrics: PluginMetrics::zero(now),
            health: PluginHealth::pending("Not initialized", now),
            connection_pool: ConnectionPool::new(),
            load_balancer: LoadBalancer::new(),
            running: false,
        }
    }

    /// The addresses to listen on.
    pub fn start_listeners(&self) -> (result: std::result::Result<&Vec<String>, RouterError>)
        ensures
            match self.config {
                Some(c) => result == Ok::<&Vec<String>, RouterError>(&c.listen_addresses),
                None => router_fails(
                    result,
                    plugin_error(self.name@, "Plugin not initialized"@),
                ),
            },
    {
        match &self.config {
            Some(c) => Ok(&c.listen_addresses),
            None => Err(
                RouterError::PluginError {
                    plugin: self.name.clone(),
                    message: "Plugin not initialized".to_string(),
                },
            ),
        }
    }

    /// What comes of the attempt to listen on an address, given what came of reading it and of
    /// binding to it.
    pub fn listening(
        address: &str,
        parsed: std::result::Result<(), String>,
        bound: std::result::Result<(), String>,
    ) -> (result: std::result::Result<(), RouterError>)
        ensures
            match (parsed, bound) {
                (Err(e), _) => router_fails(
                    result,
                    RouterErrorView::BindError { address: address@, reason: e@ },
                ),
                (Ok(()), Err(e)) => router_fails(
                    result,
                    RouterErrorView::BindError { address: address@, reason: e@ },
                ),
                (Ok(()), Ok(())) => result is Ok,
            },
    {
        if let Err(reason) = parsed {
            return Err(RouterError::BindError { address: address.to_string(), reason });
        }
        if let Err(reason) = bound {
            return Err(RouterError::BindError { address: address.to_string(), reason });
        }
        Ok(())
    }

    /// What a listener does after something happened at it.
    pub fn listener_event(&mut self, event: ListenerEvent) -> (result: ListenerStep)
        requires
            event is Accepted ==> old(self).metrics.connections_total < u64::MAX
                && old(self).metrics.connections_active < u64::MAX,
        ensures
            result.handle == (event is Accepted),
            result.go_on == (!(event is ShutdownRequested) && old(self).running),
            if event is Accepted {
                *final(self) == (TcpProxyPlugin {
                    metrics: PluginMetrics {
                        connections_total: (old(self).metrics.connections_total + 1) as u64,
                        connections_active: (old(self).metrics.connections_active + 1) as u64,
                        ..old(self).metrics
                    },
                    ..*old(self)
                })
            } else {
                *final(self) == *old(self)
            },
    {
        match event {
            ListenerEvent::Accepted => {
                self.metrics.connections_total += 1;
                self.metrics.connections_active += 1;
                ListenerStep { handle: true, go_on: self.running }
            },
            ListenerEvent::AcceptFailed => ListenerStep { handle: false, go_on: self.running },
            ListenerEvent::ShutdownRequested => ListenerStep { handle: false, go_on: false },
        }
    }

    /// The backend for a connection, and where the connection to it comes from, given the hash of
    /// the client's address.
    pub fn handle_connection(&mut self, client_hash: usize) -> (result: std::result::Result<
        (String, ConnectionSource),
        RouterError,
    >)
        requires
            old(self).wf(),
            old(self).config is Some,
        ensures
            final(self).wf(),
            final(self).name == old(self).name,
            final(self).config == old(self).config,
            final(self).metrics == old(self).metrics,
            final(self).health == old(self).health,
            final(self).running == old(self).running,
            final(self).load_balancer.backends == old(self).load_balancer.backends,
            final(self).load_balancer.strategy == old(self).load_balancer.strategy,
            if old(self).load_balancer.backends@.len() == 0 {
                &&& router_fails(
                    result,
                    RouterErrorView::LoadBalancingError {
                        message: "No healthy backend available"@,
                    },
                )
                &&& *final(self) == *old(self)
            } else {
                exists|k: int| #[trigger]
                    is_handled_by(*old(self), *final(self), client_hash, result, k)
            },
    {
        let chosen = self.load_balancer.select_backend(Some(client_hash));
        let backend_addr = match chosen {
            Some(a) => a,
            None => {
                return Err(
                    RouterError::LoadBalancingError {
                        message: "No healthy backend available".to_string(),
                    },
                );
            },
        };
        let ghost backends = self.load_balancer.backends@;
        let ghost lb = old(self).load_balancer;
        let ghost k = if lb.takes_turns(Some(client_hash)) {
            lb.current_index as int % backends.len() as int
        } else {
            choose|k: int|
                0 <= k < backends.len() && chosen == Some((#[trigger] backends[k]).address)
        };
        assert(0 <= k < backends.len() && backends[k].address == backend_addr);
        match &self.config {
            Some(config) => match self.connection_pool.get_connection(
                backend_addr.as_str(),
                config,
            ) {
                Ok(source) => {
                    let result: std::result::Result<(String, ConnectionSource), RouterError> = Ok(
                        (backend_addr, source),
                    );
                    assert(is_handled_by(*old(self), *self, client_hash, result, k));
                    result
                },
                Err(e) => {
                    let result: std::result::Result<(String, ConnectionSource), RouterError> = Err(
                        e,
                    );
                    assert(is_handled_by(*old(self), *self, client_hash, result, k));
                    result
                },
            },
            None => Err(
                RouterError::PluginError {
                    plugin: self.name.clone(),
                    message: "Plugin not initialized".to_string(),
                },
            ),
        }
    }

    /// A connection that was handled for this time has ended, well or not.
    pub fn connection_ended(&mut self, well: bool, duration: Duration)
        requires
            old(self).wf(),
            !well ==> old(self).metrics.errors_total < u64::MAX,
        ensures
            final(self).wf(),
            *final(self) == (TcpProxyPlugin { metrics: final(self).metrics, ..*old(self) }),
            final(self).metrics == (PluginMetrics {
                connections_active: final(self).metrics.connections_active,
                errors_total: final(self).metrics.errors_total,
                custom_metrics: final(self).metrics.custom_metrics,
                ..old(self).metrics
            }),
            final(self).metrics.connections_active == (if old(self).metrics.connections_active
                > 0 {
                old(self).metrics.connections_active - 1
            } else {
                0
            }),
            final(self).metrics.errors_total == old(self).metrics.errors_total + (if well {
                0int
            } else {
                1
            }),
            final(self).metrics.custom_metrics@ == (if well {
                old(self).metrics.custom_metrics@.insert(
                    "avg_connection_duration_ms"@,
                    (Ratio {
                        numerator: (duration.total_nanos() / 1_000_000) as u128,
                        denominator: 1,
                    }),
                )
            } else {
                old(self).metrics.custom_metrics@
            }),
    {
        if self.metrics.connections_active > 0 {
            self.metrics.connections_active -= 1;
        }
        if well {
            let _ = self.metrics.custom_metrics.insert(
                "avg_connection_duration_ms".to_string(),
                Ratio { numerator: duration.as_millis(), denominator: 1 },
            );
        } else {
            self.metrics.errors_total += 1;
        }
    }

    pub fn info(&self) -> (result: PluginInfo)
        ensures
            is_info(
                result,
                self.name@,
                "TCP proxy with load balancing, connection pooling, and health checks"@,
                "https://github.com/router/plugins"@,
                CONFIG_SCHEMA@,
                seq!["tcp"@, "proxy"@, "load-balancer"@, "connection-pool"@],
            ),
    {
        let mut tags: Vec<String> = Vec::new();
        tags.push("tcp".to_string());
        tags.push("proxy".to_string());
        tags.push("load-balancer".to_string());
        tags.push("connection-pool".to_string());
        assert(text::views(tags@) =~= seq![
            "tcp"@,
            "proxy"@,
            "load-balancer"@,
            "connection-pool"@,
        ]);
        describe(
            self.name.as_str(),
            "TCP proxy with load balancing, connection pooling, and health checks",
            "https://github.com/router/plugins",
            CONFIG_SCHEMA,
            tags,
        )
    }

    pub fn capabilities(&self) -> (result: PluginCapabilities)
        ensures
            result.can_handle_tcp,
            !result.can_handle_udp,
            result.can_handle_unix_socket,
            result.requires_dedicated_port,
            result.supports_hot_reload,
            result.supports_load_balancing,
            text::views(result.custom_protocols@) == seq!["TCP"@],
            result.port_requirements@.len() == 0,
    {
        let mut protocols: Vec<String> = Vec::new();
        protocols.push("TCP".to_string());
        assert(text::views(protocols@) =~= seq!["TCP"@]);
        PluginCapabilities {
            can_handle_tcp: true,
            can_handle_udp: false,
            can_handle_unix_socket: true,
            requires_dedicated_port: true,
            supports_hot_reload: true,
            supports_load_balancing: true,
            custom_protocols: protocols,
            port_requirements: Vec::new(),
        }
    }

    /// Sets the plugin up, given its configuration or why it cannot be read.
    pub fn initialize(
        &mut self,
        config: std::result::Result<TcpProxyConfig, String>,
        clock: Instant,
        now: SystemTime,
    ) -> (result: std::result::Result<(), RouterError>)
        requires
            old(self).wf(),
        ensures
            final(self).wf(),
            match config {
                Err(e) => *final(self) == *old(self) && router_fails(
                    result,
                    RouterErrorView::ConfigError {
                        message: "Invalid TCP proxy configuration: "@ + e@,
                    },
                ),
                Ok(c) => {
                    &&& result is Ok
                    &&& final(self).config == Some(c)
                    &&& final(self).name == old(self).name
                    &&& final(self).metrics == old(self).metrics
                    &&& final(self).running == old(self).running
                    &&& forall|a: Seq<char>| #[trigger]
                        final(self).connection_pool.pools@.contains_key(a) <==> addresses(
                            c.backends@,
                        ).contains(a)
                    &&& forall|a: Seq<char>| #[trigger]
                        final(self).connection_pool.pools@.contains_key(a) ==> is_fresh_pool(
                            final(self).connection_pool.pools@[a],
                            a,
                            c.connection_pool_size,
                            clock,
                        )
                    &&& same_backends(final(self).load_balancer.backends@, c.backends@)
                    &&& final(self).load_balancer.strategy == c.load_balancing_strategy
                    &&& final(self).load_balancer.current_index
                        == old(self).load_balancer.current_index
                    &&& final(self).health == (PluginHealth {
                        healthy: true,
                        message: final(self).health.message,
                        last_check: now,
                        ..old(self).health
                    })
                    &&& final(self).health.message@ == "TCP proxy initialized successfully"@
                },
            },
    {
        let c = match config {
            Err(e) => {
                return Err(
                    RouterError::ConfigError {
                        message: text::cat2("Invalid TCP proxy configuration: ", e.as_str()),
                    },
                );
            },
            Ok(c) => c,
        };
        self.connection_pool.initialize(&c, clock);
        self.load_balancer.initialize(&c);
        self.config = Some(c);
        self.health.healthy = true;
        self.health.message = "TCP proxy initialized successfully".to_string();
        self.health.last_check = now;
        Ok(())
    }

    /// The plugin is meant to run from now on.
    pub fn start(&mut self)
        ensures
            *final(self) == (TcpProxyPlugin { running: true, ..*old(self) }),
    {
        self.running = true;
    }

    /// The plugin is not meant to run any longer.
    pub fn stop(&mut self)
        ensures
            *final(self) == (TcpProxyPlugin { running: false, ..*old(self) }),
    {
        self.running = false;
    }

    /// What a command asks for; `address` is its parameter of that name.
    pub fn handle_command(&mut self, command: &str, address: Option<&str>) -> (result:
        std::result::Result<TcpCommand, RouterError>)
        ensures
            *final(self) == *old(self),
            if command@ == "get_backends"@ {
                result matches Ok(TcpCommand::Backends)
            } else if command@ == "get_pool_stats"@ {
                result matches Ok(TcpCommand::PoolStatistics)
            } else if command@ == "drain_backend"@ {
                match address {
                    Some(a) => result matches Ok(TcpCommand::Drained(b)) && b@ == a@,
                    None => router_fails(
                        result,
                        RouterErrorView::InvalidApiRequest {
                            reason: "Missing 'address' parameter"@,
                        },
                    ),
                }
            } else {
                router_fails(
                    result,
                    RouterErrorView::NotSupported { operation: "Command: "@ + command@ },
                )
            },
    {
        if text::eq(command, "get_backends") {
            Ok(TcpCommand::Backends)
        } else if text::eq(command, "get_pool_stats") {
            Ok(TcpCommand::PoolStatistics)
        } else if text::eq(command, "drain_backend") {
            match address {
                Some(a) => match self.load_balancer.drain_backend(a) {
                    Ok(()) => Ok(TcpCommand::Drained(a.to_string())),
                    Err(e) => Err(e),
                },
                None => Err(
                    RouterError::InvalidApiRequest {
                        reason: "Missing 'address' parameter".to_string(),
                    },
                ),
            }
        } else {
            Err(RouterError::NotSupported { operation: text::cat2("Command: ", command) })
        }
    }
}

/// What the configuration of the TCP proxy looks like, as a JSON schema.
pub const CONFIG_SCHEMA: &'static str = "{\"type\":\"object\",\"properties\":{\"listen_addresses\":{\"type\":\"array\",\"items\":{\"type\":\"string\"}},\"backends\":{\"type\":\"array\",\"items\":{\"type\":\"object\",\"properties\":{\"address\":{\"type\":\"string\"},\"weight\":{\"type\":\"number\",\"default\":1}},\"required\":[\"address\"]}}},\"required\":[\"listen_addresses\",\"backends\"]}";

/// What the TCP proxy says about itself when it is loaded.
pub fn get_tcp_proxy_plugin_info() -> (result: PluginInfo)
    ensures
        is_info(
            result,
            "tcp_proxy"@,
            "TCP proxy with advanced load balancing and connection pooling"@,
            "https://github.com/router/plugins"@,
            CONFIG_SCHEMA@,
            seq!["tcp"@, "proxy"@, "load-balancer"@],
        ),
{
    let mut tags: Vec<String> = Vec::new();
    tags.push("tcp".to_string());
    tags.push("proxy".to_string());
    tags.push("load-balancer".to_string());
    assert(text::views(tags@) =~= seq!["tcp"@, "proxy"@, "load-balancer"@]);
    describe(
        "tcp_proxy",
        "TCP proxy with advanced load balancing and connection pooling",
        "https://github.com/router/plugins",
        CONFIG_SCHEMA,
        tags,
    )
}

/// A client's backend goes by turns with every strategy but two: at random, and by the client's
/// address where that is known.
pub proof fn law_strategies_that_take_turns(balancer: LoadBalancer, hash: usize)
    ensures
        balancer.strategy is RoundRobin || balancer.strategy is WeightedRoundRobin
            || balancer.strategy is LeastConnections || balancer.strategy is ConsistentHash
            ==> balancer.takes_turns(Some(hash)) && balancer.takes_turns(None),
        balancer.strategy is Random ==> !balancer.takes_turns(Some(hash)) && !balancer.takes_turns(
            None,
        ),
        balancer.strategy is IpHash ==> !balancer.takes_turns(Some(hash)) && balancer.takes_turns(
            None,
        ),
{
}

/// A failed check counts one more failure and keeps a backend healthy only below the third; one that
/// went well makes it healthy, whatever came before, and starts the count anew.
pub proof fn law_checks_decide_health(health: BackendHealth, t: u64, now: Instant)
    requires
        health.consecutive_failures < u32::MAX,
    ensures
        ({
            let bad = health_after(health, None, now);
            let good = health_after(health, Some(t), now);
            &&& bad.consecutive_failures == health.consecutive_failures + 1
            &&& bad.healthy <==> health.healthy && health.consecutive_failures + 1 < 3
            &&& bad.response_time_ms == health.response_time_ms
            &&& bad.last_check == now
            &&& good.healthy
            &&& good.consecutive_failures == 0
            &&& good.response_time_ms == t
            &&& good.last_check == now
        }),
{
}

/// What was read is written, what was written is flushed, and then more is read; the end of the
/// stream and every failure stop it.
pub proof fn law_pump_order(event: PumpEvent, n: usize)
    requires
        n > 0,
    ensures
        step_after(PumpEvent::Read(n)) == PumpStep::Write(n),
        step_after(PumpEvent::Written) == PumpStep::Flush,
        step_after(PumpEvent::Flushed) == PumpStep::Read,
        step_after(PumpEvent::Read(0)) == PumpStep::Stop,
        step_after(event) is Stop <==> event == PumpEvent::Read(0) || event is ReadFailed
            || event is ReadTimedOut || event is WriteTimedOut || event is FlushFailed,
{
}

/// A connection goes to a backend that there is; one that waits for it is used, the last that was put
/// by, and the waiting connections of other backends stay.
pub proof fn law_waiting_connections_are_used(
    before: TcpProxyPlugin,
    after: TcpProxyPlugin,
    client_hash: usize,
    result: std::result::Result<(String, ConnectionSource), RouterError>,
    k: int,
    other: Seq<char>,
)
    requires
        is_handled_by(before, after, client_hash, result, k),
        before.connection_pool.pools@.contains_key(before.load_balancer.backends@[k].address@),
        other != before.load_balancer.backends@[k].address@,
    ensures
        ({
            let a = before.load_balancer.backends@[k].address@;
            let waiting = before.connection_pool.pools@[a].connections@;
            let left = after.connection_pool.pools@[a].connections@;
            &&& result matches Ok(r)
            &&& r.0@ == a
            &&& waiting.len() > 0 ==> r.1 == ConnectionSource::Pooled(
                waiting[waiting.len() - 1].stream,
            ) && left == waiting.take(waiting.len() - 1)
            &&& waiting.len() == 0 ==> r.1 is New && left.len() == 0
            &&& after.connection_pool.pools@.contains_key(other)
                <==> before.connection_pool.pools@.contains_key(other)
            &&& after.connection_pool.pools@[other] == before.connection_pool.pools@[other]
        }),
        before.load_balancer.strategy is RoundRobin ==> k == before.load_balancer.current_index as int
            % before.load_balancer.backends@.len() as int && after.load_balancer.current_index == (
        before.load_balancer.current_index + 1) % before.load_balancer.backends@.len() as int,
        before.load_balancer.strategy is IpHash ==> after.load_balancer == before.load_balancer,
{
    let a = before.load_balancer.backends@[k].address@;
    let waiting = before.connection_pool.pools@[a].connections@;
    if waiting.len() > 0 {
        assert(waiting.drop_last() =~= waiting.take(waiting.len() - 1));
    }
}

} // verus!
