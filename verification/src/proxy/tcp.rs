//! TCP proxy: pools of upstream connections, the steps of carrying a connection, and metrics.
use vstd::prelude::*;

use crate::config::{ProxyInstanceConfig, ProxyType, TcpProxyConfig};
use crate::error::{config_error, fails, fails_by, Error, ErrorView, NetworkErrorKind, Result};
use crate::name_map::NameMap;
use crate::proxy::http::{can_record, no_upstream, one_less, recorded};
use crate::proxy::{ProxyHealth, ProxyMetrics};
use crate::proxy::utils;
use crate::routing;
use crate::routing::{HealthState, Ratio, Router, UpstreamInfo, UpstreamStats};
use crate::text;
use crate::time::{nanos_between, Duration, Instant};

verus! {

broadcast use vstd::string::group_string_axioms;

/// The unbounded queue of the `crossbeam-queue` crate, as an opaque value.
#[verifier::external_type_specification]
#[verifier::external_body]
#[verifier::reject_recursive_types(T)]
pub struct ExSegQueue<T>(crossbeam_queue::SegQueue<T>);

/// A connection as it waits in a pool: the number by which it is known, when it was made and when it
/// was last used, the latter two in nanoseconds.
pub type Waiting = (u64, u64, u64);

/// What a queue of waiting connections holds, the front first.
pub uninterp spec fn queue_contents(q: crossbeam_queue::SegQueue<(u64, u64, u64)>) -> Seq<
    (u64, u64, u64),
>;

/// `SegQueue::new` makes a queue without items.
#[verifier::external_body]
fn queue_new() -> (result: crossbeam_queue::SegQueue<(u64, u64, u64)>)
    ensures
        queue_contents(result).len() == 0,
{
    crossbeam_queue::SegQueue::new()
}

/// `SegQueue::push` puts an item at the back.
#[verifier::external_body]
fn queue_push(q: &mut crossbeam_queue::SegQueue<(u64, u64, u64)>, item: (u64, u64, u64))
    ensures
        queue_contents(*final(q)) == queue_contents(*old(q)).push(item),
{
    q.push(item)
}

/// `SegQueue::pop` takes the item at the front, if there is one.
#[verifier::external_body]
fn queue_pop(q: &mut crossbeam_queue::SegQueue<(u64, u64, u64)>) -> (result: Option<
    (u64, u64, u64),
>)
    ensures
        match result {
            Some(item) => queue_contents(*old(q)).len() > 0 && item == queue_contents(*old(q))[0]
                && queue_contents(*final(q)) == queue_contents(*old(q)).skip(1),
            None => queue_contents(*old(q)).len() == 0 && queue_contents(*final(q))
                == queue_contents(*old(q)),
        },
{
    q.pop()
}

/// `SegQueue::len` counts the items.
#[verifier::external_body]
fn queue_len(q: &crossbeam_queue::SegQueue<(u64, u64, u64)>) -> (result: usize)
    ensures
        result == queue_contents(*q).len(),
{
    q.len()
}

/// TCP proxy implementation with connection pooling and load balancing.
pub struct TcpProxy {
    /// Connection pools per upstream
    pub connection_pools: NameMap<crossbeam_queue::SegQueue<(u64, u64, u64)>>,
    /// Proxy metrics
    pub metrics: TcpProxyMetrics,
}

/// Pooled TCP connection with metadata.
#[derive(Debug, Clone, Copy, PartialEq, Eq, Structural)]
pub struct PooledConnection {
    /// The number by which the stream is known
    pub stream: u64,
    /// When this connection was created
    pub created_at: Instant,
    /// When this connection was last used
    pub last_used: Instant,
}

/// TCP proxy specific metrics.
#[derive(Debug, Clone, Copy, PartialEq, Eq, Structural)]
pub struct TcpProxyMetrics {
    /// Total connections handled
    pub connections_total: u64,
    /// Currently active connections
    pub connections_active: usize,
    /// Total bytes transferred (bidirectional)
    pub bytes_transferred: u64,
    /// Connection duration sum (for average calculation)
    pub connection_duration_sum: u64,
    /// Number of connections used for duration calculation
    pub connection_duration_count: u64,
    /// Connections taken from a pool
    pub pool_hits: u64,
    /// Connections made anew
    pub pool_misses: u64,
}

/// What a search through a pool found.
#[derive(Debug)]
pub struct PoolPick {
    /// The connection to use
    pub connection: Option<u64>,
    /// Connections that had expired and are to be closed
    pub expired: Vec<u64>,
}

/// How to come by a connection to an upstream.
#[derive(Debug)]
pub enum ConnectionPlan {
    /// Use this connection of the pool
    Reuse(u64),
    /// Make a new one, within this time
    Connect(Duration),
}

/// What came of an attempt to connect.
#[derive(Debug)]
pub enum ConnectOutcome {
    Connected,
    /// A failure, with its description
    Failed(String),
    TimedOut,
}

/// What came of an attempt to read from a stream.
#[derive(Debug)]
pub enum ReadOutcome {
    /// So many bytes; none at the end of the stream
    Bytes(usize),
    /// The stream broke off
    UnexpectedEof,
    /// A failure, with its description
    Failed(String),
}

/// What to do after an attempt to read.
#[derive(Debug)]
pub enum CopyStep {
    /// Write these many bytes to the other stream
    Write(usize),
    /// Stop
    Finish,
}

// ---------------------------------------------------------------------------------------------
// Pools
// ---------------------------------------------------------------------------------------------

/// Connections in a pool at most.
pub const MAX_POOLED: usize = 100;

/// Seconds that a pooled connection may wait.
pub const MAX_IDLE_SECS: u64 = 300;

/// Seconds that a pooled connection may live.
pub const MAX_LIFETIME_SECS: u64 = 3600;

/// Whether a waiting connection is still usable: used in the last five minutes and made in the last
/// hour.
pub open spec fn usable(c: Waiting, now: Instant) -> bool {
    &&& nanos_between(Instant { nanos: c.2 }, now) <= MAX_IDLE_SECS * 1_000_000_000
    &&& nanos_between(Instant { nanos: c.1 }, now) <= MAX_LIFETIME_SECS * 1_000_000_000
}

/// The place of the first usable connection of a pool, or the number of connections where none is.
pub open spec fn first_usable(pool: Seq<Waiting>, now: Instant) -> int
    decreases pool.len(),
{
    if pool.len() == 0 || usable(pool[0], now) {
        0
    } else {
        1 + first_usable(pool.drop_first(), now)
    }
}

proof fn lemma_first_usable(pool: Seq<Waiting>, now: Instant)
    ensures
        0 <= first_usable(pool, now) <= pool.len(),
        first_usable(pool, now) < pool.len() ==> usable(pool[first_usable(pool, now)], now),
        forall|i: int| 0 <= i < first_usable(pool, now) ==> !usable(#[trigger] pool[i], now),
    decreases pool.len(),
{
    if pool.len() > 0 && !usable(pool[0], now) {
        let rest = pool.drop_first();
        lemma_first_usable(rest, now);
        assert forall|i: int| 0 <= i < first_usable(pool, now) implies !usable(
            #[trigger] pool[i],
            now,
        ) by {
            if i > 0 {
                assert(pool[i] == rest[i - 1]);
            }
        }
        if first_usable(pool, now) < pool.len() {
            assert(pool[first_usable(pool, now)] == rest[first_usable(rest, now)]);
        }
    }
}

/// The numbers of waiting connections.
pub open spec fn numbers(pool: Seq<Waiting>) -> Seq<u64> {
    pool.map_values(|c: Waiting| c.0)
}

/// The connection that a search through a pool finds.
pub open spec fn found(pool: Seq<Waiting>, now: Instant) -> Option<u64> {
    let k = first_usable(pool, now);
    if k < pool.len() {
        Some(pool[k].0)
    } else {
        None
    }
}

/// What a search leaves in a pool: everything behind the connection that it found.
pub open spec fn left_over(pool: Seq<Waiting>, now: Instant) -> Seq<Waiting> {
    let k = first_usable(pool, now);
    if k < pool.len() {
        pool.skip(k + 1)
    } else {
        Seq::empty()
    }
}

/// A connection that is found had not expired, and it is gone from the pool together with those
/// before it, all of which had.
pub proof fn law_expired_are_never_handed_out(pool: Seq<Waiting>, now: Instant)
    ensures
        found(pool, now) matches Some(number) ==> exists|k: int|
            0 <= k < pool.len() && (#[trigger] pool[k]).0 == number && usable(pool[k], now)
                && left_over(pool, now) == pool.skip(k + 1) && forall|i: int|
                0 <= i < k ==> !usable(#[trigger] pool[i], now),
        found(pool, now) is None ==> forall|i: int|
            0 <= i < pool.len() ==> !usable(#[trigger] pool[i], now),
{
    lemma_first_usable(pool, now);
    let k = first_usable(pool, now);
    if k < pool.len() {
        assert(pool[k].0 == pool[k].0);
    }
}

impl PooledConnection {
    /// Create a new pooled connection.
    pub fn new(stream: u64, now: Instant) -> (result: Self)
        ensures
            result == (PooledConnection { stream, created_at: now, last_used: now }),
    {
        PooledConnection { stream, created_at: now, last_used: now }
    }

    /// Check if this connection is still usable.
    pub fn is_valid(&self, max_idle_time: Duration, max_lifetime: Duration, now: Instant) -> (result:
        bool)
        ensures
            result == (nanos_between(self.last_used, now) <= max_idle_time.total_nanos()
                && nanos_between(self.created_at, now) <= max_lifetime.total_nanos()),
            result == (now.nanos <= self.last_used.nanos + max_idle_time.secs * 1_000_000_000
                + max_idle_time.nanos && now.nanos <= self.created_at.nanos + max_lifetime.secs
                * 1_000_000_000 + max_lifetime.nanos),
    {
        let idle_time = self.last_used.elapsed(now);
        let lifetime = self.created_at.elapsed(now);
        !idle_time.exceeds(&max_idle_time) && !lifetime.exceeds(&max_lifetime)
    }

    /// Update the last used timestamp.
    pub fn touch(&mut self, now: Instant)
        ensures
            *final(self) == (PooledConnection { last_used: now, ..*old(self) }),
    {
        self.last_used = now;
    }
}

impl TcpProxyMetrics {
    /// Metrics of a proxy that has seen no connection.
    pub open spec fn zero() -> TcpProxyMetrics {
        TcpProxyMetrics {
            connections_total: 0,
            connections_active: 0,
            bytes_transferred: 0,
            connection_duration_sum: 0,
            connection_duration_count: 0,
            pool_hits: 0,
            pool_misses: 0,
        }
    }

    fn new() -> (result: Self)
        ensures
            result == TcpProxyMetrics::zero(),
    {
        TcpProxyMetrics {
            connections_total: 0,
            connections_active: 0,
            bytes_transferred: 0,
            connection_duration_sum: 0,
            connection_duration_count: 0,
            pool_hits: 0,
            pool_misses: 0,
        }
    }
}

/// The sum in 64 bits, without what does not fit.
pub open spec fn wrapped(a: u64, b: u64) -> u64 {
    if a + b > u64::MAX {
        (a + b - 0x1_0000_0000_0000_0000) as u64
    } else {
        (a + b) as u64
    }
}

// ---------------------------------------------------------------------------------------------
// Validation
// ---------------------------------------------------------------------------------------------

/// The first thing that keeps an instance from being served as TCP.
pub open spec fn tcp_fault(config: ProxyInstanceConfig) -> Option<ErrorView> {
    let tcp = config.config.tcp;
    if config.proxy_type != ProxyType::Tcp {
        Some(config_error("Invalid proxy type for TCP proxy"@))
    } else if tcp.buffer_size == 0 {
        Some(config_error("TCP buffer_size must be greater than 0"@))
    } else if tcp.buffer_size > 1048576 {
        Some(config_error("TCP buffer_size cannot exceed 1MB"@))
    } else {
        match tcp.keep_alive {
            Some(keep) => if keep.enabled && keep.idle_secs == 0 {
                Some(config_error("TCP keep-alive idle_secs must be greater than 0"@))
            } else if keep.enabled && keep.interval_secs == 0 {
                Some(config_error("TCP keep-alive interval_secs must be greater than 0"@))
            } else if keep.enabled && keep.retries == 0 {
                Some(config_error("TCP keep-alive retries must be greater than 0"@))
            } else {
                None
            },
            None => None,
        }
    }
}

/// The error for a connection to an upstream that did not come about.
pub open spec fn connect_error(outcome: ConnectOutcome, name: Seq<char>) -> Option<ErrorView> {
    match outcome {
        ConnectOutcome::Connected => None,
        ConnectOutcome::Failed(d) => Some(
            ErrorView::Network {
                message: "Failed to connect to upstream '"@ + name + "': "@ + d@,
                kind: NetworkErrorKind::ConnectionFailed,
            },
        ),
        ConnectOutcome::TimedOut => Some(
            ErrorView::Network {
                message: "Connection to upstream '"@ + name + "' timed out"@,
                kind: NetworkErrorKind::Timeout,
            },
        ),
    }
}

/// A network error with this message, of a failed connection.
pub open spec fn connection_failed(message: Seq<char>) -> ErrorView {
    ErrorView::Network { message, kind: NetworkErrorKind::ConnectionFailed }
}

/// Statistics of an upstream that has one connection more.
pub open spec fn connected(stats: UpstreamStats) -> UpstreamStats {
    UpstreamStats { active_connections: (stats.active_connections + 1) as usize, ..stats }
}

/// Statistics of an upstream that has one connection less.
pub open spec fn disconnected(stats: UpstreamStats) -> UpstreamStats {
    UpstreamStats { active_connections: one_less(stats.active_connections), ..stats }
}

// ---------------------------------------------------------------------------------------------
// The proxy
// ---------------------------------------------------------------------------------------------

/// The connections that wait for an upstream in one of these pools.
pub open spec fn pool_in(
    pools: NameMap<crossbeam_queue::SegQueue<(u64, u64, u64)>>,
    name: Seq<char>,
) -> Seq<Waiting> {
    if pools@.contains_key(name) {
        queue_contents(pools@[name])
    } else {
        Seq::empty()
    }
}

impl TcpProxy {
    /// The connections that wait for an upstream.
    pub open spec fn pool(self, name: Seq<char>) -> Seq<Waiting> {
        pool_in(self.connection_pools, name)
    }

    /// No upstream has two pools, and no pool is too large.
    pub open spec fn wf(self) -> bool {
        &&& self.connection_pools.wf()
        &&& forall|name: Seq<char>|
            (#[trigger] pool_in(self.connection_pools, name)).len() <= MAX_POOLED
    }

    /// Create a new TCP proxy instance.
    pub fn new() -> (result: Self)
        ensures
            result.wf(),
            forall|name: Seq<char>| (#[trigger] pool_in(result.connection_pools, name)).len() == 0,
            result.metrics == TcpProxyMetrics::zero(),
    {
        TcpProxy { connection_pools: NameMap::new(), metrics: TcpProxyMetrics::new() }
    }

    /// The type of this proxy.
    pub fn proxy_type(&self) -> (result: ProxyType)
        ensures
            result == ProxyType::Tcp,
    {
        ProxyType::Tcp
    }

    /// A client connected.
    pub fn begin_connection(&mut self)
        ensures
            final(self).connection_pools == old(self).connection_pools,
            final(self).metrics == (TcpProxyMetrics {
                connections_total: routing::one_more(old(self).metrics.connections_total),
                connections_active: routing::next_ticket(old(self).metrics.connections_active),
                ..old(self).metrics
            }),
    {
        self.metrics.connections_total = self.metrics.connections_total.wrapping_add(1);
        self.metrics.connections_active = self.metrics.connections_active.wrapping_add(1);
    }

    /// A client's connection is over.
    pub fn finish_connection(&mut self, elapsed: Duration)
        ensures
            final(self).connection_pools == old(self).connection_pools,
            final(self).metrics == (TcpProxyMetrics {
                connections_active: one_less(old(self).metrics.connections_active),
                connection_duration_sum: wrapped(
                    old(self).metrics.connection_duration_sum,
                    ((elapsed.total_nanos() / 1_000_000) % 0x1_0000_0000_0000_0000) as u64,
                ),
                connection_duration_count: routing::one_more(
                    old(self).metrics.connection_duration_count,
                ),
                ..old(self).metrics
            }),
    {
        self.metrics.connections_active = self.metrics.connections_active.wrapping_sub(1);
        let millis: u128 = elapsed.as_millis();
        let part: u64 = (millis % 0x1_0000_0000_0000_0000) as u64;
        self.metrics.connection_duration_sum =
        self.metrics.connection_duration_sum.wrapping_add(part);
        self.metrics.connection_duration_count =
        self.metrics.connection_duration_count.wrapping_add(1);
    }

    /// The upstream that was selected for a client, if any was.
    pub fn selected(upstream: Option<usize>) -> (result: Result<usize>)
        ensures
            match upstream {
                Some(i) => result == Ok::<usize, Error>(i),
                None => fails(result, no_upstream("tcp"@)),
            },
    {
        match upstream {
            Some(i) => Ok(i),
            None => Err(Error::proxy("No healthy upstream available", "tcp", "unknown")),
        }
    }

    /// Try to get a pooled connection to the upstream.
    pub fn try_get_pooled_connection(&mut self, name: &str, now: Instant) -> (result: PoolPick)
        requires
            old(self).wf(),
        ensures
            final(self).wf(),
            final(self).metrics == old(self).metrics,
            result.connection == found(old(self).pool(name@), now),
            result.expired@ == numbers(
                old(self).pool(name@).take(first_usable(old(self).pool(name@), now)),
            ),
            final(self).pool(name@) == left_over(old(self).pool(name@), now),
            forall|other: Seq<char>|
                other != name@ ==> #[trigger] pool_in(final(self).connection_pools, other) == pool_in(old(self).connection_pools, other),
    {
        let ghost before = *self;
        let ghost waiting = self.pool(name@);
        let mut expired: Vec<u64> = Vec::new();
        let mut connection: Option<u64> = None;
        proof {
            lemma_first_usable(waiting, now);
        }
        match self.connection_pools.get_mut(name) {
            Some(pool) => {
                let max_idle_time = Duration::from_secs(MAX_IDLE_SECS);
                let max_lifetime = Duration::from_secs(MAX_LIFETIME_SECS);
                let ghost mut gone: int = 0;
                assert(queue_contents(*pool) == waiting.skip(0));
                assert(expired@ =~= numbers(waiting.take(0)));
                loop
                    invariant_except_break
                        0 <= gone <= waiting.len(),
                        connection is None,
                        queue_contents(*pool) == waiting.skip(gone),
                        expired@ == numbers(waiting.take(gone)),
                        first_usable(waiting, now) == gone + first_usable(waiting.skip(gone), now),
                        max_idle_time.total_nanos() == MAX_IDLE_SECS * 1_000_000_000,
                        max_lifetime.total_nanos() == MAX_LIFETIME_SECS * 1_000_000_000,
                    ensures
                        connection == found(waiting, now),
                        expired@ == numbers(waiting.take(first_usable(waiting, now))),
                        queue_contents(*pool) == left_over(waiting, now),
                    decreases waiting.len() - gone,
                {
                    let ghost rest = waiting.skip(gone);
                    match queue_pop(pool) {
                        Some(item) => {
                            let mut pooled = PooledConnection {
                                stream: item.0,
                                created_at: Instant { nanos: item.1 },
                                last_used: Instant { nanos: item.2 },
                            };
                            assert(rest[0] == waiting[gone]);
                            assert(rest.skip(1) =~= waiting.skip(gone + 1));
                            assert(rest.drop_first() =~= waiting.skip(gone + 1));
                            if pooled.is_valid(max_idle_time, max_lifetime, now) {
                                pooled.touch(now);
                                connection = Some(pooled.stream);
                                break ;
                            }
                            expired.push(item.0);
                            assert(expired@ =~= numbers(waiting.take(gone + 1)));
                            proof {
                                gone = gone + 1;
                            }
                        },
                        None => {
                            assert(left_over(waiting, now) =~= waiting.skip(gone));
                            break ;
                        },
                    }
                }
            },
            None => {
                assert(waiting.len() == 0);
                assert(expired@ =~= numbers(waiting.take(0)));
                assert(left_over(waiting, now) =~= waiting);
            },
        }
        proof {
            assert forall|other: Seq<char>| other != name@ implies #[trigger] pool_in(self.connection_pools, other)
                == pool_in(before.connection_pools, other) by {}
            assert forall|other: Seq<char>| (#[trigger] pool_in(self.connection_pools, other)).len() <= MAX_POOLED by {
                assert(pool_in(before.connection_pools, other).len() <= MAX_POOLED);
                if other == name@ {
                    assert(self.pool(name@) == left_over(waiting, now));
                }
            }
        }
        PoolPick { connection, expired }
    }

    /// How to come by a connection to an upstream, and which expired ones to close on the way.
    pub fn get_upstream_connection(
        &mut self,
        upstream: &UpstreamInfo,
        config: &TcpProxyConfig,
        now: Instant,
    ) -> (result: (ConnectionPlan, Vec<u64>))
        requires
            old(self).wf(),
        ensures
            final(self).wf(),
            ({
                let name = upstream.config.name@;
                let pool = old(self).pool(name);
                let metrics = old(self).metrics;
                let hit = config.connection_pooling && found(pool, now) is Some;
                &&& final(self).pool(name) == (if config.connection_pooling {
                    left_over(pool, now)
                } else {
                    pool
                })
                &&& result.1@ == (if config.connection_pooling {
                    numbers(pool.take(first_usable(pool, now)))
                } else {
                    Seq::empty()
                })
                &&& final(self).metrics == (if hit {
                    TcpProxyMetrics { pool_hits: routing::one_more(metrics.pool_hits), ..metrics }
                } else {
                    TcpProxyMetrics {
                        pool_misses: routing::one_more(metrics.pool_misses),
                        ..metrics
                    }
                })
                &&& if hit {
                    result.0 matches ConnectionPlan::Reuse(c) && Some(c) == found(pool, now)
                } else {
                    result.0 matches ConnectionPlan::Connect(d) && d.total_nanos()
                        == upstream.config.timeout_ms * 1_000_000
                }
            }),
            forall|other: Seq<char>|
                other != upstream.config.name@ ==> #[trigger] pool_in(final(self).connection_pools, other) == pool_in(old(self).connection_pools, other),
    {
        let mut expired: Vec<u64> = Vec::new();
        assert(expired@ =~= Seq::<u64>::empty());
        if config.connection_pooling {
            let pick = self.try_get_pooled_connection(upstream.config.name.as_str(), now);
            if let Some(connection) = pick.connection {
                self.metrics.pool_hits = self.metrics.pool_hits.wrapping_add(1);
                return (ConnectionPlan::Reuse(connection), pick.expired);
            }
            expired = pick.expired;
        }
        self.metrics.pool_misses = self.metrics.pool_misses.wrapping_add(1);
        (
            ConnectionPlan::Connect(utils::millis_to_duration(upstream.config.timeout_ms)),
            expired,
        )
    }

    /// What came of an attempt to connect to an upstream.
    pub fn connect_result(upstream: &UpstreamInfo, outcome: ConnectOutcome) -> (result: Result<()>)
        ensures
            fails_by(result, connect_error(outcome, upstream.config.name@)),
    {
        match outcome {
            ConnectOutcome::Connected => Ok(()),
            ConnectOutcome::Failed(d) => {
                let message = text::cat4(
                    "Failed to connect to upstream '",
                    upstream.config.name.as_str(),
                    "': ",
                    d.as_str(),
                );
                Err(Error::network(message.as_str(), NetworkErrorKind::ConnectionFailed))
            },
            ConnectOutcome::TimedOut => {
                let message = text::cat3(
                    "Connection to upstream '",
                    upstream.config.name.as_str(),
                    "' timed out",
                );
                Err(Error::network(message.as_str(), NetworkErrorKind::Timeout))
            },
        }
    }

    /// Return a connection to the pool for reuse. Whether the pool took it is the result; one that it
    /// did not take is to be closed.
    pub fn return_connection_to_pool(
        &mut self,
        config: &TcpProxyConfig,
        upstream_name: &str,
        stream: u64,
        now: Instant,
    ) -> (result: bool)
        requires
            old(self).wf(),
        ensures
            final(self).wf(),
            final(self).metrics == old(self).metrics,
            result == (config.connection_pooling && old(self).pool(upstream_name@).len()
                < MAX_POOLED),
            final(self).pool(upstream_name@) == (if result {
                old(self).pool(upstream_name@).push((stream, now.nanos, now.nanos))
            } else {
                old(self).pool(upstream_name@)
            }),
            forall|other: Seq<char>|
                other != upstream_name@ ==> #[trigger] pool_in(final(self).connection_pools, other) == pool_in(old(self).connection_pools, other),
    {
        if !config.connection_pooling {
            return false;
        }
        let ghost before = *self;
        if !self.connection_pools.contains_key(upstream_name) {
            let _ = self.connection_pools.insert(upstream_name.to_string(), queue_new());
            assert(self.pool(upstream_name@) =~= before.pool(upstream_name@));
        }
        let ghost between = *self;
        assert forall|other: Seq<char>| #[trigger] pool_in(between.connection_pools, other) == pool_in(before.connection_pools, other) by {
            assert(pool_in(between.connection_pools, other) =~= pool_in(before.connection_pools, other));
        }
        let mut taken = false;
        if let Some(pool) = self.connection_pools.get_mut(upstream_name) {
            if queue_len(pool) < MAX_POOLED {
                let pooled = PooledConnection::new(stream, now);
                queue_push(
                    pool,
                    (pooled.stream, pooled.created_at.nanos, pooled.last_used.nanos),
                );
                taken = true;
            }
        }
        proof {
            assert forall|other: Seq<char>| other != upstream_name@ implies #[trigger] pool_in(self.connection_pools, other) == pool_in(before.connection_pools, other) by {
                assert(pool_in(between.connection_pools, other) == pool_in(before.connection_pools, other));
            }
            assert forall|other: Seq<char>| (#[trigger] pool_in(self.connection_pools, other)).len() <= MAX_POOLED by {
                assert(pool_in(before.connection_pools, other).len() <= MAX_POOLED);
                assert(pool_in(between.connection_pools, other) == pool_in(before.connection_pools, other));
            }
        }
        taken
    }

    /// Whether the socket of an upstream connection is to send without delay.
    pub fn configure_socket(config: &TcpProxyConfig) -> (result: bool)
        ensures
            result == config.nodelay,
    {
        config.nodelay
    }

    /// The error for a socket on which the delay could not be switched off.
    pub fn nodelay_failure(description: &str) -> (result: Error)
        ensures
            result@ == (ErrorView::Network {
                message: "Failed to set TCP_NODELAY: "@ + description@,
                kind: NetworkErrorKind::Protocol,
            }),
    {
        let message = text::cat2("Failed to set TCP_NODELAY: ", description);
        Error::network(message.as_str(), NetworkErrorKind::Protocol)
    }

    /// The error for a listen address that could not be bound.
    pub fn bind_failure(address: &str, description: &str) -> (result: Error)
        ensures
            result@ == connection_failed(
                "Failed to bind to "@ + address@ + ": "@ + description@,
            ),
    {
        let message = text::cat4("Failed to bind to ", address, ": ", description);
        Error::network(message.as_str(), NetworkErrorKind::ConnectionFailed)
    }

    /// Streaming to an upstream begins.
    pub fn begin_stream(router: &mut Router, upstream: usize)
        requires
            old(router).wf(),
            upstream < old(router).upstreams().len(),
            old(router).upstreams()[upstream as int].stats.active_connections < usize::MAX,
        ensures
            final(router).wf(),
            ({
                let info = old(router).upstreams()[upstream as int];
                final(router).upstreams() == old(router).upstreams().update(
                    upstream as int,
                    info.with_stats(connected(info.stats)),
                )
            }),
            final(router).strategy() == old(router).strategy(),
            final(router).counter() == old(router).counter(),
            final(router).points() == old(router).points(),
    {
        let stats = router.stats_mut(upstream);
        let _ = stats.increment_connections();
    }

    /// Streaming to an upstream ended, well or with an error.
    pub fn end_stream(
        router: &mut Router,
        upstream: usize,
        outcome: Result<u64>,
        elapsed: Duration,
        now: Instant,
    ) -> (result: Result<()>)
        requires
            old(router).wf(),
            upstream < old(router).upstreams().len(),
            outcome is Ok ==> can_record(
                old(router).upstreams()[upstream as int].stats,
                elapsed,
            ),
        ensures
            final(router).wf(),
            ({
                let info = old(router).upstreams()[upstream as int];
                final(router).upstreams() == old(router).upstreams().update(
                    upstream as int,
                    info.with_stats(
                        recorded(disconnected(info.stats), outcome is Ok, elapsed, now),
                    ),
                )
            }),
            match outcome {
                Ok(_) => result is Ok,
                Err(e) => result == Err::<(), Error>(e),
            },
            final(router).strategy() == old(router).strategy(),
            final(router).counter() == old(router).counter(),
            final(router).points() == old(router).points(),
    {
        let stats = router.stats_mut(upstream);
        let _ = stats.decrement_connections();
        match outcome {
            Ok(_) => {
                stats.record_success(elapsed, now);
                Ok(())
            },
            Err(e) => {
                stats.record_failure(now);
                Err(e)
            },
        }
    }

    /// What to do after an attempt to read from a stream that is being copied.
    pub fn copy_step(outcome: ReadOutcome) -> (result: Result<CopyStep>)
        ensures
            match outcome {
                ReadOutcome::Bytes(n) => if n == 0 {
                    result matches Ok(CopyStep::Finish)
                } else {
                    result matches Ok(CopyStep::Write(m)) && m == n
                },
                ReadOutcome::UnexpectedEof => result matches Ok(CopyStep::Finish),
                ReadOutcome::Failed(d) => fails(result, connection_failed("Read failed: "@ + d@)),
            },
    {
        match outcome {
            ReadOutcome::Bytes(n) => if n == 0 {
                Ok(CopyStep::Finish)
            } else {
                Ok(CopyStep::Write(n))
            },
            ReadOutcome::UnexpectedEof => Ok(CopyStep::Finish),
            ReadOutcome::Failed(d) => {
                let message = text::cat2("Read failed: ", d.as_str());
                Err(Error::network(message.as_str(), NetworkErrorKind::ConnectionFailed))
            },
        }
    }

    /// Counts bytes that were written to a stream, or reports that they were not.
    pub fn copied(&mut self, total: u64, bytes: usize, failure: Option<&str>) -> (result: Result<
        u64,
    >)
        requires
            total + bytes <= u64::MAX,
        ensures
            final(self).connection_pools == old(self).connection_pools,
            match failure {
                Some(d) => final(self).metrics == old(self).metrics && fails(
                    result,
                    connection_failed("Write failed: "@ + d@),
                ),
                None => result == Ok::<u64, Error>((total + bytes) as u64) && final(self).metrics
                    == (TcpProxyMetrics {
                    bytes_transferred: wrapped(old(self).metrics.bytes_transferred, bytes as u64),
                    ..old(self).metrics
                }),
            },
    {
        match failure {
            Some(d) => {
                let message = text::cat2("Write failed: ", d);
                Err(Error::network(message.as_str(), NetworkErrorKind::ConnectionFailed))
            },
            None => {
                self.metrics.bytes_transferred =
                self.metrics.bytes_transferred.wrapping_add(bytes as u64);
                Ok(total + bytes as u64)
            },
        }
    }

    /// Validate proxy-specific configuration.
    pub fn validate_config(&self, config: &ProxyInstanceConfig) -> (result: Result<()>)
        ensures
            fails_by(result, tcp_fault(*config)),
    {
        if config.proxy_type != ProxyType::Tcp {
            return Err(Error::config("Invalid proxy type for TCP proxy"));
        }
        let tcp = &config.config.tcp;
        if tcp.buffer_size == 0 {
            return Err(Error::config("TCP buffer_size must be greater than 0"));
        }
        if tcp.buffer_size > 1024 * 1024 {
            return Err(Error::config("TCP buffer_size cannot exceed 1MB"));
        }
        if let Some(keep_alive) = &tcp.keep_alive {
            if keep_alive.enabled {
                if keep_alive.idle_secs == 0 {
                    return Err(Error::config("TCP keep-alive idle_secs must be greater than 0"));
                }
                if keep_alive.interval_secs == 0 {
                    return Err(
                        Error::config("TCP keep-alive interval_secs must be greater than 0"),
                    );
                }
                if keep_alive.retries == 0 {
                    return Err(Error::config("TCP keep-alive retries must be greater than 0"));
                }
            }
        }
        Ok(())
    }

    /// What the counters say as metrics.
    pub open spec fn reported_metrics(self) -> ProxyMetrics {
        ProxyMetrics {
            total_requests: self.metrics.connections_total,
            active_connections: self.metrics.connections_active as u64,
            bytes_sent: self.metrics.bytes_transferred,
            bytes_received: self.metrics.bytes_transferred,
            request_rate: Ratio { numerator: 0, denominator: 1 },
            error_rate: Ratio { numerator: 0, denominator: 1 },
            avg_response_time_ms: if self.metrics.connection_duration_count > 0 {
                Ratio {
                    numerator: self.metrics.connection_duration_sum as u128,
                    denominator: self.metrics.connection_duration_count as u128,
                }
            } else {
                Ratio { numerator: 0, denominator: 1 }
            },
        }
    }

    /// Get proxy-specific metrics.
    pub fn get_metrics(&self) -> (result: Result<ProxyMetrics>)
        ensures
            result matches Ok(m) && m == self.reported_metrics(),
    {
        let avg_response_time_ms = if self.metrics.connection_duration_count > 0 {
            Ratio {
                numerator: self.metrics.connection_duration_sum as u128,
                denominator: self.metrics.connection_duration_count as u128,
            }
        } else {
            Ratio { numerator: 0, denominator: 1 }
        };
        Ok(
            ProxyMetrics {
                total_requests: self.metrics.connections_total,
                active_connections: self.metrics.connections_active as u64,
                bytes_sent: self.metrics.bytes_transferred,
                bytes_received: self.metrics.bytes_transferred,
                request_rate: Ratio { numerator: 0, denominator: 1 },
                error_rate: Ratio { numerator: 0, denominator: 1 },
                avg_response_time_ms,
            },
        )
    }

    /// Whether this is the health that the counters show.
    pub open spec fn has_health(self, health: ProxyHealth) -> bool {
        &&& health.status == (if self.metrics.connections_active < 5000 {
            HealthState::Healthy
        } else if self.metrics.connections_active < 10000 {
            HealthState::Unknown
        } else {
            HealthState::Unhealthy
        })
        &&& health.message@ == "Active connections: "@ + text::decimal(
            self.metrics.connections_active as nat,
        ) + ", Total connections: "@ + text::decimal(self.metrics.connections_total as nat)
    }

    /// Perform health check on the proxy itself.
    pub fn health_check(&self) -> (result: Result<ProxyHealth>)
        ensures
            result matches Ok(h) && self.has_health(h),
    {
        let active: usize = self.metrics.connections_active;
        let total: u64 = self.metrics.connections_total;
        let status = if active < 5000 {
            HealthState::Healthy
        } else if active >= 10000 {
            HealthState::Unhealthy
        } else {
            HealthState::Unknown
        };
        let message = text::cat4(
            "Active connections: ",
            text::number(active as u64).as_str(),
            ", Total connections: ",
            text::number(total).as_str(),
        );
        Ok(ProxyHealth { status, message })
    }
}

impl Default for TcpProxy {
    fn default() -> (result: Self)
        ensures
            result.wf(),
            forall|name: Seq<char>| (#[trigger] pool_in(result.connection_pools, name)).len() == 0,
            result.metrics == TcpProxyMetrics::zero(),
    {
        TcpProxy::new()
    }
}

/// A waiting connection is good for five minutes after its last use and for an hour after it was
/// made, and no longer.
pub proof fn law_waiting_connections_expire(c: Waiting, now: Instant)
    ensures
        usable(c, now) <==> now.nanos <= c.2 + 300_000_000_000 && now.nanos <= c.1
            + 3_600_000_000_000,
{
}

/// The connection at the front of a pool is found, past those that have expired, which are gone with
/// it; where all have expired nothing is found and nothing stays.
pub proof fn law_first_usable_is_found(pool: Seq<Waiting>, now: Instant, k: int)
    requires
        0 <= k <= pool.len(),
        forall|i: int| 0 <= i < k ==> !usable(#[trigger] pool[i], now),
        k < pool.len() ==> usable(pool[k], now),
    ensures
        first_usable(pool, now) == k,
        k < pool.len() ==> found(pool, now) == Some(pool[k].0) && left_over(pool, now) == pool.skip(
            k + 1,
        ),
        k == pool.len() ==> found(pool, now) is None && left_over(pool, now).len() == 0,
    decreases pool.len(),
{
    if k > 0 {
        assert(!usable(pool[0], now));
        let rest = pool.drop_first();
        assert forall|i: int| 0 <= i < k - 1 implies !usable(#[trigger] rest[i], now) by {
            assert(!usable(pool[i + 1], now));
        }
        law_first_usable_is_found(rest, now, k - 1);
    }
}

/// A connection that is returned to a pool in which none is usable is the one that is found there in
/// the next five minutes.
pub proof fn law_returned_connections_are_reused(
    pool: Seq<Waiting>,
    stream: u64,
    returned: Instant,
    now: Instant,
)
    requires
        forall|i: int| 0 <= i < pool.len() ==> !usable(#[trigger] pool[i], now),
        now.nanos <= returned.nanos + 300_000_000_000,
    ensures
        found(pool.push((stream, returned.nanos, returned.nanos)), now) == Some(stream),
        left_over(pool.push((stream, returned.nanos, returned.nanos)), now).len() == 0,
{
    let all = pool.push((stream, returned.nanos, returned.nanos));
    assert forall|i: int| 0 <= i < pool.len() implies !usable(#[trigger] all[i], now) by {
        assert(!usable(pool[i], now));
    }
    law_first_usable_is_found(all, now, pool.len() as int);
}

/// Counters of 64 bits add up but for what does not fit.
pub proof fn law_counters_wrap(a: u64, b: u64)
    ensures
        wrapped(a, b) == (a + b) % 0x1_0000_0000_0000_0000,
        a + b <= u64::MAX ==> wrapped(a, b) == a + b,
{
}

/// A connection that ends leaves an upstream with as many as before it began.
pub proof fn law_streams_come_and_go(stats: UpstreamStats)
    requires
        stats.active_connections < usize::MAX,
    ensures
        connected(stats).active_connections == stats.active_connections + 1,
        disconnected(connected(stats)) == stats,
        connected(stats).requests_sent == stats.requests_sent,
        connected(stats).responses_received == stats.responses_received,
        connected(stats).failures == stats.failures,
        connected(stats).avg_response_time_ns == stats.avg_response_time_ns,
{
}

/// A connection attempt is an error of the network exactly where it did not come about, and a timeout
/// exactly where its time ran out.
pub proof fn law_connect_outcomes_are_told_apart(outcome: ConnectOutcome, name: Seq<char>)
    ensures
        connect_error(outcome, name) is None <==> outcome is Connected,
        (connect_error(outcome, name) matches Some(ErrorView::Network { kind, .. }) && kind
            == NetworkErrorKind::Timeout) <==> outcome is TimedOut,
        (connect_error(outcome, name) matches Some(ErrorView::Network { kind, .. }) && kind
            == NetworkErrorKind::ConnectionFailed) <==> outcome is Failed,
{
}

/// An instance is served as TCP exactly where it is meant to be, has a buffer of up to a megabyte, and
/// leaves nothing of its keep-alive at zero where that is on.
pub proof fn law_tcp_settings_are_checked(config: ProxyInstanceConfig)
    ensures
        tcp_fault(config) is None <==> {
            let tcp = config.config.tcp;
            &&& config.proxy_type == ProxyType::Tcp
            &&& 0 < tcp.buffer_size <= 1024 * 1024
            &&& tcp.keep_alive matches Some(keep) ==> keep.enabled ==> keep.idle_secs > 0
                && keep.interval_secs > 0 && keep.retries > 0
        },
{
}

/// A proxy's metrics are its counters, and its average is the sum of the durations over their number.
/// Up to 5000 connections it is healthy, from 10000 on it is not, and between them it is not known.
pub proof fn law_tcp_metrics_report_the_counters(proxy: TcpProxy, health: ProxyHealth)
    requires
        proxy.has_health(health),
    ensures
        ({
            let m = proxy.reported_metrics();
            &&& m.total_requests == proxy.metrics.connections_total
            &&& m.active_connections == proxy.metrics.connections_active
            &&& m.bytes_sent == proxy.metrics.bytes_transferred
            &&& m.bytes_received == proxy.metrics.bytes_transferred
            &&& m.error_rate.numerator == 0 && m.error_rate.denominator > 0
            &&& m.request_rate.numerator == 0 && m.request_rate.denominator > 0
            &&& m.avg_response_time_ms.denominator > 0
            &&& proxy.metrics.connection_duration_count > 0 ==> m.avg_response_time_ms.numerator
                * proxy.metrics.connection_duration_count == m.avg_response_time_ms.denominator
                * proxy.metrics.connection_duration_sum
            &&& proxy.metrics.connection_duration_count == 0 ==> m.avg_response_time_ms.numerator
                == 0
        }),
        health.status == HealthState::Healthy <==> proxy.metrics.connections_active < 5000,
        health.status == HealthState::Unhealthy <==> proxy.metrics.connections_active >= 10000,
{
    let average = proxy.reported_metrics().avg_response_time_ms;
    let a = proxy.metrics.connection_duration_count as int;
    let b = proxy.metrics.connection_duration_sum as int;
    if a > 0 {
        assert(average.numerator * a == average.denominator * b) by (nonlinear_arith)
            requires
                average.numerator == b,
                average.denominator == a,
        ;
    }
}

} // verus!
