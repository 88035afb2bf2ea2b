//! UDP proxy: sessions by client address, the steps of carrying packets, and metrics.
use vstd::prelude::*;

use crate::address::AddressId;
use crate::config::{ProxyInstanceConfig, ProxyType, UdpProxyConfig};
use crate::error::{config_error, fails, fails_by, Error, ErrorView, NetworkErrorKind, Result};
use crate::proxy::http::{no_upstream, one_less, recorded};
use crate::proxy::tcp::{connection_failed, wrapped};
use crate::proxy::{ProxyHealth, ProxyMetrics};
use crate::proxy::utils;
use crate::routing;
use crate::routing::{HealthState, Ratio, Router, UpstreamInfo};
use crate::text;
use crate::time::{nanos_between, Duration, Instant};

verus! {

broadcast use vstd::string::group_string_axioms;

/// UDP session information for connection tracking.
#[derive(Debug, Clone, Copy, PartialEq, Eq, Structural)]
pub struct UdpSession {
    /// The place of the upstream server for this session
    pub upstream: usize,
    /// The number by which the socket connected to the upstream is known
    pub upstream_socket: u64,
    /// Last activity timestamp
    pub last_activity: Instant,
    /// Session creation timestamp
    pub created_at: Instant,
    /// Bytes sent in this session
    pub bytes_sent: u64,
    /// Bytes received in this session
    pub bytes_received: u64,
}

/// A client address as the key of a map: whether it is an IPv6 address, its bits, flow label, scope
/// and port.
pub type AddressKey = (u8, u128, u32, u32, u16);

/// The concurrent hash map of the `dashmap` crate, as an opaque value.
#[verifier::external_type_specification]
#[verifier::external_body]
#[verifier::reject_recursive_types(K)]
#[verifier::reject_recursive_types(V)]
#[verifier::reject_recursive_types(S)]
pub struct ExDashMap<K, V, S>(dashmap::DashMap<K, V, S>);

/// What a `dashmap` map from clients to sessions holds.
pub uninterp spec fn session_contents(
    m: dashmap::DashMap<
        (u8, u128, u32, u32, u16),
        UdpSession,
        std::collections::hash_map::RandomState,
    >,
) -> Map<(u8, u128, u32, u32, u16), UdpSession>;

/// The map from clients to sessions.
pub type SessionMap = dashmap::DashMap<
    (u8, u128, u32, u32, u16),
    UdpSession,
    std::collections::hash_map::RandomState,
>;

/// `DashMap::new` makes a map without entries.
#[verifier::external_body]
fn sessions_new() -> (result: SessionMap)
    ensures
        session_contents(result).dom() == Set::<(u8, u128, u32, u32, u16)>::empty(),
{
    dashmap::DashMap::new()
}

/// `DashMap::get` looks a client up; the session is copied out of the map.
#[verifier::external_body]
fn sessions_get(m: &SessionMap, key: AddressKey) -> (result: Option<UdpSession>)
    ensures
        result == (if session_contents(*m).contains_key(key) {
            Some(session_contents(*m)[key])
        } else {
            None
        }),
{
    m.get(&key).map(|entry| *entry.value())
}

/// `DashMap::insert` gives the client this session and leaves the other clients alone.
#[verifier::external_body]
fn sessions_insert(m: &mut SessionMap, key: AddressKey, session: UdpSession)
    ensures
        session_contents(*final(m)) == session_contents(*old(m)).insert(key, session),
{
    m.insert(key, session);
}

/// `DashMap::remove` takes the client out; whether it was there is the result.
#[verifier::external_body]
fn sessions_remove(m: &mut SessionMap, key: AddressKey) -> (result: bool)
    ensures
        session_contents(*final(m)) == session_contents(*old(m)).remove(key),
        result == session_contents(*old(m)).contains_key(key),
{
    m.remove(&key).is_some()
}

/// `DashMap::clear` removes every entry.
#[verifier::external_body]
fn sessions_clear(m: &mut SessionMap)
    ensures
        session_contents(*final(m)).dom() == Set::<(u8, u128, u32, u32, u16)>::empty(),
{
    m.clear()
}

/// `DashMap::iter` visits every entry once, in an order of its own.
#[verifier::external_body]
fn sessions_entries(m: &SessionMap) -> (result: Vec<((u8, u128, u32, u32, u16), UdpSession)>)
    ensures
        entry_keys(result@).no_duplicates(),
        forall|key: AddressKey| #[trigger]
            session_contents(*m).contains_key(key) <==> entry_keys(result@).contains(key),
        forall|i: int|
            0 <= i < result@.len() ==> session_contents(*m)[(#[trigger] result@[i]).0]
                == result@[i].1,
{
    m.iter().map(|entry| (*entry.key(), *entry.value())).collect()
}

/// The clients of a list of entries.
pub open spec fn entry_keys(entries: Seq<(AddressKey, UdpSession)>) -> Seq<AddressKey> {
    entries.map_values(|e: (AddressKey, UdpSession)| e.0)
}

/// The key of an address.
pub open spec fn key_of(id: AddressId) -> AddressKey {
    (
        if id.v6 {
            1u8
        } else {
            0u8
        },
        id.ip,
        id.flowinfo,
        id.scope_id,
        id.port,
    )
}

/// Different addresses have different keys.
pub proof fn law_keys_tell_addresses_apart(a: AddressId, b: AddressId)
    requires
        key_of(a) == key_of(b),
    ensures
        a == b,
{
}

/// A key holds all of an address, and a one in front exactly where it is one of IPv6.
pub proof fn law_keys_hold_the_address(a: AddressId)
    ensures
        key_of(a).0 == 1 <==> a.v6,
        key_of(a).0 <= 1,
        key_of(a).1 == a.ip,
        key_of(a).2 == a.flowinfo,
        key_of(a).3 == a.scope_id,
        key_of(a).4 == a.port,
{
}

pub fn address_key(id: AddressId) -> (result: AddressKey)
    ensures
        result == key_of(id),
{
    let family: u8 = if id.v6 {
        1
    } else {
        0
    };
    (family, id.ip, id.flowinfo, id.scope_id, id.port)
}

/// UDP proxy implementation with session tracking and load balancing.
pub struct UdpProxy {
    /// Client session tracking
    pub sessions: SessionMap,
    /// Proxy metrics
    pub metrics: UdpProxyMetrics,
}

/// UDP proxy specific metrics.
#[derive(Debug, Clone, Copy, PartialEq, Eq, Structural)]
pub struct UdpProxyMetrics {
    /// Total packets processed
    pub packets_total: u64,
    /// Currently active sessions
    pub sessions_active: usize,
    /// Total bytes sent to upstreams
    pub bytes_sent: u64,
    /// Total bytes received from upstreams
    pub bytes_received: u64,
    /// Session creation count
    pub sessions_created: u64,
    /// Session expiration count
    pub sessions_expired: u64,
}

/// What came of an attempt to send a packet.
#[derive(Debug)]
pub enum SendOutcome {
    /// So many bytes went out
    Sent(usize),
    /// A failure, with its description
    Failed(String),
    TimedOut,
}

// ---------------------------------------------------------------------------------------------
// Sessions
// ---------------------------------------------------------------------------------------------

/// Whether a session has been idle for longer than the timeout.
pub open spec fn expired(session: UdpSession, timeout_secs: u64, now: Instant) -> bool {
    nanos_between(session.last_activity, now) > timeout_secs * 1_000_000_000
}

/// A session is over exactly when more than the configured seconds have passed since it was last
/// active, whatever that number of seconds is.
pub proof fn law_sessions_last_their_timeout(session: UdpSession, timeout_secs: u64, now: Instant)
    ensures
        expired(session, timeout_secs, now) <==> session.last_activity.nanos + timeout_secs
            * 1_000_000_000 < now.nanos,
{
}

/// A longer timeout never ends a session sooner, and a session that is over stays over until it is
/// active again, whereupon it is not.
pub proof fn law_timeouts_are_monotone(
    session: UdpSession,
    shorter: u64,
    longer: u64,
    now: Instant,
    later: Instant,
)
    requires
        shorter <= longer,
        now.nanos <= later.nanos,
    ensures
        expired(session, longer, now) ==> expired(session, shorter, now),
        expired(session, shorter, now) ==> expired(session, shorter, later),
        !expired(UdpSession { last_activity: now, ..session }, shorter, now),
{
}

/// A session as it is opened.
pub open spec fn opened(upstream: usize, socket: u64, now: Instant) -> UdpSession {
    UdpSession {
        upstream,
        upstream_socket: socket,
        last_activity: now,
        created_at: now,
        bytes_sent: 0,
        bytes_received: 0,
    }
}

impl UdpSession {
    /// Create a new UDP session.
    pub fn new(upstream: usize, upstream_socket: u64, now: Instant) -> (result: Self)
        ensures
            result == opened(upstream, upstream_socket, now),
    {
        UdpSession {
            upstream,
            upstream_socket,
            last_activity: now,
            created_at: now,
            bytes_sent: 0,
            bytes_received: 0,
        }
    }

    /// Update last activity timestamp.
    pub fn touch(&mut self, now: Instant)
        ensures
            *final(self) == (UdpSession { last_activity: now, ..*old(self) }),
    {
        self.last_activity = now;
    }

    /// Check if session has expired.
    pub fn is_expired(&self, timeout: Duration, now: Instant) -> (result: bool)
        ensures
            result == (nanos_between(self.last_activity, now) > timeout.total_nanos()),
            result == (self.last_activity.nanos + timeout.secs * 1_000_000_000 + timeout.nanos
                < now.nanos),
    {
        self.last_activity.elapsed(now).exceeds(&timeout)
    }

    /// Get session age.
    pub fn age(&self, now: Instant) -> (result: Duration)
        ensures
            result.wf(),
            result.total_nanos() == nanos_between(self.created_at, now),
    {
        self.created_at.elapsed(now)
    }

    /// Record bytes sent to upstream.
    pub fn record_bytes_sent(&mut self, bytes: usize)
        ensures
            *final(self) == (UdpSession {
                bytes_sent: wrapped(old(self).bytes_sent, bytes as u64),
                ..*old(self)
            }),
    {
        self.bytes_sent = self.bytes_sent.wrapping_add(bytes as u64);
    }

    /// Record bytes received from upstream.
    pub fn record_bytes_received(&mut self, bytes: usize)
        ensures
            *final(self) == (UdpSession {
                bytes_received: wrapped(old(self).bytes_received, bytes as u64),
                ..*old(self)
            }),
    {
        self.bytes_received = self.bytes_received.wrapping_add(bytes as u64);
    }
}

impl UdpProxyMetrics {
    /// Metrics of a proxy that has seen no packet.
    pub open spec fn zero() -> UdpProxyMetrics {
        UdpProxyMetrics {
            packets_total: 0,
            sessions_active: 0,
            bytes_sent: 0,
            bytes_received: 0,
            sessions_created: 0,
            sessions_expired: 0,
        }
    }

    /// The metrics after one more session expired.
    pub open spec fn one_expired(self) -> UdpProxyMetrics {
        UdpProxyMetrics {
            sessions_expired: routing::one_more(self.sessions_expired),
            sessions_active: one_less(self.sessions_active),
            ..self
        }
    }

    /// The metrics after `n` more sessions expired.
    pub open spec fn expired_times(self, n: nat) -> UdpProxyMetrics
        decreases n,
    {
        if n == 0 {
            self
        } else {
            self.expired_times((n - 1) as nat).one_expired()
        }
    }

    /// The metrics after one more session was opened.
    pub open spec fn one_opened(self) -> UdpProxyMetrics {
        UdpProxyMetrics {
            sessions_created: routing::one_more(self.sessions_created),
            sessions_active: routing::next_ticket(self.sessions_active),
            ..self
        }
    }

    fn expire(&mut self)
        ensures
            *final(self) == old(self).one_expired(),
    {
        self.sessions_expired = self.sessions_expired.wrapping_add(1);
        self.sessions_active = self.sessions_active.wrapping_sub(1);
    }
}

/// Clients whose sessions have expired.
pub open spec fn expired_clients(
    sessions: Map<AddressKey, UdpSession>,
    timeout_secs: u64,
    now: Instant,
) -> Set<AddressKey> {
    sessions.dom().filter(|key: AddressKey| expired(sessions[key], timeout_secs, now))
}

/// The first thing that keeps an instance from being served as UDP.
pub open spec fn udp_fault(config: ProxyInstanceConfig) -> Option<ErrorView> {
    let udp = config.config.udp;
    if config.proxy_type != ProxyType::Udp {
        Some(config_error("Invalid proxy type for UDP proxy"@))
    } else if udp.buffer_size == 0 {
        Some(config_error("UDP buffer_size must be greater than 0"@))
    } else if udp.buffer_size > 65536 {
        Some(config_error("UDP buffer_size cannot exceed 64KB"@))
    } else if udp.session_timeout_secs == 0 {
        Some(config_error("UDP session_timeout_secs must be greater than 0"@))
    } else if udp.session_timeout_secs > 3600 {
        Some(config_error("UDP session_timeout_secs cannot exceed 1 hour"@))
    } else {
        None
    }
}

/// The error for a packet that did not reach its upstream.
pub open spec fn send_error(outcome: SendOutcome, name: Seq<char>) -> Option<ErrorView> {
    match outcome {
        SendOutcome::Sent(_) => None,
        SendOutcome::Failed(d) => Some(
            connection_failed("Failed to send to upstream '"@ + name + "': "@ + d@),
        ),
        SendOutcome::TimedOut => Some(
            ErrorView::Network {
                message: "Timeout sending to upstream '"@ + name + "'"@,
                kind: NetworkErrorKind::Timeout,
            },
        ),
    }
}

// ---------------------------------------------------------------------------------------------
// The proxy
// ---------------------------------------------------------------------------------------------

impl UdpProxy {
    /// The sessions by client.
    pub open spec fn clients(self) -> Map<AddressKey, UdpSession> {
        session_contents(self.sessions)
    }

    /// Whether the metrics count exactly the sessions that there are.
    pub open spec fn counts_sessions(self) -> bool {
        self.clients().dom().finite() && self.metrics.sessions_active == self.clients().dom().len()
    }

    /// Create a new UDP proxy instance.
    pub fn new() -> (result: Self)
        ensures
            result.clients() == Map::<AddressKey, UdpSession>::empty(),
            result.metrics == UdpProxyMetrics::zero(),
            result.counts_sessions(),
    {
        let result = UdpProxy {
            sessions: sessions_new(),
            metrics: UdpProxyMetrics {
                packets_total: 0,
                sessions_active: 0,
                bytes_sent: 0,
                bytes_received: 0,
                sessions_created: 0,
                sessions_expired: 0,
            },
        };
        assert(result.clients() =~= Map::<AddressKey, UdpSession>::empty());
        result
    }

    /// The type of this proxy.
    pub fn proxy_type(&self) -> (result: ProxyType)
        ensures
            result == ProxyType::Udp,
    {
        ProxyType::Udp
    }

    /// A packet came in.
    pub fn begin_packet(&mut self)
        ensures
            final(self).sessions == old(self).sessions,
            final(self).metrics == (UdpProxyMetrics {
                packets_total: routing::one_more(old(self).metrics.packets_total),
                ..old(self).metrics
            }),
    {
        self.metrics.packets_total = self.metrics.packets_total.wrapping_add(1);
    }

    /// The session of a client, where it has one that has not expired. One that has is removed.
    pub fn existing_session(&mut self, client: AddressId, config: &UdpProxyConfig, now: Instant) -> (
    result: Option<UdpSession>)
        ensures
            ({
                let key = key_of(client);
                let clients = old(self).clients();
                if !clients.contains_key(key) {
                    *final(self) == *old(self) && result is None
                } else if expired(clients[key], config.session_timeout_secs, now) {
                    final(self).clients() == clients.remove(key) && final(self).metrics == old(self).metrics.one_expired() && result is None
                } else {
                    *final(self) == *old(self) && result == Some(clients[key])
                }
            }),
            result is Some <==> old(self).clients().contains_key(key_of(client)) && now.nanos
                <= old(self).clients()[key_of(client)].last_activity.nanos
                + config.session_timeout_secs * 1_000_000_000,
            result matches Some(session) ==> session == old(self).clients()[key_of(client)],
    {
        let key = address_key(client);
        match sessions_get(&self.sessions, key) {
            Some(session) => {
                let timeout = Duration::from_secs(config.session_timeout_secs);
                if !session.is_expired(timeout, now) {
                    return Some(session);
                }
                let _ = sessions_remove(&mut self.sessions, key);
                self.metrics.expire();
                None
            },
            None => None,
        }
    }

    /// The upstream that was selected for a client, if any was.
    pub fn selected(upstream: Option<usize>) -> (result: Result<usize>)
        ensures
            match upstream {
                Some(i) => result == Ok::<usize, Error>(i),
                None => fails(result, no_upstream("udp"@)),
            },
    {
        match upstream {
            Some(i) => Ok(i),
            None => Err(Error::proxy("No healthy upstream available", "udp", "unknown")),
        }
    }

    /// The error for a socket towards an upstream that could not be made.
    pub fn socket_failure(description: &str) -> (result: Error)
        ensures
            result@ == connection_failed("Failed to create upstream socket: "@ + description@),
    {
        let message = text::cat2("Failed to create upstream socket: ", description);
        Error::network(message.as_str(), NetworkErrorKind::ConnectionFailed)
    }

    /// The error for a socket that could not be connected to its upstream.
    pub fn connect_failure(description: &str) -> (result: Error)
        ensures
            result@ == connection_failed("Failed to connect to upstream: "@ + description@),
    {
        let message = text::cat2("Failed to connect to upstream: ", description);
        Error::network(message.as_str(), NetworkErrorKind::ConnectionFailed)
    }

    /// The error for a listen address that could not be bound.
    pub fn bind_failure(address: &str, description: &str) -> (result: Error)
        ensures
            result@ == connection_failed(
                "Failed to bind UDP socket to "@ + address@ + ": "@ + description@,
            ),
    {
        let message = text::cat4("Failed to bind UDP socket to ", address, ": ", description);
        Error::network(message.as_str(), NetworkErrorKind::ConnectionFailed)
    }

    /// Opens a session for a client.
    pub fn open_session(
        &mut self,
        client: AddressId,
        upstream: usize,
        socket: u64,
        now: Instant,
    ) -> (result: UdpSession)
        ensures
            result == opened(upstream, socket, now),
            final(self).clients() == old(self).clients().insert(key_of(client), result),
            final(self).metrics == old(self).metrics.one_opened(),
    {
        let session = UdpSession::new(upstream, socket, now);
        sessions_insert(&mut self.sessions, address_key(client), session);
        self.metrics.sessions_created = self.metrics.sessions_created.wrapping_add(1);
        self.metrics.sessions_active = self.metrics.sessions_active.wrapping_add(1);
        session
    }

    /// Marks the session of a client as active.
    pub fn touch_session(&mut self, client: AddressId, now: Instant)
        ensures
            final(self).metrics == old(self).metrics,
            ({
                let key = key_of(client);
                let clients = old(self).clients();
                final(self).clients() == (if clients.contains_key(key) {
                    clients.insert(key, UdpSession { last_activity: now, ..clients[key] })
                } else {
                    clients
                })
            }),
    {
        let key = address_key(client);
        if let Some(found) = sessions_get(&self.sessions, key) {
            let mut session = found;
            session.touch(now);
            sessions_insert(&mut self.sessions, key, session);
        }
    }

    /// How long sending to an upstream may take.
    pub fn send_timeout(upstream: &UpstreamInfo) -> (result: Duration)
        ensures
            result.total_nanos() == upstream.config.timeout_ms * 1_000_000,
    {
        utils::millis_to_duration(upstream.config.timeout_ms)
    }

    /// Takes note of what came of forwarding a client's packet to its upstream.
    pub fn forwarded(
        &mut self,
        router: &mut Router,
        client: AddressId,
        upstream: usize,
        outcome: SendOutcome,
        now: Instant,
    ) -> (result: Result<()>)
        requires
            old(router).wf(),
            upstream < old(router).upstreams().len(),
        ensures
            final(router).wf(),
            ({
                let key = key_of(client);
                let clients = old(self).clients();
                let info = old(router).upstreams()[upstream as int];
                &&& fails_by(result, send_error(outcome, info.config.name@))
                &&& match outcome {
                    SendOutcome::Sent(n) => {
                        &&& *final(router) == *old(router)
                        &&& final(self).metrics == (UdpProxyMetrics {
                            bytes_sent: wrapped(old(self).metrics.bytes_sent, n as u64),
                            ..old(self).metrics
                        })
                        &&& final(self).clients() == (if clients.contains_key(key) {
                            clients.insert(
                                key,
                                UdpSession {
                                    bytes_sent: wrapped(clients[key].bytes_sent, n as u64),
                                    ..clients[key]
                                },
                            )
                        } else {
                            clients
                        })
                    },
                    _ => {
                        &&& *final(self) == *old(self)
                        &&& final(router).upstreams() == old(router).upstreams().update(
                            upstream as int,
                            info.with_stats(
                                recorded(info.stats, false, Duration { secs: 0, nanos: 0 }, now),
                            ),
                        )
                        &&& final(router).strategy() == old(router).strategy()
                        &&& final(router).counter() == old(router).counter()
                        &&& final(router).points() == old(router).points()
                    },
                }
            }),
    {
        let name = router.get_upstreams()[upstream].config.name.clone();
        match outcome {
            SendOutcome::Sent(n) => {
                let key = address_key(client);
                if let Some(found) = sessions_get(&self.sessions, key) {
                    let mut session = found;
                    session.record_bytes_sent(n);
                    sessions_insert(&mut self.sessions, key, session);
                }
                self.metrics.bytes_sent = self.metrics.bytes_sent.wrapping_add(n as u64);
                Ok(())
            },
            SendOutcome::Failed(d) => {
                let stats = router.stats_mut(upstream);
                stats.record_failure(now);
                let message = text::cat4(
                    "Failed to send to upstream '",
                    name.as_str(),
                    "': ",
                    d.as_str(),
                );
                Err(Error::network(message.as_str(), NetworkErrorKind::ConnectionFailed))
            },
            SendOutcome::TimedOut => {
                let stats = router.stats_mut(upstream);
                stats.record_failure(now);
                let message = text::cat3("Timeout sending to upstream '", name.as_str(), "'");
                Err(Error::network(message.as_str(), NetworkErrorKind::Timeout))
            },
        }
    }

    /// Counts bytes that came from the upstream of a client's session.
    pub fn received(&mut self, client: AddressId, bytes: usize)
        ensures
            final(self).metrics == (UdpProxyMetrics {
                bytes_received: wrapped(old(self).metrics.bytes_received, bytes as u64),
                ..old(self).metrics
            }),
            ({
                let key = key_of(client);
                let clients = old(self).clients();
                final(self).clients() == (if clients.contains_key(key) {
                    clients.insert(
                        key,
                        UdpSession {
                            bytes_received: wrapped(clients[key].bytes_received, bytes as u64),
                            ..clients[key]
                        },
                    )
                } else {
                    clients
                })
            }),
    {
        let key = address_key(client);
        if let Some(found) = sessions_get(&self.sessions, key) {
            let mut session = found;
            session.record_bytes_received(bytes);
            sessions_insert(&mut self.sessions, key, session);
        }
        self.metrics.bytes_received = self.metrics.bytes_received.wrapping_add(bytes as u64);
    }

    /// Ends a session whose listener finds it expired, and says whether the listener is to stop.
    pub fn end_if_expired(
        &mut self,
        client: AddressId,
        session: &UdpSession,
        config: &UdpProxyConfig,
        now: Instant,
    ) -> (result: bool)
        ensures
            result == expired(*session, config.session_timeout_secs, now),
            result == (session.last_activity.nanos + config.session_timeout_secs * 1_000_000_000
                < now.nanos),
            if result {
                final(self).clients() == old(self).clients().remove(key_of(client)) && final(self).metrics == old(self).metrics.one_expired()
            } else {
                *final(self) == *old(self)
            },
    {
        let timeout = Duration::from_secs(config.session_timeout_secs);
        if session.is_expired(timeout, now) {
            let _ = sessions_remove(&mut self.sessions, address_key(client));
            self.metrics.expire();
            true
        } else {
            false
        }
    }

    /// Removes every session that has expired.
    pub fn clean_up_sessions(&mut self, config: &UdpProxyConfig, now: Instant)
        ensures
            ({
                let gone = expired_clients(
                    old(self).clients(),
                    config.session_timeout_secs,
                    now,
                );
                &&& old(self).clients().dom().finite()
                &&& final(self).clients() == old(self).clients().remove_keys(gone)
                &&& final(self).metrics == old(self).metrics.expired_times(gone.len())
            }),
            forall|key: AddressKey| #[trigger]
                final(self).clients().contains_key(key) <==> old(self).clients().contains_key(key)
                    && now.nanos <= old(self).clients()[key].last_activity.nanos
                    + config.session_timeout_secs * 1_000_000_000,
            forall|key: AddressKey| #[trigger]
                final(self).clients().contains_key(key) ==> final(self).clients()[key] == old(
                    self,
                ).clients()[key],
    {
        let ghost before = self.clients();
        let ghost metrics = self.metrics;
        let ghost secs = config.session_timeout_secs;
        let timeout = Duration::from_secs(config.session_timeout_secs);
        let entries = sessions_entries(&self.sessions);
        let ghost keys = entry_keys(entries@);
        let ghost mut gone: Set<AddressKey> = Set::empty();
        let mut i: usize = 0;
        assert(before.remove_keys(gone) =~= before);
        while i < entries.len()
            invariant
                i <= entries@.len(),
                secs == config.session_timeout_secs,
                timeout.total_nanos() == secs * 1_000_000_000,
                keys == entry_keys(entries@),
                keys.no_duplicates(),
                forall|key: AddressKey| #[trigger]
                    before.contains_key(key) <==> keys.contains(key),
                forall|k: int|
                    0 <= k < entries@.len() ==> before[(#[trigger] entries@[k]).0]
                        == entries@[k].1,
                gone.finite(),
                forall|key: AddressKey| #[trigger]
                    gone.contains(key) <==> (keys.take(i as int).contains(key) && expired(
                        before[key],
                        secs,
                        now,
                    )),
                self.clients() == before.remove_keys(gone),
                self.metrics == metrics.expired_times(gone.len()),
            decreases entries@.len() - i,
        {
            let (key, session) = entries[i];
            proof {
                assert(keys[i as int] == key);
                assert(before[entries@[i as int].0] == session);
                assert(keys.contains(key));
                assert(!keys.take(i as int).contains(key)) by {
                    if keys.take(i as int).contains(key) {
                        let k = keys.take(i as int).index_of(key);
                        assert(keys[k] == key);
                    }
                }
                assert forall|other: AddressKey|
                    keys.take(i + 1).contains(other) <==> (keys.take(i as int).contains(other)
                        || other == key) by {
                    if keys.take(i + 1).contains(other) {
                        let k = keys.take(i + 1).index_of(other);
                        if k < i {
                            assert(keys.take(i as int)[k] == other);
                        }
                    }
                    if keys.take(i as int).contains(other) {
                        let k = keys.take(i as int).index_of(other);
                        assert(keys.take(i + 1)[k] == other);
                    }
                    if other == key {
                        assert(keys.take(i + 1)[i as int] == other);
                    }
                }
            }
            if session.is_expired(timeout, now) {
                if sessions_remove(&mut self.sessions, key) {
                    self.metrics.expire();
                }
                proof {
                    let next = gone.insert(key);
                    assert(before.remove_keys(gone).contains_key(key));
                    assert(self.clients() =~= before.remove_keys(next));
                    assert(next.len() == gone.len() + 1);
                    gone = next;
                }
            }
            i += 1;
        }
        proof {
            assert(keys.take(i as int) =~= keys);
            let wanted = expired_clients(before, secs, now);
            assert(gone =~= wanted);
            assert(before.dom() =~= keys.to_set());
            vstd::seq_lib::seq_to_set_is_finite(keys);
        }
    }

    /// Forgets every session, at shutdown.
    pub fn clear_sessions(&mut self)
        ensures
            final(self).clients() == Map::<AddressKey, UdpSession>::empty(),
            final(self).metrics == old(self).metrics,
    {
        sessions_clear(&mut self.sessions);
        assert(self.clients() =~= Map::<AddressKey, UdpSession>::empty());
    }

    /// Validate proxy-specific configuration.
    pub fn validate_config(&self, config: &ProxyInstanceConfig) -> (result: Result<()>)
        ensures
            fails_by(result, udp_fault(*config)),
    {
        if config.proxy_type != ProxyType::Udp {
            return Err(Error::config("Invalid proxy type for UDP proxy"));
        }
        let udp = &config.config.udp;
        if udp.buffer_size == 0 {
            return Err(Error::config("UDP buffer_size must be greater than 0"));
        }
        if udp.buffer_size > 65536 {
            return Err(Error::config("UDP buffer_size cannot exceed 64KB"));
        }
        if udp.session_timeout_secs == 0 {
            return Err(Error::config("UDP session_timeout_secs must be greater than 0"));
        }
        if udp.session_timeout_secs > 3600 {
            return Err(Error::config("UDP session_timeout_secs cannot exceed 1 hour"));
        }
        Ok(())
    }

    /// What the counters say as metrics.
    pub open spec fn reported_metrics(self) -> ProxyMetrics {
        ProxyMetrics {
            total_requests: self.metrics.packets_total,
            active_connections: self.metrics.sessions_active as u64,
            bytes_sent: self.metrics.bytes_sent,
            bytes_received: self.metrics.bytes_received,
            request_rate: Ratio { numerator: 0, denominator: 1 },
            error_rate: if self.metrics.sessions_created > 0 {
                Ratio {
                    numerator: self.metrics.sessions_expired as u128,
                    denominator: self.metrics.sessions_created as u128,
                }
            } else {
                Ratio { numerator: 0, denominator: 1 }
            },
            avg_response_time_ms: Ratio { numerator: 0, denominator: 1 },
        }
    }

    /// Get proxy-specific metrics. The share of sessions that expired counts as errors.
    pub fn get_metrics(&self) -> (result: Result<ProxyMetrics>)
        ensures
            result matches Ok(m) && m == self.reported_metrics(),
    {
        let error_rate = if self.metrics.sessions_created > 0 {
            Ratio {
                numerator: self.metrics.sessions_expired as u128,
                denominator: self.metrics.sessions_created as u128,
            }
        } else {
            Ratio { numerator: 0, denominator: 1 }
        };
        Ok(
            ProxyMetrics {
                total_requests: self.metrics.packets_total,
                active_connections: self.metrics.sessions_active as u64,
                bytes_sent: self.metrics.bytes_sent,
                bytes_received: self.metrics.bytes_received,
                request_rate: Ratio { numerator: 0, denominator: 1 },
                error_rate,
                avg_response_time_ms: Ratio { numerator: 0, denominator: 1 },
            },
        )
    }

    /// Whether this is the health that the counters show.
    pub open spec fn has_health(self, health: ProxyHealth) -> bool {
        &&& health.status == (if self.metrics.sessions_active < 1000 {
            HealthState::Healthy
        } else if self.metrics.sessions_active < 5000 {
            HealthState::Unknown
        } else {
            HealthState::Unhealthy
        })
        &&& health.message@ == "Active sessions: "@ + text::decimal(
            self.metrics.sessions_active as nat,
        ) + ", Total packets: "@ + text::decimal(self.metrics.packets_total as nat)
    }

    /// Perform health check on the proxy itself.
    pub fn health_check(&self) -> (result: Result<ProxyHealth>)
        ensures
            result matches Ok(h) && self.has_health(h),
    {
        let active: usize = self.metrics.sessions_active;
        let total: u64 = self.metrics.packets_total;
        let status = if active < 1000 {
            HealthState::Healthy
        } else if active >= 5000 {
            HealthState::Unhealthy
        } else {
            HealthState::Unknown
        };
        let message = text::cat4(
            "Active sessions: ",
            text::number(active as u64).as_str(),
            ", Total packets: ",
            text::number(total).as_str(),
        );
        Ok(ProxyHealth { status, message })
    }
}

/// Sessions that were opened are active or expired, and stay so when one more is opened or one of the
/// active ones expires. So no more expire than were opened, and an error rate lies between zero and
/// one.
pub proof fn law_sessions_add_up(metrics: UdpProxyMetrics)
    requires
        metrics.sessions_active + metrics.sessions_expired == metrics.sessions_created,
    ensures
        metrics.sessions_expired <= metrics.sessions_created,
        ({
            let next = metrics.one_opened();
            metrics.sessions_created < u64::MAX && metrics.sessions_active < usize::MAX
                ==> next.sessions_active + next.sessions_expired == next.sessions_created
        }),
        ({
            let next = metrics.one_expired();
            metrics.sessions_active > 0 ==> next.sessions_active + next.sessions_expired
                == next.sessions_created
        }),
{
}

/// The metrics go on counting exactly the sessions when a client without a session gets one, when a
/// client's session expires, and when all expired sessions are removed.
pub proof fn law_sessions_are_counted(
    clients: Map<AddressKey, UdpSession>,
    metrics: UdpProxyMetrics,
    key: AddressKey,
    session: UdpSession,
    timeout_secs: u64,
    now: Instant,
)
    requires
        clients.dom().finite(),
        metrics.sessions_active == clients.dom().len(),
    ensures
        !clients.contains_key(key) && metrics.sessions_active < usize::MAX
            ==> metrics.one_opened().sessions_active == clients.insert(key, session).dom().len(),
        clients.contains_key(key) ==> metrics.one_expired().sessions_active == clients.remove(
            key,
        ).dom().len(),
        ({
            let gone = expired_clients(clients, timeout_secs, now);
            metrics.expired_times(gone.len()).sessions_active == clients.remove_keys(
                gone,
            ).dom().len()
        }),
{
    assert(clients.insert(key, session).dom() =~= clients.dom().insert(key));
    assert(clients.remove(key).dom() =~= clients.dom().remove(key));
    let gone = expired_clients(clients, timeout_secs, now);
    assert(clients.remove_keys(gone).dom() =~= clients.dom().difference(gone));
    lemma_removed(clients.dom(), gone, metrics);
}

proof fn lemma_removed(all: Set<AddressKey>, gone: Set<AddressKey>, metrics: UdpProxyMetrics)
    requires
        all.finite(),
        gone.subset_of(all),
        metrics.sessions_active == all.len(),
    ensures
        metrics.expired_times(gone.len()).sessions_active == all.difference(gone).len(),
    decreases gone.len(),
{
    vstd::set_lib::lemma_len_subset(gone, all);
    if gone.len() == 0 {
        assert(all.difference(gone) =~= all);
    } else {
        let x = gone.choose();
        let less = gone.remove(x);
        lemma_removed(all, less, metrics);
        assert(all.difference(gone) =~= all.difference(less).remove(x));
        assert(all.difference(less).contains(x));
    }
}

impl Default for UdpProxy {
    fn default() -> (result: Self)
        ensures
            result.clients() == Map::<AddressKey, UdpSession>::empty(),
            result.metrics == UdpProxyMetrics::zero(),
    {
        UdpProxy::new()
    }
}

/// An instance is served as UDP exactly where it is meant to be, has a buffer of up to 64 kilobytes,
/// and sessions that last up to an hour.
pub proof fn law_udp_settings_are_checked(config: ProxyInstanceConfig)
    ensures
        udp_fault(config) is None <==> config.proxy_type == ProxyType::Udp && 0
            < config.config.udp.buffer_size <= 64 * 1024 && 0
            < config.config.udp.session_timeout_secs <= 60 * 60,
{
}

/// A packet is an error of the network exactly where it was not sent, and a timeout exactly where its
/// time ran out.
pub proof fn law_send_outcomes_are_told_apart(outcome: SendOutcome, name: Seq<char>)
    ensures
        send_error(outcome, name) is None <==> outcome is Sent,
        (send_error(outcome, name) matches Some(ErrorView::Network { kind, .. }) && kind
            == NetworkErrorKind::Timeout) <==> outcome is TimedOut,
        (send_error(outcome, name) matches Some(ErrorView::Network { kind, .. }) && kind
            == NetworkErrorKind::ConnectionFailed) <==> outcome is Failed,
{
}

/// A session that is opened is one more that was created and one more that is active; one that
/// expires is one more that expired and one less that is active. Nothing else is counted.
pub proof fn law_sessions_open_and_expire(metrics: UdpProxyMetrics)
    ensures
        metrics.sessions_created < u64::MAX ==> metrics.one_opened().sessions_created
            == metrics.sessions_created + 1,
        metrics.sessions_active < usize::MAX ==> metrics.one_opened().sessions_active
            == metrics.sessions_active + 1,
        metrics.one_opened().sessions_expired == metrics.sessions_expired,
        metrics.sessions_expired < u64::MAX ==> metrics.one_expired().sessions_expired
            == metrics.sessions_expired + 1,
        metrics.sessions_active > 0 ==> metrics.one_expired().sessions_active
            == metrics.sessions_active - 1,
        metrics.one_expired().sessions_created == metrics.sessions_created,
        metrics.one_opened().packets_total == metrics.packets_total,
        metrics.one_expired().packets_total == metrics.packets_total,
        metrics.one_opened().bytes_sent == metrics.bytes_sent,
        metrics.one_expired().bytes_sent == metrics.bytes_sent,
        metrics.one_opened().bytes_received == metrics.bytes_received,
        metrics.one_expired().bytes_received == metrics.bytes_received,
{
}

/// A session that has just been opened is that of its upstream and socket, has carried nothing, and
/// lasts for as long as the timeout says.
pub proof fn law_opened_sessions_are_new(upstream: usize, socket: u64, now: Instant, timeout: u64)
    ensures
        opened(upstream, socket, now).upstream == upstream,
        opened(upstream, socket, now).upstream_socket == socket,
        opened(upstream, socket, now).bytes_sent == 0,
        opened(upstream, socket, now).bytes_received == 0,
        opened(upstream, socket, now).created_at == now,
        !expired(opened(upstream, socket, now), timeout, now),
{
}

/// A proxy's metrics are its counters, and its error rate is the share of sessions that expired. Up to
/// 1000 sessions it is healthy, from 5000 on it is not, and between them it is not known.
pub proof fn law_udp_metrics_report_the_counters(proxy: UdpProxy, health: ProxyHealth)
    requires
        proxy.has_health(health),
    ensures
        ({
            let m = proxy.reported_metrics();
            &&& m.total_requests == proxy.metrics.packets_total
            &&& m.active_connections == proxy.metrics.sessions_active
            &&& m.bytes_sent == proxy.metrics.bytes_sent
            &&& m.bytes_received == proxy.metrics.bytes_received
            &&& m.error_rate.denominator > 0
            &&& proxy.metrics.sessions_created > 0 ==> m.error_rate.numerator
                * proxy.metrics.sessions_created == m.error_rate.denominator
                * proxy.metrics.sessions_expired
            &&& proxy.metrics.sessions_created == 0 ==> m.error_rate.numerator == 0
            &&& m.request_rate.numerator == 0 && m.request_rate.denominator > 0
            &&& m.avg_response_time_ms.numerator == 0 && m.avg_response_time_ms.denominator > 0
        }),
        health.status == HealthState::Healthy <==> proxy.metrics.sessions_active < 1000,
        health.status == HealthState::Unhealthy <==> proxy.metrics.sessions_active >= 5000,
{
    let rate = proxy.reported_metrics().error_rate;
    let a = proxy.metrics.sessions_created as int;
    let b = proxy.metrics.sessions_expired as int;
    if a > 0 {
        assert(rate.numerator * a == rate.denominator * b) by (nonlinear_arith)
            requires
                rate.numerator == b,
                rate.denominator == a,
        ;
    }
}

} // verus!
