//! A TCP proxy for the first route, with a cache of idle connections.
use vstd::prelude::*;

use crate::dynamic_config::ProxyConfig;
use crate::proxies::tcp::{
    cache_contents, cache_new, clean_connections, cleaned, is_taken, take_connection,
    ConnectionCache, ConnectionPlan, Idle,
};
use crate::proxies::{extract_host_port, host_port, io_fails, IoFailure, IoFailureKind};
use crate::time::{Duration, Instant};

verus! {

broadcast use vstd::string::group_string_axioms;

/// TCP proxy for the first route.
pub struct TcpProxyServer {
    pub connection_cache: ConnectionCache,
    pub max_idle_time: Duration,
    pub pooled_connections: bool,
}

/// The two sides of a connection.
#[derive(Debug, Clone, Copy, PartialEq, Eq, Structural)]
pub enum Side {
    Client,
    Server,
}

/// What happened while data was carried.
#[derive(Debug, Clone, Copy, PartialEq, Eq, Structural)]
pub enum RelayEvent {
    /// So many bytes came from a side; none at the end of its data
    Read(Side, usize),
    ReadFailed(Side),
    ReadTimedOut(Side),
    /// What was read was written to a side
    Written(Side),
    WriteFailed(Side),
}

/// What is done next.
#[derive(Debug, Clone, Copy, PartialEq, Eq, Structural)]
pub enum RelayStep {
    ReadFrom(Side),
    /// Write so many of the bytes that were read to a side
    WriteTo(Side, usize),
    Stop,
    /// Stop, and count a timeout
    StopTimedOut,
}

impl Side {
    /// The side across.
    pub open spec fn across(self) -> Side {
        match self {
            Side::Client => Side::Server,
            Side::Server => Side::Client,
        }
    }

    fn other(self) -> (result: Side)
        ensures
            result == self.across(),
    {
        match self {
            Side::Client => Side::Server,
            Side::Server => Side::Client,
        }
    }
}

/// What follows what happened: what came from one side goes to the other, and then it is that other
/// side's turn to send.
pub open spec fn relay_step(event: RelayEvent) -> RelayStep {
    match event {
        RelayEvent::Read(side, n) => if n == 0 {
            RelayStep::Stop
        } else {
            RelayStep::WriteTo(side.across(), n)
        },
        RelayEvent::ReadTimedOut(_) => RelayStep::StopTimedOut,
        RelayEvent::Written(side) => RelayStep::ReadFrom(side),
        RelayEvent::ReadFailed(_) | RelayEvent::WriteFailed(_) => RelayStep::Stop,
    }
}

/// Whether an event can follow a step.
pub open spec fn follows(step: RelayStep, event: RelayEvent) -> bool {
    match step {
        RelayStep::ReadFrom(s) => match event {
            RelayEvent::Read(t, _) => s == t,
            RelayEvent::ReadFailed(t) => s == t,
            RelayEvent::ReadTimedOut(t) => s == t,
            _ => false,
        },
        RelayStep::WriteTo(s, _) => match event {
            RelayEvent::Written(t) => s == t,
            RelayEvent::WriteFailed(t) => s == t,
            _ => false,
        },
        RelayStep::Stop | RelayStep::StopTimedOut => false,
    }
}

/// The sides take turns: once data of one side was passed on, the next data is that of the other.
pub proof fn law_sides_take_turns(read: RelayEvent, written: RelayEvent, next: RelayEvent)
    requires
        read is Read,
        follows(relay_step(read), written),
        follows(relay_step(written), next),
        next is Read,
    ensures
        next->Read_0 == read->Read_0.across(),
{
}

impl TcpProxyServer {
    /// The idle connections by target.
    pub open spec fn cached(self) -> Map<Seq<char>, Seq<Idle>> {
        cache_contents(self.connection_cache)
    }

    pub fn new(config: &ProxyConfig) -> (result: Self)
        ensures
            result.cached() == Map::<Seq<char>, Seq<Idle>>::empty(),
            result.max_idle_time.total_nanos() == config.tcp_proxy.max_idle_time_secs
                * 1_000_000_000,
            result.pooled_connections,
    {
        let result = TcpProxyServer {
            connection_cache: cache_new(),
            max_idle_time: Duration::from_secs(config.tcp_proxy.max_idle_time_secs),
            pooled_connections: true,
        };
        assert(result.cached() =~= Map::<Seq<char>, Seq<Idle>>::empty());
        result
    }

    /// How to serve a client: through the first route.
    pub fn handle_connection(&mut self, config: &ProxyConfig, now: Instant) -> (result:
        std::result::Result<ConnectionPlan, IoFailure>)
        ensures
            final(self).max_idle_time == old(self).max_idle_time,
            final(self).pooled_connections == old(self).pooled_connections,
            if config.routes.entries@.len() == 0 {
                &&& io_fails(result, IoFailureKind::NotFound, "No routes configured"@)
                &&& final(self).cached() == old(self).cached()
            } else {
                let route = config.routes.entries@[0].1;
                let target = host_port(route.upstream@);
                &&& result matches Ok(plan)
                &&& plan.target@ == target
                &&& plan.timeout.total_nanos() == (match route.timeout_ms {
                    Some(t) => t,
                    None => 5000,
                }) * 1_000_000
                &&& if old(self).pooled_connections {
                    is_taken(
                        old(self).cached(),
                        final(self).cached(),
                        target,
                        old(self).max_idle_time.total_nanos(),
                        now,
                        (plan.reuse, plan.expired),
                    )
                } else {
                    &&& plan.reuse is None
                    &&& plan.expired@.len() == 0
                    &&& final(self).cached() == old(self).cached()
                }
            },
    {
        if config.routes.entries.len() == 0 {
            return Err(
                IoFailure {
                    kind: IoFailureKind::NotFound,
                    message: "No routes configured".to_string(),
                },
            );
        }
        let route = &config.routes.entries[0].1;
        let target = extract_host_port(route.upstream.as_str());
        let timeout = Duration::from_millis(
            match route.timeout_ms {
                Some(t) => t,
                None => 5000,
            },
        );
        if self.pooled_connections {
            let (reuse, expired) = self.get_or_create_connection(target.as_str(), now);
            Ok(ConnectionPlan { target, reuse, expired, timeout })
        } else {
            Ok(ConnectionPlan { target, reuse: None, expired: Vec::new(), timeout })
        }
    }

    /// A cached connection to a target, if one can still be used, and those that were too old.
    pub fn get_or_create_connection(&mut self, target: &str, now: Instant) -> (result: (
        Option<u64>,
        Vec<u64>,
    ))
        ensures
            final(self).max_idle_time == old(self).max_idle_time,
            final(self).pooled_connections == old(self).pooled_connections,
            is_taken(
                old(self).cached(),
                final(self).cached(),
                target@,
                old(self).max_idle_time.total_nanos(),
                now,
                result,
            ),
    {
        take_connection(&mut self.connection_cache, target, &self.max_idle_time, now)
    }

    /// Forgets every connection that has been idle for too long.
    pub fn clean_idle_connections(&mut self, now: Instant)
        ensures
            final(self).max_idle_time == old(self).max_idle_time,
            final(self).pooled_connections == old(self).pooled_connections,
            final(self).cached() == cleaned(
                old(self).cached(),
                old(self).max_idle_time.total_nanos(),
                now,
            ),
    {
        clean_connections(&mut self.connection_cache, &self.max_idle_time, now);
    }

    /// What follows what happened while data was carried.
    pub fn relay(event: RelayEvent) -> (result: RelayStep)
        ensures
            result == relay_step(event),
    {
        match event {
            RelayEvent::Read(side, n) => if n == 0 {
                RelayStep::Stop
            } else {
                RelayStep::WriteTo(side.other(), n)
            },
            RelayEvent::ReadTimedOut(_) => RelayStep::StopTimedOut,
            RelayEvent::Written(side) => RelayStep::ReadFrom(side),
            _ => RelayStep::Stop,
        }
    }
}

/// All that is read from a side goes to the other side, and it ends where a side has no more, fails or
/// takes too long. Only the last counts as a timeout.
pub proof fn law_everything_is_passed_on(side: Side, n: usize)
    requires
        n > 0,
    ensures
        relay_step(RelayEvent::Read(side, n)) == RelayStep::WriteTo(side.across(), n),
        side.across() != side,
        side.across().across() == side,
        relay_step(RelayEvent::Written(side)) == RelayStep::ReadFrom(side),
        relay_step(RelayEvent::Read(side, 0)) == RelayStep::Stop,
        relay_step(RelayEvent::ReadFailed(side)) == RelayStep::Stop,
        relay_step(RelayEvent::WriteFailed(side)) == RelayStep::Stop,
        relay_step(RelayEvent::ReadTimedOut(side)) == RelayStep::StopTimedOut,
{
}

} // verus!
