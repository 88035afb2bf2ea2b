//! A UDP proxy for the first UDP route: every client keeps the destination that it was first given.
use vstd::prelude::*;

use crate::address::AddressId;
use crate::dynamic_config::{ProxyConfig, RouteConfig};
use crate::proxies::udp::{
    destination_contents, destinations_get, destinations_insert, destinations_new, DatagramPlan,
    DestinationMap,
};
use crate::proxies::{extract_host_port, host_port, io_fails, IoFailure, IoFailureKind};
use crate::proxy::udp::{address_key, key_of, AddressKey};
use crate::text;
use crate::time::Duration;

verus! {

broadcast use vstd::string::group_string_axioms;

/// UDP proxy for the first UDP route.
pub struct UdpProxyServer {
    pub destination_map: DestinationMap,
}

/// The place of the first route, at or behind `i`, that is for UDP; the number of routes where there
/// is none.
pub open spec fn udp_route(routes: Seq<(String, RouteConfig)>, i: int) -> int
    decreases routes.len() - i,
{
    if i < 0 || i >= routes.len() {
        routes.len() as int
    } else if routes[i].1.is_udp == Some(true) {
        i
    } else {
        udp_route(routes, i + 1)
    }
}

/// The place of the first route, at or behind `i`, that leads to a destination; the number of routes
/// where none does.
pub open spec fn route_to(
    routes: Seq<(String, RouteConfig)>,
    destination: Seq<char>,
    i: int,
) -> int
    decreases routes.len() - i,
{
    if i < 0 || i >= routes.len() {
        routes.len() as int
    } else if host_port(routes[i].1.upstream@) == destination {
        i
    } else {
        route_to(routes, destination, i + 1)
    }
}

/// The destination of a client: the one it was given, or else that of the first UDP route.
pub open spec fn destination_of(
    config: ProxyConfig,
    destinations: Map<AddressKey, Seq<char>>,
    client: AddressKey,
) -> Option<Seq<char>> {
    let routes = config.routes.entries@;
    if destinations.contains_key(client) {
        Some(destinations[client])
    } else if udp_route(routes, 0) < routes.len() {
        Some(host_port(routes[udp_route(routes, 0)].1.upstream@))
    } else {
        None
    }
}

/// How many milliseconds a destination has: those of the first route that leads to it, or else those
/// for everything.
pub open spec fn timeout_of(config: ProxyConfig, destination: Seq<char>) -> u64 {
    let routes = config.routes.entries@;
    let i = route_to(routes, destination, 0);
    if i < routes.len() {
        match routes[i].1.timeout_ms {
            Some(t) => t,
            None => config.global_timeout_ms,
        }
    } else {
        config.global_timeout_ms
    }
}

/// Once a client was given a destination, it keeps it, however the routes change.
pub proof fn law_clients_keep_their_destination(
    config: ProxyConfig,
    changed: ProxyConfig,
    destinations: Map<AddressKey, Seq<char>>,
    client: AddressKey,
)
    requires
        destination_of(config, destinations, client) is Some,
    ensures
        ({
            let given = destination_of(config, destinations, client)->0;
            destination_of(changed, destinations.insert(client, given), client) == Some(given)
        }),
{
}

impl UdpProxyServer {
    /// The destinations by client.
    pub open spec fn destinations(self) -> Map<AddressKey, Seq<char>> {
        destination_contents(self.destination_map)
    }

    pub fn new() -> (result: Self)
        ensures
            result.destinations() == Map::<AddressKey, Seq<char>>::empty(),
    {
        let result = UdpProxyServer { destination_map: destinations_new() };
        assert(result.destinations() =~= Map::<AddressKey, Seq<char>>::empty());
        result
    }

    /// How long a datagram is waited for.
    pub fn receive_timeout(config: &ProxyConfig) -> (result: Duration)
        ensures
            result.wf(),
            result.total_nanos() == config.global_timeout_ms * 1_000_000,
    {
        Duration::from_millis(config.global_timeout_ms)
    }

    /// Where a client's datagram goes, which is kept from then on.
    pub fn handle_datagram(&mut self, config: &ProxyConfig, client: AddressId) -> (result:
        std::result::Result<DatagramPlan, IoFailure>)
        ensures
            match destination_of(*config, old(self).destinations(), key_of(client)) {
                Some(d) => {
                    &&& result matches Ok(plan)
                    &&& plan.destination@ == d
                    &&& plan.timeout.total_nanos() == timeout_of(*config, d) * 1_000_000
                    &&& final(self).destinations() == old(self).destinations().insert(
                        key_of(client),
                        d,
                    )
                },
                None => {
                    &&& io_fails(result, IoFailureKind::NotFound, "No UDP route configured"@)
                    &&& final(self).destinations() == old(self).destinations()
                },
            },
    {
        let key = address_key(client);
        let destination = match destinations_get(&self.destination_map, key) {
            Some(d) => {
                assert(self.destinations().insert(key, d@) =~= self.destinations());
                d
            },
            None => {
                let mut i: usize = 0;
                while i < config.routes.entries.len() && !is_udp(&config.routes.entries[i].1)
                    invariant
                        i <= config.routes.entries@.len(),
                        udp_route(config.routes.entries@, 0) == udp_route(
                            config.routes.entries@,
                            i as int,
                        ),
                    decreases config.routes.entries@.len() - i,
                {
                    i += 1;
                }
                if i == config.routes.entries.len() {
                    return Err(
                        IoFailure {
                            kind: IoFailureKind::NotFound,
                            message: "No UDP route configured".to_string(),
                        },
                    );
                }
                let d = extract_host_port(config.routes.entries[i].1.upstream.as_str());
                destinations_insert(&mut self.destination_map, key, d.clone());
                d
            },
        };
        let timeout = Duration::from_millis(find_timeout(config, destination.as_str()));
        Ok(DatagramPlan { destination, timeout })
    }
}

fn is_udp(route: &RouteConfig) -> (result: bool)
    ensures
        result == (route.is_udp == Some(true)),
{
    match route.is_udp {
        Some(b) => b,
        None => false,
    }
}

fn find_timeout(config: &ProxyConfig, destination: &str) -> (result: u64)
    ensures
        result == timeout_of(*config, destination@),
{
    let mut i: usize = 0;
    while i < config.routes.entries.len()
        invariant
            i <= config.routes.entries@.len(),
            route_to(config.routes.entries@, destination@, 0) == route_to(
                config.routes.entries@,
                destination@,
                i as int,
            ),
        decreases config.routes.entries@.len() - i,
    {
        let target = extract_host_port(config.routes.entries[i].1.upstream.as_str());
        if text::eq(target.as_str(), destination) {
            return match config.routes.entries[i].1.timeout_ms {
                Some(t) => t,
                None => config.global_timeout_ms,
            };
        }
        i += 1;
    }
    config.global_timeout_ms
}

/// A client without a destination gets that of the first UDP route, and none where there is no such
/// route.
pub proof fn law_new_clients_get_the_first_udp_route(
    config: ProxyConfig,
    destinations: Map<AddressKey, Seq<char>>,
    client: AddressKey,
    k: int,
)
    requires
        !destinations.contains_key(client),
        0 <= k <= config.routes.entries@.len(),
        forall|j: int|
            0 <= j < k ==> (#[trigger] config.routes.entries@[j]).1.is_udp != Some(true),
        k < config.routes.entries@.len() ==> config.routes.entries@[k].1.is_udp == Some(true),
    ensures
        k < config.routes.entries@.len() ==> destination_of(config, destinations, client) == Some(
            host_port(config.routes.entries@[k].1.upstream@),
        ),
        k == config.routes.entries@.len() ==> destination_of(config, destinations, client) is None,
{
    lemma_udp_route(config.routes.entries@, 0, k);
}

proof fn lemma_udp_route(routes: Seq<(String, RouteConfig)>, i: int, k: int)
    requires
        0 <= i <= k <= routes.len(),
        forall|j: int| i <= j < k ==> (#[trigger] routes[j]).1.is_udp != Some(true),
        k < routes.len() ==> routes[k].1.is_udp == Some(true),
    ensures
        udp_route(routes, i) == k,
    decreases k - i,
{
    if i < k {
        assert(routes[i].1.is_udp != Some(true));
        lemma_udp_route(routes, i + 1, k);
    }
}

/// A datagram has the time of the first route to its destination, or the time for everything where
/// that route names none or there is none.
pub proof fn law_datagrams_have_their_route_s_time(
    config: ProxyConfig,
    destination: Seq<char>,
    k: int,
)
    requires
        0 <= k <= config.routes.entries@.len(),
        forall|j: int|
            0 <= j < k ==> host_port((#[trigger] config.routes.entries@[j]).1.upstream@)
                != destination,
        k < config.routes.entries@.len() ==> host_port(config.routes.entries@[k].1.upstream@)
            == destination,
    ensures
        k < config.routes.entries@.len() && config.routes.entries@[k].1.timeout_ms is Some
            ==> Some(timeout_of(config, destination)) == config.routes.entries@[k].1.timeout_ms,
        k < config.routes.entries@.len() && config.routes.entries@[k].1.timeout_ms is None
            ==> timeout_of(config, destination) == config.global_timeout_ms,
        k == config.routes.entries@.len() ==> timeout_of(config, destination)
            == config.global_timeout_ms,
{
    lemma_route_to(config.routes.entries@, destination, 0, k);
}

proof fn lemma_route_to(
    routes: Seq<(String, RouteConfig)>,
    destination: Seq<char>,
    i: int,
    k: int,
)
    requires
        0 <= i <= k <= routes.len(),
        forall|j: int| i <= j < k ==> host_port((#[trigger] routes[j]).1.upstream@) != destination,
        k < routes.len() ==> host_port(routes[k].1.upstream@) == destination,
    ensures
        route_to(routes, destination, i) == k,
    decreases k - i,
{
    if i < k {
        assert(host_port(routes[i].1.upstream@) != destination);
        lemma_route_to(routes, destination, i + 1, k);
    }
}

} // verus!
