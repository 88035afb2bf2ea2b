//! UDP for named hosts: every client keeps the destination that it was first given.
use vstd::prelude::*;

use crate::address::AddressId;
use crate::proxies::{
    extract_host_port, first_ranked, host_port, io_fails, is_first_ranked, HostConfig, IoFailure,
    IoFailureKind,
};
use crate::proxy::udp::{address_key, key_of, AddressKey};
use crate::text;
use crate::time::Duration;

verus! {

broadcast use vstd::string::group_string_axioms;

/// The largest datagram that is received.
pub const MAX_DATAGRAM_SIZE: usize = 65507;

/// Destinations by client.
pub type DestinationMap = dashmap::DashMap<
    (u8, u128, u32, u32, u16),
    String,
    std::collections::hash_map::RandomState,
>;

/// What a `dashmap` map from clients to destinations holds.
pub uninterp spec fn destination_contents(
    m: dashmap::DashMap<
        (u8, u128, u32, u32, u16),
        String,
        std::collections::hash_map::RandomState,
    >,
) -> Map<(u8, u128, u32, u32, u16), Seq<char>>;

/// `DashMap::new` makes a map without entries.
#[verifier::external_body]
pub(crate) fn destinations_new() -> (result: DestinationMap)
    ensures
        destination_contents(result).dom() == Set::<(u8, u128, u32, u32, u16)>::empty(),
{
    dashmap::DashMap::new()
}

/// `DashMap::get` looks a client up; the destination is copied out of the map.
#[verifier::external_body]
pub(crate) fn destinations_get(m: &DestinationMap, key: AddressKey) -> (result: Option<String>)
    ensures
        match result {
            Some(d) => destination_contents(*m).contains_key(key) && d@ == destination_contents(
                *m,
            )[key],
            None => !destination_contents(*m).contains_key(key),
        },
{
    m.get(&key).map(|entry| entry.value().clone())
}

/// `DashMap::insert` gives the client this destination and leaves the other clients alone.
#[verifier::external_body]
pub(crate) fn destinations_insert(m: &mut DestinationMap, key: AddressKey, destination: String)
    ensures
        destination_contents(*final(m)) == destination_contents(*old(m)).insert(
            key,
            destination@,
        ),
{
    m.insert(key, destination);
}

/// UDP proxy for named hosts.
pub struct UdpProxy {
    pub hosts: Vec<HostConfig>,
    pub destination_map: DestinationMap,
}

/// Where a client's datagram goes, and how long sending it and waiting for an answer may take.
#[derive(Debug)]
pub struct DatagramPlan {
    pub destination: String,
    pub timeout: Duration,
}

/// What came of sending a datagram.
#[derive(Debug)]
pub enum ForwardOutcome {
    Sent,
    /// A failure, with its description
    Failed(String),
    TimedOut,
}

/// What came of waiting for an answer, or of passing it on.
#[derive(Debug, Clone, Copy, PartialEq, Eq, Structural)]
pub enum AnswerEvent {
    /// An answer of this size
    Received(usize),
    Failed,
    TimedOut,
}

/// What came of waiting for a datagram.
#[derive(Debug, Clone, Copy, PartialEq, Eq, Structural)]
pub enum ReceiveEvent {
    /// A datagram of this size
    Received(usize),
    Failed,
    TimedOut,
}

/// What to do with a datagram that was waited for.
#[derive(Debug, Clone, Copy, PartialEq, Eq, Structural)]
pub enum ReceiveStep {
    /// Handle these many bytes
    Handle(usize),
    /// Wait for the next
    Wait,
}

/// The counters that the proxy keeps.
#[derive(Debug, Clone, Copy, PartialEq, Eq, Structural)]
pub enum UdpCounter {
    DatagramReceived,
    DatagramForwarded,
    ResponseSent,
    Timeout,
    Error,
}

/// The name of a counter.
pub open spec fn counter_text(counter: UdpCounter) -> Seq<char> {
    match counter {
        UdpCounter::DatagramReceived => "udp_proxy.datagram.received"@,
        UdpCounter::DatagramForwarded => "udp_proxy.datagram.forwarded"@,
        UdpCounter::ResponseSent => "udp_proxy.datagram.response_sent"@,
        UdpCounter::Timeout => "udp_proxy.timeout"@,
        UdpCounter::Error => "udp_proxy.error"@,
    }
}

impl UdpCounter {
    /// The name of the counter.
    pub fn name(&self) -> (result: String)
        ensures
            result@ == counter_text(*self),
    {
        match self {
            UdpCounter::DatagramReceived => "udp_proxy.datagram.received".to_string(),
            UdpCounter::DatagramForwarded => "udp_proxy.datagram.forwarded".to_string(),
            UdpCounter::ResponseSent => "udp_proxy.datagram.response_sent".to_string(),
            UdpCounter::Timeout => "udp_proxy.timeout".to_string(),
            UdpCounter::Error => "udp_proxy.error".to_string(),
        }
    }
}

/// The first host, at or behind `i`, that stands for a destination; the number of hosts where none
/// does.
pub open spec fn host_for(hosts: Seq<HostConfig>, destination: Seq<char>, i: int) -> int
    decreases hosts.len() - i,
{
    if i < 0 || i >= hosts.len() {
        hosts.len() as int
    } else if host_port(hosts[i].upstream@) == destination {
        i
    } else {
        host_for(hosts, destination, i + 1)
    }
}

/// `choice` is the host of a client: the one that stands for the destination that it was given, or
/// else the first of the highest priority.
pub open spec fn is_choice(
    hosts: Seq<HostConfig>,
    destinations: Map<AddressKey, Seq<char>>,
    client: AddressKey,
    choice: Option<int>,
) -> bool {
    if destinations.contains_key(client) {
        let i = host_for(hosts, destinations[client], 0);
        choice == (if i < hosts.len() {
            Some(i)
        } else {
            None
        })
    } else {
        match choice {
            Some(i) => is_first_ranked(hosts, i),
            None => hosts.len() == 0,
        }
    }
}

/// A client whose host was just chosen gets a host with the same destination the next time, however
/// the priorities change, as long as one with that destination is there.
pub proof fn law_clients_keep_their_destination(
    hosts: Seq<HostConfig>,
    later: Seq<HostConfig>,
    destinations: Map<AddressKey, Seq<char>>,
    client: AddressKey,
    i: int,
    again: Option<int>,
    k: int,
)
    requires
        !destinations.contains_key(client),
        is_choice(hosts, destinations, client, Some(i)),
        0 <= k < later.len(),
        host_port(later[k].upstream@) == host_port(hosts[i].upstream@),
        is_choice(
            later,
            destinations.insert(client, host_port(hosts[i].upstream@)),
            client,
            again,
        ),
    ensures
        again matches Some(j) && 0 <= j < later.len() && host_port(later[j].upstream@) == host_port(
            hosts[i].upstream@,
        ),
{
    lemma_host_for(later, host_port(hosts[i].upstream@), 0, k);
}

proof fn lemma_host_for(hosts: Seq<HostConfig>, destination: Seq<char>, i: int, k: int)
    requires
        0 <= i <= k < hosts.len(),
        host_port(hosts[k].upstream@) == destination,
    ensures
        i <= host_for(hosts, destination, i) <= k,
        host_port(hosts[host_for(hosts, destination, i)].upstream@) == destination,
    decreases hosts.len() - i,
{
    if host_port(hosts[i].upstream@) != destination {
        lemma_host_for(hosts, destination, i + 1, k);
    }
}

impl UdpProxy {
    pub fn new() -> (result: Self)
        ensures
            result.hosts@.len() == 0,
            result.destinations() == Map::<AddressKey, Seq<char>>::empty(),
    {
        let result = UdpProxy { hosts: Vec::new(), destination_map: destinations_new() };
        assert(result.destinations() =~= Map::<AddressKey, Seq<char>>::empty());
        result
    }

    /// The destinations by client.
    pub open spec fn destinations(self) -> Map<AddressKey, Seq<char>> {
        destination_contents(self.destination_map)
    }

    /// The host of a client, whose destination is kept from then on.
    pub fn select_host(&mut self, client: AddressId) -> (result: Option<usize>)
        ensures
            final(self).hosts == old(self).hosts,
            is_choice(
                old(self).hosts@,
                old(self).destinations(),
                key_of(client),
                crate::routing::place(result),
            ),
            result matches Some(i) ==> i < old(self).hosts@.len(),
            final(self).destinations() == (if old(self).destinations().contains_key(key_of(client)) {
                old(self).destinations()
            } else {
                match result {
                    Some(i) => old(self).destinations().insert(
                        key_of(client),
                        host_port(old(self).hosts@[i as int].upstream@),
                    ),
                    None => old(self).destinations(),
                }
            }),
    {
        let key = address_key(client);
        match destinations_get(&self.destination_map, key) {
            Some(destination) => {
                let mut i: usize = 0;
                while i < self.hosts.len()
                    invariant
                        i <= self.hosts@.len(),
                        host_for(self.hosts@, destination@, 0) == host_for(
                            self.hosts@,
                            destination@,
                            i as int,
                        ),
                        *self == *old(self),
                        self.destinations().contains_key(key),
                        self.destinations()[key] == destination@,
                        key == key_of(client),
                    decreases self.hosts@.len() - i,
                {
                    let target = extract_host_port(self.hosts[i].upstream.as_str());
                    if text::eq(target.as_str(), destination.as_str()) {
                        return Some(i);
                    }
                    i += 1;
                }
                None
            },
            None => {
                let selected = first_ranked(&self.hosts);
                if let Some(i) = selected {
                    let target = extract_host_port(self.hosts[i].upstream.as_str());
                    destinations_insert(&mut self.destination_map, key, target);
                }
                selected
            },
        }
    }

    /// Where a client's datagram goes.
    pub fn handle_datagram(&mut self, client: AddressId) -> (result: std::result::Result<
        DatagramPlan,
        IoFailure,
    >)
        ensures
            final(self).hosts == old(self).hosts,
            exists|choice: Option<int>|
                #[trigger] is_choice(
                    old(self).hosts@,
                    old(self).destinations(),
                    key_of(client),
                    choice,
                ) && match choice {
                    None => io_fails(result, IoFailureKind::NotFound, "No hosts configured"@)
                        && final(self).destinations() == old(self).destinations(),
                    Some(i) => {
                        let host = old(self).hosts@[i];
                        &&& result matches Ok(plan) && plan.destination@ == host_port(
                            host.upstream@,
                        ) && plan.timeout.total_nanos() == (match host.timeout_ms {
                            Some(t) => t,
                            None => 5000,
                        }) * 1_000_000
                        &&& final(self).destinations() == (if old(self).destinations().contains_key(key_of(client)) {
                            old(self).destinations()
                        } else {
                            old(self).destinations().insert(
                                key_of(client),
                                host_port(host.upstream@),
                            )
                        })
                    },
                },
    {
        let selected = self.select_host(client);
        assert(is_choice(
            old(self).hosts@,
            old(self).destinations(),
            key_of(client),
            crate::routing::place(selected),
        ));
        match selected {
            Some(i) => {
                let destination = extract_host_port(self.hosts[i].upstream.as_str());
                let timeout = Duration::from_millis(
                    match self.hosts[i].timeout_ms {
                        Some(t) => t,
                        None => 5000,
                    },
                );
                Ok(DatagramPlan { destination, timeout })
            },
            None => Err(
                IoFailure {
                    kind: IoFailureKind::NotFound,
                    message: "No hosts configured".to_string(),
                },
            ),
        }
    }

    /// The failure for a destination that is no socket address.
    pub fn invalid_destination(description: &str) -> (result: IoFailure)
        ensures
            result.kind == IoFailureKind::InvalidInput,
            result.message@ == "Invalid destination address: "@ + description@,
    {
        IoFailure {
            kind: IoFailureKind::InvalidInput,
            message: text::cat2("Invalid destination address: ", description),
        }
    }

    /// What sending a datagram comes to, and what is counted.
    pub fn forwarded(outcome: ForwardOutcome) -> (result: (
        std::result::Result<(), IoFailure>,
        UdpCounter,
    ))
        ensures
            match outcome {
                ForwardOutcome::Sent => result.0 is Ok && result.1
                    == UdpCounter::DatagramForwarded,
                ForwardOutcome::Failed(d) => io_fails(result.0, IoFailureKind::System, d@)
                    && result.1 == UdpCounter::Error,
                ForwardOutcome::TimedOut => io_fails(
                    result.0,
                    IoFailureKind::TimedOut,
                    "Timed out forwarding UDP datagram"@,
                ) && result.1 == UdpCounter::Timeout,
            },
    {
        match outcome {
            ForwardOutcome::Sent => (Ok(()), UdpCounter::DatagramForwarded),
            ForwardOutcome::Failed(d) => (
                Err(IoFailure { kind: IoFailureKind::System, message: d }),
                UdpCounter::Error,
            ),
            ForwardOutcome::TimedOut => (
                Err(
                    IoFailure {
                        kind: IoFailureKind::TimedOut,
                        message: "Timed out forwarding UDP datagram".to_string(),
                    },
                ),
                UdpCounter::Timeout,
            ),
        }
    }

    /// The address on which an answer is waited for: any port of the address that the proxy listens
    /// on.
    pub fn response_address(unspecified: bool, local_ip: &str) -> (result: String)
        ensures
            result@ == (if unspecified {
                "0.0.0.0:0"@
            } else {
                local_ip@ + ":0"@
            }),
    {
        if unspecified {
            "0.0.0.0:0".to_string()
        } else {
            text::cat2(local_ip, ":0")
        }
    }

    /// How much of an answer is passed on to the client, if anything, and what is counted.
    pub fn answered(event: AnswerEvent) -> (result: (Option<usize>, Option<UdpCounter>))
        ensures
            result == (match event {
                AnswerEvent::Received(n) => (Some(n), None),
                AnswerEvent::Failed => (None, Some(UdpCounter::Error)),
                AnswerEvent::TimedOut => (None, Some(UdpCounter::Timeout)),
            }),
    {
        match event {
            AnswerEvent::Received(n) => (Some(n), None),
            AnswerEvent::Failed => (None, Some(UdpCounter::Error)),
            AnswerEvent::TimedOut => (None, Some(UdpCounter::Timeout)),
        }
    }

    /// What is counted for an answer that was, or was not, sent to its client.
    pub fn answer_sent(sent: bool) -> (result: UdpCounter)
        ensures
            result == (if sent {
                UdpCounter::ResponseSent
            } else {
                UdpCounter::Error
            }),
    {
        if sent {
            UdpCounter::ResponseSent
        } else {
            UdpCounter::Error
        }
    }

    /// How long a datagram is waited for.
    pub fn receive_timeout() -> (result: Duration)
        ensures
            result.total_nanos() == 5_000_000_000,
    {
        Duration::from_millis(5000)
    }

    /// What to do after waiting for a datagram, and what is counted.
    pub fn received(event: ReceiveEvent) -> (result: (ReceiveStep, UdpCounter))
        ensures
            result == (match event {
                ReceiveEvent::Received(n) => (
                    ReceiveStep::Handle(n),
                    UdpCounter::DatagramReceived,
                ),
                ReceiveEvent::Failed => (ReceiveStep::Wait, UdpCounter::Error),
                ReceiveEvent::TimedOut => (ReceiveStep::Wait, UdpCounter::Timeout),
            }),
    {
        match event {
            ReceiveEvent::Received(n) => (ReceiveStep::Handle(n), UdpCounter::DatagramReceived),
            ReceiveEvent::Failed => (ReceiveStep::Wait, UdpCounter::Error),
            ReceiveEvent::TimedOut => (ReceiveStep::Wait, UdpCounter::Timeout),
        }
    }
}

/// A client without a destination gets the first host of the highest priority, and none only where
/// there is no host.
pub proof fn law_new_clients_get_the_first_host(
    hosts: Seq<HostConfig>,
    destinations: Map<AddressKey, Seq<char>>,
    client: AddressKey,
    choice: Option<int>,
    j: int,
)
    requires
        !destinations.contains_key(client),
        is_choice(hosts, destinations, client, choice),
    ensures
        choice is None <==> hosts.len() == 0,
        choice matches Some(i) ==> 0 <= i < hosts.len() && (0 <= j < hosts.len()
            ==> hosts[j].rank() <= hosts[i].rank() && (hosts[j].rank() == hosts[i].rank() ==> i
            <= j)),
{
    if let Some(i) = choice {
        if 0 <= j < hosts.len() {
            crate::proxies::law_highest_priority_comes_first(hosts, i, j);
        }
    }
}

/// A client with a destination gets the first host that stands for it, and none where none does.
pub proof fn law_known_clients_get_their_host(
    hosts: Seq<HostConfig>,
    destinations: Map<AddressKey, Seq<char>>,
    client: AddressKey,
    choice: Option<int>,
    k: int,
)
    requires
        destinations.contains_key(client),
        is_choice(hosts, destinations, client, choice),
        0 <= k <= hosts.len(),
        forall|j: int|
            0 <= j < k ==> host_port((#[trigger] hosts[j]).upstream@) != destinations[client],
        k < hosts.len() ==> host_port(hosts[k].upstream@) == destinations[client],
    ensures
        k < hosts.len() ==> choice == Some(k),
        k == hosts.len() ==> choice is None,
{
    lemma_first_host_for(hosts, destinations[client], 0, k);
}

proof fn lemma_first_host_for(hosts: Seq<HostConfig>, destination: Seq<char>, i: int, k: int)
    requires
        0 <= i <= k <= hosts.len(),
        forall|j: int| i <= j < k ==> host_port((#[trigger] hosts[j]).upstream@) != destination,
        k < hosts.len() ==> host_port(hosts[k].upstream@) == destination,
    ensures
        host_for(hosts, destination, i) == k,
    decreases k - i,
{
    if i < k {
        assert(host_port(hosts[i].upstream@) != destination);
        lemma_first_host_for(hosts, destination, i + 1, k);
    }
}

} // verus!
