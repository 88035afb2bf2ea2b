//! TCP for named hosts: the host of highest priority, and a cache of idle connections.
use vstd::prelude::*;

use crate::proxies::{
    extract_host_port, first_ranked, host_port, io_fails, is_first_ranked, says, HostConfig,
    InstanceSettings, IoFailure, IoFailureKind,
};
use crate::text;
use crate::time::{nanos_between, Duration, Instant};

verus! {

broadcast use vstd::string::group_string_axioms;

/// An idle connection: the number by which it is known, and when it became idle, in nanoseconds.
pub type Idle = (u64, u64);

/// Idle connections by target.
pub type ConnectionCache = dashmap::DashMap<
    String,
    Vec<(u64, u64)>,
    std::collections::hash_map::RandomState,
>;

/// What a `dashmap` map from targets to idle connections holds.
pub uninterp spec fn cache_contents(
    m: dashmap::DashMap<String, Vec<(u64, u64)>, std::collections::hash_map::RandomState>,
) -> Map<Seq<char>, Seq<(u64, u64)>>;

/// `DashMap::new` makes a map without entries.
#[verifier::external_body]
pub(crate) fn cache_new() -> (result: ConnectionCache)
    ensures
        cache_contents(result).dom() == Set::<Seq<char>>::empty(),
{
    dashmap::DashMap::new()
}

/// `DashMap::get` looks a target up; its connections are copied out of the map.
#[verifier::external_body]
fn cache_get(m: &ConnectionCache, target: &str) -> (result: Option<Vec<(u64, u64)>>)
    ensures
        match result {
            Some(v) => cache_contents(*m).contains_key(target@) && v@ == cache_contents(
                *m,
            )[target@],
            None => !cache_contents(*m).contains_key(target@),
        },
{
    m.get(target).map(|entry| entry.value().clone())
}

/// `DashMap::insert` gives the target these connections and leaves the other targets alone.
#[verifier::external_body]
fn cache_insert(m: &mut ConnectionCache, target: String, connections: Vec<(u64, u64)>)
    ensures
        cache_contents(*final(m)) == cache_contents(*old(m)).insert(target@, connections@),
{
    m.insert(target, connections);
}

/// `DashMap::iter` visits every target once, in an order of its own.
#[verifier::external_body]
fn cache_targets(m: &ConnectionCache) -> (result: Vec<String>)
    ensures
        text::views(result@).no_duplicates(),
        forall|target: Seq<char>| #[trigger]
            cache_contents(*m).contains_key(target) <==> text::views(result@).contains(target),
{
    m.iter().map(|entry| entry.key().clone()).collect()
}

/// TCP proxy for named hosts.
pub struct TcpProxy {
    pub hosts: Vec<HostConfig>,
    pub connection_cache: ConnectionCache,
    pub max_idle_time: Duration,
    pub pooled_connections: bool,
}

/// How to serve a client: the target, the connection to use if there is one, the connections to
/// close, and how long either side may be silent.
#[derive(Debug)]
pub struct ConnectionPlan {
    pub target: String,
    pub reuse: Option<u64>,
    pub expired: Vec<u64>,
    pub timeout: Duration,
}

/// What came of waiting for data from one side.
#[derive(Debug, Clone, Copy, PartialEq, Eq, Structural)]
pub enum SideEvent {
    /// So many bytes; none at the end
    Read(usize),
    Failed,
    TimedOut,
}

/// What to do next with a client's connection.
#[derive(Debug, Clone, Copy, PartialEq, Eq, Structural)]
pub enum PumpStep {
    /// Pass these many bytes on to the other side
    Forward(usize),
    /// Stop
    Stop,
    /// Stop, and count a timeout
    StopTimedOut,
}

/// What is wrong with the settings of a TCP instance.
pub open spec fn settings_fault(settings: InstanceSettings) -> Option<Seq<char>> {
    match settings.max_idle_time_secs {
        Some(secs) => if secs > 3600 {
            Some("max_idle_time_secs cannot exceed 3600 seconds"@)
        } else {
            None
        },
        None => None,
    }
}

/// Whether an idle connection can still be used.
pub open spec fn fresh(c: Idle, max_idle: nat, now: Instant) -> bool {
    nanos_between(Instant { nanos: c.1 }, now) < max_idle
}

/// The place of the last connection that can still be used, or -1 where there is none.
pub open spec fn last_fresh(connections: Seq<Idle>, max_idle: nat, now: Instant) -> int
    decreases connections.len(),
{
    if connections.len() == 0 {
        -1
    } else if fresh(connections.last(), max_idle, now) {
        connections.len() - 1
    } else {
        last_fresh(connections.drop_last(), max_idle, now)
    }
}

/// The connections that can still be used.
pub open spec fn kept(connections: Seq<Idle>, max_idle: nat, now: Instant) -> Seq<Idle>
    decreases connections.len(),
{
    if connections.len() == 0 {
        connections
    } else if fresh(connections.last(), max_idle, now) {
        kept(connections.drop_last(), max_idle, now).push(connections.last())
    } else {
        kept(connections.drop_last(), max_idle, now)
    }
}

/// The numbers of connections, the last first.
pub open spec fn numbers_back(connections: Seq<Idle>) -> Seq<u64> {
    connections.map_values(|c: Idle| c.0).reverse()
}

proof fn lemma_last_fresh(connections: Seq<Idle>, max_idle: nat, now: Instant)
    ensures
        -1 <= last_fresh(connections, max_idle, now) < connections.len(),
        last_fresh(connections, max_idle, now) >= 0 ==> fresh(
            connections[last_fresh(connections, max_idle, now)],
            max_idle,
            now,
        ),
    decreases connections.len(),
{
    if connections.len() > 0 && !fresh(connections.last(), max_idle, now) {
        lemma_last_fresh(connections.drop_last(), max_idle, now);
    }
}

/// A connection that is reused has not been idle for too long.
pub proof fn law_reused_connections_are_fresh(connections: Seq<Idle>, max_idle: nat, now: Instant)
    requires
        last_fresh(connections, max_idle, now) >= 0,
    ensures
        fresh(connections[last_fresh(connections, max_idle, now)], max_idle, now),
{
    lemma_last_fresh(connections, max_idle, now);
}

/// Cleaning up leaves only connections that can still be used.
pub proof fn law_cleaning_keeps_only_fresh(connections: Seq<Idle>, max_idle: nat, now: Instant)
    ensures
        forall|i: int|
            0 <= i < kept(connections, max_idle, now).len() ==> fresh(
                #[trigger] kept(connections, max_idle, now)[i],
                max_idle,
                now,
            ),
        kept(connections, max_idle, now).len() <= connections.len(),
    decreases connections.len(),
{
    if connections.len() > 0 {
        law_cleaning_keeps_only_fresh(connections.drop_last(), max_idle, now);
    }
}

/// The idle connections to a target.
pub open spec fn idle_in(cached: Map<Seq<char>, Seq<Idle>>, target: Seq<char>) -> Seq<Idle> {
    if cached.contains_key(target) {
        cached[target]
    } else {
        Seq::empty()
    }
}

/// Whether this is what comes of taking a connection to a target out of a cache: the last one that
/// can still be used, with those behind it, the last first, to be closed.
pub open spec fn is_taken(
    before: Map<Seq<char>, Seq<Idle>>,
    after: Map<Seq<char>, Seq<Idle>>,
    target: Seq<char>,
    max_idle: nat,
    now: Instant,
    result: (Option<u64>, Vec<u64>),
) -> bool {
    let idle = idle_in(before, target);
    let at = last_fresh(idle, max_idle, now);
    &&& result.0 == (if at >= 0 {
        Some(idle[at].0)
    } else {
        None
    })
    &&& result.1@ == numbers_back(idle.skip(at + 1))
    &&& after == (if before.contains_key(target) {
        before.insert(
            target,
            idle.take(
                if at >= 0 {
                    at
                } else {
                    0
                },
            ),
        )
    } else {
        before
    })
}

/// The cache without the connections that have been idle for too long.
pub open spec fn cleaned(cached: Map<Seq<char>, Seq<Idle>>, max_idle: nat, now: Instant) -> Map<
    Seq<char>,
    Seq<Idle>,
> {
    cached.map_values(|c: Seq<Idle>| kept(c, max_idle, now))
}

/// Takes a connection to a target out of a cache, if one can still be used; the others are those
/// that were too old.
pub fn take_connection(
    cache: &mut ConnectionCache,
    target: &str,
    max_idle_time: &Duration,
    now: Instant,
) -> (result: (Option<u64>, Vec<u64>))
    ensures
        is_taken(
            cache_contents(*old(cache)),
            cache_contents(*final(cache)),
            target@,
            max_idle_time.total_nanos(),
            now,
            result,
        ),
{
    let mut expired: Vec<u64> = Vec::new();
    let mut reuse: Option<u64> = None;
    let ghost idle = idle_in(cache_contents(*cache), target@);
    let ghost max = max_idle_time.total_nanos();
    match cache_get(cache, target) {
        Some(found) => {
            let mut connections = found;
            assert(connections@ =~= idle.take(idle.len() as int));
            assert(expired@ =~= numbers_back(idle.skip(idle.len() as int)));
            loop
                invariant_except_break
                    connections@.len() <= idle.len(),
                    connections@ == idle.take(connections@.len() as int),
                    reuse is None,
                    max == max_idle_time.total_nanos(),
                    expired@ == numbers_back(idle.skip(connections@.len() as int)),
                    last_fresh(connections@, max, now) == last_fresh(idle, max, now),
                ensures
                    ({
                        let at = last_fresh(idle, max, now);
                        &&& reuse == (if at >= 0 {
                            Some(idle[at].0)
                        } else {
                            None
                        })
                        &&& expired@ == numbers_back(idle.skip(at + 1))
                        &&& connections@ == idle.take(
                            if at >= 0 {
                                at
                            } else {
                                0
                            },
                        )
                    }),
                decreases connections@.len(),
            {
                let ghost n = connections@.len() as int;
                let ghost before = connections@;
                match connections.pop() {
                    Some(c) => {
                        let since = Instant { nanos: c.1 };
                        assert(before.drop_last() =~= idle.take(n - 1));
                        if max_idle_time.exceeds(&since.elapsed(now)) {
                            reuse = Some(c.0);
                            break ;
                        }
                        expired.push(c.0);
                        assert(expired@ =~= numbers_back(idle.skip(n - 1)));
                    },
                    None => {
                        assert(idle.skip(0) =~= idle);
                        break ;
                    },
                }
            }
            cache_insert(cache, target.to_string(), connections);
        },
        None => {
            assert(expired@ =~= numbers_back(idle.skip(0)));
        },
    }
    (reuse, expired)
}

/// Forgets every connection that has been idle for too long.
pub fn clean_connections(cache: &mut ConnectionCache, max_idle_time: &Duration, now: Instant)
    ensures
        cache_contents(*final(cache)) == cleaned(
            cache_contents(*old(cache)),
            max_idle_time.total_nanos(),
            now,
        ),
{
    let ghost before = cache_contents(*cache);
    let ghost max = max_idle_time.total_nanos();
    let targets = cache_targets(cache);
    let ghost names = text::views(targets@);
    let mut i: usize = 0;
    while i < targets.len()
        invariant
            i <= targets@.len(),
            names == text::views(targets@),
            names.no_duplicates(),
            forall|t: Seq<char>| #[trigger] before.contains_key(t) <==> names.contains(t),
            max == max_idle_time.total_nanos(),
            cache_contents(*cache).dom() == before.dom(),
            forall|k: int|
                0 <= k < i ==> cache_contents(*cache)[#[trigger] names[k]] == kept(
                    before[names[k]],
                    max,
                    now,
                ),
            forall|k: int|
                i <= k < names.len() ==> cache_contents(*cache)[#[trigger] names[k]]
                    == before[names[k]],
        decreases targets@.len() - i,
    {
        let ghost current = cache_contents(*cache);
        assert(names[i as int] == targets@[i as int]@);
        assert(names.contains(names[i as int]));
        if let Some(found) = cache_get(cache, targets[i].as_str()) {
            let remaining = keep_fresh(&found, max_idle_time, now);
            cache_insert(cache, targets[i].clone(), remaining);
            assert(cache_contents(*cache).dom() =~= before.dom());
        }
        i += 1;
    }
    proof {
        let wanted = cleaned(before, max, now);
        assert forall|t: Seq<char>| before.contains_key(t) implies cache_contents(*cache)[t]
            == wanted[t] by {
            assert(names.contains(t));
            let k = names.index_of(t);
            assert(names[k] == t);
        }
        assert(cache_contents(*cache) =~= wanted);
    }
}

fn keep_fresh(
    connections: &Vec<(u64, u64)>,
    max_idle_time: &Duration,
    now: Instant,
) -> (result: Vec<(u64, u64)>)
    ensures
        result@ == kept(connections@, max_idle_time.total_nanos(), now),
{
    let ghost max = max_idle_time.total_nanos();
    let mut result: Vec<(u64, u64)> = Vec::new();
    let mut i: usize = 0;
    assert(kept(connections@.take(0), max, now) =~= result@);
    while i < connections.len()
        invariant
            i <= connections@.len(),
            max == max_idle_time.total_nanos(),
            result@ == kept(connections@.take(i as int), max, now),
        decreases connections@.len() - i,
    {
        assert(connections@.take(i + 1).drop_last() =~= connections@.take(i as int));
        let since = Instant { nanos: connections[i].1 };
        if max_idle_time.exceeds(&since.elapsed(now)) {
            result.push(connections[i]);
        }
        i += 1;
    }
    assert(connections@.take(i as int) =~= connections@);
    result
}

impl TcpProxy {
    pub fn new() -> (result: Self)
        ensures
            result.hosts@.len() == 0,
            result.cached() == Map::<Seq<char>, Seq<Idle>>::empty(),
            result.max_idle_time.total_nanos() == 60_000_000_000,
            result.pooled_connections,
    {
        let result = TcpProxy {
            hosts: Vec::new(),
            connection_cache: cache_new(),
            max_idle_time: Duration::from_secs(60),
            pooled_connections: true,
        };
        assert(result.cached() =~= Map::<Seq<char>, Seq<Idle>>::empty());
        result
    }

    /// The idle connections by target.
    pub open spec fn cached(self) -> Map<Seq<char>, Seq<Idle>> {
        cache_contents(self.connection_cache)
    }

    /// The idle connections to a target.
    pub open spec fn idle(self, target: Seq<char>) -> Seq<Idle> {
        idle_in(self.cached(), target)
    }

    /// The host that clients are connected to: the first of the highest priority.
    pub fn select_host(&self) -> (result: Option<usize>)
        ensures
            match result {
                Some(i) => is_first_ranked(self.hosts@, i as int),
                None => self.hosts@.len() == 0,
            },
    {
        first_ranked(&self.hosts)
    }

    /// How to serve a client.
    pub fn handle_connection(&mut self, now: Instant) -> (result: std::result::Result<
        ConnectionPlan,
        IoFailure,
    >)
        ensures
            final(self).hosts == old(self).hosts,
            final(self).max_idle_time == old(self).max_idle_time,
            final(self).pooled_connections == old(self).pooled_connections,
            if old(self).hosts@.len() == 0 {
                io_fails(result, IoFailureKind::NotFound, "No hosts configured"@) && final(self).cached() == old(self).cached()
            } else {
                result matches Ok(plan) && exists|i: int|
                    {
                        let host = old(self).hosts@[i];
                        let target = host_port(host.upstream@);
                        let idle = old(self).idle(target);
                        let at = last_fresh(
                            idle,
                            old(self).max_idle_time.total_nanos(),
                            now,
                        );
                        &&& #[trigger] is_first_ranked(old(self).hosts@, i)
                        &&& plan.target@ == target
                        &&& plan.timeout.total_nanos() == (match host.timeout_ms {
                            Some(t) => t,
                            None => 30000,
                        }) * 1_000_000
                        &&& if old(self).pooled_connections {
                            &&& plan.reuse == (if at >= 0 {
                                Some(idle[at].0)
                            } else {
                                None
                            })
                            &&& plan.expired@ == numbers_back(idle.skip(at + 1))
                            &&& final(self).cached() == (if old(self).cached().contains_key(
                                target,
                            ) {
                                old(self).cached().insert(
                                    target,
                                    idle.take(
                                        if at >= 0 {
                                            at
                                        } else {
                                            0
                                        },
                                    ),
                                )
                            } else {
                                old(self).cached()
                            })
                        } else {
                            &&& plan.reuse is None
                            &&& plan.expired@.len() == 0
                            &&& final(self).cached() == old(self).cached()
                        }
                    }
            },
    {
        let index = match self.select_host() {
            Some(i) => i,
            None => {
                return Err(
                    IoFailure {
                        kind: IoFailureKind::NotFound,
                        message: "No hosts configured".to_string(),
                    },
                );
            },
        };
        let target = extract_host_port(self.hosts[index].upstream.as_str());
        let timeout = Duration::from_millis(
            match self.hosts[index].timeout_ms {
                Some(t) => t,
                None => 30000,
            },
        );
        if self.pooled_connections {
            let (reuse, expired) = self.get_or_create_connection(target.as_str(), now);
            Ok(ConnectionPlan { target, reuse, expired, timeout })
        } else {
            Ok(ConnectionPlan { target, reuse: None, expired: Vec::new(), timeout })
        }
    }

    /// A cached connection to a target, if one can still be used, and those that were too old.
    pub fn get_or_create_connection(&mut self, target: &str, now: Instant) -> (result: (
        Option<u64>,
        Vec<u64>,
    ))
        ensures
            final(self).hosts == old(self).hosts,
            final(self).max_idle_time == old(self).max_idle_time,
            final(self).pooled_connections == old(self).pooled_connections,
            is_taken(
                old(self).cached(),
                final(self).cached(),
                target@,
                old(self).max_idle_time.total_nanos(),
                now,
                result,
            ),
    {
        take_connection(&mut self.connection_cache, target, &self.max_idle_time, now)
    }

    /// Forgets every connection that has been idle for too long.
    pub fn clean_idle_connections(&mut self, now: Instant)
        ensures
            final(self).hosts == old(self).hosts,
            final(self).max_idle_time == old(self).max_idle_time,
            final(self).pooled_connections == old(self).pooled_connections,
            final(self).cached() == cleaned(
                old(self).cached(),
                old(self).max_idle_time.total_nanos(),
                now,
            ),
    {
        clean_connections(&mut self.connection_cache, &self.max_idle_time, now);
    }

    /// What to do after waiting for data from the client or the server.
    pub fn pump(event: SideEvent) -> (result: PumpStep)
        ensures
            result == (match event {
                SideEvent::Read(n) => if n == 0 {
                    PumpStep::Stop
                } else {
                    PumpStep::Forward(n)
                },
                SideEvent::Failed => PumpStep::Stop,
                SideEvent::TimedOut => PumpStep::StopTimedOut,
            }),
    {
        match event {
            SideEvent::Read(n) => if n == 0 {
                PumpStep::Stop
            } else {
                PumpStep::Forward(n)
            },
            SideEvent::Failed => PumpStep::Stop,
            SideEvent::TimedOut => PumpStep::StopTimedOut,
        }
    }

    /// Check the settings of an instance.
    pub fn validate_config(&self, settings: &InstanceSettings) -> (result: std::result::Result<
        (),
        String,
    >)
        ensures
            match settings_fault(*settings) {
                Some(m) => says(result, m),
                None => result is Ok,
            },
    {
        if let Some(secs) = settings.max_idle_time_secs {
            if secs > 3600 {
                return Err("max_idle_time_secs cannot exceed 3600 seconds".to_string());
            }
        }
        Ok(())
    }
}

/// An idle connection can be used for less than the idle time after it was put by.
pub proof fn law_idle_connections_expire(c: Idle, max_idle: nat, now: Instant)
    ensures
        max_idle > 0 ==> (fresh(c, max_idle, now) <==> now.nanos < c.1 + max_idle),
        max_idle == 0 ==> !fresh(c, max_idle, now),
{
}

/// Of the idle connections to a target the last that can still be used is taken, what stands behind
/// it is closed, the last first, what stands before it stays, and no other target is touched.
pub proof fn law_last_fresh_is_taken(
    before: Map<Seq<char>, Seq<Idle>>,
    after: Map<Seq<char>, Seq<Idle>>,
    target: Seq<char>,
    max_idle: nat,
    now: Instant,
    result: (Option<u64>, Vec<u64>),
    k: int,
    other: Seq<char>,
)
    requires
        is_taken(before, after, target, max_idle, now, result),
        before.contains_key(target),
        -1 <= k < before[target].len(),
        k >= 0 ==> fresh(before[target][k], max_idle, now),
        forall|i: int|
            k < i < before[target].len() ==> !fresh(#[trigger] before[target][i], max_idle, now),
    ensures
        k >= 0 ==> result.0 == Some(before[target][k].0) && after[target] == before[target].take(k),
        k == -1 ==> result.0 is None && after[target].len() == 0,
        result.1@.len() == before[target].len() - 1 - k,
        forall|i: int|
            0 <= i < result.1@.len() ==> #[trigger] result.1@[i] == before[target][before[target].len()
                - 1 - i].0,
        other != target ==> (after.contains_key(other) <==> before.contains_key(other))
            && after[other] == before[other],
        after.contains_key(target),
{
    lemma_last_fresh_is(before[target], max_idle, now, k);
}

proof fn lemma_last_fresh_is(connections: Seq<Idle>, max_idle: nat, now: Instant, k: int)
    requires
        -1 <= k < connections.len(),
        k >= 0 ==> fresh(connections[k], max_idle, now),
        forall|i: int|
            k < i < connections.len() ==> !fresh(#[trigger] connections[i], max_idle, now),
    ensures
        last_fresh(connections, max_idle, now) == k,
    decreases connections.len(),
{
    if k < connections.len() - 1 {
        assert(!fresh(connections[connections.len() - 1], max_idle, now));
        let rest = connections.drop_last();
        assert forall|i: int| k < i < rest.len() implies !fresh(
            #[trigger] rest[i],
            max_idle,
            now,
        ) by {
            assert(!fresh(connections[i], max_idle, now));
        }
        lemma_last_fresh_is(rest, max_idle, now, k);
    }
}

/// Cleaning up keeps every connection that can still be used, as often as it is there, and nothing
/// else; every target stays.
pub proof fn law_cleaning_keeps_all_fresh(
    cached: Map<Seq<char>, Seq<Idle>>,
    target: Seq<char>,
    max_idle: nat,
    now: Instant,
    c: Idle,
)
    ensures
        cleaned(cached, max_idle, now).contains_key(target) <==> cached.contains_key(target),
        cached.contains_key(target) ==> cleaned(
            cached,
            max_idle,
            now,
        )[target].to_multiset().count(c) == (if fresh(c, max_idle, now) {
            cached[target].to_multiset().count(c)
        } else {
            0
        }),
{
    if cached.contains_key(target) {
        lemma_kept_count(cached[target], max_idle, now, c);
    }
}

proof fn lemma_kept_count(connections: Seq<Idle>, max_idle: nat, now: Instant, c: Idle)
    ensures
        kept(connections, max_idle, now).to_multiset().count(c) == (if fresh(c, max_idle, now) {
            connections.to_multiset().count(c)
        } else {
            0
        }),
    decreases connections.len(),
{
    broadcast use vstd::seq_lib::group_to_multiset_ensures;

    if connections.len() > 0 {
        let rest = connections.drop_last();
        lemma_kept_count(rest, max_idle, now, c);
        assert(connections =~= rest.push(connections.last()));
        vstd::seq_lib::to_multiset_build(rest, connections.last());
        vstd::seq_lib::to_multiset_build(kept(rest, max_idle, now), connections.last());
    }
}

/// Settings are refused exactly where they keep connections idle for more than an hour.
pub proof fn law_idle_time_is_limited(settings: InstanceSettings)
    ensures
        settings_fault(settings) is Some <==> (settings.max_idle_time_secs matches Some(secs) && secs
            > 60 * 60),
{
}

} // verus!
