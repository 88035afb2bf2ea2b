//! Routing and load balancing: which upstream server gets the next request.
use vstd::prelude::*;

use crate::config::UpstreamConfig;
use crate::error::Result;
use crate::hash_ring;
use crate::hash_ring::ConsistentHashRing;
use crate::text;
use crate::time::{Duration, Instant};

verus! {

broadcast use vstd::string::group_string_axioms;

/// Load balancing strategies supported by the router.
#[derive(Debug, Clone, Copy, PartialEq, Eq, Structural)]
pub enum LoadBalancingStrategy {
    /// Round-robin selection
    RoundRobin,
    /// Weighted round-robin based on upstream weights
    WeightedRoundRobin,
    /// Least connections routing
    LeastConnections,
    /// Consistent hashing for sticky sessions
    ConsistentHashing,
    /// Health-aware routing (combines health scores with other strategies)
    HealthAware,
}

/// Health state of an upstream server.
#[derive(Debug, Clone, Copy, PartialEq, Eq, Structural)]
pub enum HealthState {
    Healthy,
    Unhealthy,
    Unknown,
}

/// The quotient of two counts.
#[derive(Debug, Clone, Copy, PartialEq, Eq, Structural)]
pub struct Ratio {
    pub numerator: u128,
    pub denominator: u128,
}

/// Statistics for an upstream server.
#[derive(Debug, Clone, Copy, PartialEq, Eq, Structural)]
pub struct UpstreamStats {
    /// Total number of requests sent to this upstream
    pub requests_sent: u64,
    /// Total number of successful responses
    pub responses_received: u64,
    /// Total number of failed requests
    pub failures: u64,
    /// Active connections to this upstream
    pub active_connections: usize,
    /// Average response time in nanoseconds (exponentially weighted)
    pub avg_response_time_ns: u64,
    /// Last response time update
    pub last_update: Instant,
}

/// Runtime information about an upstream server.
#[derive(Debug)]
pub struct UpstreamInfo {
    /// Static configuration
    pub config: UpstreamConfig,
    /// Current health state
    pub health_state: HealthState,
    /// Performance statistics
    pub stats: UpstreamStats,
    /// Health check failure count
    pub health_failures: usize,
    /// Last health check time
    pub last_health_check: Instant,
}

/// What the health of an upstream amounts to: the product of the three factors, the outer two in
/// tenths, lies between 0 and 1, and higher is better.
#[derive(Debug, Clone, Copy, PartialEq, Eq, Structural)]
pub struct HealthScore {
    /// By health state
    pub base_tenths: u8,
    /// The share of requests that were answered
    pub success: Ratio,
    /// By average response time
    pub latency_tenths: u8,
}

/// An upstream that can be chosen by its health.
#[derive(Debug, Clone, Copy, PartialEq, Eq, Structural)]
pub struct HealthCandidate {
    /// The place of the upstream
    pub index: usize,
    pub score: HealthScore,
    pub weight: u32,
}

/// The outcome of a selection.
#[derive(Debug, Clone)]
pub enum Selection {
    /// There is nothing to choose from
    Nothing,
    /// The upstream at this place
    Upstream(usize),
    /// The choice goes by the scores of these candidates
    ByHealth(Vec<HealthCandidate>),
}

/// Router for selecting upstream servers based on various strategies.
pub struct Router {
    /// Available upstream servers
    upstreams: Vec<UpstreamInfo>,
    /// Load balancing strategy
    strategy: LoadBalancingStrategy,
    /// Round-robin counter
    rr_counter: usize,
    /// Consistent hashing ring (only used with ConsistentHashing strategy)
    hash_ring: ConsistentHashRing,
}

/// Points on the ring for each upstream.
pub const VIRTUAL_NODES: usize = 150;

// ---------------------------------------------------------------------------------------------
// Statistics
// ---------------------------------------------------------------------------------------------

/// The average response time after one more response, which counts for an eighth.
pub open spec fn next_average(average: u64, sample: u64) -> int {
    if average == 0 {
        sample as int
    } else {
        (average * 7 + sample) / 8
    }
}

/// The response time of a span as it is averaged: its nanoseconds in 64 bits.
pub open spec fn sample_of(response_time: Duration) -> u64 {
    (response_time.total_nanos() % 0x1_0000_0000_0000_0000) as u64
}

/// One more, back to zero behind the highest number.
pub open spec fn one_more(n: u64) -> u64 {
    if n == u64::MAX {
        0
    } else {
        (n + 1) as u64
    }
}

/// One more, back to zero behind the highest number.
pub open spec fn next_ticket(n: usize) -> usize {
    if n == usize::MAX {
        0
    } else {
        (n + 1) as usize
    }
}

/// The average never leaves the range between the average before and the new response time.
pub proof fn law_average_stays_between(average: u64, sample: u64)
    requires
        average > 0,
    ensures
        average <= sample ==> average <= next_average(average, sample) <= sample,
        sample <= average ==> sample <= next_average(average, sample) <= average,
{
}

/// The first response time is the average; from then on the new average is the whole number next to
/// seven eighths of the old one and an eighth of the response time, rounded down.
pub proof fn law_average_weighs_an_eighth(average: u64, sample: u64)
    ensures
        average == 0 ==> next_average(average, sample) == sample,
        average > 0 ==> 8 * next_average(average, sample) <= 7 * average + sample < 8 * next_average(
            average,
            sample,
        ) + 8,
{
}

/// Counters go up by one, and from the highest number back to zero.
pub proof fn law_counters_go_up_by_one(n: u64, m: usize)
    ensures
        n < u64::MAX ==> one_more(n) == n + 1,
        one_more(u64::MAX) == 0,
        m < usize::MAX ==> next_ticket(m) == m + 1,
        next_ticket(usize::MAX) == 0,
{
}

/// An answered request is one more request and one more response; a failed one is one more request
/// and one more failure. Nothing else is counted.
pub proof fn law_outcomes_are_counted(stats: UpstreamStats, response_time: Duration, now: Instant)
    requires
        stats.requests_sent < u64::MAX,
        stats.responses_received < u64::MAX,
        stats.failures < u64::MAX,
    ensures
        ({
            let good = stats.answered(response_time, now);
            let bad = stats.failed(now);
            &&& good.requests_sent == stats.requests_sent + 1
            &&& good.responses_received == stats.responses_received + 1
            &&& good.failures == stats.failures
            &&& good.active_connections == stats.active_connections
            &&& bad.requests_sent == stats.requests_sent + 1
            &&& bad.responses_received == stats.responses_received
            &&& bad.failures == stats.failures + 1
            &&& bad.active_connections == stats.active_connections
            &&& bad.avg_response_time_ns == stats.avg_response_time_ns
            &&& good.last_update == now && bad.last_update == now
        }),
        stats.avg_response_time_ns == 0 && response_time.total_nanos() <= u64::MAX
            ==> stats.answered(response_time, now).avg_response_time_ns
            == response_time.total_nanos(),
{
}

impl UpstreamStats {
    /// Statistics of an upstream that has seen no request yet.
    pub fn new(now: Instant) -> (result: Self)
        ensures
            result == (UpstreamStats {
                requests_sent: 0,
                responses_received: 0,
                failures: 0,
                active_connections: 0,
                avg_response_time_ns: 0,
                last_update: now,
            }),
    {
        UpstreamStats {
            requests_sent: 0,
            responses_received: 0,
            failures: 0,
            active_connections: 0,
            avg_response_time_ns: 0,
            last_update: now,
        }
    }

    /// The statistics after one more request that was answered in this time.
    pub open spec fn answered(self, response_time: Duration, now: Instant) -> UpstreamStats {
        UpstreamStats {
            requests_sent: one_more(self.requests_sent),
            responses_received: one_more(self.responses_received),
            avg_response_time_ns: next_average(
                self.avg_response_time_ns,
                sample_of(response_time),
            ) as u64,
            last_update: now,
            ..self
        }
    }

    /// The statistics after one more request that failed.
    pub open spec fn failed(self, now: Instant) -> UpstreamStats {
        UpstreamStats {
            requests_sent: one_more(self.requests_sent),
            failures: one_more(self.failures),
            last_update: now,
            ..self
        }
    }

    /// Whether every request that was sent was either answered or failed.
    pub open spec fn settled(self) -> bool {
        self.requests_sent == self.responses_received + self.failures
    }

    /// Record a successful request with response time.
    pub fn record_success(&mut self, response_time: Duration, now: Instant)
        requires
            old(self).avg_response_time_ns * 7 + sample_of(response_time) <= u64::MAX,
        ensures
            *final(self) == old(self).answered(response_time, now),
    {
        self.requests_sent = self.requests_sent.wrapping_add(1);
        self.responses_received = self.responses_received.wrapping_add(1);
        let nanos: u128 = response_time.as_nanos();
        let response_time_ns: u64 = (nanos % 0x1_0000_0000_0000_0000) as u64;
        let current_avg: u64 = self.avg_response_time_ns;
        self.avg_response_time_ns =
        if current_avg == 0 {
            response_time_ns
        } else {
            (current_avg * 7 + response_time_ns) / 8
        };
        self.last_update = now;
    }

    /// Record a failed request.
    pub fn record_failure(&mut self, now: Instant)
        ensures
            *final(self) == old(self).failed(now),
    {
        self.requests_sent = self.requests_sent.wrapping_add(1);
        self.failures = self.failures.wrapping_add(1);
        self.last_update = now;
    }

    /// Increment active connection count.
    pub fn increment_connections(&mut self) -> (result: usize)
        requires
            old(self).active_connections < usize::MAX,
        ensures
            result == old(self).active_connections + 1,
            *final(self) == (UpstreamStats { active_connections: result, ..*old(self) }),
    {
        self.active_connections = self.active_connections + 1;
        self.active_connections
    }

    /// Decrement active connection count. The count of an upstream without connections goes back to
    /// the highest number, and zero is reported.
    pub fn decrement_connections(&mut self) -> (result: usize)
        ensures
            result == (if old(self).active_connections == 0 {
                0
            } else {
                old(self).active_connections - 1
            }),
            *final(self) == (UpstreamStats {
                active_connections: if old(self).active_connections == 0 {
                    usize::MAX
                } else {
                    (old(self).active_connections - 1) as usize
                },
                ..*old(self)
            }),
    {
        let before: usize = self.active_connections;
        self.active_connections = before.wrapping_sub(1);
        before.saturating_sub(1)
    }

    /// The share of requests that were answered; all of them where there was none.
    pub fn success_rate(&self) -> (result: Ratio)
        ensures
            result == self.success_ratio(),
            result.denominator > 0,
    {
        if self.requests_sent == 0 {
            Ratio { numerator: 1, denominator: 1 }
        } else {
            Ratio {
                numerator: self.responses_received as u128,
                denominator: self.requests_sent as u128,
            }
        }
    }

    /// The share of requests that were answered; all of them where there was none.
    pub open spec fn success_ratio(self) -> Ratio {
        if self.requests_sent == 0 {
            Ratio { numerator: 1, denominator: 1 }
        } else {
            Ratio {
                numerator: self.responses_received as u128,
                denominator: self.requests_sent as u128,
            }
        }
    }

    /// The average response time in milliseconds.
    pub fn avg_response_time_ms(&self) -> (result: Ratio)
        ensures
            result == (Ratio {
                numerator: self.avg_response_time_ns as u128,
                denominator: 1_000_000,
            }),
    {
        Ratio { numerator: self.avg_response_time_ns as u128, denominator: 1_000_000 }
    }
}

/// As long as the count of requests does not run over, every request is counted as answered or
/// failed.
pub proof fn law_requests_are_settled(
    stats: UpstreamStats,
    response_time: Duration,
    now: Instant,
)
    requires
        stats.settled(),
        stats.requests_sent < u64::MAX,
    ensures
        stats.answered(response_time, now).settled(),
        stats.failed(now).settled(),
{
}

/// Where every request was answered or failed, the success rate lies between zero and one, and so
/// does the health score, which is that rate times at most ten tenths and at most ten tenths.
pub proof fn law_scores_are_shares(upstream: UpstreamInfo)
    requires
        upstream.stats.settled(),
    ensures
        upstream.stats.success_ratio().numerator <= upstream.stats.success_ratio().denominator,
        upstream.stats.success_ratio().denominator > 0,
        upstream.score().success == upstream.stats.success_ratio(),
        0 < upstream.score().base_tenths <= 10,
        0 < upstream.score().latency_tenths <= 10,
{
}

// ---------------------------------------------------------------------------------------------
// Upstreams
// ---------------------------------------------------------------------------------------------

impl UpstreamInfo {
    /// Whether requests may go to this upstream: any state but unhealthy.
    pub open spec fn available(self) -> bool {
        self.health_state != HealthState::Unhealthy
    }

    /// The upstream with other statistics.
    pub open spec fn with_stats(self, stats: UpstreamStats) -> UpstreamInfo {
        UpstreamInfo { stats, ..self }
    }

    /// An upstream of which nothing is known yet.
    pub open spec fn fresh(config: UpstreamConfig, now: Instant) -> UpstreamInfo {
        UpstreamInfo {
            config,
            health_state: HealthState::Unknown,
            stats: UpstreamStats {
                requests_sent: 0,
                responses_received: 0,
                failures: 0,
                active_connections: 0,
                avg_response_time_ns: 0,
                last_update: now,
            },
            health_failures: 0,
            last_health_check: now,
        }
    }

    /// The upstream after a health check: recovery clears the count of failures, a failure adds to
    /// it.
    pub open spec fn checked(self, state: HealthState, now: Instant) -> UpstreamInfo {
        UpstreamInfo {
            health_state: state,
            last_health_check: now,
            health_failures: match state {
                HealthState::Healthy => 0,
                HealthState::Unhealthy => next_ticket(self.health_failures),
                HealthState::Unknown => self.health_failures,
            },
            ..self
        }
    }

    /// What the health amounts to: full marks for a healthy upstream, half for an unknown one and a
    /// tenth for an unhealthy one, with less for an average response time over a tenth of a second,
    /// over half a second, and over a second.
    pub open spec fn score(self) -> HealthScore {
        HealthScore {
            base_tenths: match self.health_state {
                HealthState::Healthy => 10,
                HealthState::Unknown => 5,
                HealthState::Unhealthy => 1,
            },
            success: self.stats.success_ratio(),
            latency_tenths: if self.stats.avg_response_time_ns > 1_000_000_000 {
                5
            } else if self.stats.avg_response_time_ns > 500_000_000 {
                7
            } else if self.stats.avg_response_time_ns > 100_000_000 {
                9
            } else {
                10
            },
        }
    }

    /// Create a new upstream info from configuration.
    pub fn new(config: UpstreamConfig, now: Instant) -> (result: Self)
        ensures
            result == UpstreamInfo::fresh(config, now),
    {
        UpstreamInfo {
            config,
            health_state: HealthState::Unknown,
            stats: UpstreamStats::new(now),
            health_failures: 0,
            last_health_check: now,
        }
    }

    /// Calculate health score.
    pub fn health_score(&self) -> (result: HealthScore)
        ensures
            result == self.score(),
    {
        let base_tenths: u8 = match self.health_state {
            HealthState::Healthy => 10,
            HealthState::Unknown => 5,
            HealthState::Unhealthy => 1,
        };
        let average: u64 = self.stats.avg_response_time_ns;
        let latency_tenths: u8 = if average > 1_000_000_000 {
            5
        } else if average > 500_000_000 {
            7
        } else if average > 100_000_000 {
            9
        } else {
            10
        };
        HealthScore { base_tenths, success: self.stats.success_rate(), latency_tenths }
    }

    /// Update health state.
    pub fn set_health_state(&mut self, state: HealthState, now: Instant)
        ensures
            *final(self) == old(self).checked(state, now),
    {
        self.health_state = state;
        self.last_health_check = now;
        match state {
            HealthState::Healthy => {
                self.health_failures = 0;
            },
            HealthState::Unhealthy => {
                self.health_failures = self.health_failures.wrapping_add(1);
            },
            HealthState::Unknown => {},
        }
    }

    /// Check if the upstream is available for routing.
    pub fn is_available(&self) -> (result: bool)
        ensures
            result == self.available(),
    {
        matches!(self.health_state, HealthState::Healthy | HealthState::Unknown)
    }
}

/// Health comes first: with the same statistics, a healthy upstream has a higher score than one that
/// is not known to be healthy, and that one a higher score than an unhealthy one. They have ten, five
/// and one tenths before anything else counts.
pub proof fn law_health_orders_scores(a: UpstreamInfo, b: UpstreamInfo)
    ensures
        a.health_state == HealthState::Healthy ==> a.score().base_tenths == 10,
        a.health_state == HealthState::Unknown ==> a.score().base_tenths == 5,
        a.health_state == HealthState::Unhealthy ==> a.score().base_tenths == 1,
        a.health_state == HealthState::Healthy && b.health_state != HealthState::Healthy
            ==> a.score().base_tenths > b.score().base_tenths,
        a.health_state != HealthState::Unhealthy && b.health_state == HealthState::Unhealthy
            ==> a.score().base_tenths > b.score().base_tenths,
        a.stats == b.stats ==> a.score().success == b.score().success && a.score().latency_tenths
            == b.score().latency_tenths,
        a.health_state == b.health_state ==> a.score().base_tenths == b.score().base_tenths,
{
}

/// A faster upstream never has less of its score taken off. Up to a tenth of a second on average
/// nothing is taken off, up to half a second a tenth, up to a second three tenths, and then half.
pub proof fn law_speed_orders_scores(a: UpstreamInfo, b: UpstreamInfo)
    ensures
        a.stats.avg_response_time_ns <= b.stats.avg_response_time_ns ==> a.score().latency_tenths
            >= b.score().latency_tenths,
        a.score().latency_tenths == 10 <==> a.stats.avg_response_time_ns <= 100_000_000,
        a.score().latency_tenths >= 9 <==> a.stats.avg_response_time_ns <= 500_000_000,
        a.score().latency_tenths >= 7 <==> a.stats.avg_response_time_ns <= 1_000_000_000,
        a.stats.avg_response_time_ns > 500_000_000 ==> a.score().latency_tenths <= 7,
        a.stats.avg_response_time_ns > 100_000_000 ==> a.score().latency_tenths <= 9,
        a.stats.avg_response_time_ns > 1_000_000_000 ==> a.score().latency_tenths == 5,
{
}

/// A more reliable upstream has a higher score: the share of requests that were answered, and the
/// whole where there were none.
pub proof fn law_reliability_orders_scores(a: UpstreamInfo, b: UpstreamInfo)
    ensures
        a.stats.requests_sent > 0 ==> a.score().success.numerator * a.stats.requests_sent
            == a.score().success.denominator * a.stats.responses_received,
        a.stats.requests_sent == 0 ==> a.score().success.numerator
            == a.score().success.denominator,
        a.score().success.denominator > 0,
        a.stats.requests_sent == b.stats.requests_sent > 0 && a.stats.responses_received
            > b.stats.responses_received ==> a.score().success.numerator
            > b.score().success.numerator && a.score().success.denominator
            == b.score().success.denominator,
{
    if a.stats.requests_sent > 0 {
        let share = a.score().success;
        let n = a.stats.requests_sent as int;
        let r = a.stats.responses_received as int;
        assert(share.numerator * n == share.denominator * r) by (nonlinear_arith)
            requires
                share.numerator == r,
                share.denominator == n,
        ;
    }
}

/// What a health check finds holds from then on: an upstream that was found unhealthy gets no
/// requests, any other may get some. Failures are counted until the upstream is healthy again.
pub proof fn law_health_checks_decide(u: UpstreamInfo, state: HealthState, now: Instant)
    ensures
        u.checked(state, now).health_state == state,
        u.checked(state, now).last_health_check == now,
        u.checked(state, now).stats == u.stats,
        u.checked(state, now).config == u.config,
        u.checked(HealthState::Healthy, now).available(),
        u.checked(HealthState::Unknown, now).available(),
        !u.checked(HealthState::Unhealthy, now).available(),
        u.checked(HealthState::Healthy, now).health_failures == 0,
        u.checked(HealthState::Unknown, now).health_failures == u.health_failures,
        u.health_failures < usize::MAX ==> u.checked(HealthState::Unhealthy, now).health_failures
            == u.health_failures + 1,
        UpstreamInfo::fresh(u.config, now).available(),
        UpstreamInfo::fresh(u.config, now).stats.settled(),
        UpstreamInfo::fresh(u.config, now).config == u.config,
        UpstreamInfo::fresh(u.config, now).health_failures == 0,
        UpstreamInfo::fresh(u.config, now).stats.requests_sent == 0,
        UpstreamInfo::fresh(u.config, now).stats.responses_received == 0,
        UpstreamInfo::fresh(u.config, now).stats.failures == 0,
        UpstreamInfo::fresh(u.config, now).stats.active_connections == 0,
        UpstreamInfo::fresh(u.config, now).stats.avg_response_time_ns == 0,
        UpstreamInfo::fresh(u.config, now).health_state == HealthState::Unknown,
{
}

// ---------------------------------------------------------------------------------------------
// What the strategies choose
// ---------------------------------------------------------------------------------------------

/// The places of the available upstreams, in order.
pub open spec fn available(s: Seq<UpstreamInfo>) -> Seq<int>
    decreases s.len(),
{
    if s.len() == 0 {
        Seq::empty()
    } else if s.last().available() {
        available(s.drop_last()).push(s.len() - 1)
    } else {
        available(s.drop_last())
    }
}

/// How often an upstream comes up in a weighted round: at least once.
pub open spec fn turns(u: UpstreamInfo) -> nat {
    if u.config.weight == 0 {
        1
    } else {
        u.config.weight as nat
    }
}

/// One weighted round: the place of every available upstream, in order, once for each of its turns.
pub open spec fn weighted(s: Seq<UpstreamInfo>) -> Seq<int>
    decreases s.len(),
{
    if s.len() == 0 {
        Seq::empty()
    } else if s.last().available() {
        weighted(s.drop_last()) + Seq::new(turns(s.last()), |k: int| s.len() - 1)
    } else {
        weighted(s.drop_last())
    }
}

/// The item of a round that has the turn when the counter stands at `counter`.
pub open spec fn turn_of(round: Seq<int>, counter: int) -> Option<int> {
    if round.len() == 0 {
        None
    } else {
        Some(round[counter % (round.len() as int)])
    }
}

/// `i` is the first of the available upstreams with the fewest active connections.
pub open spec fn least_loaded(s: Seq<UpstreamInfo>, i: int) -> bool {
    &&& 0 <= i < s.len()
    &&& s[i].available()
    &&& forall|j: int|
        0 <= j < s.len() && (#[trigger] s[j]).available() ==> s[i].stats.active_connections
            <= s[j].stats.active_connections
    &&& forall|j: int|
        0 <= j < i && (#[trigger] s[j]).available() ==> s[i].stats.active_connections
            < s[j].stats.active_connections
}

/// The available upstreams with their scores and weights, in order.
pub open spec fn candidates(s: Seq<UpstreamInfo>) -> Seq<HealthCandidate>
    decreases s.len(),
{
    if s.len() == 0 {
        Seq::empty()
    } else if s.last().available() {
        candidates(s.drop_last()).push(
            HealthCandidate {
                index: (s.len() - 1) as usize,
                score: s.last().score(),
                weight: s.last().config.weight,
            },
        )
    } else {
        candidates(s.drop_last())
    }
}

/// The labels of the points on the hash ring: every available upstream has `nodes` of them, each
/// made of its name and a number.
pub open spec fn node_labels(s: Seq<UpstreamInfo>, nodes: nat) -> Seq<(Seq<char>, usize)>
    decreases s.len(),
{
    if s.len() == 0 {
        Seq::empty()
    } else if s.last().available() {
        node_labels(s.drop_last(), nodes) + Seq::new(
            nodes,
            |k: int|
                (
                    s.last().config.name@ + ":"@ + text::decimal(k as nat),
                    (s.len() - 1) as usize,
                ),
        )
    } else {
        node_labels(s.drop_last(), nodes)
    }
}

/// Whether every point lies at the hash of its label.
pub open spec fn are_hashed(
    labels: Seq<(Seq<char>, usize)>,
    points: hash_ring::Points,
) -> bool {
    forall|k: int|
        0 <= k < labels.len() && k < points.len() ==> hash_ring::is_hash_of(
            labels[k].0,
            (#[trigger] points[k]).0,
        )
}

/// The upstreams of labels.
pub open spec fn label_owners(labels: Seq<(Seq<char>, usize)>) -> Seq<usize> {
    labels.map_values(|l: (Seq<char>, usize)| l.1)
}

/// Every place in the list is that of an available upstream, and no available upstream is missing.
pub proof fn lemma_available(s: Seq<UpstreamInfo>)
    ensures
        forall|k: int|
            0 <= k < available(s).len() ==> 0 <= #[trigger] available(s)[k] < s.len()
                && s[available(s)[k]].available(),
        forall|i: int|
            0 <= i < s.len() && (#[trigger] s[i]).available() ==> available(s).contains(i),
        available(s).no_duplicates(),
        available(s).len() <= s.len(),
    decreases s.len(),
{
    if s.len() > 0 {
        let rest = s.drop_last();
        lemma_available(rest);
        assert forall|i: int| 0 <= i < s.len() && (#[trigger] s[i]).available() implies available(
            s,
        ).contains(i) by {
            if i < rest.len() {
                assert(rest[i].available());
                let k = available(rest).index_of(i);
                assert(available(s)[k] == i);
            } else {
                assert(available(s)[available(s).len() - 1] == i);
            }
        }
        assert forall|k: int| 0 <= k < available(s).len() implies 0 <= #[trigger] available(s)[k]
            < s.len() && s[available(s)[k]].available() by {
            if k < available(rest).len() {
                assert(available(rest)[k] == available(s)[k]);
                assert(rest[available(rest)[k]].available());
            }
        }
        assert forall|a: int, b: int|
            0 <= a < b < available(s).len() implies available(s)[a] != available(s)[b] by {
            if b < available(rest).len() {
                assert(available(rest)[a] != available(rest)[b]);
            } else {
                assert(available(rest)[a] == available(s)[a]);
            }
        }
    }
}

/// A weighted round visits every available upstream as often as its turns say, and no other.
pub proof fn lemma_weighted(s: Seq<UpstreamInfo>)
    ensures
        forall|k: int|
            0 <= k < weighted(s).len() ==> 0 <= #[trigger] weighted(s)[k] < s.len()
                && s[weighted(s)[k]].available(),
        weighted(s).len() == 0 <==> available(s).len() == 0,
        forall|i: int|
            0 <= i < s.len() ==> #[trigger] weighted(s).to_multiset().count(i) == (
            if s[i].available() {
                turns(s[i])
            } else {
                0
            }),
    decreases s.len(),
{
    broadcast use vstd::seq_lib::group_to_multiset_ensures;

    if s.len() > 0 {
        let rest = s.drop_last();
        lemma_weighted(rest);
        let tail = if s.last().available() {
            Seq::new(turns(s.last()), |k: int| s.len() - 1)
        } else {
            Seq::empty()
        };
        assert(weighted(s) =~= weighted(rest) + tail);
        vstd::seq_lib::lemma_multiset_commutative(weighted(rest), tail);
        assert forall|k: int| 0 <= k < weighted(s).len() implies 0 <= #[trigger] weighted(s)[k]
            < s.len() && s[weighted(s)[k]].available() by {
            if k < weighted(rest).len() {
                assert(weighted(rest)[k] == weighted(s)[k]);
                assert(rest[weighted(rest)[k]].available());
            }
        }
        assert forall|i: int| 0 <= i < s.len() implies #[trigger] weighted(s).to_multiset().count(i)
            == (if s[i].available() {
            turns(s[i])
        } else {
            0
        }) by {
            lemma_repeated(tail, s.len() - 1, i);
            if i == s.len() - 1 {
                if weighted(rest).contains(i) {
                    let k = weighted(rest).index_of(i);
                    assert(weighted(rest)[k] == i);
                }
                assert(weighted(rest).to_multiset().count(i) == 0);
            } else {
                assert(rest[i] == s[i]);
                assert(weighted(rest).to_multiset().count(i) == (if rest[i].available() {
                    turns(rest[i])
                } else {
                    0
                }));
            }
        }
    }
}

proof fn lemma_repeated(s: Seq<int>, item: int, i: int)
    requires
        forall|k: int| 0 <= k < s.len() ==> s[k] == item,
    ensures
        s.to_multiset().count(i) == (if i == item {
            s.len()
        } else {
            0
        }),
    decreases s.len(),
{
    broadcast use vstd::seq_lib::group_to_multiset_ensures;

    if s.len() > 0 {
        lemma_repeated(s.drop_last(), item, i);
        vstd::seq_lib::to_multiset_build(s.drop_last(), item);
        assert(s =~= s.drop_last().push(item));
    }
}

/// What a full round of consecutive turns, started anywhere, visits.
pub open spec fn full_round(round: Seq<int>, start: nat) -> Seq<int> {
    Seq::new(round.len(), |k: int| round[(start + k) % (round.len() as int)])
}

/// A full round of consecutive turns visits every item of the round as often as it stands there,
/// wherever it starts.
pub proof fn law_full_round_visits_all(round: Seq<int>, start: nat)
    requires
        round.len() > 0,
    ensures
        full_round(round, start).to_multiset() == round.to_multiset(),
{
    let n = round.len() as int;
    let r = start as int % n;
    let head = round.take(r);
    let tail = round.skip(r);
    assert forall|k: int| 0 <= k < n implies full_round(round, start)[k] == (tail + head)[k] by {
        vstd::arithmetic::div_mod::lemma_add_mod_noop(start as int, k, n);
        vstd::arithmetic::div_mod::lemma_small_mod(k as nat, n as nat);
        if r + k < n {
            vstd::arithmetic::div_mod::lemma_small_mod((r + k) as nat, n as nat);
        } else {
            vstd::arithmetic::div_mod::lemma_mod_add_multiples_vanish(r + k - n, n);
            vstd::arithmetic::div_mod::lemma_small_mod((r + k - n) as nat, n as nat);
        }
    }
    assert(full_round(round, start) =~= tail + head);
    assert(round =~= head + tail);
    vstd::seq_lib::lemma_multiset_commutative(head, tail);
    vstd::seq_lib::lemma_multiset_commutative(tail, head);
    broadcast use vstd::multiset::group_multiset_axioms;

    assert(tail.to_multiset().add(head.to_multiset()) =~= head.to_multiset().add(
        tail.to_multiset(),
    ));
}

/// Round-robin comes back to the same upstream after as many turns as there are available ones.
pub proof fn law_round_robin_cycles(s: Seq<UpstreamInfo>, counter: nat)
    requires
        available(s).len() > 0,
    ensures
        turn_of(available(s), (counter + available(s).len()) as int) == turn_of(
            available(s),
            counter as int,
        ),
{
    vstd::arithmetic::div_mod::lemma_mod_add_multiples_vanish(
        counter as int,
        available(s).len() as int,
    );
}

/// In a full weighted round, started anywhere, every available upstream gets exactly its turns and
/// no other upstream gets any.
pub proof fn law_weighted_round_is_fair(s: Seq<UpstreamInfo>, start: nat, i: int)
    requires
        weighted(s).len() > 0,
        0 <= i < s.len(),
    ensures
        full_round(weighted(s), start).to_multiset().count(i) == (if s[i].available() {
            turns(s[i])
        } else {
            0
        }),
{
    law_full_round_visits_all(weighted(s), start);
    lemma_weighted(s);
    assert(weighted(s).to_multiset().count(i) == weighted(s).to_multiset().count(i));
}

/// In a full round-robin round, started anywhere, every available upstream gets exactly one turn.
pub proof fn law_round_robin_is_fair(s: Seq<UpstreamInfo>, start: nat, i: int)
    requires
        available(s).len() > 0,
        0 <= i < s.len(),
    ensures
        full_round(available(s), start).to_multiset().count(i) == (if s[i].available() {
            1nat
        } else {
            0
        }),
{
    broadcast use vstd::seq_lib::group_to_multiset_ensures;

    law_full_round_visits_all(available(s), start);
    lemma_available(s);
    available(s).lemma_multiset_has_no_duplicates();
    let m = available(s).to_multiset();
    if s[i].available() {
        assert(available(s).contains(i));
        assert(m.contains(i));
        assert(m.count(i) == 1);
    } else {
        if available(s).contains(i) {
            let k = available(s).index_of(i);
            assert(available(s)[k] == i);
        }
    }
}

/// The turns of a round come in its order, one after the other, and then from the start again.
pub proof fn law_turns_come_in_order(round: Seq<int>, counter: nat)
    requires
        round.len() > 0,
    ensures
        counter < round.len() ==> turn_of(round, counter as int) == Some(round[counter as int]),
        turn_of(round, (counter + round.len()) as int) == turn_of(round, counter as int),
{
    if counter < round.len() {
        vstd::arithmetic::div_mod::lemma_small_mod(counter, round.len());
    }
    vstd::arithmetic::div_mod::lemma_mod_add_multiples_vanish(counter as int, round.len() as int);
}

/// The list of the available upstreams names each of them once, in order, and no other.
pub proof fn law_available_are_listed(s: Seq<UpstreamInfo>)
    ensures
        forall|i: int| #[trigger]
            available(s).contains(i) <==> 0 <= i < s.len() && s[i].health_state
                != HealthState::Unhealthy,
        forall|a: int, b: int| 0 <= a < b < available(s).len() ==> available(s)[a] < available(s)[b],
    decreases s.len(),
{
    lemma_available(s);
    assert forall|i: int| #[trigger] available(s).contains(i) implies 0 <= i < s.len()
        && s[i].health_state != HealthState::Unhealthy by {
        let k = available(s).index_of(i);
        assert(available(s)[k] == i);
    }
    assert forall|i: int|
        0 <= i < s.len() && s[i].health_state
            != HealthState::Unhealthy implies #[trigger] available(s).contains(i) by {
        assert(s[i].available());
    }
    if s.len() > 0 {
        let rest = s.drop_last();
        law_available_are_listed(rest);
        lemma_available(rest);
        assert forall|a: int, b: int|
            0 <= a < b < available(s).len() implies available(s)[a] < available(s)[b] by {
            if b < available(rest).len() {
                assert(available(rest)[a] < available(rest)[b]);
            } else {
                assert(available(rest)[a] == available(s)[a]);
                assert(available(rest).contains(available(rest)[a]));
            }
        }
    }
}

/// The places that selections give, in order; none for a selection that gives none.
pub open spec fn served(results: Seq<Selection>) -> Seq<int> {
    results.map_values(
        |r: Selection|
            match r {
                Selection::Upstream(i) => i as int,
                _ => -1,
            },
    )
}

proof fn lemma_served(round: Seq<int>, start: nat, results: Seq<Selection>)
    requires
        results.len() == round.len() > 0,
        forall|k: int|
            0 <= k < results.len() ==> (#[trigger] results[k]).chooses(
                turn_of(round, start + k),
            ),
    ensures
        served(results) == full_round(round, start),
{
    assert forall|k: int| 0 <= k < round.len() implies served(results)[k] == full_round(
        round,
        start,
    )[k] by {
        assert(results[k].chooses(turn_of(round, start + k)));
    }
    assert(served(results) =~= full_round(round, start));
}

/// Round-robin is fair: as many selections in turn as there are available upstreams give each of
/// those exactly one request, wherever they start, and no other upstream any.
pub proof fn law_round_robin_serves_each_once(
    s: Seq<UpstreamInfo>,
    start: nat,
    results: Seq<Selection>,
    i: int,
)
    requires
        results.len() == available(s).len() > 0,
        forall|k: int|
            0 <= k < results.len() ==> (#[trigger] results[k]).chooses(
                turn_of(available(s), start + k),
            ),
        0 <= i < s.len(),
    ensures
        served(results).to_multiset().count(i) == (if s[i].health_state
            != HealthState::Unhealthy {
            1nat
        } else {
            0
        }),
{
    lemma_served(available(s), start, results);
    law_round_robin_is_fair(s, start, i);
}

/// Weighted round-robin is fair: in a full round of selections in turn, wherever it starts, every
/// available upstream gets as many requests as its weight says, one where its weight is zero, and no
/// other upstream gets any.
pub proof fn law_weighted_round_serves_by_weight(
    s: Seq<UpstreamInfo>,
    start: nat,
    results: Seq<Selection>,
    i: int,
)
    requires
        results.len() == weighted(s).len() > 0,
        forall|k: int|
            0 <= k < results.len() ==> (#[trigger] results[k]).chooses(
                turn_of(weighted(s), start + k),
            ),
        0 <= i < s.len(),
    ensures
        served(results).to_multiset().count(i) == (if s[i].health_state
            == HealthState::Unhealthy {
            0nat
        } else if s[i].config.weight == 0 {
            1
        } else {
            s[i].config.weight as nat
        }),
{
    lemma_served(weighted(s), start, results);
    law_weighted_round_is_fair(s, start, i);
}

/// In a weighted round the upstreams come in order, each with all its turns in a row.
pub proof fn law_weighted_round_is_in_order(s: Seq<UpstreamInfo>)
    ensures
        forall|a: int, b: int| 0 <= a <= b < weighted(s).len() ==> weighted(s)[a] <= weighted(s)[b],
    decreases s.len(),
{
    if s.len() > 0 {
        let rest = s.drop_last();
        law_weighted_round_is_in_order(rest);
        lemma_weighted(rest);
        assert forall|a: int, b: int| 0 <= a <= b < weighted(s).len() implies weighted(s)[a]
            <= weighted(s)[b] by {
            if b < weighted(rest).len() {
                assert(weighted(rest)[a] <= weighted(rest)[b]);
            } else if a < weighted(rest).len() {
                assert(weighted(rest)[a] == weighted(s)[a]);
                assert(weighted(rest)[a] < rest.len());
            }
        }
    }
}

/// An upstream that is chosen for its connections is available, and no available upstream has fewer
/// connections, nor as few at an earlier place.
pub proof fn law_fewest_connections_win(s: Seq<UpstreamInfo>, i: int, j: int)
    requires
        least_loaded(s, i),
        0 <= j < s.len(),
        s[j].health_state != HealthState::Unhealthy,
    ensures
        s[i].health_state != HealthState::Unhealthy,
        s[i].stats.active_connections <= s[j].stats.active_connections,
        s[i].stats.active_connections == s[j].stats.active_connections ==> i <= j,
{
    assert(s[j].available());
}

/// The candidates of a choice by health are exactly the available upstreams, in order, each with its
/// own score and weight.
pub proof fn law_candidates_are_the_available(s: Seq<UpstreamInfo>)
    requires
        s.len() <= usize::MAX,
    ensures
        candidates(s).len() == available(s).len(),
        forall|k: int|
            0 <= k < candidates(s).len() ==> (#[trigger] candidates(s)[k]).index == available(s)[k]
                && candidates(s)[k].score == s[available(s)[k]].score() && candidates(s)[k].weight
                == s[available(s)[k]].config.weight,
    decreases s.len(),
{
    lemma_available(s);
    if s.len() > 0 {
        let rest = s.drop_last();
        law_candidates_are_the_available(rest);
        lemma_available(rest);
        assert forall|k: int| 0 <= k < candidates(s).len() implies (
        #[trigger] candidates(s)[k]).index == available(s)[k] && candidates(s)[k].score
            == s[available(s)[k]].score() && candidates(s)[k].weight
            == s[available(s)[k]].config.weight by {
            if k < candidates(rest).len() {
                assert(candidates(rest)[k] == candidates(s)[k]);
                assert(available(rest)[k] == available(s)[k]);
                assert(rest[available(rest)[k]] == s[available(s)[k]]);
            }
        }
    }
}

/// A weighted round over a prefix of the upstreams begins the weighted round over all.
proof fn lemma_weighted_prefix(s: Seq<UpstreamInfo>, n: int)
    requires
        0 <= n <= s.len(),
    ensures
        weighted(s.take(n)).len() <= weighted(s).len(),
        forall|k: int|
            0 <= k < weighted(s.take(n)).len() ==> #[trigger] weighted(s.take(n))[k] == weighted(
                s,
            )[k],
    decreases s.len(),
{
    if n < s.len() {
        lemma_weighted_prefix(s.drop_last(), n);
        assert(s.drop_last().take(n) =~= s.take(n));
    } else {
        assert(s.take(n) =~= s);
    }
}

/// The labels belong to available upstreams, and there are none only where no upstream is available.
proof fn lemma_labels(s: Seq<UpstreamInfo>, nodes: nat)
    requires
        s.len() <= usize::MAX,
    ensures
        forall|k: int|
            0 <= k < node_labels(s, nodes).len() ==> (#[trigger] node_labels(s, nodes)[k]).1 < s.len()
                && s[node_labels(s, nodes)[k].1 as int].available(),
        nodes > 0 ==> (node_labels(s, nodes).len() == 0 <==> available(s).len() == 0),
    decreases s.len(),
{
    if s.len() > 0 {
        let rest = s.drop_last();
        lemma_labels(rest, nodes);
        assert forall|k: int| 0 <= k < node_labels(s, nodes).len() implies (#[trigger] node_labels(
            s,
            nodes,
        )[k]).1 < s.len() && s[node_labels(s, nodes)[k].1 as int].available() by {
            if k < node_labels(rest, nodes).len() {
                assert(node_labels(rest, nodes)[k] == node_labels(s, nodes)[k]);
                assert(rest[node_labels(rest, nodes)[k].1 as int].available());
            }
        }
    }
}

/// Every available upstream has all its labels and no other has any.
proof fn lemma_label_counts(s: Seq<UpstreamInfo>, nodes: nat, i: int)
    requires
        s.len() <= usize::MAX,
        0 <= i < s.len(),
    ensures
        label_owners(node_labels(s, nodes)).to_multiset().count(i as usize) == (
        if s[i].available() {
            nodes
        } else {
            0
        }),
        s[i].available() ==> forall|k: nat|
            k < nodes ==> node_labels(s, nodes).contains(
                (s[i].config.name@ + ":"@ + #[trigger] text::decimal(k), i as usize),
            ),
    decreases s.len(),
{
    broadcast use vstd::seq_lib::group_to_multiset_ensures;

    let rest = s.drop_last();
    let last = (s.len() - 1) as usize;
    let block = Seq::new(
        nodes,
        |k: int| (s.last().config.name@ + ":"@ + text::decimal(k as nat), last),
    );
    let tail = if s.last().available() {
        block
    } else {
        Seq::empty()
    };
    let before = node_labels(rest, nodes);
    assert(node_labels(s, nodes) =~= before + tail);
    assert(label_owners(before + tail) =~= label_owners(before) + label_owners(tail));
    vstd::seq_lib::lemma_multiset_commutative(label_owners(before), label_owners(tail));
    lemma_same_owner(label_owners(tail), last, i as usize);
    if i < rest.len() {
        assert(rest[i] == s[i]);
        lemma_label_counts(rest, nodes, i);
        assert forall|k: nat| k < nodes && s[i].available() implies node_labels(
            s,
            nodes,
        ).contains(
            (s[i].config.name@ + ":"@ + #[trigger] text::decimal(k), i as usize),
        ) by {
            let label = (s[i].config.name@ + ":"@ + text::decimal(k), i as usize);
            assert(before.contains(label));
            assert((before + tail)[before.index_of(label)] == label);
        }
    } else {
        lemma_labels(rest, nodes);
        if label_owners(before).contains(last) {
            let k = label_owners(before).index_of(last);
            assert(before[k].1 == last);
        }
        assert(label_owners(before).to_multiset().count(last) == 0);
        assert forall|k: nat| k < nodes && s[i].available() implies node_labels(
            s,
            nodes,
        ).contains(
            (s[i].config.name@ + ":"@ + #[trigger] text::decimal(k), i as usize),
        ) by {
            assert(block[k as int] == (s.last().config.name@ + ":"@ + text::decimal(k), last));
            assert((before + tail)[before.len() + k as int] == block[k as int]);
        }
    }
}

proof fn lemma_same_owner(s: Seq<usize>, item: usize, i: usize)
    requires
        forall|k: int| 0 <= k < s.len() ==> s[k] == item,
    ensures
        s.to_multiset().count(i) == (if i == item {
            s.len()
        } else {
            0
        }),
    decreases s.len(),
{
    broadcast use vstd::seq_lib::group_to_multiset_ensures;

    if s.len() > 0 {
        lemma_same_owner(s.drop_last(), item, i);
        vstd::seq_lib::to_multiset_build(s.drop_last(), item);
        assert(s =~= s.drop_last().push(item));
    }
}

/// Labels depend on nothing but names and availability.
proof fn lemma_same_labels(s: Seq<UpstreamInfo>, t: Seq<UpstreamInfo>, nodes: nat)
    requires
        s.len() == t.len(),
        forall|i: int|
            0 <= i < s.len() ==> (#[trigger] s[i]).available() == t[i].available()
                && s[i].config.name@ == t[i].config.name@,
    ensures
        node_labels(s, nodes) == node_labels(t, nodes),
    decreases s.len(),
{
    if s.len() > 0 {
        assert forall|i: int| 0 <= i < s.len() - 1 implies (#[trigger] s.drop_last()[i]).available()
            == t.drop_last()[i].available() && s.drop_last()[i].config.name@
            == t.drop_last()[i].config.name@ by {
            assert(s[i].available() == t[i].available());
        }
        lemma_same_labels(s.drop_last(), t.drop_last(), nodes);
        assert(s[s.len() - 1].available() == t[t.len() - 1].available());
        assert(node_labels(s, nodes) =~= node_labels(t, nodes));
    }
}

/// The points of labels whose hashes a function gives.
pub open spec fn points_by(
    hash: spec_fn(Seq<char>) -> u64,
    labels: Seq<(Seq<char>, usize)>,
) -> hash_ring::Points {
    labels.map_values(|l: (Seq<char>, usize)| (hash(l.0), l.1))
}

/// The upstream of a session on a ring that a hash function lays out for these upstreams.
pub open spec fn session_owner(
    s: Seq<UpstreamInfo>,
    hash: spec_fn(Seq<char>) -> u64,
    key: Seq<char>,
) -> Option<usize> {
    hash_ring::owner_of(points_by(hash, node_labels(s, VIRTUAL_NODES as nat)), hash(key))
}

/// When an upstream fails, exactly its own points leave the ring.
pub proof fn law_failed_upstream_leaves_the_ring(
    s: Seq<UpstreamInfo>,
    t: Seq<UpstreamInfo>,
    failed: int,
    hash: spec_fn(Seq<char>) -> u64,
    nodes: nat,
)
    requires
        s.len() == t.len() <= usize::MAX,
        0 <= failed < s.len(),
        !t[failed].available(),
        forall|i: int|
            0 <= i < s.len() && i != failed ==> (#[trigger] s[i]).available() == t[i].available()
                && s[i].config.name@ == t[i].config.name@,
    ensures
        points_by(hash, node_labels(t, nodes)) == hash_ring::without(
            points_by(hash, node_labels(s, nodes)),
            failed as usize,
        ),
    decreases s.len(),
{
    let last = s.len() - 1;
    let rest = s.drop_last();
    let left = t.drop_last();
    assert(s[last] == s.last() && t[last] == t.last());
    let before = points_by(hash, node_labels(rest, nodes));
    let block = Seq::new(
        nodes,
        |k: int|
            (
                hash(s.last().config.name@ + ":"@ + text::decimal(k as nat)),
                (s.len() - 1) as usize,
            ),
    );
    assert forall|k: int| 0 <= k < block.len() implies (#[trigger] block[k]).1 == last as usize by {}
    assert(points_by(hash, node_labels(s, nodes)) =~= if s.last().available() {
        before + block
    } else {
        before
    });
    hash_ring::lemma_without_add(before, block, failed as usize);
    hash_ring::lemma_without_one(block, last as usize, failed as usize);
    assert forall|i: int| 0 <= i < rest.len() && i != failed implies (
    #[trigger] rest[i]).available() == left[i].available() && rest[i].config.name@
        == left[i].config.name@ by {
        assert(s[i].available() == t[i].available());
    }
    if last == failed {
        lemma_same_labels(rest, left, nodes);
        lemma_labels(rest, nodes);
        assert forall|k: int| 0 <= k < before.len() implies (#[trigger] before[k]).1
            != failed as usize by {
            assert(node_labels(rest, nodes)[k].1 < rest.len());
        }
        hash_ring::lemma_without_absent(before, failed as usize);
        assert(before + Seq::<(u64, usize)>::empty() =~= before);
    } else {
        law_failed_upstream_leaves_the_ring(rest, left, failed, hash, nodes);
        let kept = points_by(hash, node_labels(left, nodes));
        assert(points_by(hash, node_labels(t, nodes)) =~= if t.last().available() {
            kept + block
        } else {
            kept
        });
    }
}

/// A session stays with its upstream while that upstream is available, whichever others fail.
pub proof fn law_sessions_stick(
    s: Seq<UpstreamInfo>,
    t: Seq<UpstreamInfo>,
    hash: spec_fn(Seq<char>) -> u64,
    key: Seq<char>,
    x: usize,
)
    requires
        s.len() == t.len() <= usize::MAX,
        forall|i: int|
            0 <= i < s.len() ==> (#[trigger] s[i]).config.name@ == t[i].config.name@ && (
            t[i].available() ==> s[i].available()),
        session_owner(s, hash, key) == Some(x),
        x < t.len(),
        t[x as int].available(),
    ensures
        session_owner(t, hash, key) == Some(x),
{
    lemma_session_sticks(s, t, hash, key, x, s.len() as int);
    assert(t.take(s.len() as int) + s.skip(s.len() as int) =~= t);
}

/// The session stays while the first `n` upstreams come to be as they are later.
proof fn lemma_session_sticks(
    s: Seq<UpstreamInfo>,
    t: Seq<UpstreamInfo>,
    hash: spec_fn(Seq<char>) -> u64,
    key: Seq<char>,
    x: usize,
    n: int,
)
    requires
        s.len() == t.len() <= usize::MAX,
        forall|i: int|
            0 <= i < s.len() ==> (#[trigger] s[i]).config.name@ == t[i].config.name@ && (
            t[i].available() ==> s[i].available()),
        session_owner(s, hash, key) == Some(x),
        x < t.len(),
        t[x as int].available(),
        0 <= n <= s.len(),
    ensures
        session_owner(t.take(n) + s.skip(n), hash, key) == Some(x),
    decreases n,
{
    if n == 0 {
        assert(t.take(n) + s.skip(n) =~= s);
    } else {
        lemma_session_sticks(s, t, hash, key, x, n - 1);
        let nodes = VIRTUAL_NODES as nat;
        let before = t.take(n - 1) + s.skip(n - 1);
        let after = t.take(n) + s.skip(n);
        assert(s[n - 1].config.name@ == t[n - 1].config.name@);
        assert forall|i: int| 0 <= i < before.len() && i != n - 1 implies #[trigger] before[i]
            == after[i] by {}
        if t[n - 1].available() == s[n - 1].available() {
            assert forall|i: int| 0 <= i < before.len() implies (#[trigger] before[i]).available()
                == after[i].available() && before[i].config.name@ == after[i].config.name@ by {}
            lemma_same_labels(before, after, nodes);
        } else {
            law_failed_upstream_leaves_the_ring(before, after, n - 1, hash, nodes);
            hash_ring::law_only_orphans_move(
                points_by(hash, node_labels(before, nodes)),
                (n - 1) as usize,
                hash(key),
            );
        }
    }
}

/// A session goes to an upstream that is available, and to none only where none is available.
pub proof fn law_sessions_go_to_available(
    s: Seq<UpstreamInfo>,
    hash: spec_fn(Seq<char>) -> u64,
    key: Seq<char>,
)
    requires
        s.len() <= usize::MAX,
    ensures
        session_owner(s, hash, key) is None <==> available(s).len() == 0,
        session_owner(s, hash, key) matches Some(i) ==> i < s.len() && s[i as int].available(),
{
    let labels = node_labels(s, VIRTUAL_NODES as nat);
    let points = points_by(hash, labels);
    lemma_labels(s, VIRTUAL_NODES as nat);
    if points.len() > 0 {
        hash_ring::lemma_successor_exists(points, hash(key));
        hash_ring::lemma_ring_map(points);
        let x = hash_ring::successor(points, hash(key));
        let owner = hash_ring::ring_map(points)[x];
        assert(hash_ring::ring_map(points).contains_key(x));
        let k = points.index_of((x, owner));
        assert(labels[k].1 == owner);
    }
}

/// The places of the available upstreams.
fn available_places(upstreams: &Vec<UpstreamInfo>) -> (result: Vec<usize>)
    ensures
        result@.map_values(|i: usize| i as int) == available(upstreams@),
        result@.len() == available(upstreams@).len(),
{
    let mut result: Vec<usize> = Vec::new();
    let mut i: usize = 0;
    assert(result@.map_values(|i: usize| i as int) =~= available(upstreams@.take(0)));
    while i < upstreams.len()
        invariant
            i <= upstreams@.len(),
            result@.map_values(|i: usize| i as int) == available(upstreams@.take(i as int)),
        decreases upstreams@.len() - i,
    {
        let ghost before = result@;
        assert(upstreams@.take(i + 1).drop_last() =~= upstreams@.take(i as int));
        if upstreams[i].is_available() {
            result.push(i);
            assert(result@.map_values(|i: usize| i as int) =~= before.map_values(
                |i: usize| i as int,
            ).push(i as int));
        }
        i += 1;
    }
    assert(upstreams@.take(i as int) =~= upstreams@);
    assert(result@.map_values(|i: usize| i as int).len() == result@.len());
    result
}

/// The labels of the points on the hash ring.
pub fn ring_labels(upstreams: &Vec<UpstreamInfo>, nodes: usize) -> (result: Vec<(String, usize)>)
    ensures
        result@.map_values(|l: (String, usize)| (l.0@, l.1)) == node_labels(
            upstreams@,
            nodes as nat,
        ),
{
    let ghost plain = |l: (String, usize)| (l.0@, l.1);
    let mut result: Vec<(String, usize)> = Vec::new();
    let mut i: usize = 0;
    assert(result@.map_values(plain) =~= node_labels(upstreams@.take(0), nodes as nat));
    while i < upstreams.len()
        invariant
            i <= upstreams@.len(),
            plain == |l: (String, usize)| (l.0@, l.1),
            result@.map_values(plain) == node_labels(upstreams@.take(i as int), nodes as nat),
        decreases upstreams@.len() - i,
    {
        let ghost s = upstreams@.take(i + 1);
        assert(s.drop_last() =~= upstreams@.take(i as int));
        if upstreams[i].is_available() {
            let ghost before = result@.map_values(plain);
            let ghost label = |k: int|
                (s.last().config.name@ + ":"@ + text::decimal(k as nat), (s.len() - 1) as usize);
            let mut k: usize = 0;
            assert(result@.map_values(plain) =~= before + Seq::new(0, label));
            while k < nodes
                invariant
                    k <= nodes,
                    i < upstreams@.len(),
                    s == upstreams@.take(i + 1),
                    plain == |l: (String, usize)| (l.0@, l.1),
                    label == |k: int|
                        (
                            s.last().config.name@ + ":"@ + text::decimal(k as nat),
                            (s.len() - 1) as usize,
                        ),
                    result@.map_values(plain) == before + Seq::new(k as nat, label),
                decreases nodes - k,
            {
                let number = text::number(k as u64);
                let name = text::cat3(upstreams[i].config.name.as_str(), ":", number.as_str());
                let ghost earlier = result@;
                result.push((name, i));
                proof {
                    assert(result@.map_values(plain) =~= earlier.map_values(plain).push(
                        label(k as int),
                    ));
                    assert(result@.map_values(plain) =~= before + Seq::new((k + 1) as nat, label));
                }
                k += 1;
            }
            assert(result@.map_values(plain) =~= node_labels(s, nodes as nat));
        }
        i += 1;
    }
    assert(upstreams@.take(i as int) =~= upstreams@);
    result
}

// ---------------------------------------------------------------------------------------------
// Choosing by health
// ---------------------------------------------------------------------------------------------

/// Candidates with the keys of their scores, the higher the better, ordered best first; of equal
/// ones, the earlier first. A key of zero is no candidate.
pub open spec fn ranked(scores: Seq<(usize, u64)>) -> Seq<(usize, u64)>
    decreases scores.len(),
{
    if scores.len() == 0 {
        Seq::empty()
    } else if scores.last().1 == 0 {
        ranked(scores.drop_last())
    } else {
        rank_in(ranked(scores.drop_last()), scores.last())
    }
}

/// The ranking with one more candidate, which goes behind all that are at least as good.
pub open spec fn rank_in(ranking: Seq<(usize, u64)>, new: (usize, u64)) -> Seq<(usize, u64)>
    decreases ranking.len(),
{
    if ranking.len() == 0 || ranking.last().1 >= new.1 {
        ranking.push(new)
    } else {
        rank_in(ranking.drop_last(), new).push(ranking.last())
    }
}

/// The ranking is in order of the keys, none of which is zero.
pub proof fn law_ranking_is_ordered(scores: Seq<(usize, u64)>)
    ensures
        forall|i: int, j: int|
            0 <= i <= j < ranked(scores).len() ==> ranked(scores)[i].1 >= ranked(scores)[j].1,
        forall|i: int| 0 <= i < ranked(scores).len() ==> (#[trigger] ranked(scores)[i]).1 > 0,
        ranked(scores).len() == 0 <==> forall|i: int|
            0 <= i < scores.len() ==> (#[trigger] scores[i]).1 == 0,
        forall|i: int|
            0 <= i < ranked(scores).len() ==> scores.contains(#[trigger] ranked(scores)[i]),
    decreases scores.len(),
{
    if scores.len() > 0 {
        let rest = scores.drop_last();
        let r = ranked(rest);
        law_ranking_is_ordered(rest);
        if scores.last().1 > 0 {
            lemma_rank_in(r, scores.last());
            assert(scores[scores.len() - 1].1 > 0);
            assert forall|i: int| 0 <= i < ranked(scores).len() implies scores.contains(
                #[trigger] ranked(scores)[i],
            ) by {
                let x = rank_in(r, scores.last())[i];
                if x == scores.last() {
                    assert(scores[scores.len() - 1] == x);
                } else {
                    let k = r.index_of(x);
                    assert(rest.contains(r[k]));
                    let m = rest.index_of(x);
                    assert(scores[m] == x);
                }
            }
        } else {
            assert forall|i: int| 0 <= i < ranked(scores).len() implies scores.contains(
                #[trigger] ranked(scores)[i],
            ) by {
                assert(rest.contains(r[i]));
                let m = rest.index_of(r[i]);
                assert(scores[m] == r[i]);
            }
            if r.len() == 0 {
                assert forall|i: int| 0 <= i < scores.len() implies (#[trigger] scores[i]).1
                    == 0 by {
                    if i < rest.len() {
                        assert(rest[i].1 == 0);
                    }
                }
            } else {
                if forall|i: int| 0 <= i < scores.len() ==> (#[trigger] scores[i]).1 == 0 {
                    assert forall|i: int| 0 <= i < rest.len() implies (#[trigger] rest[i]).1
                        == 0 by {
                        assert(scores[i].1 == 0);
                    }
                }
            }
        }
    }
}

/// The ranking leaves no candidate out and adds none: it holds each as often as it is given, but for
/// those with a key of zero.
pub proof fn law_ranking_is_complete(scores: Seq<(usize, u64)>, x: (usize, u64))
    ensures
        ranked(scores).to_multiset().count(x) == (if x.1 == 0 {
            0
        } else {
            scores.to_multiset().count(x)
        }),
    decreases scores.len(),
{
    broadcast use vstd::seq_lib::group_to_multiset_ensures;

    if scores.len() > 0 {
        let rest = scores.drop_last();
        law_ranking_is_complete(rest, x);
        assert(scores =~= rest.push(scores.last()));
        vstd::seq_lib::to_multiset_build(rest, scores.last());
        if scores.last().1 > 0 {
            lemma_rank_in_count(ranked(rest), scores.last(), x);
        }
    }
}

proof fn lemma_rank_in_count(ranking: Seq<(usize, u64)>, new: (usize, u64), x: (usize, u64))
    ensures
        rank_in(ranking, new).to_multiset().count(x) == ranking.to_multiset().count(x) + (if x
            == new {
            1nat
        } else {
            0
        }),
    decreases ranking.len(),
{
    broadcast use vstd::seq_lib::group_to_multiset_ensures;

    if ranking.len() == 0 || ranking.last().1 >= new.1 {
        vstd::seq_lib::to_multiset_build(ranking, new);
    } else {
        let rest = ranking.drop_last();
        lemma_rank_in_count(rest, new, x);
        vstd::seq_lib::to_multiset_build(rank_in(rest, new), ranking.last());
        vstd::seq_lib::to_multiset_build(rest, ranking.last());
        assert(ranking =~= rest.push(ranking.last()));
    }
}

/// Where candidates are given in the order of their places, those with the same key stay in it.
pub proof fn law_ranking_keeps_ties_in_order(scores: Seq<(usize, u64)>)
    requires
        forall|i: int, j: int| 0 <= i < j < scores.len() ==> scores[i].0 < scores[j].0,
    ensures
        forall|i: int, j: int|
            0 <= i < j < ranked(scores).len() && ranked(scores)[i].1 == ranked(scores)[j].1
                ==> ranked(scores)[i].0 < ranked(scores)[j].0,
    decreases scores.len(),
{
    if scores.len() > 0 {
        let rest = scores.drop_last();
        assert forall|i: int, j: int| 0 <= i < j < rest.len() implies rest[i].0 < rest[j].0 by {
            assert(scores[i].0 < scores[j].0);
        }
        law_ranking_keeps_ties_in_order(rest);
        law_ranking_is_ordered(rest);
        if scores.last().1 > 0 {
            assert forall|i: int| 0 <= i < ranked(rest).len() implies (
            #[trigger] ranked(rest)[i]).0 < scores.last().0 by {
                assert(rest.contains(ranked(rest)[i]));
                let k = rest.index_of(ranked(rest)[i]);
                assert(scores[k].0 < scores[scores.len() - 1].0);
            }
            lemma_rank_in_ties(ranked(rest), scores.last());
        }
    }
}

proof fn lemma_rank_in_ties(ranking: Seq<(usize, u64)>, new: (usize, u64))
    requires
        forall|i: int, j: int| 0 <= i <= j < ranking.len() ==> ranking[i].1 >= ranking[j].1,
        forall|i: int, j: int|
            0 <= i < j < ranking.len() && ranking[i].1 == ranking[j].1 ==> ranking[i].0
                < ranking[j].0,
        forall|i: int| 0 <= i < ranking.len() ==> (#[trigger] ranking[i]).0 < new.0,
    ensures
        forall|i: int, j: int|
            0 <= i < j < rank_in(ranking, new).len() && rank_in(ranking, new)[i].1 == rank_in(
                ranking,
                new,
            )[j].1 ==> rank_in(ranking, new)[i].0 < rank_in(ranking, new)[j].0,
    decreases ranking.len(),
{
    if ranking.len() > 0 && ranking.last().1 < new.1 {
        let rest = ranking.drop_last();
        assert forall|i: int| 0 <= i < rest.len() implies (#[trigger] rest[i]).0 < new.0 by {
            assert(ranking[i].0 < new.0);
        }
        lemma_rank_in_ties(rest, new);
        lemma_rank_in(rest, new);
        let r = rank_in(rest, new);
        assert forall|i: int, j: int|
            0 <= i < j < rank_in(ranking, new).len() && rank_in(ranking, new)[i].1 == rank_in(
                ranking,
                new,
            )[j].1 implies rank_in(ranking, new)[i].0 < rank_in(ranking, new)[j].0 by {
            if j == r.len() {
                assert(r[i] != new);
                assert(rest.contains(r[i]));
                let k = rest.index_of(r[i]);
                assert(ranking[k] == r[i]);
            }
        }
    }
}

proof fn lemma_rank_in(ranking: Seq<(usize, u64)>, new: (usize, u64))
    requires
        forall|i: int, j: int| 0 <= i <= j < ranking.len() ==> ranking[i].1 >= ranking[j].1,
    ensures
        rank_in(ranking, new).len() == ranking.len() + 1,
        forall|i: int, j: int|
            0 <= i <= j < rank_in(ranking, new).len() ==> rank_in(ranking, new)[i].1 >= rank_in(
                ranking,
                new,
            )[j].1,
        forall|i: int|
            0 <= i < rank_in(ranking, new).len() ==> #[trigger] rank_in(ranking, new)[i] == new
                || ranking.contains(rank_in(ranking, new)[i]),
    decreases ranking.len(),
{
    if ranking.len() > 0 && ranking.last().1 < new.1 {
        let rest = ranking.drop_last();
        lemma_rank_in(rest, new);
        let r = rank_in(rest, new);
        assert forall|i: int| 0 <= i < r.len() implies r[i].1 >= ranking.last().1 by {
            if r[i] != new {
                let k = rest.index_of(r[i]);
                assert(ranking[k] == r[i]);
            }
        }
        assert forall|i: int| 0 <= i < rank_in(ranking, new).len() implies #[trigger] rank_in(
            ranking,
            new,
        )[i] == new || ranking.contains(rank_in(ranking, new)[i]) by {
            if i < r.len() {
                if r[i] != new {
                    let k = rest.index_of(r[i]);
                    assert(ranking[k] == r[i]);
                }
            } else {
                assert(ranking[ranking.len() - 1] == rank_in(ranking, new)[i]);
            }
        }
    } else {
        assert forall|i: int| 0 <= i < rank_in(ranking, new).len() implies #[trigger] rank_in(
            ranking,
            new,
        )[i] == new || ranking.contains(rank_in(ranking, new)[i]) by {
            if i < ranking.len() {
                assert(ranking[i] == rank_in(ranking, new)[i]);
            }
        }
    }
}

proof fn lemma_rank_in_place(ranking: Seq<(usize, u64)>, new: (usize, u64), at: int)
    requires
        0 <= at <= ranking.len(),
        at > 0 ==> ranking[at - 1].1 >= new.1,
        forall|i: int| at <= i < ranking.len() ==> ranking[i].1 < new.1,
    ensures
        rank_in(ranking, new) == ranking.insert(at, new),
    decreases ranking.len(),
{
    if at < ranking.len() {
        lemma_rank_in_place(ranking.drop_last(), new, at);
        assert(rank_in(ranking, new) =~= ranking.insert(at, new));
    } else {
        assert(rank_in(ranking, new) =~= ranking.insert(at, new));
    }
}

/// Orders candidates by the keys of their scores, best first.
pub fn rank(scores: &Vec<(usize, u64)>) -> (result: Vec<(usize, u64)>)
    ensures
        result@ == ranked(scores@),
{
    let mut result: Vec<(usize, u64)> = Vec::new();
    let mut i: usize = 0;
    while i < scores.len()
        invariant
            i <= scores@.len(),
            result@ == ranked(scores@.take(i as int)),
        decreases scores@.len() - i,
    {
        assert(scores@.take(i + 1).drop_last() =~= scores@.take(i as int));
        let new = scores[i];
        if new.1 > 0 {
            let mut at: usize = result.len();
            while at > 0 && result[at - 1].1 < new.1
                invariant
                    at <= result@.len(),
                    forall|k: int| at <= k < result@.len() ==> result@[k].1 < new.1,
                decreases at,
            {
                at -= 1;
            }
            proof {
                lemma_rank_in_place(result@, new, at as int);
            }
            result.insert(at, new);
        }
        i += 1;
    }
    assert(scores@.take(i as int) =~= scores@);
    result
}

/// The first candidate of a ranking at which the drawn score is used up, or the best one where it
/// never is.
pub open spec fn drawn(ranking: Seq<(usize, u64)>, used_up: Seq<bool>) -> Option<usize> {
    if ranking.len() == 0 {
        None
    } else {
        let i = first_true(used_up, ranking.len() as int);
        Some(ranking[if i < ranking.len() { i } else { 0 }].0)
    }
}

/// The first place below `n` that is true, or `n`.
pub open spec fn first_true(s: Seq<bool>, n: int) -> int
    decreases s.len(),
{
    if s.len() == 0 || n <= 0 {
        if n < 0 {
            0
        } else {
            n
        }
    } else if s[0] {
        0
    } else {
        1 + first_true(s.drop_first(), n - 1)
    }
}

/// The draw takes the first candidate at which the drawn score is used up; where that never happens
/// it takes the best one.
pub proof fn law_draw_takes_the_first_used_up(
    ranking: Seq<(usize, u64)>,
    used_up: Seq<bool>,
    i: int,
)
    requires
        used_up.len() == ranking.len(),
        0 <= i < ranking.len(),
        forall|j: int| 0 <= j < i ==> !(#[trigger] used_up[j]),
    ensures
        used_up[i] ==> drawn(ranking, used_up) == Some(ranking[i].0),
        (forall|j: int| 0 <= j < used_up.len() ==> !(#[trigger] used_up[j])) ==> drawn(
            ranking,
            used_up,
        ) == Some(ranking[0].0),
        drawn(Seq::empty(), used_up) is None,
{
    if used_up[i] {
        lemma_first_true(used_up, ranking.len() as int, i);
    }
    if forall|j: int| 0 <= j < used_up.len() ==> !(#[trigger] used_up[j]) {
        lemma_never_true(used_up, ranking.len() as int);
    }
}

proof fn lemma_first_true(s: Seq<bool>, n: int, i: int)
    requires
        0 <= i < s.len(),
        i < n,
        s[i],
        forall|j: int| 0 <= j < i ==> !(#[trigger] s[j]),
    ensures
        first_true(s, n) == i,
    decreases s.len(),
{
    if i > 0 {
        assert(!s[0]);
        assert forall|j: int| 0 <= j < i - 1 implies !(#[trigger] s.drop_first()[j]) by {
            assert(!s[j + 1]);
        }
        lemma_first_true(s.drop_first(), n - 1, i - 1);
    }
}

proof fn lemma_never_true(s: Seq<bool>, n: int)
    requires
        s.len() == n,
        forall|j: int| 0 <= j < s.len() ==> !(#[trigger] s[j]),
    ensures
        first_true(s, n) == n,
    decreases s.len(),
{
    if s.len() > 0 {
        assert(!s[0]);
        assert forall|j: int| 0 <= j < s.len() - 1 implies !(#[trigger] s.drop_first()[j]) by {
            assert(!s[j + 1]);
        }
        lemma_never_true(s.drop_first(), n - 1);
    }
}

/// Chooses from a ranking, given at which candidates the drawn score is used up.
pub fn draw(ranking: &Vec<(usize, u64)>, used_up: &Vec<bool>) -> (result: Option<usize>)
    ensures
        result == drawn(ranking@, used_up@),
{
    if ranking.len() == 0 {
        return None;
    }
    let n = ranking.len();
    let mut i: usize = 0;
    assert(used_up@.skip(0) =~= used_up@);
    while i < n && i < used_up.len()
        invariant
            i <= n,
            n == ranking@.len(),
            n > 0,
            i <= used_up@.len(),
            first_true(used_up@, n as int) == i + first_true(used_up@.skip(i as int), n - i),
        decreases n - i,
    {
        if used_up[i] {
            return Some(ranking[i].0);
        }
        assert(used_up@.skip(i as int).drop_first() =~= used_up@.skip(i + 1));
        i += 1;
    }
    Some(ranking[0].0)
}

// ---------------------------------------------------------------------------------------------
// The router
// ---------------------------------------------------------------------------------------------

impl Router {
    /// The upstream servers.
    pub closed spec fn upstreams(self) -> Seq<UpstreamInfo> {
        self.upstreams@
    }

    /// The load balancing strategy.
    pub closed spec fn strategy(self) -> LoadBalancingStrategy {
        self.strategy
    }

    /// The turn that comes next.
    pub closed spec fn counter(self) -> usize {
        self.rr_counter
    }

    /// The points of the hash ring.
    pub closed spec fn points(self) -> hash_ring::Points {
        self.hash_ring.points()
    }

    /// With consistent hashing, the ring holds exactly the points of the available upstreams.
    pub closed spec fn wf(self) -> bool {
        &&& self.hash_ring.wf()
        &&& self.hash_ring.nodes_per_server() == VIRTUAL_NODES
        &&& self.strategy == LoadBalancingStrategy::ConsistentHashing ==> hash_ring::owners(
            self.points(),
        ) == label_owners(node_labels(self.upstreams(), VIRTUAL_NODES as nat)) && are_hashed(
            node_labels(self.upstreams(), VIRTUAL_NODES as nat),
            self.points(),
        )
    }

    /// Whether a session with this key may be given this upstream, or none: the one that the hash of
    /// the key leads to on the ring.
    pub open spec fn keeps_session(self, key: Seq<char>, choice: Option<usize>) -> bool {
        exists|hash: u64|
            hash_ring::is_hash_of(key, hash) && #[trigger] hash_ring::owner_of(self.points(), hash)
                == choice
    }

    /// The ring is laid out by a hash function.
    pub open spec fn laid_out_by(self, hash: spec_fn(Seq<char>) -> u64) -> bool {
        self.points() == points_by(hash, node_labels(self.upstreams(), VIRTUAL_NODES as nat))
    }

    /// Create a new router with the specified strategy.
    pub fn new(strategy: LoadBalancingStrategy) -> (result: Self)
        ensures
            result.wf(),
            result.upstreams() == Seq::<UpstreamInfo>::empty(),
            result.strategy() == strategy,
            result.counter() == 0,
    {
        let result = Router {
            upstreams: Vec::new(),
            strategy,
            rr_counter: 0,
            hash_ring: ConsistentHashRing::new(VIRTUAL_NODES),
        };
        proof {
            assert(hash_ring::owners(result.points()) =~= label_owners(
                node_labels(result.upstreams(), VIRTUAL_NODES as nat),
            ));
        }
        result
    }

    /// Lays the hash ring out for the upstreams that are available now.
    fn update_ring(&mut self)
        requires
            old(self).hash_ring.wf(),
            old(self).hash_ring.nodes_per_server() == VIRTUAL_NODES,
        ensures
            final(self).wf(),
            final(self).upstreams == old(self).upstreams,
            final(self).strategy == old(self).strategy,
            final(self).rr_counter == old(self).rr_counter,
    {
        let nodes = self.hash_ring.virtual_nodes();
        let labels = ring_labels(&self.upstreams, nodes);
        let ghost plain = labels@.map_values(|l: (String, usize)| (l.0@, l.1));
        let mut hashes: Vec<u64> = Vec::new();
        let mut i: usize = 0;
        while i < labels.len()
            invariant
                i <= labels@.len(),
                hashes@.len() == i,
                forall|k: int|
                    0 <= k < i ==> hash_ring::is_hash_of(labels@[k].0@, #[trigger] hashes@[k]),
            decreases labels@.len() - i,
        {
            hashes.push(hash_ring::hash_of(labels[i].0.as_str()));
            i += 1;
        }
        self.hash_ring.lay_labels(&labels, &hashes);
        proof {
            assert(hash_ring::owners(self.points()) =~= label_owners(plain));
            assert forall|k: int| 0 <= k < plain.len() implies hash_ring::is_hash_of(
                plain[k].0,
                (#[trigger] self.points()[k]).0,
            ) by {
                assert(self.points()[k].0 == hashes@[k]);
            }
        }
    }

    /// Update the list of upstream servers.
    pub fn update_upstreams(&mut self, configs: Vec<UpstreamConfig>, now: Instant) -> (result:
        Result<()>)
        requires
            old(self).wf(),
        ensures
            final(self).wf(),
            result is Ok,
            final(self).upstreams() == configs@.map_values(
                |c: UpstreamConfig| UpstreamInfo::fresh(c, now),
            ),
            final(self).strategy() == old(self).strategy(),
            final(self).counter() == old(self).counter(),
    {
        let ghost all = configs@;
        let ghost fresh = |c: UpstreamConfig| UpstreamInfo::fresh(c, now);
        let mut upstreams: Vec<UpstreamInfo> = Vec::new();
        for config in it: configs
            invariant
                it.seq() == all,
                fresh == |c: UpstreamConfig| UpstreamInfo::fresh(c, now),
                upstreams@ == all.take(it.index() as int).map_values(fresh),
        {
            let ghost n = it.index() as int;
            upstreams.push(UpstreamInfo::new(config, now));
            assert(upstreams@ =~= all.take(n + 1).map_values(fresh));
        }
        assert(all.take(all.len() as int) =~= all);
        self.upstreams = upstreams;
        if matches!(self.strategy, LoadBalancingStrategy::ConsistentHashing) {
            self.update_ring();
        }
        Ok(())
    }

    /// Select an upstream server for a request.
    pub fn select_upstream(&mut self, session_key: Option<&str>) -> (result: Selection)
        requires
            old(self).wf(),
        ensures
            final(self).wf(),
            final(self).upstreams() == old(self).upstreams(),
            final(self).strategy() == old(self).strategy(),
            final(self).points() == old(self).points(),
            result is Nothing <==> available(old(self).upstreams()).len() == 0,
            result matches Selection::Upstream(i) ==> i < old(self).upstreams().len()
                && old(self).upstreams()[i as int].available(),
            ({
                let s = old(self).upstreams();
                let c = old(self).counter();
                let turn = match old(self).strategy() {
                    LoadBalancingStrategy::RoundRobin => true,
                    LoadBalancingStrategy::WeightedRoundRobin => true,
                    LoadBalancingStrategy::ConsistentHashing => session_key is None,
                    _ => false,
                };
                &&& final(self).counter() == (if turn && result !is Nothing {
                    next_ticket(c)
                } else {
                    c
                })
                &&& match old(self).strategy() {
                    LoadBalancingStrategy::RoundRobin => result.chooses(
                        turn_of(available(s), c as int),
                    ),
                    LoadBalancingStrategy::WeightedRoundRobin => result.chooses(
                        turn_of(weighted(s), c as int),
                    ),
                    LoadBalancingStrategy::LeastConnections => result !is ByHealth && (
                    result matches Selection::Upstream(i) ==> least_loaded(s, i as int)),
                    LoadBalancingStrategy::ConsistentHashing => match session_key {
                        None => result.chooses(turn_of(available(s), c as int)),
                        Some(key) => exists|hash: u64|
                            hash_ring::is_hash_of(key@, hash) && result.chooses(
                                place(#[trigger] hash_ring::owner_of(old(self).points(), hash)),
                            ),
                    },
                    LoadBalancingStrategy::HealthAware => result !is Upstream && (
                    result matches Selection::ByHealth(list) ==> list@ == candidates(s)),
                }
            }),
    {
        proof {
            lemma_available(self.upstreams@);
            lemma_weighted(self.upstreams@);
        }
        match self.strategy {
            LoadBalancingStrategy::RoundRobin => self.select_round_robin(),
            LoadBalancingStrategy::WeightedRoundRobin => self.select_weighted_round_robin(),
            LoadBalancingStrategy::LeastConnections => self.select_least_connections(),
            LoadBalancingStrategy::ConsistentHashing => {
                if let Some(key) = session_key {
                    let hash = hash_ring::hash_of(key);
                    self.select_by_hash(hash)
                } else {
                    self.select_round_robin()
                }
            },
            LoadBalancingStrategy::HealthAware => self.select_health_aware(),
        }
    }

    /// Round-robin selection.
    fn select_round_robin(&mut self) -> (result: Selection)
        requires
            old(self).wf(),
        ensures
            final(self).wf(),
            final(self).upstreams == old(self).upstreams,
            final(self).strategy == old(self).strategy,
            final(self).hash_ring == old(self).hash_ring,
            result.chooses(turn_of(available(old(self).upstreams@), old(self).rr_counter as int)),
            final(self).rr_counter == (if result is Nothing {
                old(self).rr_counter
            } else {
                next_ticket(old(self).rr_counter)
            }),
    {
        let places = available_places(&self.upstreams);
        if places.len() == 0 {
            return Selection::Nothing;
        }
        let index: usize = self.rr_counter % places.len();
        self.rr_counter = self.rr_counter.wrapping_add(1);
        proof {
            let round = places@.map_values(|i: usize| i as int);
            assert(round[index as int] == places@[index as int]);
        }
        Selection::Upstream(places[index])
    }

    /// Weighted round-robin selection.
    fn select_weighted_round_robin(&mut self) -> (result: Selection)
        requires
            old(self).wf(),
        ensures
            final(self).wf(),
            final(self).upstreams == old(self).upstreams,
            final(self).strategy == old(self).strategy,
            final(self).hash_ring == old(self).hash_ring,
            result.chooses(turn_of(weighted(old(self).upstreams@), old(self).rr_counter as int)),
            final(self).rr_counter == (if result is Nothing {
                old(self).rr_counter
            } else {
                next_ticket(old(self).rr_counter)
            }),
    {
        let n = self.upstreams.len();
        let ghost s = self.upstreams@;
        let mut total: u128 = 0;
        let mut i: usize = 0;
        while i < n
            invariant
                i <= n,
                n == self.upstreams@.len(),
                s == self.upstreams@,
                total == weighted(s.take(i as int)).len(),
                total <= i * 0x1_0000_0000,
            decreases n - i,
        {
            assert(s.take(i + 1).drop_last() =~= s.take(i as int));
            if self.upstreams[i].is_available() {
                let weight: u32 = self.upstreams[i].config.weight;
                let turns: u128 = if weight == 0 {
                    1
                } else {
                    weight as u128
                };
                total = total + turns;
            }
            i += 1;
        }
        assert(s.take(n as int) =~= s);
        if total == 0 {
            return Selection::Nothing;
        }
        let target: u128 = self.rr_counter as u128 % total;
        self.rr_counter = self.rr_counter.wrapping_add(1);
        let mut base: u128 = 0;
        i = 0;
        while i < n
            invariant
                i <= n,
                n == self.upstreams@.len(),
                s == self.upstreams@,
                self.upstreams == old(self).upstreams,
                self.strategy == old(self).strategy,
                self.hash_ring == old(self).hash_ring,
                self.rr_counter == next_ticket(old(self).rr_counter),
                old(self).wf(),
                weighted(s).len() == total,
                total > 0,
                target == old(self).rr_counter as int % total as int,
                base == weighted(s.take(i as int)).len(),
                base <= target < total,
                total <= n * 0x1_0000_0000,
            decreases n - i,
        {
            assert(s.take(i + 1).drop_last() =~= s.take(i as int));
            if self.upstreams[i].is_available() {
                let weight: u32 = self.upstreams[i].config.weight;
                let turns: u128 = if weight == 0 {
                    1
                } else {
                    weight as u128
                };
                if target - base < turns {
                    proof {
                        lemma_weighted_prefix(s, i + 1);
                        assert(weighted(s.take(i + 1))[target as int] == i);
                    }
                    return Selection::Upstream(i);
                }
                base = base + turns;
            }
            i += 1;
        }
        assert(s.take(n as int) =~= s);
        Selection::Nothing
    }

    /// Least connections selection.
    fn select_least_connections(&mut self) -> (result: Selection)
        requires
            old(self).wf(),
        ensures
            *final(self) == *old(self),
            result !is ByHealth,
            result is Nothing <==> available(old(self).upstreams@).len() == 0,
            result matches Selection::Upstream(i) ==> least_loaded(old(self).upstreams@, i as int),
    {
        let mut best: Option<usize> = None;
        let mut i: usize = 0;
        while i < self.upstreams.len()
            invariant
                i <= self.upstreams@.len(),
                *self == *old(self),
                match best {
                    Some(b) => b < i && least_loaded(self.upstreams@.take(i as int), b as int),
                    None => forall|j: int|
                        0 <= j < i ==> !(#[trigger] self.upstreams@[j]).available(),
                },
            decreases self.upstreams@.len() - i,
        {
            let ghost before = self.upstreams@.take(i as int);
            let ghost after = self.upstreams@.take(i + 1);
            proof {
                assert(forall|j: int| 0 <= j < i ==> before[j] == #[trigger] after[j]);
                assert(after[i as int] == self.upstreams@[i as int]);
                if best is Some {
                    assert(before[best.unwrap() as int] == after[best.unwrap() as int]);
                }
            }
            if self.upstreams[i].is_available() {
                match best {
                    Some(b) => {
                        if self.upstreams[i].stats.active_connections
                            < self.upstreams[b].stats.active_connections {
                            best = Some(i);
                            assert forall|j: int|
                                0 <= j < after.len() && (
                                #[trigger] after[j]).available() implies after[i as int].stats.active_connections
                                <= after[j].stats.active_connections by {
                                if j < i {
                                    assert(before[j].available());
                                }
                            }
                            assert forall|j: int|
                                0 <= j < i && (
                                #[trigger] after[j]).available() implies after[i as int].stats.active_connections
                                < after[j].stats.active_connections by {
                                assert(before[j].available());
                            }
                        } else {
                            assert forall|j: int|
                                0 <= j < after.len() && (
                                #[trigger] after[j]).available() implies after[b as int].stats.active_connections
                                <= after[j].stats.active_connections by {
                                if j < i {
                                    assert(before[j].available());
                                }
                            }
                            assert forall|j: int|
                                0 <= j < b && (
                                #[trigger] after[j]).available() implies after[b as int].stats.active_connections
                                < after[j].stats.active_connections by {
                                assert(before[j].available());
                            }
                        }
                    },
                    None => {
                        best = Some(i);
                        assert(forall|j: int|
                            0 <= j < i ==> !(#[trigger] after[j]).available()) by {
                            assert forall|j: int| 0 <= j < i implies !(
                            #[trigger] after[j]).available() by {
                                assert(!self.upstreams@[j].available());
                            }
                        }
                    },
                }
            } else {
                if let Some(b) = best {
                    assert forall|j: int|
                        0 <= j < after.len() && (
                        #[trigger] after[j]).available() implies after[b as int].stats.active_connections
                        <= after[j].stats.active_connections by {
                        if j < i {
                            assert(before[j].available());
                        }
                    }
                    assert forall|j: int|
                        0 <= j < b && (
                        #[trigger] after[j]).available() implies after[b as int].stats.active_connections
                        < after[j].stats.active_connections by {
                        assert(before[j].available());
                    }
                }
            }
            i += 1;
        }
        proof {
            lemma_available(self.upstreams@);
            assert(self.upstreams@.take(i as int) =~= self.upstreams@);
            if available(self.upstreams@).len() > 0 {
                let a = available(self.upstreams@)[0];
                assert(self.upstreams@[a].available());
            }
        }
        match best {
            Some(b) => Selection::Upstream(b),
            None => Selection::Nothing,
        }
    }

    /// Consistent hashing selection for a key with this hash.
    pub fn select_by_hash(&mut self, hash: u64) -> (result: Selection)
        requires
            old(self).wf(),
            old(self).strategy() == LoadBalancingStrategy::ConsistentHashing,
        ensures
            *final(self) == *old(self),
            result.chooses(place(hash_ring::owner_of(old(self).points(), hash))),
            result is Nothing <==> available(old(self).upstreams()).len() == 0,
            result matches Selection::Upstream(i) ==> i < old(self).upstreams().len()
                && old(self).upstreams()[i as int].available(),
    {
        let found = self.hash_ring.lookup(hash);
        let count = self.upstreams.len();
        proof {
            let points = self.points();
            let labels = node_labels(self.upstreams@, VIRTUAL_NODES as nat);
            lemma_labels(self.upstreams@, VIRTUAL_NODES as nat);
            assert(hash_ring::owners(points).len() == points.len());
            assert(label_owners(labels).len() == labels.len());
            if points.len() > 0 {
                hash_ring::lemma_successor_exists(points, hash);
                hash_ring::lemma_ring_map(points);
                let x = hash_ring::successor(points, hash);
                let owner = hash_ring::ring_map(points)[x];
                assert(hash_ring::ring_map(points).contains_key(x));
                let k = points.index_of((x, owner));
                assert(hash_ring::owners(points)[k] == owner);
                assert(label_owners(labels)[k] == labels[k].1);
            }
        }
        match found {
            Some(index) => {
                if index < count {
                    Selection::Upstream(index)
                } else {
                    Selection::Nothing
                }
            },
            None => Selection::Nothing,
        }
    }

    /// The candidates of health-aware selection.
    fn select_health_aware(&mut self) -> (result: Selection)
        ensures
            *final(self) == *old(self),
            result !is Upstream,
            result is Nothing <==> available(old(self).upstreams@).len() == 0,
            result matches Selection::ByHealth(list) ==> list@ == candidates(old(self).upstreams@),
    {
        let mut list: Vec<HealthCandidate> = Vec::new();
        let mut i: usize = 0;
        while i < self.upstreams.len()
            invariant
                i <= self.upstreams@.len(),
                *self == *old(self),
                list@ == candidates(self.upstreams@.take(i as int)),
                list@.len() == available(self.upstreams@.take(i as int)).len(),
            decreases self.upstreams@.len() - i,
        {
            assert(self.upstreams@.take(i + 1).drop_last() =~= self.upstreams@.take(i as int));
            if self.upstreams[i].is_available() {
                list.push(
                    HealthCandidate {
                        index: i,
                        score: self.upstreams[i].health_score(),
                        weight: self.upstreams[i].config.weight,
                    },
                );
            }
            i += 1;
        }
        assert(self.upstreams@.take(i as int) =~= self.upstreams@);
        if list.len() == 0 {
            Selection::Nothing
        } else {
            Selection::ByHealth(list)
        }
    }

    /// Takes the turn that comes next.
    pub fn take_ticket(&mut self) -> (result: usize)
        requires
            old(self).wf(),
        ensures
            final(self).wf(),
            result == old(self).counter(),
            final(self).counter() == next_ticket(result),
            final(self).upstreams() == old(self).upstreams(),
            final(self).strategy() == old(self).strategy(),
            final(self).points() == old(self).points(),
    {
        let ticket: usize = self.rr_counter;
        self.rr_counter = ticket.wrapping_add(1);
        ticket
    }

    /// Get all upstream information.
    pub fn get_upstreams(&self) -> (result: &Vec<UpstreamInfo>)
        ensures
            result@ == self.upstreams(),
    {
        &self.upstreams
    }

    /// The place of the first upstream with this name.
    pub fn find_upstream(&self, name: &str) -> (result: Option<usize>)
        ensures
            match result {
                Some(i) => is_first_named(self.upstreams(), name@, i as int),
                None => forall|j: int|
                    0 <= j < self.upstreams().len() ==> (
                    #[trigger] self.upstreams()[j]).config.name@ != name@,
            },
    {
        let mut i: usize = 0;
        while i < self.upstreams.len()
            invariant
                i <= self.upstreams@.len(),
                forall|j: int| 0 <= j < i ==> (#[trigger] self.upstreams@[j]).config.name@ != name@,
            decreases self.upstreams@.len() - i,
        {
            if text::eq(self.upstreams[i].config.name.as_str(), name) {
                return Some(i);
            }
            i += 1;
        }
        None
    }

    /// Get upstream by name.
    pub fn get_upstream_by_name(&self, name: &str) -> (result: Option<&UpstreamInfo>)
        ensures
            match result {
                Some(u) => exists|i: int| #[trigger]
                    is_first_named(self.upstreams(), name@, i) && *u == self.upstreams()[i],
                None => forall|j: int|
                    0 <= j < self.upstreams().len() ==> (
                    #[trigger] self.upstreams()[j]).config.name@ != name@,
            },
    {
        match self.find_upstream(name) {
            Some(i) => Some(&self.upstreams[i]),
            None => None,
        }
    }

    /// The statistics of an upstream, to be brought up to date.
    pub fn stats_mut(&mut self, index: usize) -> (result: &mut UpstreamStats)
        requires
            old(self).wf(),
            index < old(self).upstreams().len(),
        ensures
            *result == old(self).upstreams()[index as int].stats,
            final(self).wf(),
            final(self).upstreams() == old(self).upstreams().update(
                index as int,
                old(self).upstreams()[index as int].with_stats(*final(result)),
            ),
            final(self).strategy() == old(self).strategy(),
            final(self).counter() == old(self).counter(),
            final(self).points() == old(self).points(),
    {
        proof {
            let s = self.upstreams@;
            assert forall|stats: UpstreamStats|
                node_labels(
                    #[trigger] s.update(index as int, s[index as int].with_stats(stats)),
                    VIRTUAL_NODES as nat,
                ) == node_labels(s, VIRTUAL_NODES as nat) by {
                lemma_same_labels(
                    s.update(index as int, s[index as int].with_stats(stats)),
                    s,
                    VIRTUAL_NODES as nat,
                );
            }
        }
        &mut self.upstreams[index].stats
    }

    /// Update health state for an upstream.
    pub fn update_upstream_health(&mut self, name: &str, state: HealthState, now: Instant)
        requires
            old(self).wf(),
        ensures
            final(self).wf(),
            final(self).strategy() == old(self).strategy(),
            final(self).counter() == old(self).counter(),
            match first_named(old(self).upstreams(), name@) {
                Some(i) => final(self).upstreams() == old(self).upstreams().update(
                    i,
                    old(self).upstreams()[i].checked(state, now),
                ),
                None => *final(self) == *old(self),
            },
    {
        match self.find_upstream(name) {
            Some(i) => {
                proof {
                    lemma_first_named(self.upstreams@, name@, i as int);
                }
                self.upstreams[i].set_health_state(state, now);
                if matches!(self.strategy, LoadBalancingStrategy::ConsistentHashing) {
                    self.update_ring();
                }
            },
            None => {
                proof {
                    if first_named(self.upstreams@, name@) is Some {
                        let i = choose|i: int| #[trigger] is_first_named(self.upstreams@, name@, i);
                        assert(self.upstreams@[i].config.name@ == name@);
                    }
                }
            },
        }
    }
}

/// Where the ring is laid out by the same hash function before and after some upstreams failed, a
/// session whose upstream is still available is looked up with the same outcome.
pub proof fn law_router_keeps_sessions(
    before: Router,
    after: Router,
    hash: spec_fn(Seq<char>) -> u64,
    key: Seq<char>,
    x: usize,
)
    requires
        before.laid_out_by(hash),
        after.laid_out_by(hash),
        before.upstreams().len() == after.upstreams().len() <= usize::MAX,
        forall|i: int|
            0 <= i < before.upstreams().len() ==> (#[trigger] before.upstreams()[i]).config.name@
                == after.upstreams()[i].config.name@ && (after.upstreams()[i].available()
                ==> before.upstreams()[i].available()),
        hash_ring::owner_of(before.points(), hash(key)) == Some(x),
        x < after.upstreams().len(),
        after.upstreams()[x as int].available(),
    ensures
        hash_ring::owner_of(after.points(), hash(key)) == Some(x),
{
    law_sessions_stick(before.upstreams(), after.upstreams(), hash, key, x);
}

/// The hash that the hasher gives for each text, where it gives one.
spec fn some_hash() -> spec_fn(Seq<char>) -> u64 {
    |text: Seq<char>| choose|hash: u64| hash_ring::is_hash_of(text, hash)
}

proof fn lemma_laid_out(router: Router)
    requires
        router.wf(),
        router.strategy() == LoadBalancingStrategy::ConsistentHashing,
        hash_ring::hashes_are_fixed(),
    ensures
        router.laid_out_by(some_hash()),
{
    let labels = node_labels(router.upstreams(), VIRTUAL_NODES as nat);
    let points = router.points();
    assert(hash_ring::owners(points).len() == points.len());
    assert(label_owners(labels).len() == labels.len());
    assert forall|k: int| 0 <= k < points.len() implies points[k] == points_by(
        some_hash(),
        labels,
    )[k] by {
        assert(hash_ring::is_hash_of(labels[k].0, points[k].0));
        let hash = some_hash()(labels[k].0);
        assert(hash_ring::is_hash_of(labels[k].0, hash));
        assert(hash_ring::owners(points)[k] == label_owners(labels)[k]);
    }
    assert(points =~= points_by(some_hash(), labels));
}

/// While the hasher keeps its keys, a session that was given an upstream is given the same one again
/// as long as that is available, whichever others failed in between; in particular two selections
/// with the same key give the same upstream.
pub proof fn law_sessions_are_kept(
    before: Router,
    after: Router,
    key: Seq<char>,
    x: usize,
    choice: Option<usize>,
)
    requires
        hash_ring::hashes_are_fixed(),
        before.wf(),
        after.wf(),
        before.strategy() == LoadBalancingStrategy::ConsistentHashing,
        after.strategy() == LoadBalancingStrategy::ConsistentHashing,
        before.upstreams().len() == after.upstreams().len() <= usize::MAX,
        forall|i: int|
            0 <= i < before.upstreams().len() ==> (#[trigger] before.upstreams()[i]).config.name@
                == after.upstreams()[i].config.name@ && (after.upstreams()[i].available()
                ==> before.upstreams()[i].available()),
        before.keeps_session(key, Some(x)),
        after.keeps_session(key, choice),
        x < after.upstreams().len(),
        after.upstreams()[x as int].available(),
    ensures
        choice == Some(x),
{
    lemma_laid_out(before);
    lemma_laid_out(after);
    let a = choose|hash: u64|
        hash_ring::is_hash_of(key, hash) && #[trigger] hash_ring::owner_of(before.points(), hash)
            == Some(x);
    let b = choose|hash: u64|
        hash_ring::is_hash_of(key, hash) && #[trigger] hash_ring::owner_of(after.points(), hash)
            == choice;
    let c = some_hash()(key);
    assert(hash_ring::is_hash_of(key, c));
    assert(a == c && b == c);
    law_sessions_stick(before.upstreams(), after.upstreams(), some_hash(), key, x);
}

/// Whether a server has a point at a hash of this label.
pub open spec fn has_point_at(
    points: hash_ring::Points,
    label: Seq<char>,
    owner: usize,
) -> bool {
    exists|p: int|
        0 <= p < points.len() && (#[trigger] points[p]).1 == owner && hash_ring::is_hash_of(
            label,
            points[p].0,
        )
}

/// On the ring every available upstream has 150 points, which lie at the hashes of its name with the
/// numbers from 0 to 149 behind a colon; an upstream that is not available has none.
pub proof fn law_ring_shows_the_upstreams(router: Router, i: int)
    requires
        router.wf(),
        router.strategy() == LoadBalancingStrategy::ConsistentHashing,
        router.upstreams().len() <= usize::MAX,
        0 <= i < router.upstreams().len(),
    ensures
        hash_ring::owners(router.points()).to_multiset().count(i as usize) == (
        if router.upstreams()[i].available() {
            150nat
        } else {
            0
        }),
        router.upstreams()[i].available() ==> forall|k: nat|
            k < 150 ==> has_point_at(
                router.points(),
                router.upstreams()[i].config.name@ + ":"@ + #[trigger] text::decimal(k),
                i as usize,
            ),
{
    let s = router.upstreams();
    let labels = node_labels(s, VIRTUAL_NODES as nat);
    lemma_label_counts(s, VIRTUAL_NODES as nat, i);
    assert(hash_ring::owners(router.points()).len() == router.points().len());
    assert(label_owners(labels).len() == labels.len());
    if s[i].available() {
        assert forall|k: nat| k < 150 implies has_point_at(
            router.points(),
            s[i].config.name@ + ":"@ + #[trigger] text::decimal(k),
            i as usize,
        ) by {
            let label = (s[i].config.name@ + ":"@ + text::decimal(k), i as usize);
            assert(labels.contains(label));
            let p = labels.index_of(label);
            assert(hash_ring::owners(router.points())[p] == label_owners(labels)[p]);
            assert(hash_ring::is_hash_of(labels[p].0, router.points()[p].0));
        }
    }
}

impl Default for Router {
    fn default() -> (result: Self)
        ensures
            result.wf(),
            result.upstreams() == Seq::<UpstreamInfo>::empty(),
            result.strategy() == LoadBalancingStrategy::HealthAware,
            result.counter() == 0,
    {
        Router::new(LoadBalancingStrategy::HealthAware)
    }
}

impl Selection {
    /// Whether the selection is this upstream, or nothing where there is none.
    pub open spec fn chooses(self, choice: Option<int>) -> bool {
        match choice {
            Some(i) => self matches Selection::Upstream(j) && j == i,
            None => self is Nothing,
        }
    }
}

/// The place as a number without bounds.
pub open spec fn place(index: Option<usize>) -> Option<int> {
    match index {
        Some(i) => Some(i as int),
        None => None,
    }
}

/// `i` is the place of the first upstream with this name.
pub open spec fn is_first_named(s: Seq<UpstreamInfo>, name: Seq<char>, i: int) -> bool {
    &&& 0 <= i < s.len()
    &&& s[i].config.name@ == name
    &&& forall|j: int| 0 <= j < i ==> (#[trigger] s[j]).config.name@ != name
}

/// The place of the first upstream with this name.
pub open spec fn first_named(s: Seq<UpstreamInfo>, name: Seq<char>) -> Option<int> {
    if exists|i: int| #[trigger] is_first_named(s, name, i) {
        Some(choose|i: int| #[trigger] is_first_named(s, name, i))
    } else {
        None
    }
}

proof fn lemma_first_named(s: Seq<UpstreamInfo>, name: Seq<char>, i: int)
    requires
        is_first_named(s, name, i),
    ensures
        first_named(s, name) == Some(i),
{
    let k = choose|k: int| #[trigger] is_first_named(s, name, k);
    if k < i {
        assert(s[k].config.name@ == name);
    }
    if i < k {
        assert(s[i].config.name@ == name);
    }
}

} // verus!
