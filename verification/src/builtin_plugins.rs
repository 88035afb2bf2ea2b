//! Built-in plugins: the HTTP proxy, and what it has in common with the TCP proxy.
pub mod tcp_proxy;

use vstd::prelude::*;

use vstd::arithmetic::power2::pow2;

use crate::error::{opt_text, router_fails, RouterError, RouterErrorView};
use crate::name_map::NameMap;
use crate::plugin::{PluginCapabilities, PluginHealth, PluginInfo, PluginMetrics};
use crate::proxies::http::{is_method, parse_method, url_fits};
use crate::proxies::{extract_host_port, host_port};
use crate::routing::Ratio;
use crate::text;
use crate::time::{nanos_between, Duration, Instant, SystemTime};

verus! {

broadcast use vstd::string::group_string_axioms;

/// Configuration of the HTTP proxy.
#[derive(Debug)]
pub struct HttpProxyConfig {
    pub default_backend: String,
    pub timeout_ms: u64,
    pub retry_count: u32,
    pub preserve_host_header: bool,
    pub follow_redirects: bool,
    pub max_redirects: u32,
    pub buffer_size: usize,
    pub connection_pool_size: usize,
    pub connection_timeout_ms: u64,
    pub read_timeout_ms: u64,
    pub write_timeout_ms: u64,
    pub enable_compression: bool,
    pub custom_headers: NameMap<String>,
    pub remove_headers: Vec<String>,
    pub circuit_breaker: CircuitBreakerConfig,
    pub retry_strategy: RetryStrategy,
}

/// When a service is given time to recover, and how much.
#[derive(Debug, Clone, Copy, PartialEq, Eq, Structural)]
pub struct CircuitBreakerConfig {
    pub enabled: bool,
    pub failure_threshold: u32,
    pub recovery_timeout_ms: u64,
    pub half_open_max_calls: u32,
}

/// How long to wait before another attempt.
#[derive(Debug, Clone, Copy, PartialEq, Eq, Structural)]
pub enum RetryStrategy {
    Fixed { delay_ms: u64 },
    Exponential { base_delay_ms: u64, max_delay_ms: u64 },
    Linear { initial_delay_ms: u64, increment_ms: u64 },
}

/// A server behind the HTTP proxy.
#[derive(Debug)]
pub struct BackendInfo {
    pub url: String,
    pub healthy: bool,
    pub last_check: Instant,
    pub response_time_ms: u64,
    pub error_count: u32,
}

/// Whether requests pass, are held back, or pass on trial.
#[derive(Debug, Clone, Copy, PartialEq, Eq, Structural)]
pub enum CircuitBreakerState {
    Closed,
    Open { opened_at: Instant },
    HalfOpen { calls_made: u32 },
}

/// HTTP Proxy Plugin - handles HTTP/HTTPS requests.
#[derive(Debug)]
pub struct HttpProxyPlugin {
    pub name: String,
    pub config: Option<HttpProxyConfig>,
    /// Whether there is a client to send requests with
    pub client: bool,
    pub metrics: PluginMetrics,
    pub health: PluginHealth,
    pub backends: Vec<BackendInfo>,
    pub circuit_breaker: CircuitBreakerState,
}

/// A request to be passed on.
#[derive(Debug)]
pub struct RequestMetadata {
    pub method: String,
    pub path: String,
    pub upstream_url: Option<String>,
    pub query_params: NameMap<String>,
    pub headers: NameMap<String>,
}

/// A request as it is sent to the upstream.
#[derive(Debug)]
pub struct OutgoingRequest {
    pub method: String,
    pub url: String,
    pub timeout: Duration,
    /// In the order in which they are added
    pub headers: Vec<(String, String)>,
    pub retry_count: u32,
}

/// An answer to be passed back.
#[derive(Debug)]
pub struct ProxyResponse {
    pub status_code: u16,
    pub headers: NameMap<String>,
    pub body: Vec<u8>,
    pub metadata: NameMap<String>,
    pub upstream_response_time_ms: Option<u64>,
    pub cache_headers: Option<NameMap<String>>,
}

/// What follows a failed attempt.
#[derive(Debug)]
pub enum FailedAttempt {
    /// Try once more after this time
    RetryAfter(Duration),
    /// The last attempt has failed
    GaveUp(RouterError),
}

// ---------------------------------------------------------------------------------------------
// The circuit breaker
// ---------------------------------------------------------------------------------------------

/// The milliseconds from `start` to `now`.
pub open spec fn millis_between(start: Instant, now: Instant) -> nat {
    nanos_between(start, now) / 1_000_000
}

/// Whether a request passes, and the state that follows: once the time to recover is over, requests
/// pass on trial.
pub open spec fn breaker_checked(
    state: CircuitBreakerState,
    config: CircuitBreakerConfig,
    now: Instant,
) -> (CircuitBreakerState, bool) {
    match state {
        CircuitBreakerState::Closed => (state, true),
        CircuitBreakerState::Open { opened_at } => if millis_between(opened_at, now)
            > config.recovery_timeout_ms {
            (CircuitBreakerState::HalfOpen { calls_made: 0 }, true)
        } else {
            (state, false)
        },
        CircuitBreakerState::HalfOpen { calls_made } => (
            state,
            calls_made < config.half_open_max_calls,
        ),
    }
}

/// The state after a request went well.
pub open spec fn breaker_succeeded(state: CircuitBreakerState) -> CircuitBreakerState {
    match state {
        CircuitBreakerState::HalfOpen { .. } => CircuitBreakerState::Closed,
        _ => state,
    }
}

/// The state after a request failed.
pub open spec fn breaker_failed(
    state: CircuitBreakerState,
    config: CircuitBreakerConfig,
    now: Instant,
) -> CircuitBreakerState {
    if config.enabled && !(state is Open) {
        CircuitBreakerState::Open { opened_at: now }
    } else {
        state
    }
}

impl CircuitBreakerState {
    /// Whether a request passes.
    pub fn check(&mut self, config: &CircuitBreakerConfig, now: Instant) -> (result: bool)
        ensures
            (*final(self), result) == breaker_checked(*old(self), *config, now),
    {
        match *self {
            CircuitBreakerState::Closed => true,
            CircuitBreakerState::Open { opened_at } => {
                let waited = opened_at.elapsed(now).as_millis();
                if waited > config.recovery_timeout_ms as u128 {
                    *self = CircuitBreakerState::HalfOpen { calls_made: 0 };
                    true
                } else {
                    false
                }
            },
            CircuitBreakerState::HalfOpen { calls_made } => calls_made
                < config.half_open_max_calls,
        }
    }

    /// A request went well.
    pub fn succeed(&mut self)
        ensures
            *final(self) == breaker_succeeded(*old(self)),
    {
        match *self {
            CircuitBreakerState::HalfOpen { .. } => {
                *self = CircuitBreakerState::Closed;
            },
            _ => {},
        }
    }

    /// A request failed.
    pub fn fail(&mut self, config: &CircuitBreakerConfig, now: Instant)
        ensures
            *final(self) == breaker_failed(*old(self), *config, now),
    {
        if !config.enabled {
            return;
        }
        match *self {
            CircuitBreakerState::Open { .. } => {},
            _ => {
                *self = CircuitBreakerState::Open { opened_at: now };
            },
        }
    }
}

/// After a failure no request passes until the time to recover is over; then requests pass on trial,
/// and one that goes well lets all pass again.
pub proof fn law_breaker_recovers(
    state: CircuitBreakerState,
    config: CircuitBreakerConfig,
    failed_at: Instant,
    now: Instant,
)
    requires
        config.enabled,
        !(state is Open),
    ensures
        ({
            let open = breaker_failed(state, config, failed_at);
            let (next, passes) = breaker_checked(open, config, now);
            &&& passes <==> millis_between(failed_at, now) > config.recovery_timeout_ms
            &&& !passes ==> next == open
            &&& passes ==> breaker_succeeded(next) is Closed
            &&& passes ==> breaker_failed(next, config, now) == (CircuitBreakerState::Open {
                opened_at: now,
            })
        }),
{
}

/// A breaker that is switched off lets every request pass, whatever fails.
pub proof fn law_disabled_breaker_stays_closed(config: CircuitBreakerConfig, now: Instant)
    requires
        !config.enabled,
    ensures
        breaker_failed(CircuitBreakerState::Closed, config, now) is Closed,
        breaker_checked(CircuitBreakerState::Closed, config, now).1,
{
}

// ---------------------------------------------------------------------------------------------
// Retries
// ---------------------------------------------------------------------------------------------

/// The milliseconds to wait after the attempt with this number, counted from zero.
pub open spec fn retry_delay(strategy: RetryStrategy, attempt: u32) -> int {
    match strategy {
        RetryStrategy::Fixed { delay_ms } => delay_ms as int,
        RetryStrategy::Exponential { base_delay_ms, max_delay_ms } => {
            let delay = base_delay_ms * pow2(attempt as nat);
            if delay <= max_delay_ms {
                delay
            } else {
                max_delay_ms as int
            }
        },
        RetryStrategy::Linear { initial_delay_ms, increment_ms } => initial_delay_ms
            + increment_ms * attempt,
    }
}

/// The smaller of `base` doubled `times` times and `limit`.
fn doubled_up_to(base: u64, times: u32, limit: u64) -> (result: u64)
    ensures
        result == (if base * pow2(times as nat) <= limit {
            base * pow2(times as nat)
        } else {
            limit as int
        }),
{
    proof {
        vstd::arithmetic::power2::lemma2_to64();
    }
    if base == 0 {
        return 0;
    }
    if base >= limit {
        proof {
            vstd::arithmetic::power2::lemma_pow2_pos(times as nat);
            let p = pow2(times as nat) as int;
            assert(base * p >= base) by (nonlinear_arith)
                requires
                    p >= 1,
                    base >= 0,
            ;
        }
        return limit;
    }
    let mut delay: u64 = base;
    let mut i: u32 = 0;
    while i < times
        invariant
            0 < base,
            i <= times,
            0 < delay < limit,
            delay == base * pow2(i as nat),
        decreases times - i,
    {
        proof {
            vstd::arithmetic::power2::lemma_pow2_unfold((i + 1) as nat);
            let p = pow2(i as nat) as int;
            let q = pow2((i + 1) as nat) as int;
            assert(base * q == 2 * (base * p)) by (nonlinear_arith)
                requires
                    q == 2 * p,
            ;
        }
        if delay > limit / 2 || delay * 2 >= limit {
            proof {
                let q = pow2((i + 1) as nat) as int;
                let r = pow2(times as nat) as int;
                if i + 1 < times {
                    vstd::arithmetic::power2::lemma_pow2_strictly_increases(
                        (i + 1) as nat,
                        times as nat,
                    );
                }
                assert(base * r >= base * q) by (nonlinear_arith)
                    requires
                        r >= q,
                        base >= 0,
                ;
            }
            return limit;
        }
        delay = delay * 2;
        i += 1;
    }
    delay
}

/// The time to wait after the attempt with this number.
pub fn calculate_retry_delay(strategy: &RetryStrategy, attempt: u32) -> (result: Duration)
    requires
        retry_delay(*strategy, attempt) <= u64::MAX,
    ensures
        result.wf(),
        result.total_nanos() == retry_delay(*strategy, attempt) * 1_000_000,
{
    match strategy {
        RetryStrategy::Fixed { delay_ms } => Duration::from_millis(*delay_ms),
        RetryStrategy::Exponential { base_delay_ms, max_delay_ms } => Duration::from_millis(
            doubled_up_to(*base_delay_ms, attempt, *max_delay_ms),
        ),
        RetryStrategy::Linear { initial_delay_ms, increment_ms } => {
            proof {
                assert(0 <= increment_ms * attempt) by (nonlinear_arith);
            }
            let more: u64 = *increment_ms * attempt as u64;
            Duration::from_millis(*initial_delay_ms + more)
        },
    }
}

/// With exponential waiting the delay never falls from one attempt to the next, and never exceeds
/// the limit.
pub proof fn law_delays_grow_up_to_the_limit(base_delay_ms: u64, max_delay_ms: u64, attempt: u32)
    requires
        attempt < u32::MAX,
    ensures
        ({
            let strategy = RetryStrategy::Exponential { base_delay_ms, max_delay_ms };
            retry_delay(strategy, attempt) <= retry_delay(strategy, (attempt + 1) as u32)
                <= max_delay_ms
        }),
{
    vstd::arithmetic::power2::lemma_pow2_unfold((attempt + 1) as nat);
    let p = pow2(attempt as nat) as int;
    let q = pow2((attempt + 1) as nat) as int;
    assert(base_delay_ms * p <= base_delay_ms * q) by (nonlinear_arith)
        requires
            q == 2 * p,
            p >= 0,
            base_delay_ms >= 0,
    ;
}

// ---------------------------------------------------------------------------------------------
// Requests
// ---------------------------------------------------------------------------------------------

/// Names and values as pairs of texts.
pub open spec fn pairs(entries: Seq<(String, String)>) -> Seq<(Seq<char>, Seq<char>)> {
    entries.map_values(|e: (String, String)| (e.0@, e.1@))
}

/// The texts of a result.
pub open spec fn result_text(result: std::result::Result<String, String>) -> std::result::Result<
    Seq<char>,
    Seq<char>,
> {
    match result {
        Ok(t) => Ok(t@),
        Err(e) => Err(e@),
    }
}

/// What `Url::parse` makes of a text: the URL, written in its standard form, or the reason why the
/// text is none.
pub uninterp spec fn url_parsed(url: Seq<char>) -> std::result::Result<Seq<char>, Seq<char>>;

/// What a text stands for as a URL with pairs added to its query, as `query_pairs_mut` and
/// `extend_pairs` make it, or the reason why the text is no URL.
pub uninterp spec fn url_with_pairs(
    url: Seq<char>,
    more: Seq<(Seq<char>, Seq<char>)>,
) -> std::result::Result<Seq<char>, Seq<char>>;

/// `Url::parse`: what comes out depends on nothing but the text.
#[verifier::external_body]
fn parse_url(url: &str) -> (result: std::result::Result<String, String>)
    ensures
        result_text(result) == url_parsed(url@),
{
    reqwest::Url::parse(url).map(|u| u.to_string()).map_err(|e| e.to_string())
}

/// The characters that pairs add to a query, with one for what stands between them.
pub open spec fn pairs_len(more: Seq<(Seq<char>, Seq<char>)>) -> nat
    decreases more.len(),
{
    if more.len() == 0 {
        0
    } else {
        pairs_len(more.drop_last()) + more.last().0.len() + more.last().1.len() + 1
    }
}

/// The first of the pairs add no more than all of them.
proof fn lemma_pairs_len(more: Seq<(Seq<char>, Seq<char>)>, n: int)
    requires
        0 <= n <= more.len(),
    ensures
        pairs_len(more.take(n)) <= pairs_len(more),
    decreases more.len(),
{
    if n < more.len() {
        lemma_pairs_len(more.drop_last(), n);
        assert(more.drop_last().take(n) =~= more.take(n));
    } else {
        assert(more.take(n) =~= more);
    }
}

/// Whether a URL keeps within its positions once these pairs are added to its query.
fn has_room_for_pairs(url: &str, more: &Vec<(String, String)>) -> (result: bool)
    ensures
        result == url_fits(url@, pairs_len(pairs(more@))),
{
    let ghost all = pairs(more@);
    let mut added: u128 = 0;
    let mut i: usize = 0;
    while i < more.len()
        invariant
            i <= more@.len(),
            all == pairs(more@),
            added == pairs_len(all.take(i as int)),
            added <= 0xffff_ffff,
        decreases more@.len() - i,
    {
        proof {
            lemma_pairs_len(all, i + 1);
            assert(all.take(i + 1).drop_last() =~= all.take(i as int));
            assert(all.take(i + 1).last() == all[i as int]);
        }
        let name: usize = more[i].0.as_str().unicode_len();
        let value: usize = more[i].1.as_str().unicode_len();
        added = added + name as u128 + value as u128 + 1;
        if added > 0xffff_ffff {
            return false;
        }
        i += 1;
    }
    assert(all.take(i as int) =~= all);
    256 * (url.unicode_len() as u128) + 12 * added + 16 <= 0xffff_ffff
}

/// `Url::query_pairs_mut` and `Serializer::extend_pairs`: the new URL depends on nothing but the old
/// one and the pairs. They panic on a URL that outgrows its positions.
#[verifier::external_body]
fn extend_query(url: &str, more: &Vec<(String, String)>) -> (result: std::result::Result<
    String,
    String,
>)
    requires
        url_fits(url@, pairs_len(pairs(more@))),
    ensures
        result_text(result) == url_with_pairs(url@, pairs(more@)),
{
    let mut parsed = reqwest::Url::parse(url).map_err(|e| e.to_string())?;
    parsed.query_pairs_mut().extend_pairs(more.iter());
    Ok(parsed.to_string())
}

/// The text of the URL that a request is for: the one it names, or its path at the default backend.
pub open spec fn target_of(config: HttpProxyConfig, metadata: RequestMetadata) -> Seq<char> {
    match metadata.upstream_url {
        Some(u) => u@,
        None => config.default_backend@ + metadata.path@,
    }
}

/// The host in the text of a URL; none where the text has no scheme.
pub open spec fn host_in(target: Seq<char>) -> Option<Seq<char>> {
    match text::find_from(target, "://"@, 0) {
        Some(_) => Some(host_port(target)),
        None => None,
    }
}

/// The headers of a request that are passed on: those that are not to be removed.
pub open spec fn kept_headers(
    headers: Seq<(Seq<char>, Seq<char>)>,
    removed: Seq<Seq<char>>,
) -> Seq<(Seq<char>, Seq<char>)>
    decreases headers.len(),
{
    if headers.len() == 0 {
        headers
    } else {
        let before = kept_headers(headers.drop_last(), removed);
        if removed.contains(headers.last().0) {
            before
        } else {
            before.push(headers.last())
        }
    }
}

/// All headers that are sent: those passed on, the configured ones, and the host of the target
/// unless that of the client is to be preserved.
pub open spec fn sent_headers(config: HttpProxyConfig, metadata: RequestMetadata) -> Seq<
    (Seq<char>, Seq<char>),
> {
    let passed = kept_headers(
        pairs(metadata.headers.entries@),
        text::views(config.remove_headers@),
    ) + pairs(config.custom_headers.entries@);
    if config.preserve_host_header {
        passed
    } else {
        match host_in(target_of(config, metadata)) {
            Some(host) => passed.push(("Host"@, host)),
            None => passed,
        }
    }
}

/// The URL that is asked for: what the target stands for, with the parameters added. One that
/// outgrows what a URL can be is refused.
pub open spec fn asked_url(
    target: Seq<char>,
    params: Seq<(Seq<char>, Seq<char>)>,
) -> std::result::Result<Seq<char>, Seq<char>> {
    if params.len() == 0 {
        url_parsed(target)
    } else if !url_fits(target, pairs_len(params)) {
        Err("URL is too long"@)
    } else {
        url_with_pairs(target, params)
    }
}

/// The host in the text of a URL.
pub fn find_host(target: &str) -> (result: Option<String>)
    ensures
        opt_text(result) == host_in(target@),
{
    let cs = text::chars(target);
    let mark = text::chars("://");
    match text::find_in(&cs, &mark, 0) {
        Some(_) => Some(extract_host_port(target)),
        None => None,
    }
}

fn pass_headers(entries: &Vec<(String, String)>, removed: &Vec<String>) -> (result: Vec<
    (String, String),
>)
    ensures
        pairs(result@) == kept_headers(pairs(entries@), text::views(removed@)),
{
    let ghost all = pairs(entries@);
    let mut kept: Vec<(String, String)> = Vec::new();
    let mut i: usize = 0;
    assert(pairs(kept@) =~= all.take(0));
    while i < entries.len()
        invariant
            i <= entries@.len(),
            all == pairs(entries@),
            pairs(kept@) == kept_headers(all.take(i as int), text::views(removed@)),
        decreases entries@.len() - i,
    {
        let ghost before = kept@;
        if !text::list_contains(removed, entries[i].0.as_str()) {
            kept.push((entries[i].0.clone(), entries[i].1.clone()));
            assert(pairs(kept@) =~= pairs(before).push(all[i as int]));
        }
        proof {
            assert(all.take(i + 1).drop_last() =~= all.take(i as int));
            assert(all.take(i + 1).last() == all[i as int]);
        }
        i += 1;
    }
    assert(all.take(i as int) =~= all);
    kept
}

fn add_headers(headers: &mut Vec<(String, String)>, more: &Vec<(String, String)>)
    ensures
        pairs(final(headers)@) == pairs(old(headers)@) + pairs(more@),
{
    let ghost before = pairs(headers@);
    let ghost all = pairs(more@);
    let mut i: usize = 0;
    assert(before + all.take(0) =~= before);
    while i < more.len()
        invariant
            i <= more@.len(),
            all == pairs(more@),
            pairs(headers@) == before + all.take(i as int),
        decreases more@.len() - i,
    {
        let ghost here = headers@;
        headers.push((more[i].0.clone(), more[i].1.clone()));
        proof {
            assert(pairs(headers@) =~= pairs(here).push(all[i as int]));
            assert(before + all.take(i + 1) =~= (before + all.take(i as int)).push(all[i as int]));
        }
        i += 1;
    }
    assert(all.take(i as int) =~= all);
}

/// That a plugin was not set up.
pub open spec fn plugin_error(plugin: Seq<char>, message: Seq<char>) -> RouterErrorView {
    RouterErrorView::PluginError { plugin, message }
}

/// The request that is sent, given the URL that is asked for or why there is none.
pub fn outgoing_request(
    config: &HttpProxyConfig,
    metadata: &RequestMetadata,
    url: std::result::Result<String, String>,
) -> (result: std::result::Result<OutgoingRequest, RouterError>)
    ensures
        is_outgoing(result, *config, *metadata, result_text(url)),
{
    let asked = match url {
        Ok(u) => u,
        Err(e) => {
            return Err(
                RouterError::UpstreamError {
                    message: text::cat2("Invalid upstream URL: ", e.as_str()),
                },
            );
        },
    };
    let method = match parse_method(metadata.method.as_str()) {
        Some(m) => m,
        None => {
            return Err(
                RouterError::RequestError {
                    message: "Invalid HTTP method: invalid HTTP method".to_string(),
                },
            );
        },
    };
    let mut headers = pass_headers(&metadata.headers.entries, &config.remove_headers);
    add_headers(&mut headers, &config.custom_headers.entries);
    if !config.preserve_host_header {
        let target = target_text(config, metadata);
        if let Some(host) = find_host(target.as_str()) {
            let ghost before = headers@;
            headers.push(("Host".to_string(), host));
            assert(pairs(headers@) =~= pairs(before).push(("Host"@, host@)));
        }
    }
    Ok(
        OutgoingRequest {
            method,
            url: asked,
            timeout: Duration::from_millis(config.timeout_ms),
            headers,
            retry_count: config.retry_count,
        },
    )
}

/// Whether this is what is sent for a request, given the URL that is asked for or why there is none.
pub open spec fn is_outgoing(
    result: std::result::Result<OutgoingRequest, RouterError>,
    config: HttpProxyConfig,
    metadata: RequestMetadata,
    url: std::result::Result<Seq<char>, Seq<char>>,
) -> bool {
    match url {
        Err(e) => router_fails(
            result,
            RouterErrorView::UpstreamError { message: "Invalid upstream URL: "@ + e },
        ),
        Ok(u) => if !is_method(metadata.method@) {
            router_fails(
                result,
                RouterErrorView::RequestError {
                    message: "Invalid HTTP method: invalid HTTP method"@,
                },
            )
        } else {
            &&& result matches Ok(r)
            &&& r.method@ == metadata.method@
            &&& r.url@ == u
            &&& r.timeout.wf()
            &&& r.timeout.total_nanos() == config.timeout_ms * 1_000_000
            &&& pairs(r.headers@) == sent_headers(config, metadata)
            &&& r.retry_count == config.retry_count
        },
    }
}

fn target_text(config: &HttpProxyConfig, metadata: &RequestMetadata) -> (result: String)
    ensures
        result@ == target_of(*config, *metadata),
{
    match &metadata.upstream_url {
        Some(u) => u.clone(),
        None => text::cat2(config.default_backend.as_str(), metadata.path.as_str()),
    }
}

// ---------------------------------------------------------------------------------------------
// The HTTP proxy
// ---------------------------------------------------------------------------------------------

/// What a command asks for.
#[derive(Debug)]
pub enum HttpCommand {
    /// The backends
    Backends,
    /// Whether the backend with this URL is healthy
    CheckBackend(String),
    /// The state of the circuit breaker, in words
    BreakerStatus(String),
}

/// The state of a circuit breaker in words.
pub open spec fn breaker_status(state: CircuitBreakerState) -> Seq<char> {
    match state {
        CircuitBreakerState::Closed => "closed"@,
        CircuitBreakerState::Open { .. } => "open"@,
        CircuitBreakerState::HalfOpen { .. } => "half_open"@,
    }
}

/// What the configuration of a running HTTP proxy plugin holds, as a JSON schema.
pub const INSTANCE_SCHEMA: &'static str = "{\"type\":\"object\",\"properties\":{\"default_backend\":{\"type\":\"string\"},\"timeout_ms\":{\"type\":\"number\"},\"retry_count\":{\"type\":\"number\"}},\"required\":[\"default_backend\"]}";

/// What the configuration of the HTTP proxy plugin holds, with its defaults, as a JSON schema.
pub const CONFIG_SCHEMA: &'static str = "{\"type\":\"object\",\"properties\":{\"default_backend\":{\"type\":\"string\"},\"timeout_ms\":{\"type\":\"number\",\"default\":30000},\"retry_count\":{\"type\":\"number\",\"default\":3}},\"required\":[\"default_backend\"]}";

/// What the plugin says about itself.
pub open spec fn is_info(
    info: PluginInfo,
    name: Seq<char>,
    description: Seq<char>,
    repository: Seq<char>,
    config_schema: Seq<char>,
    tags: Seq<Seq<char>>,
) -> bool {
    &&& info.name@ == name
    &&& info.version@ == "1.0.0"@
    &&& info.description@ == description
    &&& info.author@ == "Router Team"@
    &&& info.license@ == "MIT"@
    &&& opt_text(info.repository) == Some(repository)
    &&& info.min_router_version@ == "2.0.0"@
    &&& info.dependencies@.len() == 0
    &&& opt_text(info.config_schema) == Some(config_schema)
    &&& text::views(info.tags@) == tags
}

/// What a built-in plugin says about itself.
pub(crate) fn describe(
    name: &str,
    description: &str,
    repository: &str,
    config_schema: &str,
    tags: Vec<String>,
) -> (result: PluginInfo)
    ensures
        is_info(result, name@, description@, repository@, config_schema@, text::views(tags@)),
{
    PluginInfo {
        name: name.to_string(),
        version: "1.0.0".to_string(),
        description: description.to_string(),
        author: "Router Team".to_string(),
        license: "MIT".to_string(),
        repository: Some(repository.to_string()),
        min_router_version: "2.0.0".to_string(),
        config_schema: Some(config_schema.to_string()),
        dependencies: Vec::new(),
        tags,
    }
}

impl HttpProxyPlugin {
    pub fn new(now: SystemTime) -> (result: Self)
        ensures
            result.name@ == "http_proxy"@,
            result.config is None,
            !result.client,
            result.metrics.is_zero(),
            result.metrics.last_updated == now,
            result.health.is_pending("Not initialized"@),
            result.health.last_check == now,
            result.backends@.len() == 0,
            result.circuit_breaker is Closed,
    {
        HttpProxyPlugin {
            name: "http_proxy".to_string(),
            config: None,
            client: false,
            metrics: PluginMetrics::zero(now),
            health: PluginHealth::pending("Not initialized", now),
            backends: Vec::new(),
            circuit_breaker: CircuitBreakerState::Closed,
        }
    }

    /// What is wrong with a request before its target is looked at, and the state of the circuit
    /// breaker that follows.
    pub open spec fn gate(self, now: Instant) -> (CircuitBreakerState, Option<RouterErrorView>) {
        match self.config {
            None => (
                self.circuit_breaker,
                Some(plugin_error(self.name@, "Plugin not initialized"@)),
            ),
            Some(c) => if !self.client {
                (
                    self.circuit_breaker,
                    Some(plugin_error(self.name@, "HTTP client not initialized"@)),
                )
            } else {
                let (state, passes) = breaker_checked(self.circuit_breaker, c.circuit_breaker, now);
                (
                    state,
                    if passes {
                        None
                    } else {
                        Some(RouterErrorView::CircuitBreakerOpen { service: self.name@ })
                    },
                )
            },
        }
    }

    /// Whether the circuit breaker lets a request pass.
    pub fn is_circuit_breaker_closed(&mut self, now: Instant) -> (result: bool)
        requires
            old(self).config is Some,
        ensures
            (final(self).circuit_breaker, result) == breaker_checked(
                old(self).circuit_breaker,
                old(self).config->0.circuit_breaker,
                now,
            ),
            *final(self) == (HttpProxyPlugin {
                circuit_breaker: final(self).circuit_breaker,
                ..*old(self)
            }),
    {
        match &self.config {
            Some(c) => self.circuit_breaker.check(&c.circuit_breaker, now),
            None => false,
        }
    }

    /// Whether a request may be sent at all.
    pub fn check_request(&mut self, now: Instant) -> (result: std::result::Result<(), RouterError>)
        ensures
            *final(self) == (HttpProxyPlugin {
                circuit_breaker: old(self).gate(now).0,
                ..*old(self)
            }),
            match old(self).gate(now).1 {
                Some(e) => router_fails(result, e),
                None => result is Ok,
            },
    {
        if self.config.is_none() {
            return Err(
                RouterError::PluginError {
                    plugin: self.name.clone(),
                    message: "Plugin not initialized".to_string(),
                },
            );
        }
        if !self.client {
            return Err(
                RouterError::PluginError {
                    plugin: self.name.clone(),
                    message: "HTTP client not initialized".to_string(),
                },
            );
        }
        if !self.is_circuit_breaker_closed(now) {
            return Err(RouterError::CircuitBreakerOpen { service: self.name.clone() });
        }
        Ok(())
    }

    /// The request that is to be sent to the upstream for a request.
    pub fn proxy_request(&mut self, metadata: &RequestMetadata, now: Instant) -> (result:
        std::result::Result<OutgoingRequest, RouterError>)
        ensures
            *final(self) == (HttpProxyPlugin {
                circuit_breaker: old(self).gate(now).0,
                ..*old(self)
            }),
            match old(self).gate(now).1 {
                Some(e) => router_fails(result, e),
                None => {
                    let config = old(self).config->0;
                    is_outgoing(
                        result,
                        config,
                        *metadata,
                        asked_url(
                            target_of(config, *metadata),
                            pairs(metadata.query_params.entries@),
                        ),
                    )
                },
            },
    {
        if let Err(e) = self.check_request(now) {
            return Err(e);
        }
        match &self.config {
            None => Err(
                RouterError::PluginError {
                    plugin: self.name.clone(),
                    message: "Plugin not initialized".to_string(),
                },
            ),
            Some(config) => {
                let target = target_text(config, metadata);
                assert(pairs(metadata.query_params.entries@).len()
                    == metadata.query_params.entries@.len());
                let url = if metadata.query_params.len() == 0 {
                    parse_url(target.as_str())
                } else if !has_room_for_pairs(target.as_str(), &metadata.query_params.entries) {
                    Err("URL is too long".to_string())
                } else {
                    extend_query(target.as_str(), &metadata.query_params.entries)
                };
                outgoing_request(config, metadata, url)
            },
        }
    }

    /// The upstream answered, after this time and with this body or the reason why it could not be
    /// read.
    pub fn answered(
        &mut self,
        status_code: u16,
        headers: NameMap<String>,
        body: std::result::Result<Vec<u8>, String>,
        duration: Duration,
        now: SystemTime,
    ) -> (result: std::result::Result<ProxyResponse, RouterError>)
        requires
            old(self).metrics.custom_metrics.wf(),
            body matches Ok(b) ==> old(self).metrics.connections_total < u64::MAX
                && old(self).metrics.bytes_sent + b@.len() <= u64::MAX,
        ensures
            match body {
                Err(e) => *final(self) == *old(self) && router_fails(
                    result,
                    RouterErrorView::UpstreamError {
                        message: "Failed to read response body: "@ + e@,
                    },
                ),
                Ok(b) => {
                    &&& result matches Ok(r)
                    &&& r.status_code == status_code
                    &&& r.headers == headers
                    &&& r.body == b
                    &&& r.metadata@ == Map::<Seq<char>, String>::empty()
                    &&& r.upstream_response_time_ms == Some(
                        ((duration.total_nanos() / 1_000_000) % 0x1_0000_0000_0000_0000) as u64,
                    )
                    &&& r.cache_headers is None
                    &&& final(self).counted(*old(self), b@.len(), duration, now)
                    &&& final(self).circuit_breaker == breaker_succeeded(old(self).circuit_breaker)
                },
            },
    {
        match body {
            Err(e) => Err(
                RouterError::UpstreamError {
                    message: text::cat2("Failed to read response body: ", e.as_str()),
                },
            ),
            Ok(b) => {
                self.update_metrics(b.len(), duration, now);
                self.record_success();
                let millis: u64 = (duration.as_millis() % 0x1_0000_0000_0000_0000) as u64;
                Ok(
                    ProxyResponse {
                        status_code,
                        headers,
                        body: b,
                        metadata: NameMap::new(),
                        upstream_response_time_ms: Some(millis),
                        cache_headers: None,
                    },
                )
            },
        }
    }

    /// Whether this is what `before` becomes, but for its circuit breaker, when an answer of so many
    /// bytes came after this time.
    pub open spec fn counted(
        self,
        before: Self,
        bytes: nat,
        duration: Duration,
        now: SystemTime,
    ) -> bool {
        &&& self.name == before.name
        &&& self.config == before.config
        &&& self.client == before.client
        &&& self.health == before.health
        &&& self.backends == before.backends
        &&& self.metrics.connections_total == before.metrics.connections_total + 1
        &&& self.metrics.connections_active == before.metrics.connections_active
        &&& self.metrics.bytes_sent == before.metrics.bytes_sent + bytes
        &&& self.metrics.bytes_received == before.metrics.bytes_received
        &&& self.metrics.errors_total == before.metrics.errors_total
        &&& self.metrics.custom_metrics.wf()
        &&& self.metrics.custom_metrics@ == before.metrics.custom_metrics@.insert(
            "avg_response_time_ms"@,
            (Ratio {
                numerator: (duration.total_nanos() / 1_000_000) as u128,
                denominator: 1,
            }),
        )
        &&& self.metrics.last_updated == now
    }

    /// The attempt with this number, counted from zero, failed with this error.
    pub fn attempt_failed(&mut self, attempt: u32, error: &str, now: Instant) -> (result:
        FailedAttempt)
        requires
            old(self).config is Some,
            attempt < old(self).config->0.retry_count ==> retry_delay(
                old(self).config->0.retry_strategy,
                attempt,
            ) <= u64::MAX,
        ensures
            ({
                let config = old(self).config->0;
                if attempt < config.retry_count {
                    &&& *final(self) == *old(self)
                    &&& result matches FailedAttempt::RetryAfter(d)
                    &&& d.wf()
                    &&& d.total_nanos() == retry_delay(config.retry_strategy, attempt) * 1_000_000
                } else {
                    &&& *final(self) == (HttpProxyPlugin {
                        circuit_breaker: breaker_failed(
                            old(self).circuit_breaker,
                            config.circuit_breaker,
                            now,
                        ),
                        ..*old(self)
                    })
                    &&& result matches FailedAttempt::GaveUp(e)
                    &&& e@ == (RouterErrorView::UpstreamError {
                        message: "All retry attempts failed: "@ + error@,
                    })
                }
            }),
    {
        if let Some(config) = &self.config {
            if attempt < config.retry_count {
                return FailedAttempt::RetryAfter(
                    calculate_retry_delay(&config.retry_strategy, attempt),
                );
            }
        }
        self.record_failure(now);
        FailedAttempt::GaveUp(
            RouterError::UpstreamError {
                message: text::cat2("All retry attempts failed: ", error),
            },
        )
    }

    /// A request went well.
    pub fn record_success(&mut self)
        ensures
            *final(self) == (HttpProxyPlugin {
                circuit_breaker: breaker_succeeded(old(self).circuit_breaker),
                ..*old(self)
            }),
    {
        self.circuit_breaker.succeed();
    }

    /// A request failed in every attempt.
    pub fn record_failure(&mut self, now: Instant)
        requires
            old(self).config is Some,
        ensures
            *final(self) == (HttpProxyPlugin {
                circuit_breaker: breaker_failed(
                    old(self).circuit_breaker,
                    old(self).config->0.circuit_breaker,
                    now,
                ),
                ..*old(self)
            }),
    {
        if let Some(c) = &self.config {
            self.circuit_breaker.fail(&c.circuit_breaker, now);
        }
    }

    /// Counts an answer of so many bytes that came after this time.
    pub fn update_metrics(&mut self, bytes_sent: usize, duration: Duration, now: SystemTime)
        requires
            old(self).metrics.custom_metrics.wf(),
            old(self).metrics.connections_total < u64::MAX,
            old(self).metrics.bytes_sent + bytes_sent <= u64::MAX,
        ensures
            final(self).counted(*old(self), bytes_sent as nat, duration, now),
            final(self).circuit_breaker == old(self).circuit_breaker,
    {
        self.metrics.connections_total += 1;
        self.metrics.bytes_sent += bytes_sent as u64;
        self.metrics.last_updated = now;
        let _ = self.metrics.custom_metrics.insert(
            "avg_response_time_ms".to_string(),
            Ratio { numerator: duration.as_millis(), denominator: 1 },
        );
    }

    pub fn info(&self) -> (result: PluginInfo)
        ensures
            is_info(
                result,
                self.name@,
                "HTTP reverse proxy with load balancing and circuit breaker"@,
                "https://github.com/router/plugins"@,
                INSTANCE_SCHEMA@,
                seq!["http"@, "proxy"@, "load-balancer"@],
            ),
    {
        let mut tags: Vec<String> = Vec::new();
        tags.push("http".to_string());
        tags.push("proxy".to_string());
        tags.push("load-balancer".to_string());
        assert(text::views(tags@) =~= seq!["http"@, "proxy"@, "load-balancer"@]);
        describe(
            self.name.as_str(),
            "HTTP reverse proxy with load balancing and circuit breaker",
            "https://github.com/router/plugins",
            INSTANCE_SCHEMA,
            tags,
        )
    }

    pub fn capabilities(&self) -> (result: PluginCapabilities)
        ensures
            result.can_handle_tcp,
            !result.can_handle_udp,
            !result.can_handle_unix_socket,
            !result.requires_dedicated_port,
            result.supports_hot_reload,
            result.supports_load_balancing,
            text::views(result.custom_protocols@) == seq!["HTTP"@, "HTTPS"@],
            result.port_requirements@.len() == 0,
    {
        let mut protocols: Vec<String> = Vec::new();
        protocols.push("HTTP".to_string());
        protocols.push("HTTPS".to_string());
        assert(text::views(protocols@) =~= seq!["HTTP"@, "HTTPS"@]);
        PluginCapabilities {
            can_handle_tcp: true,
            can_handle_udp: false,
            can_handle_unix_socket: false,
            requires_dedicated_port: false,
            supports_hot_reload: true,
            supports_load_balancing: true,
            custom_protocols: protocols,
            port_requirements: Vec::new(),
        }
    }

    /// Sets the plugin up, given its configuration or why it cannot be read, and what came of making
    /// a client for it.
    pub fn initialize(
        &mut self,
        config: std::result::Result<HttpProxyConfig, String>,
        client: std::result::Result<(), String>,
        now: SystemTime,
    ) -> (result: std::result::Result<(), RouterError>)
        ensures
            match (config, client) {
                (Err(e), _) => *final(self) == *old(self) && router_fails(
                    result,
                    RouterErrorView::ConfigError {
                        message: "Invalid HTTP proxy configuration: "@ + e@,
                    },
                ),
                (Ok(c), Err(e)) => *final(self) == *old(self) && router_fails(
                    result,
                    RouterErrorView::PluginInitError {
                        plugin: old(self).name@,
                        reason: "Failed to create HTTP client: "@ + e@,
                    },
                ),
                (Ok(c), Ok(())) => {
                    &&& result is Ok
                    &&& *final(self) == (HttpProxyPlugin {
                        config: Some(c),
                        client: true,
                        health: final(self).health,
                        ..*old(self)
                    })
                    &&& final(self).health == (PluginHealth {
                        healthy: true,
                        message: final(self).health.message,
                        last_check: now,
                        ..old(self).health
                    })
                    &&& final(self).health.message@ == "HTTP proxy initialized successfully"@
                },
            },
    {
        let c = match config {
            Err(e) => {
                return Err(
                    RouterError::ConfigError {
                        message: text::cat2("Invalid HTTP proxy configuration: ", e.as_str()),
                    },
                );
            },
            Ok(c) => c,
        };
        if let Err(e) = client {
            return Err(
                RouterError::PluginInitError {
                    plugin: self.name.clone(),
                    reason: text::cat2("Failed to create HTTP client: ", e.as_str()),
                },
            );
        }
        self.config = Some(c);
        self.client = true;
        self.health.healthy = true;
        self.health.message = "HTTP proxy initialized successfully".to_string();
        self.health.last_check = now;
        Ok(())
    }

    /// Gives the client up.
    pub fn stop(&mut self)
        ensures
            *final(self) == (HttpProxyPlugin { client: false, ..*old(self) }),
    {
        self.client = false;
    }

    /// What a command asks for; `url` is its parameter of that name.
    pub fn handle_command(&self, command: &str, url: Option<&str>) -> (result: std::result::Result<
        HttpCommand,
        RouterError,
    >)
        ensures
            if command@ == "get_backends"@ {
                result matches Ok(HttpCommand::Backends)
            } else if command@ == "health_check_backend"@ {
                match url {
                    Some(u) => result matches Ok(HttpCommand::CheckBackend(b)) && b@ == u@,
                    None => router_fails(
                        result,
                        RouterErrorView::InvalidApiRequest { reason: "Missing 'url' parameter"@ },
                    ),
                }
            } else if command@ == "circuit_breaker_status"@ {
                result matches Ok(HttpCommand::BreakerStatus(s)) && s@ == breaker_status(
                    self.circuit_breaker,
                )
            } else {
                router_fails(
                    result,
                    RouterErrorView::NotSupported { operation: "Command: "@ + command@ },
                )
            },
    {
        if text::eq(command, "get_backends") {
            Ok(HttpCommand::Backends)
        } else if text::eq(command, "health_check_backend") {
            match url {
                Some(u) => Ok(HttpCommand::CheckBackend(u.to_string())),
                None => Err(
                    RouterError::InvalidApiRequest {
                        reason: "Missing 'url' parameter".to_string(),
                    },
                ),
            }
        } else if text::eq(command, "circuit_breaker_status") {
            let status = match self.circuit_breaker {
                CircuitBreakerState::Closed => "closed",
                CircuitBreakerState::Open { .. } => "open",
                CircuitBreakerState::HalfOpen { .. } => "half_open",
            };
            Ok(HttpCommand::BreakerStatus(status.to_string()))
        } else {
            Err(RouterError::NotSupported { operation: text::cat2("Command: ", command) })
        }
    }

    /// Whether a backend is healthy, given the status with which it answered, if it did.
    pub fn check_backend_health(&self, status: Option<u16>) -> (result: bool)
        ensures
            result == (self.client && (status matches Some(s) && 200 <= s < 300)),
    {
        match status {
            Some(s) => self.client && 200 <= s && s < 300,
            None => false,
        }
    }
}

/// What the HTTP proxy says about itself when it is loaded.
pub fn get_http_proxy_plugin_info() -> (result: PluginInfo)
    ensures
        is_info(
            result,
            "http_proxy"@,
            "HTTP reverse proxy with advanced features"@,
            "https://github.com/Harbr-Foundation/Harbr-Router"@,
            CONFIG_SCHEMA@,
            seq!["http"@, "proxy"@, "reverse-proxy"@],
        ),
{
    let mut tags: Vec<String> = Vec::new();
    tags.push("http".to_string());
    tags.push("proxy".to_string());
    tags.push("reverse-proxy".to_string());
    assert(text::views(tags@) =~= seq!["http"@, "proxy"@, "reverse-proxy"@]);
    describe(
        "http_proxy",
        "HTTP reverse proxy with advanced features",
        "https://github.com/Harbr-Foundation/Harbr-Router",
        CONFIG_SCHEMA,
        tags,
    )
}

/// Fixed waiting is the same each time, linear waiting grows by the same step each time, and
/// exponential waiting doubles each time, up to its limit.
pub proof fn law_retry_delays_step_by_step(a: u64, b: u64, attempt: u32)
    requires
        attempt < u32::MAX,
    ensures
        retry_delay(RetryStrategy::Fixed { delay_ms: a }, attempt) == a,
        ({
            let linear = RetryStrategy::Linear { initial_delay_ms: a, increment_ms: b };
            retry_delay(linear, 0) == a && retry_delay(linear, (attempt + 1) as u32) == retry_delay(
                linear,
                attempt,
            ) + b
        }),
        ({
            let doubling = RetryStrategy::Exponential { base_delay_ms: a, max_delay_ms: b };
            let now = retry_delay(doubling, attempt);
            &&& retry_delay(doubling, 0) == (if a <= b {
                a
            } else {
                b
            })
            &&& retry_delay(doubling, (attempt + 1) as u32) == (if 2 * now <= b {
                2 * now
            } else {
                b as int
            })
        }),
{
    let n = attempt as int;
    assert(b * (n + 1) == b * n + b) by (nonlinear_arith);
    vstd::arithmetic::power2::lemma_pow2_unfold((attempt + 1) as nat);
    vstd::arithmetic::power2::lemma2_to64();
    let p = pow2(attempt as nat) as int;
    let q = pow2((attempt + 1) as nat) as int;
    assert(a * q == 2 * (a * p)) by (nonlinear_arith)
        requires
            q == 2 * p,
    ;
    assert(a * p >= 0) by (nonlinear_arith)
        requires
            p >= 0,
            a >= 0,
    ;
}

/// A closed breaker lets requests pass, an open one those that come more than the time to recover
/// after it opened, counted in whole milliseconds, and one on trial as many as it may.
pub proof fn law_breaker_lets_pass(
    config: CircuitBreakerConfig,
    opened_at: Instant,
    calls_made: u32,
    now: Instant,
)
    ensures
        breaker_checked(CircuitBreakerState::Closed, config, now) == (
            CircuitBreakerState::Closed,
            true,
        ),
        breaker_checked(CircuitBreakerState::Open { opened_at }, config, now).1 <==> opened_at.nanos
            + (config.recovery_timeout_ms + 1) * 1_000_000 <= now.nanos,
        breaker_checked(CircuitBreakerState::HalfOpen { calls_made }, config, now).1 <==> calls_made
            < config.half_open_max_calls,
        breaker_checked(CircuitBreakerState::HalfOpen { calls_made }, config, now).0
            == (CircuitBreakerState::HalfOpen { calls_made }),
        breaker_succeeded(CircuitBreakerState::Open { opened_at }) == (CircuitBreakerState::Open {
            opened_at,
        }),
        breaker_failed(CircuitBreakerState::Open { opened_at }, config, now)
            == (CircuitBreakerState::Open { opened_at }),
{
}

/// A request passes exactly where the plugin is set up, has a client, and its breaker lets it pass.
pub proof fn law_requests_pass_the_gate(plugin: HttpProxyPlugin, now: Instant)
    ensures
        plugin.gate(now).1 is None <==> plugin.client && (plugin.config matches Some(c)
            && breaker_checked(plugin.circuit_breaker, c.circuit_breaker, now).1),
        plugin.config is Some && plugin.client && plugin.gate(now).1 is Some ==> plugin.gate(
            now,
        ).1 == Some(RouterErrorView::CircuitBreakerOpen { service: plugin.name@ }),
        plugin.config is None || !plugin.client ==> plugin.gate(now).0 == plugin.circuit_breaker,
{
}

/// The headers that are passed on are those that are not to be removed, all of them and in order.
pub proof fn law_headers_are_passed_on(
    headers: Seq<(Seq<char>, Seq<char>)>,
    removed: Seq<Seq<char>>,
)
    ensures
        kept_headers(headers, removed) == headers.filter(
            |h: (Seq<char>, Seq<char>)| !removed.contains(h.0),
        ),
    decreases headers.len(),
{
    reveal(Seq::filter);
    if headers.len() > 0 {
        law_headers_are_passed_on(headers.drop_last(), removed);
    }
}

/// A request has the headers that are passed on, then the configured ones, and last the host of its
/// target, unless the client's host is to be preserved.
pub proof fn law_sent_headers_in_order(config: HttpProxyConfig, metadata: RequestMetadata)
    ensures
        ({
            let sent = sent_headers(config, metadata);
            let passed = pairs(metadata.headers.entries@).filter(
                |h: (Seq<char>, Seq<char>)| !text::views(config.remove_headers@).contains(h.0),
            );
            let more = pairs(config.custom_headers.entries@);
            &&& sent.take((passed + more).len() as int) == passed + more
            &&& config.preserve_host_header ==> sent.len() == passed.len() + more.len()
            &&& !config.preserve_host_header ==> match host_in(target_of(config, metadata)) {
                Some(host) => sent.len() == passed.len() + more.len() + 1 && sent.last() == (
                    "Host"@,
                    host,
                ),
                None => sent.len() == passed.len() + more.len(),
            }
        }),
{
    law_headers_are_passed_on(
        pairs(metadata.headers.entries@),
        text::views(config.remove_headers@),
    );
    let sent = sent_headers(config, metadata);
    let passed = kept_headers(
        pairs(metadata.headers.entries@),
        text::views(config.remove_headers@),
    );
    let more = pairs(config.custom_headers.entries@);
    assert(sent.take((passed + more).len() as int) =~= passed + more);
}

/// A request is for the URL that it names, or else for its path at the default backend.
pub proof fn law_target_is_named_or_default(config: HttpProxyConfig, metadata: RequestMetadata)
    ensures
        metadata.upstream_url matches Some(u) ==> target_of(config, metadata) == u@,
        metadata.upstream_url is None ==> metadata.path@.is_suffix_of(target_of(config, metadata))
            && config.default_backend@.is_prefix_of(target_of(config, metadata)) && target_of(
            config,
            metadata,
        ).len() == config.default_backend@.len() + metadata.path@.len(),
{
    if metadata.upstream_url is None {
        let t = target_of(config, metadata);
        assert(t.subrange(t.len() - metadata.path@.len(), t.len() as int) =~= metadata.path@);
        assert(t.subrange(0, config.default_backend@.len() as int) =~= config.default_backend@);
    }
}

/// The host of a URL is what stands between its scheme and its path; a text without a scheme has
/// none.
pub proof fn law_host_of_a_target(scheme: Seq<char>, authority: Seq<char>, path: Seq<char>)
    requires
        !scheme.contains(':'),
        !authority.contains('/'),
        authority.len() > 0 ==> authority.last() != ':',
    ensures
        host_in(scheme + "://"@ + authority + "/"@ + path) == Some(authority),
        host_in(scheme) is None,
{
    reveal_strlit("://");
    crate::proxies::law_host_port_of_a_url(scheme, authority, path);
    let url = scheme + "://"@ + authority + "/"@ + path;
    let n = scheme.len() as int;
    assert(url.subrange(n, n + 3) =~= "://"@);
    assert(text::occurs_at(url, "://"@, n));
    text::lemma_find_from(url, "://"@, 0);
    text::lemma_find_from(scheme, "://"@, 0);
    if let Some(q) = text::find_from(scheme, "://"@, 0) {
        assert(scheme.subrange(q, q + 3)[0] == ':');
        assert(scheme[q] == ':');
    }
}

/// The states of a breaker are told by three different words.
pub proof fn law_breaker_states_are_told(opened_at: Instant, calls_made: u32)
    ensures
        breaker_status(CircuitBreakerState::Closed) == "closed"@,
        breaker_status(CircuitBreakerState::Open { opened_at }) == "open"@,
        breaker_status(CircuitBreakerState::HalfOpen { calls_made }) == "half_open"@,
        "closed"@ != "open"@ && "open"@ != "half_open"@ && "closed"@ != "half_open"@,
{
    reveal_strlit("closed");
    reveal_strlit("open");
    reveal_strlit("half_open");
    assert("closed"@[0] == 'c' && "open"@[0] == 'o' && "half_open"@[0] == 'h');
}

/// What a request becomes asks the URL for what the client asked for, with the configured time and
/// retries; it is refused exactly where the URL or the method is none.
pub proof fn law_requests_are_passed_on(
    result: std::result::Result<OutgoingRequest, RouterError>,
    config: HttpProxyConfig,
    metadata: RequestMetadata,
    url: std::result::Result<Seq<char>, Seq<char>>,
)
    requires
        is_outgoing(result, config, metadata, url),
    ensures
        result is Ok <==> url is Ok && is_method(metadata.method@),
        result matches Ok(r) ==> r.method@ == metadata.method@ && url == Ok::<Seq<char>, Seq<char>>(
            r.url@,
        ) && r.retry_count == config.retry_count && r.timeout.secs * 1_000_000_000 + r.timeout.nanos
            == config.timeout_ms * 1_000_000,
{
}

/// The room for pairs is that of their texts and one character for each.
pub proof fn law_pairs_take_room(
    a: Seq<(Seq<char>, Seq<char>)>,
    b: Seq<(Seq<char>, Seq<char>)>,
    one: (Seq<char>, Seq<char>),
)
    ensures
        pairs_len(a + b) == pairs_len(a) + pairs_len(b),
        pairs_len(seq![one]) == one.0.len() + one.1.len() + 1,
    decreases b.len(),
{
    let none = Seq::<(Seq<char>, Seq<char>)>::empty();
    assert(seq![one].drop_last() =~= none);
    assert(seq![one].last() == one);
    assert(pairs_len(none) == 0);
    if b.len() == 0 {
        assert(a + b =~= a);
    } else {
        law_pairs_take_room(a, b.drop_last(), one);
        assert((a + b).drop_last() =~= a + b.drop_last());
    }
}

/// A request without parameters asks for its target as it is; one with parameters asks for them, as
/// long as they fit.
pub proof fn law_parameters_are_asked_for(target: Seq<char>, params: Seq<(Seq<char>, Seq<char>)>)
    ensures
        asked_url(target, Seq::empty()) == url_parsed(target),
        params.len() > 0 && url_fits(target, pairs_len(params)) ==> asked_url(target, params)
            == url_with_pairs(target, params),
        params.len() > 0 && !url_fits(target, pairs_len(params)) ==> asked_url(target, params) is Err,
{
}

/// An answer counts as one more connection and its bytes, and nothing else of the counters changes.
pub proof fn law_answers_are_counted(
    before: HttpProxyPlugin,
    after: HttpProxyPlugin,
    bytes: nat,
    duration: Duration,
    now: SystemTime,
)
    requires
        after.counted(before, bytes, duration, now),
    ensures
        after.metrics.connections_total - before.metrics.connections_total == 1,
        after.metrics.bytes_sent - before.metrics.bytes_sent == bytes,
        after.metrics.bytes_received == before.metrics.bytes_received,
        after.metrics.errors_total == before.metrics.errors_total,
        after.metrics.connections_active == before.metrics.connections_active,
        after.config == before.config && after.client == before.client && after.name == before.name,
{
}

} // verus!
