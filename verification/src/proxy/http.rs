//! HTTP proxy: what happens to a request on its way to an upstream and to the response on its way
//! back, and the metrics of both.
use vstd::prelude::*;

use crate::config::{HttpProxyConfig, ProxyInstanceConfig, ProxyType};
use crate::error::{
    config_error, fails, fails_by, internal_error, opt_str, opt_text, Error, ErrorView, NetworkErrorKind, Result,
};
use crate::headers;
use crate::headers::HeaderFault;
use crate::proxy::{ProxyHealth, ProxyMetrics};
use crate::proxy::utils;
use crate::routing::{HealthState, Ratio, Router, UpstreamInfo};
use crate::routing;
use crate::text;
use crate::time::{Duration, Instant};

verus! {

broadcast use vstd::string::group_string_axioms;

/// HTTP proxy implementation with advanced routing and connection pooling.
#[derive(Debug)]
pub struct HttpProxy {
    /// Proxy metrics
    pub metrics: HttpProxyMetrics,
}

/// HTTP proxy specific metrics.
#[derive(Debug)]
pub struct HttpProxyMetrics {
    /// Total HTTP requests processed
    pub requests_total: u64,
    /// Currently active connections
    pub connections_active: usize,
    /// Total bytes sent to upstreams
    pub bytes_sent: u64,
    /// Total bytes received from upstreams
    pub bytes_received: u64,
    /// The most recent request durations, in nanoseconds
    pub request_durations: Vec<u64>,
    /// Response status code counts
    pub status_codes: StatusCounts,
}

/// How often each status was answered. No status has two entries.
#[derive(Debug)]
pub struct StatusCounts {
    pub entries: Vec<(u16, u64)>,
}

/// A request that is ready to be sent.
#[derive(Debug)]
pub struct PreparedRequest {
    /// The place of the upstream that it goes to
    pub upstream: usize,
    /// The URI that is asked for
    pub uri: String,
    /// How long the upstream may take
    pub timeout: Duration,
}

/// What came of a request to an upstream.
#[derive(Debug)]
pub enum UpstreamReply {
    /// A response
    Answered,
    /// A failure, with its description
    Failed(String),
    /// Nothing in time
    TimedOut,
}

/// A response that the proxy makes up itself.
#[derive(Debug)]
pub struct ErrorResponse {
    pub status: u16,
    pub content_type: String,
    pub body: String,
}

// ---------------------------------------------------------------------------------------------
// Metrics
// ---------------------------------------------------------------------------------------------

/// The statuses of entries.
pub open spec fn statuses(entries: Seq<(u16, u64)>) -> Seq<u16> {
    entries.map_values(|e: (u16, u64)| e.0)
}

/// How often a status was answered.
pub open spec fn count_of(entries: Seq<(u16, u64)>, status: u16) -> u64
    decreases entries.len(),
{
    if entries.len() == 0 {
        0
    } else if entries.last().0 == status {
        entries.last().1
    } else {
        count_of(entries.drop_last(), status)
    }
}

/// How many answers with a status of at least `least` there were.
pub open spec fn answers(entries: Seq<(u16, u64)>, least: u16) -> nat
    decreases entries.len(),
{
    if entries.len() == 0 {
        0
    } else {
        answers(entries.drop_last(), least) + if entries.last().0 >= least {
            entries.last().1 as nat
        } else {
            0
        }
    }
}

proof fn lemma_entry_update(entries: Seq<(u16, u64)>, i: int, count: u64)
    requires
        0 <= i < entries.len(),
        statuses(entries).no_duplicates(),
    ensures
        count_of(entries, entries[i].0) == entries[i].1,
        forall|status: u16|
            #![trigger count_of(entries.update(i, (entries[i].0, count)), status)]
            count_of(entries.update(i, (entries[i].0, count)), status) == (if status
                == entries[i].0 {
                count
            } else {
                count_of(entries, status)
            }),
        forall|least: u16|
            #![trigger answers(entries.update(i, (entries[i].0, count)), least)]
            answers(entries.update(i, (entries[i].0, count)), least) == answers(entries, least)
                + if entries[i].0 >= least {
                count - entries[i].1
            } else {
                0
            },
    decreases entries.len(),
{
    let after = entries.update(i, (entries[i].0, count));
    let rest = entries.drop_last();
    assert(statuses(rest) =~= statuses(entries).drop_last());
    if i < rest.len() {
        lemma_entry_update(rest, i, count);
        assert(after.drop_last() =~= rest.update(i, (rest[i].0, count)));
        assert(statuses(entries)[i] != statuses(entries)[entries.len() - 1]);
        assert(after.last() == entries.last());
        assert forall|status: u16| #[trigger] count_of(after, status) == (if status == entries[i].0 {
            count
        } else {
            count_of(entries, status)
        }) by {
            assert(count_of(after.drop_last(), status) == count_of(
                rest.update(i, (rest[i].0, count)),
                status,
            ));
        }
        assert forall|least: u16| #[trigger] answers(after, least) == answers(entries, least)
            + if entries[i].0 >= least {
            count - entries[i].1
        } else {
            0
        } by {
            assert(answers(after.drop_last(), least) == answers(
                rest.update(i, (rest[i].0, count)),
                least,
            ));
        }
    } else {
        assert(after.drop_last() =~= rest);
        assert(after.last() == (entries[i].0, count));
        assert forall|status: u16| #[trigger] count_of(after, status) == (if status == entries[i].0 {
            count
        } else {
            count_of(entries, status)
        }) by {
            assert(count_of(after.drop_last(), status) == count_of(rest, status));
        }
        assert forall|least: u16| #[trigger] answers(after, least) == answers(entries, least)
            + if entries[i].0 >= least {
            count - entries[i].1
        } else {
            0
        } by {
            assert(answers(after.drop_last(), least) == answers(rest, least));
        }
    }
}

proof fn lemma_absent(entries: Seq<(u16, u64)>, status: u16)
    requires
        !statuses(entries).contains(status),
    ensures
        count_of(entries, status) == 0,
    decreases entries.len(),
{
    if entries.len() > 0 {
        assert(statuses(entries)[entries.len() - 1] == entries.last().0);
        assert forall|k: int| 0 <= k < entries.len() - 1 implies statuses(entries.drop_last())[k]
            != status by {
            assert(statuses(entries)[k] == statuses(entries.drop_last())[k]);
        }
        lemma_absent(entries.drop_last(), status);
    }
}

impl StatusCounts {
    /// No status has two entries.
    pub open spec fn wf(self) -> bool {
        statuses(self.entries@).no_duplicates()
    }

    /// Counts one more answer with this status.
    pub fn bump(&mut self, status: u16)
        requires
            old(self).wf(),
            count_of(old(self).entries@, status) < u64::MAX,
        ensures
            final(self).wf(),
            forall|s: u16|
                #![trigger count_of(final(self).entries@, s)]
                count_of(final(self).entries@, s) == count_of(old(self).entries@, s) + if s
                    == status {
                    1int
                } else {
                    0
                },
            forall|least: u16|
                #![trigger answers(final(self).entries@, least)]
                answers(final(self).entries@, least) == answers(old(self).entries@, least)
                    + if status >= least {
                    1int
                } else {
                    0
                },
    {
        let ghost before = self.entries@;
        let mut i: usize = 0;
        while i < self.entries.len()
            invariant
                i <= self.entries@.len(),
                self.entries@ == before,
                statuses(before).no_duplicates(),
                count_of(before, status) < u64::MAX,
                before == old(self).entries@,
                forall|k: int| 0 <= k < i ==> statuses(before)[k] != status,
            decreases self.entries@.len() - i,
        {
            if self.entries[i].0 == status {
                proof {
                    assert(statuses(before)[i as int] == status);
                    lemma_entry_update(before, i as int, before[i as int].1);
                }
                let count: u64 = self.entries[i].1 + 1;
                proof {
                    lemma_entry_update(before, i as int, count);
                }
                self.entries.set(i, (status, count));
                assert(statuses(self.entries@) =~= statuses(before));
                return;
            }
            i += 1;
        }
        proof {
            lemma_absent(before, status);
        }
        self.entries.push((status, 1));
        proof {
            let after = self.entries@;
            assert(after.drop_last() =~= before);
            assert(statuses(after) =~= statuses(before).push(status));
        }
    }

    /// How many answers with a status of at least `least` there were.
    pub fn count_from(&self, least: u16) -> (result: u128)
        ensures
            result == answers(self.entries@, least),
    {
        let mut total: u128 = 0;
        let mut i: usize = 0;
        while i < self.entries.len()
            invariant
                i <= self.entries@.len(),
                total == answers(self.entries@.take(i as int), least),
                total <= i * 0xffff_ffff_ffff_ffff,
            decreases self.entries@.len() - i,
        {
            assert(self.entries@.take(i + 1).drop_last() =~= self.entries@.take(i as int));
            if self.entries[i].0 >= least {
                total = total + self.entries[i].1 as u128;
            }
            i += 1;
        }
        assert(self.entries@.take(i as int) =~= self.entries@);
        total
    }
}

/// The window of recent durations after one more: at most ten thousand, and the oldest thousand go
/// when there would be more.
pub open spec fn next_window(window: Seq<u64>, duration: u64) -> Seq<u64> {
    let all = window.push(duration);
    if all.len() > 10000 {
        all.skip(1000)
    } else {
        all
    }
}

/// The window never grows beyond ten thousand durations, and the newest is always its last.
pub proof fn law_window_is_bounded(window: Seq<u64>, duration: u64)
    requires
        window.len() <= 10000,
    ensures
        0 < next_window(window, duration).len() <= 10000,
        next_window(window, duration).last() == duration,
{
}

/// The sum of durations.
pub open spec fn sum(window: Seq<u64>) -> nat
    decreases window.len(),
{
    if window.len() == 0 {
        0
    } else {
        sum(window.drop_last()) + window.last() as nat
    }
}

impl HttpProxyMetrics {
    /// Nothing is counted.
    pub open spec fn is_zero(self) -> bool {
        &&& self.requests_total == 0
        &&& self.connections_active == 0
        &&& self.bytes_sent == 0
        &&& self.bytes_received == 0
        &&& self.request_durations@.len() == 0
        &&& self.status_codes.entries@.len() == 0
    }

    /// Metrics of a proxy that has seen no request.
    pub fn new() -> (result: Self)
        ensures
            result.wf(),
            result.is_zero(),
    {
        HttpProxyMetrics {
            requests_total: 0,
            connections_active: 0,
            bytes_sent: 0,
            bytes_received: 0,
            request_durations: Vec::new(),
            status_codes: StatusCounts { entries: Vec::new() },
        }
    }

    /// The window is bounded and no status is counted twice.
    pub open spec fn wf(self) -> bool {
        &&& self.request_durations@.len() <= 10000
        &&& self.status_codes.wf()
    }
}

/// One less, back to the highest number below zero.
pub open spec fn one_less(n: usize) -> usize {
    if n == 0 {
        usize::MAX
    } else {
        (n - 1) as usize
    }
}

// ---------------------------------------------------------------------------------------------
// Upstream URIs
// ---------------------------------------------------------------------------------------------

/// What parsing a text as a URI gives: its scheme and its authority, each if it has one, or the
/// description of what is wrong with it.
pub type UriParts = std::result::Result<(Option<Seq<char>>, Option<Seq<char>>), Seq<char>>;

/// What `Uri::from_str` makes of a text.
pub uninterp spec fn uri_parts(text: Seq<char>) -> UriParts;

/// The parts of a parsed URI with their texts as sequences of characters.
pub open spec fn parts_view(
    parts: std::result::Result<(Option<String>, Option<String>), String>,
) -> UriParts {
    match parts {
        Ok(p) => Ok((opt_text(p.0), opt_text(p.1))),
        Err(d) => Err(d@),
    }
}

/// `Uri::from_str` parses a text; scheme, authority and the description of a failure depend on
/// nothing but the text.
#[verifier::external_body]
fn parse_uri(text: &str) -> (result: std::result::Result<(Option<String>, Option<String>), String>)
    ensures
        parts_view(result) == uri_parts(text@),
{
    match text.parse::<hyper::Uri>() {
        Ok(uri) => Ok((
            uri.scheme().map(|s| s.as_str().to_string()),
            uri.authority().map(|a| a.as_str().to_string()),
        )),
        Err(e) => Err(e.to_string()),
    }
}

/// The URI that a request is sent to: the upstream's scheme and authority, plain HTTP and the whole
/// address where it has none, and the path and query that were asked for.
pub open spec fn target_uri(
    scheme: Option<Seq<char>>,
    authority: Option<Seq<char>>,
    address: Seq<char>,
    path: Option<Seq<char>>,
) -> Seq<char> {
    (match scheme {
        Some(s) => s,
        None => "http"@,
    }) + "://"@ + (match authority {
        Some(a) => a,
        None => address,
    }) + (match path {
        Some(p) => p,
        None => "/"@,
    })
}

/// Puts the URI that a request is sent to together.
pub fn join_uri(
    scheme: Option<&str>,
    authority: Option<&str>,
    address: &str,
    path: Option<&str>,
) -> (result: String)
    ensures
        result@ == target_uri(opt_str(scheme), opt_str(authority), address@, opt_str(path)),
{
    let s = match scheme {
        Some(s) => s,
        None => "http",
    };
    let a = match authority {
        Some(a) => a,
        None => address,
    };
    let p = match path {
        Some(p) => p,
        None => "/",
    };
    text::cat4(s, "://", a, p)
}

/// What becomes of an upstream address and a requested path: the URI to ask for, or what is wrong.
pub open spec fn upstream_uri(address: Seq<char>, path: Option<Seq<char>>) -> std::result::Result<
    Seq<char>,
    ErrorView,
> {
    match uri_parts(address) {
        Err(d) => Err(config_error("Invalid upstream address: "@ + d)),
        Ok(p) => {
            let uri = target_uri(p.0, p.1, address, path);
            match uri_parts(uri) {
                Ok(_) => Ok(uri),
                Err(d) => Err(
                    internal_error("Failed to build upstream URI: "@ + d),
                ),
            }
        },
    }
}

/// Build the upstream URI from the path and query of the request URI.
pub fn build_upstream_uri(upstream: &UpstreamInfo, path_and_query: Option<&str>) -> (result: Result<
    String,
>)
    ensures
        match upstream_uri(upstream.config.address@, opt_str(path_and_query)) {
            Ok(uri) => result matches Ok(u) && u@ == uri,
            Err(f) => fails(result, f),
        },
{
    let address = upstream.config.address.as_str();
    match parse_uri(address) {
        Err(d) => {
            let message = text::cat2("Invalid upstream address: ", d.as_str());
            Err(Error::config(message.as_str()))
        },
        Ok(parts) => {
            let scheme = match &parts.0 {
                Some(s) => Some(s.as_str()),
                None => None,
            };
            let authority = match &parts.1 {
                Some(a) => Some(a.as_str()),
                None => None,
            };
            let uri = join_uri(scheme, authority, address, path_and_query);
            match parse_uri(uri.as_str()) {
                Ok(_) => Ok(uri),
                Err(d) => {
                    let message = text::cat2("Failed to build upstream URI: ", d.as_str());
                    Err(Error::internal(message.as_str()))
                },
            }
        },
    }
}

// ---------------------------------------------------------------------------------------------
// Headers
// ---------------------------------------------------------------------------------------------

/// Header fields: under each name, in lower case, its values in order.
pub type Fields = Map<Seq<char>, Seq<Seq<u8>>>;

/// The error for a name that is none.
pub open spec fn name_error(name: Seq<char>) -> ErrorView {
    config_error("Invalid header name '"@ + name + "': "@ + "invalid HTTP header name"@)
}

/// The error for a value that is none.
pub open spec fn value_error(value: Seq<char>) -> ErrorView {
    config_error("Invalid header value '"@ + value + "': "@ + "failed to parse header value"@)
}

/// The fields with one more, or the error that stands in its way.
pub open spec fn add_field(fields: Fields, name: Seq<char>, value: Seq<char>) -> std::result::Result<
    Fields,
    ErrorView,
> {
    if !headers::is_header_name(name) {
        Err(name_error(name))
    } else if !headers::is_header_value(value) {
        Err(value_error(value))
    } else {
        Ok(fields.insert(headers::lower(name), seq![vstd::utf8::encode_utf8(value)]))
    }
}

/// The fields after the entries at and behind `i` were added one by one, up to the first error.
pub open spec fn add_fields(fields: Fields, entries: Seq<(String, String)>, i: int) -> (
    Fields,
    Option<ErrorView>,
)
    decreases entries.len() - i,
{
    if i < 0 || i >= entries.len() {
        (fields, None)
    } else {
        match add_field(fields, entries[i].0@, entries[i].1@) {
            Ok(next) => add_fields(next, entries, i + 1),
            Err(e) => (fields, Some(e)),
        }
    }
}

/// The fields after the names at and behind `i` were removed one by one, up to the first error.
pub open spec fn remove_fields(fields: Fields, names: Seq<String>, i: int) -> (
    Fields,
    Option<ErrorView>,
)
    decreases names.len() - i,
{
    if i < 0 || i >= names.len() {
        (fields, None)
    } else if !headers::is_header_name(names[i]@) {
        (fields, Some(name_error(names[i]@)))
    } else {
        remove_fields(fields.remove(headers::lower(names[i]@)), names, i + 1)
    }
}

/// What the configuration makes of the fields of a request: first the additions, then the removals.
pub open spec fn request_fields(fields: Fields, config: HttpProxyConfig) -> (
    Fields,
    Option<ErrorView>,
) {
    let added = add_fields(fields, config.add_headers.entries@, 0);
    if added.1 is Some {
        added
    } else {
        remove_fields(added.0, config.remove_headers@, 0)
    }
}

/// Whether so many more fields fit into a header map for certain.
pub open spec fn has_room(fields: Fields, more: nat) -> bool {
    fields.dom().finite() && fields.dom().len() + more <= 6554
}

/// A header that is configured to be removed does not reach the upstream, also where it is configured
/// to be added.
pub proof fn law_removal_wins(fields: Fields, config: HttpProxyConfig, k: int)
    requires
        0 <= k < config.remove_headers@.len(),
        request_fields(fields, config).1 is None,
    ensures
        !request_fields(fields, config).0.contains_key(headers::lower(config.remove_headers@[k]@)),
{
    let added = add_fields(fields, config.add_headers.entries@, 0);
    lemma_removed(added.0, config.remove_headers@, 0, k);
}

proof fn lemma_removed(fields: Fields, names: Seq<String>, i: int, k: int)
    requires
        0 <= i <= k < names.len(),
        remove_fields(fields, names, i).1 is None,
    ensures
        !remove_fields(fields, names, i).0.contains_key(headers::lower(names[k]@)),
    decreases names.len() - i,
{
    let next = fields.remove(headers::lower(names[i]@));
    if i < k {
        lemma_removed(next, names, i + 1, k);
    } else {
        lemma_stays_removed(next, names, i + 1, headers::lower(names[k]@));
    }
}

proof fn lemma_stays_removed(fields: Fields, names: Seq<String>, i: int, name: Seq<char>)
    requires
        0 <= i,
        !fields.contains_key(name),
    ensures
        !remove_fields(fields, names, i).0.contains_key(name),
    decreases names.len() - i,
{
    if i < names.len() && headers::is_header_name(names[i]@) {
        lemma_stays_removed(fields.remove(headers::lower(names[i]@)), names, i + 1, name);
    }
}

/// The error for a header map that cannot take another header.
pub open spec fn full() -> ErrorView {
    internal_error("size overflows MAX_SIZE"@)
}

fn full_error() -> (result: Error)
    ensures
        result@ == full(),
{
    Error::internal("size overflows MAX_SIZE")
}

fn bad_name(name: &str, description: &str) -> (result: Error)
    requires
        description@ == "invalid HTTP header name"@,
    ensures
        result@ == name_error(name@),
{
    let message = text::cat4("Invalid header name '", name, "': ", description);
    Error::config(message.as_str())
}

fn bad_value(value: &str, description: &str) -> (result: Error)
    requires
        description@ == "failed to parse header value"@,
    ensures
        result@ == value_error(value@),
{
    let message = text::cat4("Invalid header value '", value, "': ", description);
    Error::config(message.as_str())
}

/// Apply request transformations based on configuration.
pub fn transform_request(
    fields: &mut hyper::HeaderMap<hyper::header::HeaderValue>,
    config: &HttpProxyConfig,
) -> (result: Result<()>)
    ensures
        ({
            let before = headers::header_contents(*old(fields));
            let (after, fault) = request_fields(before, *config);
            let exact = headers::header_contents(*final(fields)) == after && fails_by(result, fault);
            exact || (!has_room(before, config.add_headers.entries@.len()) && fails(result, full()))
        }),
{
    let ghost before = headers::header_contents(*fields);
    let ghost entries = config.add_headers.entries@;
    let ghost names = config.remove_headers@;
    let mut i: usize = 0;
    while i < config.add_headers.entries.len()
        invariant
            i <= entries.len(),
            entries == config.add_headers.entries@,
            before == headers::header_contents(*old(fields)),
            add_fields(before, entries, 0) == add_fields(
                headers::header_contents(*fields),
                entries,
                i as int,
            ),
            has_room(before, entries.len()) ==> has_room(
                headers::header_contents(*fields),
                (entries.len() - i) as nat,
            ),
        decreases entries.len() - i,
    {
        let name = config.add_headers.entries[i].0.as_str();
        let value = config.add_headers.entries[i].1.as_str();
        let ghost current = headers::header_contents(*fields);
        match headers::set(fields, name, value) {
            Ok(()) => {
                proof {
                    let after = headers::header_contents(*fields);
                    assert(after.dom() =~= current.dom().insert(headers::lower(name@)));
                }
            },
            Err(HeaderFault::Name(d)) => {
                return Err(bad_name(name, d.as_str()));
            },
            Err(HeaderFault::Value(d)) => {
                return Err(bad_value(value, d.as_str()));
            },
            Err(HeaderFault::Full) => {
                return Err(full_error());
            },
        }
        i += 1;
    }
    let ghost added = headers::header_contents(*fields);
    i = 0;
    while i < config.remove_headers.len()
        invariant
            i <= names.len(),
            names == config.remove_headers@,
            entries == config.add_headers.entries@,
            before == headers::header_contents(*old(fields)),
            add_fields(before, entries, 0) == (added, None::<ErrorView>),
            remove_fields(added, names, 0) == remove_fields(
                headers::header_contents(*fields),
                names,
                i as int,
            ),
        decreases names.len() - i,
    {
        let name = config.remove_headers[i].as_str();
        match headers::unset(fields, name) {
            Ok(()) => {},
            Err(HeaderFault::Name(d)) => {
                return Err(bad_name(name, d.as_str()));
            },
            Err(_) => {
                return Err(full_error());
            },
        }
        i += 1;
    }
    Ok(())
}

proof fn lemma_server_header()
    ensures
        headers::is_header_name("X-Proxy-Server"@),
        headers::lower("X-Proxy-Server"@) == "x-proxy-server"@,
        headers::is_header_value("Harbr-Router"@),
{
    reveal_strlit("X-Proxy-Server");
    reveal_strlit("x-proxy-server");
    reveal_strlit("Harbr-Router");
    assert(headers::lower("X-Proxy-Server"@) =~= "x-proxy-server"@);
    vstd::utf8::is_ascii_chars_encode_utf8("Harbr-Router"@);
}

/// Apply response transformations: the server identifies itself.
pub fn transform_response(fields: &mut hyper::HeaderMap<hyper::header::HeaderValue>) -> (result:
    Result<()>)
    ensures
        ({
            let before = headers::header_contents(*old(fields));
            ||| result is Ok && headers::header_contents(*final(fields)) == before.insert(
                "x-proxy-server"@,
                seq![vstd::utf8::encode_utf8("Harbr-Router"@)],
            )
            ||| !has_room(before, 1) && headers::header_contents(*final(fields)) == before
                && fails(result, full())
        }),
{
    proof {
        lemma_server_header();
    }
    match headers::set(fields, "X-Proxy-Server", "Harbr-Router") {
        Ok(()) => Ok(()),
        Err(_) => Err(full_error()),
    }
}

/// The session that a single cookie names.
pub open spec fn cookie_session(cookie: Seq<char>) -> Option<Seq<char>> {
    let t = text::trim_white_end(text::trim_white_start(cookie));
    let p = text::position(t, '=');
    if p < t.len() && t.take(p) == "session_id"@ {
        Some(t.skip(p + 1))
    } else {
        None
    }
}

/// The session that the first cookie at or behind `i` that names one names.
pub open spec fn first_session(cookies: Seq<Seq<char>>, i: int) -> Option<Seq<char>>
    decreases cookies.len() - i,
{
    if i < 0 || i >= cookies.len() {
        None
    } else if cookie_session(cookies[i]) is Some {
        cookie_session(cookies[i])
    } else {
        first_session(cookies, i + 1)
    }
}

/// What a client is recognised by: the session in its cookies, or else the address that it was
/// forwarded for, or else its real address.
pub open spec fn session_key(fields: Fields) -> Option<Seq<char>> {
    let cookies = headers::field_text(fields, "cookie"@);
    let session = match cookies {
        Some(c) => first_session(text::split(c, ';'), 0),
        None => None,
    };
    if session is Some {
        session
    } else if fields.contains_key("x-forwarded-for"@) {
        headers::field_text(fields, "x-forwarded-for"@)
    } else {
        headers::field_text(fields, "x-real-ip"@)
    }
}

fn session_of_cookie(cookie: &str) -> (result: Option<String>)
    ensures
        opt_text(result) == cookie_session(cookie@),
{
    let trimmed = text::trim(cookie);
    let cs = text::chars(trimmed.as_str());
    let p = text::position_from(&cs, 0, '=');
    assert(cs@.skip(0) =~= trimmed@);
    if p == cs.len() {
        return None;
    }
    let name = text::from_range(&cs, 0, p);
    assert(name@ =~= trimmed@.take(p as int));
    if !text::eq(name.as_str(), "session_id") {
        return None;
    }
    let value = text::from_range(&cs, p + 1, cs.len());
    assert(value@ =~= trimmed@.skip(p + 1));
    Some(value)
}

proof fn lemma_session_headers()
    ensures
        headers::is_header_name("cookie"@),
        headers::is_header_name("x-forwarded-for"@),
        headers::is_header_name("x-real-ip"@),
        headers::lower("cookie"@) == "cookie"@,
        headers::lower("x-forwarded-for"@) == "x-forwarded-for"@,
        headers::lower("x-real-ip"@) == "x-real-ip"@,
{
    reveal_strlit("cookie");
    reveal_strlit("x-forwarded-for");
    reveal_strlit("x-real-ip");
    assert(headers::lower("cookie"@) =~= "cookie"@);
    assert(headers::lower("x-forwarded-for"@) =~= "x-forwarded-for"@);
    assert(headers::lower("x-real-ip"@) =~= "x-real-ip"@);
}

/// Extract session key for consistent hashing.
pub fn extract_session_key(fields: &hyper::HeaderMap<hyper::header::HeaderValue>) -> (result: Option<
    String,
>)
    ensures
        opt_text(result) == session_key(headers::header_contents(*fields)),
{
    proof {
        lemma_session_headers();
    }
    let ghost contents = headers::header_contents(*fields);
    if let Some(bytes) = headers::first_value(fields, "cookie") {
        if let Some(cookies) = headers::visible_text(&bytes) {
            let pieces = text::split_char(cookies.as_str(), ';');
            let ghost all = text::split(cookies@, ';');
            let mut i: usize = 0;
            while i < pieces.len()
                invariant
                    i <= pieces@.len(),
                    text::views(pieces@) == all,
                    all == text::split(cookies@, ';'),
                    contents == headers::header_contents(*fields),
                    headers::field_text(contents, "cookie"@) == Some(cookies@),
                    first_session(all, 0) == first_session(all, i as int),
                decreases pieces@.len() - i,
            {
                assert(all[i as int] == pieces@[i as int]@);
                let session = session_of_cookie(pieces[i].as_str());
                if session.is_some() {
                    return session;
                }
                i += 1;
            }
        }
    }
    match headers::first_value(fields, "x-forwarded-for") {
        Some(bytes) => headers::visible_text(&bytes),
        None => match headers::first_value(fields, "x-real-ip") {
            Some(bytes) => headers::visible_text(&bytes),
            None => None,
        },
    }
}

// ---------------------------------------------------------------------------------------------
// The proxy
// ---------------------------------------------------------------------------------------------

/// The first thing wrong with the name of a header to add, at or behind `i`.
pub open spec fn added_names_fault(entries: Seq<(String, String)>, i: int) -> Option<ErrorView>
    decreases entries.len() - i,
{
    if i < 0 || i >= entries.len() {
        None
    } else if !headers::is_header_name(entries[i].0@) {
        Some(name_error(entries[i].0@))
    } else {
        added_names_fault(entries, i + 1)
    }
}

/// The first thing wrong with the name of a header to remove, at or behind `i`.
pub open spec fn removed_names_fault(names: Seq<String>, i: int) -> Option<ErrorView>
    decreases names.len() - i,
{
    if i < 0 || i >= names.len() {
        None
    } else if !headers::is_header_name(names[i]@) {
        Some(name_error(names[i]@))
    } else {
        removed_names_fault(names, i + 1)
    }
}

/// The first thing that keeps an instance from being served as HTTP.
pub open spec fn http_fault(config: ProxyInstanceConfig) -> Option<ErrorView> {
    let http = config.config.http;
    if config.proxy_type != ProxyType::Http {
        Some(config_error("Invalid proxy type for HTTP proxy"@))
    } else if http.max_request_size == 0 {
        Some(config_error("HTTP max_request_size must be greater than 0"@))
    } else if http.max_request_size > 1073741824 {
        Some(config_error("HTTP max_request_size cannot exceed 1GB"@))
    } else if http.request_timeout_secs == 0 {
        Some(config_error("HTTP request_timeout_secs must be greater than 0"@))
    } else if added_names_fault(http.add_headers.entries@, 0) is Some {
        added_names_fault(http.add_headers.entries@, 0)
    } else {
        removed_names_fault(http.remove_headers@, 0)
    }
}

/// The error for a request that no upstream can take.
pub open spec fn no_upstream(proxy_type: Seq<char>) -> ErrorView {
    ErrorView::Proxy {
        message: "No healthy upstream available"@,
        proxy_type,
        instance_name: "unknown"@,
    }
}

/// What an upstream's reply amounts to.
pub open spec fn reply_error(reply: UpstreamReply, name: Seq<char>) -> Option<ErrorView> {
    match reply {
        UpstreamReply::Answered => None,
        UpstreamReply::Failed(d) => Some(
            ErrorView::Network {
                message: "Request to upstream '"@ + name + "' failed: "@ + d@,
                kind: NetworkErrorKind::ConnectionFailed,
            },
        ),
        UpstreamReply::TimedOut => Some(
            ErrorView::Network {
                message: "Request to upstream '"@ + name + "' timed out"@,
                kind: NetworkErrorKind::Timeout,
            },
        ),
    }
}

/// Whether the average response time of these statistics can take one more sample.
pub open spec fn can_record(stats: routing::UpstreamStats, elapsed: Duration) -> bool {
    stats.avg_response_time_ns * 7 + routing::sample_of(elapsed) <= u64::MAX
}

/// Statistics after a request that succeeded or failed.
pub open spec fn recorded(
    stats: routing::UpstreamStats,
    success: bool,
    elapsed: Duration,
    now: Instant,
) -> routing::UpstreamStats {
    if success {
        stats.answered(elapsed, now)
    } else {
        stats.failed(now)
    }
}

/// No more answers have a high status than there are answers, so an error rate lies between zero
/// and one.
pub proof fn law_error_rate_is_a_share(entries: Seq<(u16, u64)>, least: u16)
    ensures
        answers(entries, least) <= answers(entries, 0),
    decreases entries.len(),
{
    if entries.len() > 0 {
        law_error_rate_is_a_share(entries.drop_last(), least);
    }
}

impl HttpProxy {
    /// Create a new HTTP proxy instance.
    pub fn new() -> (result: Self)
        ensures
            result.metrics.wf(),
            result.metrics.is_zero(),
    {
        HttpProxy { metrics: HttpProxyMetrics::new() }
    }

    /// The type of this proxy.
    pub fn proxy_type(&self) -> (result: ProxyType)
        ensures
            result == ProxyType::Http,
    {
        ProxyType::Http
    }

    /// A request came in.
    pub fn begin_request(&mut self)
        ensures
            *final(self) == (HttpProxy {
                metrics: HttpProxyMetrics {
                    requests_total: routing::one_more(old(self).metrics.requests_total),
                    connections_active: routing::next_ticket(old(self).metrics.connections_active),
                    ..old(self).metrics
                },
            }),
    {
        self.metrics.requests_total = self.metrics.requests_total.wrapping_add(1);
        self.metrics.connections_active = self.metrics.connections_active.wrapping_add(1);
    }

    /// Readies a request for the upstream that was selected for it.
    pub fn prepare_request(
        upstream: Option<(usize, &UpstreamInfo)>,
        path_and_query: Option<&str>,
        fields: &mut hyper::HeaderMap<hyper::header::HeaderValue>,
        config: &HttpProxyConfig,
    ) -> (result: Result<PreparedRequest>)
        ensures
            ({
                let before = headers::header_contents(*old(fields));
                let after = headers::header_contents(*final(fields));
                match upstream {
                    None => after == before && fails(result, no_upstream("http"@)),
                    Some((index, info)) => match upstream_uri(
                        info.config.address@,
                        opt_str(path_and_query),
                    ) {
                        Err(f) => after == before && fails(result, f),
                        Ok(uri) => {
                            let (changed, fault) = request_fields(before, *config);
                            ||| !has_room(before, config.add_headers.entries@.len())
                                && fails(result, full())
                            ||| after == changed && match fault {
                                Some(f) => fails(result, f),
                                None => result matches Ok(r) && r.upstream == index && r.uri@ == uri
                                    && r.timeout.total_nanos() == info.config.timeout_ms
                                    * 1_000_000,
                            }
                        },
                    },
                }
            }),
    {
        match upstream {
            None => Err(Error::proxy("No healthy upstream available", "http", "unknown")),
            Some((index, info)) => match build_upstream_uri(info, path_and_query) {
                Err(e) => Err(e),
                Ok(uri) => match transform_request(fields, config) {
                    Err(e) => Err(e),
                    Ok(()) => Ok(
                        PreparedRequest {
                            upstream: index,
                            uri,
                            timeout: utils::millis_to_duration(info.config.timeout_ms),
                        },
                    ),
                },
            },
        }
    }

    /// Takes note of what came of a request to an upstream.
    pub fn settle_request(
        router: &mut Router,
        upstream: usize,
        reply: UpstreamReply,
        elapsed: Duration,
        now: Instant,
    ) -> (result: Result<()>)
        requires
            old(router).wf(),
            upstream < old(router).upstreams().len(),
            reply is Answered ==> can_record(
                old(router).upstreams()[upstream as int].stats,
                elapsed,
            ),
        ensures
            final(router).wf(),
            ({
                let info = old(router).upstreams()[upstream as int];
                &&& final(router).upstreams() == old(router).upstreams().update(
                    upstream as int,
                    info.with_stats(recorded(info.stats, reply is Answered, elapsed, now)),
                )
                &&& match reply_error(reply, info.config.name@) {
                    Some(f) => fails(result, f),
                    None => result is Ok,
                }
            }),
            final(router).strategy() == old(router).strategy(),
            final(router).counter() == old(router).counter(),
            final(router).points() == old(router).points(),
    {
        let name = router.get_upstreams()[upstream].config.name.clone();
        match reply {
            UpstreamReply::Answered => {
                let stats = router.stats_mut(upstream);
                stats.record_success(elapsed, now);
                Ok(())
            },
            UpstreamReply::Failed(d) => {
                let stats = router.stats_mut(upstream);
                stats.record_failure(now);
                let message = text::cat4(
                    "Request to upstream '",
                    name.as_str(),
                    "' failed: ",
                    d.as_str(),
                );
                Err(Error::network(message.as_str(), NetworkErrorKind::ConnectionFailed))
            },
            UpstreamReply::TimedOut => {
                let stats = router.stats_mut(upstream);
                stats.record_failure(now);
                let message = text::cat3(
                    "Request to upstream '",
                    name.as_str(),
                    "' timed out",
                );
                Err(Error::network(message.as_str(), NetworkErrorKind::Timeout))
            },
        }
    }

    /// A request is over: it was answered with a status, or it failed and the client is told so.
    pub fn finish_request(&mut self, elapsed: Duration, status: Option<u16>) -> (result: Option<
        ErrorResponse,
    >)
        requires
            old(self).metrics.wf(),
            count_of(
                old(self).metrics.status_codes.entries@,
                match status {
                    Some(s) => s,
                    None => 502,
                },
            ) < u64::MAX,
        ensures
            final(self).metrics.wf(),
            ({
                let before = old(self).metrics;
                let after = final(self).metrics;
                let answered = match status {
                    Some(s) => s,
                    None => 502,
                };
                &&& after.requests_total == before.requests_total
                &&& after.connections_active == one_less(before.connections_active)
                &&& after.bytes_sent == before.bytes_sent
                &&& after.bytes_received == before.bytes_received
                &&& after.request_durations@ == next_window(
                    before.request_durations@,
                    routing::sample_of(elapsed),
                )
                &&& forall|s: u16|
                    #![trigger count_of(after.status_codes.entries@, s)]
                    count_of(after.status_codes.entries@, s) == count_of(
                        before.status_codes.entries@,
                        s,
                    ) + if s == answered {
                        1int
                    } else {
                        0
                    }
                &&& forall|least: u16|
                    #![trigger answers(after.status_codes.entries@, least)]
                    answers(after.status_codes.entries@, least) == answers(
                        before.status_codes.entries@,
                        least,
                    ) + if answered >= least {
                        1int
                    } else {
                        0
                    }
                &&& match status {
                    Some(_) => result is None,
                    None => result matches Some(r) && r.status == 502 && r.content_type@
                        == "text/plain"@ && r.body@ == "Bad Gateway"@,
                }
            }),
    {
        self.metrics.connections_active = self.metrics.connections_active.wrapping_sub(1);
        let nanos: u128 = elapsed.as_nanos();
        let sample: u64 = (nanos % 0x1_0000_0000_0000_0000) as u64;
        self.metrics.request_durations.push(sample);
        if self.metrics.request_durations.len() > 10000 {
            let ghost all = self.metrics.request_durations@;
            let recent = self.metrics.request_durations.split_off(1000);
            assert(recent@ =~= all.skip(1000));
            self.metrics.request_durations = recent;
        }
        match status {
            Some(s) => {
                self.metrics.status_codes.bump(s);
                None
            },
            None => {
                self.metrics.status_codes.bump(502);
                Some(create_error_response(502, "Bad Gateway"))
            },
        }
    }

    /// Validate proxy-specific configuration.
    pub fn validate_config(&self, config: &ProxyInstanceConfig) -> (result: Result<()>)
        ensures
            fails_by(result, http_fault(*config)),
    {
        if config.proxy_type != ProxyType::Http {
            return Err(Error::config("Invalid proxy type for HTTP proxy"));
        }
        let http = &config.config.http;
        if http.max_request_size == 0 {
            return Err(Error::config("HTTP max_request_size must be greater than 0"));
        }
        if http.max_request_size > 1024 * 1024 * 1024 {
            return Err(Error::config("HTTP max_request_size cannot exceed 1GB"));
        }
        if http.request_timeout_secs == 0 {
            return Err(Error::config("HTTP request_timeout_secs must be greater than 0"));
        }
        let ghost entries = http.add_headers.entries@;
        let mut i: usize = 0;
        while i < http.add_headers.entries.len()
            invariant
                i <= entries.len(),
                *http == config.config.http,
                entries == http.add_headers.entries@,
                config.proxy_type == ProxyType::Http,
                0 < http.max_request_size <= 1073741824,
                http.request_timeout_secs > 0,
                added_names_fault(entries, 0) == added_names_fault(entries, i as int),
            decreases entries.len() - i,
        {
            let name = http.add_headers.entries[i].0.as_str();
            match headers::check_name(name) {
                Ok(()) => {},
                Err(d) => {
                    return Err(bad_name(name, d.as_str()));
                },
            }
            i += 1;
        }
        i = 0;
        let ghost names = http.remove_headers@;
        while i < http.remove_headers.len()
            invariant
                i <= names.len(),
                *http == config.config.http,
                names == http.remove_headers@,
                config.proxy_type == ProxyType::Http,
                0 < http.max_request_size <= 1073741824,
                http.request_timeout_secs > 0,
                added_names_fault(http.add_headers.entries@, 0) is None,
                removed_names_fault(names, 0) == removed_names_fault(names, i as int),
            decreases names.len() - i,
        {
            let name = http.remove_headers[i].as_str();
            match headers::check_name(name) {
                Ok(()) => {},
                Err(d) => {
                    return Err(bad_name(name, d.as_str()));
                },
            }
            i += 1;
        }
        Ok(())
    }

    /// What the counters say as metrics.
    pub open spec fn reported_metrics(self) -> ProxyMetrics {
        ProxyMetrics {
            total_requests: self.metrics.requests_total,
            active_connections: self.metrics.connections_active as u64,
            bytes_sent: self.metrics.bytes_sent,
            bytes_received: self.metrics.bytes_received,
            request_rate: Ratio { numerator: 0, denominator: 1 },
            error_rate: if answers(self.metrics.status_codes.entries@, 0) > 0 {
                Ratio {
                    numerator: answers(self.metrics.status_codes.entries@, 400) as u128,
                    denominator: answers(self.metrics.status_codes.entries@, 0) as u128,
                }
            } else {
                Ratio { numerator: 0, denominator: 1 }
            },
            avg_response_time_ms: if self.metrics.request_durations@.len() > 0 {
                Ratio {
                    numerator: sum(self.metrics.request_durations@) as u128,
                    denominator: (self.metrics.request_durations@.len() * 1_000_000) as u128,
                }
            } else {
                Ratio { numerator: 0, denominator: 1 }
            },
        }
    }

    /// Get proxy-specific metrics.
    pub fn get_metrics(&self) -> (result: Result<ProxyMetrics>)
        requires
            self.metrics.wf(),
        ensures
            result matches Ok(m) && m == self.reported_metrics(),
    {
        let durations = &self.metrics.request_durations;
        let mut total: u128 = 0;
        let mut i: usize = 0;
        while i < durations.len()
            invariant
                i <= durations@.len() <= 10000,
                total == sum(durations@.take(i as int)),
                total <= i * 0xffff_ffff_ffff_ffff,
            decreases durations@.len() - i,
        {
            assert(durations@.take(i + 1).drop_last() =~= durations@.take(i as int));
            total = total + durations[i] as u128;
            i += 1;
        }
        assert(durations@.take(i as int) =~= durations@);
        let avg_response_time_ms = if durations.len() == 0 {
            Ratio { numerator: 0, denominator: 1 }
        } else {
            Ratio { numerator: total, denominator: durations.len() as u128 * 1_000_000 }
        };
        let total_responses: u128 = self.metrics.status_codes.count_from(0);
        let error_responses: u128 = self.metrics.status_codes.count_from(400);
        let error_rate = if total_responses > 0 {
            Ratio { numerator: error_responses, denominator: total_responses }
        } else {
            Ratio { numerator: 0, denominator: 1 }
        };
        Ok(
            ProxyMetrics {
                total_requests: self.metrics.requests_total,
                active_connections: self.metrics.connections_active as u64,
                bytes_sent: self.metrics.bytes_sent,
                bytes_received: self.metrics.bytes_received,
                request_rate: Ratio { numerator: 0, denominator: 1 },
                error_rate,
                avg_response_time_ms,
            },
        )
    }

    /// Whether this is the health that the counters show.
    pub open spec fn has_health(self, health: ProxyHealth) -> bool {
        &&& health.status == (if self.metrics.connections_active >= 10000 {
            HealthState::Unhealthy
        } else if self.metrics.requests_total > 0 {
            HealthState::Healthy
        } else {
            HealthState::Unknown
        })
        &&& health.message@ == "Active connections: "@ + text::decimal(
            self.metrics.connections_active as nat,
        ) + ", Total requests: "@ + text::decimal(self.metrics.requests_total as nat)
    }

    /// Perform health check on the proxy itself.
    pub fn health_check(&self) -> (result: Result<ProxyHealth>)
        ensures
            result matches Ok(h) && self.has_health(h),
    {
        let active: usize = self.metrics.connections_active;
        let total: u64 = self.metrics.requests_total;
        let status = if active < 10000 && total > 0 {
            HealthState::Healthy
        } else if active >= 10000 {
            HealthState::Unhealthy
        } else {
            HealthState::Unknown
        };
        let message = text::cat4(
            "Active connections: ",
            text::number(active as u64).as_str(),
            ", Total requests: ",
            text::number(total).as_str(),
        );
        Ok(ProxyHealth { status, message })
    }
}

/// Create an error response.
pub fn create_error_response(status: u16, message: &str) -> (result: ErrorResponse)
    ensures
        result.status == status,
        result.content_type@ == "text/plain"@,
        result.body@ == message@,
{
    ErrorResponse {
        status,
        content_type: "text/plain".to_string(),
        body: message.to_string(),
    }
}

impl Default for HttpProxy {
    fn default() -> (result: Self)
        ensures
            result.metrics.wf(),
            result.metrics.is_zero(),
    {
        HttpProxy::new()
    }
}

// ---------------------------------------------------------------------------------------------
// What holds of requests and metrics
// ---------------------------------------------------------------------------------------------

/// Up to ten thousand durations are all kept, in order. One more, and the oldest thousand go, and
/// nothing else.
pub proof fn law_window_keeps_the_newest(window: Seq<u64>, duration: u64, k: int)
    requires
        window.len() <= 10000,
        0 <= k < next_window(window, duration).len(),
    ensures
        window.len() < 10000 ==> next_window(window, duration).len() == window.len() + 1
            && next_window(window, duration)[k] == (if k < window.len() {
            window[k]
        } else {
            duration
        }),
        window.len() == 10000 ==> next_window(window, duration).len() == 9001 && next_window(
            window,
            duration,
        )[k] == (if k < 9000 {
            window[k + 1000]
        } else {
            duration
        }),
{
}

/// One connection less undoes one more.
pub proof fn law_connections_come_and_go(n: usize)
    ensures
        one_less(routing::next_ticket(n)) == n,
        routing::next_ticket(one_less(n)) == n,
        n > 0 ==> one_less(n) == n - 1,
{
}

/// A status is counted by its own entry alone, and the answers from a status on are those with that
/// status and those from the next one on.
pub proof fn law_statuses_are_counted(entries: Seq<(u16, u64)>, status: u16)
    requires
        statuses(entries).no_duplicates(),
    ensures
        forall|i: int|
            0 <= i < entries.len() ==> count_of(entries, (#[trigger] entries[i]).0) == entries[i].1,
        !statuses(entries).contains(status) ==> count_of(entries, status) == 0,
        status < u16::MAX ==> answers(entries, status) == answers(entries, (status + 1) as u16)
            + count_of(entries, status),
        answers(entries, u16::MAX) == count_of(entries, u16::MAX),
    decreases entries.len(),
{
    assert forall|i: int| 0 <= i < entries.len() implies count_of(
        entries,
        (#[trigger] entries[i]).0,
    ) == entries[i].1 by {
        lemma_entry_update(entries, i, 0);
    }
    if !statuses(entries).contains(status) {
        lemma_absent(entries, status);
    }
    if entries.len() > 0 {
        let rest = entries.drop_last();
        assert(statuses(rest) =~= statuses(entries).drop_last());
        law_statuses_are_counted(rest, status);
        let last = entries.last().0;
        assert(!statuses(rest).contains(last)) by {
            if statuses(rest).contains(last) {
                let k = statuses(rest).index_of(last);
                assert(statuses(entries)[k] == last);
                assert(statuses(entries)[entries.len() - 1] == last);
            }
        }
        lemma_absent(rest, last);
    }
}

/// The sum of durations is that of its parts, and that of a single duration is the duration.
pub proof fn law_durations_add_up(a: Seq<u64>, b: Seq<u64>, d: u64)
    ensures
        sum(a + b) == sum(a) + sum(b),
        sum(seq![d]) == d,
    decreases b.len(),
{
    assert(seq![d].drop_last() =~= Seq::<u64>::empty());
    assert(sum(Seq::<u64>::empty()) == 0);
    if b.len() == 0 {
        assert(a + b =~= a);
    } else {
        law_durations_add_up(a, b.drop_last(), d);
        assert((a + b).drop_last() =~= a + b.drop_last());
    }
}

/// A proxy's metrics are its counters. The error rate is the share of answers with a status of 400 or
/// more, and where every request took the same time, that time is the average.
#[verifier::spinoff_prover]
pub proof fn law_metrics_report_the_counters(proxy: HttpProxy, d: u64)
    requires
        proxy.metrics.wf(),
        answers(proxy.metrics.status_codes.entries@, 0) <= u128::MAX,
    ensures
        ({
            let m = proxy.reported_metrics();
            let entries = proxy.metrics.status_codes.entries@;
            let times = proxy.metrics.request_durations@;
            &&& m.total_requests == proxy.metrics.requests_total
            &&& m.active_connections == proxy.metrics.connections_active
            &&& m.bytes_sent == proxy.metrics.bytes_sent
            &&& m.bytes_received == proxy.metrics.bytes_received
            &&& m.error_rate.numerator * answers(entries, 0) == m.error_rate.denominator * answers(
                entries,
                400,
            )
            &&& m.error_rate.numerator <= m.error_rate.denominator
            &&& m.error_rate.denominator > 0
            &&& m.request_rate.numerator == 0 && m.request_rate.denominator > 0
            &&& times.len() == 0 ==> m.avg_response_time_ms.numerator == 0
            &&& times.len() > 0 && (forall|i: int| 0 <= i < times.len() ==> #[trigger] times[i] == d)
                ==> m.avg_response_time_ms.numerator * 1_000_000 == d
                * m.avg_response_time_ms.denominator
            &&& m.avg_response_time_ms.denominator > 0
        }),
{
    let entries = proxy.metrics.status_codes.entries@;
    let times = proxy.metrics.request_durations@;
    law_error_rate_is_a_share(entries, 400);
    let rate = proxy.reported_metrics().error_rate;
    let average = proxy.reported_metrics().avg_response_time_ms;
    let a = answers(entries, 0);
    let b = answers(entries, 400);
    assert(rate.numerator * a == rate.denominator * b) by (nonlinear_arith)
        requires
            rate.numerator == b && rate.denominator == a || a == 0 && b == 0,
    ;
    lemma_sum_bound(times);
    let n = times.len();
    if n > 0 && (forall|i: int| 0 <= i < times.len() ==> #[trigger] times[i] == d) {
        lemma_sum_equal(times, d);
        assert(average.numerator * 1_000_000 == d * average.denominator) by (nonlinear_arith)
            requires
                average.numerator == d * n,
                average.denominator == n * 1_000_000,
        ;
    }
}

proof fn lemma_sum_bound(times: Seq<u64>)
    ensures
        sum(times) <= times.len() * u64::MAX,
    decreases times.len(),
{
    if times.len() > 0 {
        lemma_sum_bound(times.drop_last());
    }
}

proof fn lemma_sum_equal(times: Seq<u64>, d: u64)
    requires
        forall|i: int| 0 <= i < times.len() ==> #[trigger] times[i] == d,
    ensures
        sum(times) == d * times.len(),
    decreases times.len(),
{
    if times.len() > 0 {
        let rest = times.drop_last();
        lemma_sum_equal(rest, d);
        let n = times.len() as int;
        assert(d * (n - 1) + d == d * n) by (nonlinear_arith);
    }
}

/// A proxy with ten thousand connections is unhealthy; one with fewer is healthy once it has had a
/// request.
pub proof fn law_health_goes_by_the_counters(proxy: HttpProxy, health: ProxyHealth)
    requires
        proxy.has_health(health),
    ensures
        health.status == HealthState::Unhealthy <==> proxy.metrics.connections_active >= 10000,
        health.status == HealthState::Healthy <==> proxy.metrics.connections_active < 10000
            && proxy.metrics.requests_total > 0,
{
}

/// A request goes to the upstream's scheme and authority and asks for the path that the client asked
/// for. Where parts are missing they are plain HTTP, the whole address and the root.
pub proof fn law_target_uri_has_all_parts(
    scheme: Seq<char>,
    authority: Seq<char>,
    address: Seq<char>,
    path: Seq<char>,
    other: Seq<char>,
)
    ensures
        target_uri(Some(scheme), Some(authority), address, Some(path)) == scheme + "://"@ + authority
            + path,
        target_uri(None, Some(authority), address, Some(path)) == target_uri(
            Some("http"@),
            Some(authority),
            address,
            Some(path),
        ),
        target_uri(Some(scheme), None, address, Some(path)) == target_uri(
            Some(scheme),
            Some(address),
            address,
            Some(path),
        ),
        target_uri(None, None, address, Some(path)) == "http"@ + "://"@ + address + path,
        target_uri(Some(scheme), Some(authority), address, None) == target_uri(
            Some(scheme),
            Some(authority),
            address,
            Some("/"@),
        ),
        path != other ==> target_uri(Some(scheme), Some(authority), address, Some(path))
            != target_uri(Some(scheme), Some(authority), address, Some(other)),
{
    let front = scheme + "://"@ + authority;
    assert((front + path).skip(front.len() as int) =~= path);
    assert((front + other).skip(front.len() as int) =~= other);
}

/// The URI of an upstream ends with the path that was asked for, and there is one exactly where the
/// upstream's address and the result are URIs.
pub proof fn law_upstream_uri_keeps_the_path(address: Seq<char>, path: Seq<char>)
    ensures
        upstream_uri(address, Some(path)) matches Ok(uri) ==> path.is_suffix_of(uri)
            && uri_parts(uri) is Ok,
        uri_parts(address) is Err ==> upstream_uri(address, Some(path)) is Err,
        uri_parts(address) matches Ok(p) ==> (upstream_uri(address, Some(path)) is Ok <==> uri_parts(
            target_uri(p.0, p.1, address, Some(path)),
        ) is Ok),
        upstream_uri(address, None) == upstream_uri(address, Some("/"@)),
{
    if let Ok(uri) = upstream_uri(address, Some(path)) {
        assert(uri.subrange(uri.len() - path.len(), uri.len() as int) =~= path);
    }
}

/// A request's headers are refused exactly where a header to add or the name of one to remove is
/// none.
pub proof fn law_bad_headers_are_refused(fields: Fields, config: HttpProxyConfig)
    ensures
        request_fields(fields, config).1 is None <==> (forall|i: int|
            0 <= i < config.add_headers.entries@.len() ==> headers::is_header_name(
                (#[trigger] config.add_headers.entries@[i]).0@,
            ) && headers::is_header_value(config.add_headers.entries@[i].1@)) && (forall|i: int|
            0 <= i < config.remove_headers@.len() ==> headers::is_header_name(
                (#[trigger] config.remove_headers@[i])@,
            )),
{
    lemma_add_faults(fields, config.add_headers.entries@, 0);
    lemma_remove_faults(
        add_fields(fields, config.add_headers.entries@, 0).0,
        config.remove_headers@,
        0,
    );
}

proof fn lemma_add_faults(fields: Fields, entries: Seq<(String, String)>, i: int)
    requires
        0 <= i,
    ensures
        add_fields(fields, entries, i).1 is None <==> forall|k: int|
            i <= k < entries.len() ==> headers::is_header_name((#[trigger] entries[k]).0@)
                && headers::is_header_value(entries[k].1@),
    decreases entries.len() - i,
{
    if i < entries.len() {
        if let Ok(next) = add_field(fields, entries[i].0@, entries[i].1@) {
            lemma_add_faults(next, entries, i + 1);
        }
    }
}

proof fn lemma_remove_faults(fields: Fields, names: Seq<String>, i: int)
    requires
        0 <= i,
    ensures
        remove_fields(fields, names, i).1 is None <==> forall|k: int|
            i <= k < names.len() ==> headers::is_header_name((#[trigger] names[k])@),
    decreases names.len() - i,
{
    if i < names.len() && headers::is_header_name(names[i]@) {
        lemma_remove_faults(fields.remove(headers::lower(names[i]@)), names, i + 1);
    }
}

/// A header that is configured to be added reaches the upstream with the configured value, unless it
/// is to be removed or a later one of the same name takes its place.
pub proof fn law_added_headers_arrive(fields: Fields, config: HttpProxyConfig, k: int)
    requires
        0 <= k < config.add_headers.entries@.len(),
        request_fields(fields, config).1 is None,
        forall|j: int|
            k < j < config.add_headers.entries@.len() ==> headers::lower(
                (#[trigger] config.add_headers.entries@[j]).0@,
            ) != headers::lower(config.add_headers.entries@[k].0@),
        forall|j: int|
            0 <= j < config.remove_headers@.len() ==> headers::lower(
                (#[trigger] config.remove_headers@[j])@,
            ) != headers::lower(config.add_headers.entries@[k].0@),
    ensures
        ({
            let name = headers::lower(config.add_headers.entries@[k].0@);
            let after = request_fields(fields, config).0;
            after.contains_key(name) && after[name] == seq![
                vstd::utf8::encode_utf8(config.add_headers.entries@[k].1@),
            ]
        }),
{
    let entries = config.add_headers.entries@;
    lemma_added(fields, entries, 0, k);
    lemma_remove_others(
        add_fields(fields, entries, 0).0,
        config.remove_headers@,
        0,
        headers::lower(entries[k].0@),
    );
}

proof fn lemma_added(fields: Fields, entries: Seq<(String, String)>, i: int, k: int)
    requires
        0 <= i <= k < entries.len(),
        add_fields(fields, entries, i).1 is None,
        forall|j: int|
            k < j < entries.len() ==> headers::lower((#[trigger] entries[j]).0@) != headers::lower(
                entries[k].0@,
            ),
    ensures
        add_fields(fields, entries, i).0.contains_key(headers::lower(entries[k].0@)),
        add_fields(fields, entries, i).0[headers::lower(entries[k].0@)] == seq![
            vstd::utf8::encode_utf8(entries[k].1@),
        ],
    decreases entries.len() - i,
{
    if let Ok(next) = add_field(fields, entries[i].0@, entries[i].1@) {
        if i < k {
            lemma_added(next, entries, i + 1, k);
        } else {
            lemma_add_others(next, entries, i + 1, headers::lower(entries[k].0@));
        }
    }
}

proof fn lemma_add_others(fields: Fields, entries: Seq<(String, String)>, i: int, name: Seq<char>)
    requires
        0 <= i,
        forall|j: int|
            i <= j < entries.len() ==> headers::lower((#[trigger] entries[j]).0@) != name,
    ensures
        add_fields(fields, entries, i).0.contains_key(name) <==> fields.contains_key(name),
        add_fields(fields, entries, i).0[name] == fields[name],
    decreases entries.len() - i,
{
    if i < entries.len() {
        if let Ok(next) = add_field(fields, entries[i].0@, entries[i].1@) {
            lemma_add_others(next, entries, i + 1, name);
        }
    }
}

proof fn lemma_remove_others(fields: Fields, names: Seq<String>, i: int, name: Seq<char>)
    requires
        0 <= i,
        forall|j: int| i <= j < names.len() ==> headers::lower((#[trigger] names[j])@) != name,
    ensures
        remove_fields(fields, names, i).0.contains_key(name) <==> fields.contains_key(name),
        remove_fields(fields, names, i).0[name] == fields[name],
    decreases names.len() - i,
{
    if i < names.len() && headers::is_header_name(names[i]@) {
        lemma_remove_others(fields.remove(headers::lower(names[i]@)), names, i + 1, name);
    }
}

/// Headers that are configured neither to be added nor to be removed reach the upstream unchanged.
pub proof fn law_other_headers_stay(fields: Fields, config: HttpProxyConfig, name: Seq<char>)
    requires
        forall|j: int|
            0 <= j < config.add_headers.entries@.len() ==> headers::lower(
                (#[trigger] config.add_headers.entries@[j]).0@,
            ) != name,
        forall|j: int|
            0 <= j < config.remove_headers@.len() ==> headers::lower(
                (#[trigger] config.remove_headers@[j])@,
            ) != name,
    ensures
        request_fields(fields, config).0.contains_key(name) <==> fields.contains_key(name),
        request_fields(fields, config).0[name] == fields[name],
{
    let entries = config.add_headers.entries@;
    lemma_add_others(fields, entries, 0, name);
    lemma_remove_others(add_fields(fields, entries, 0).0, config.remove_headers@, 0, name);
}

/// A cookie with the name `session_id` names its value as the session, whatever white space stands
/// around it.
pub proof fn law_session_cookie_is_read(before: Seq<char>, id: Seq<char>, after: Seq<char>)
    requires
        forall|i: int| 0 <= i < before.len() ==> text::is_white(#[trigger] before[i]),
        forall|i: int| 0 <= i < after.len() ==> text::is_white(#[trigger] after[i]),
        id.len() > 0 ==> !text::is_white(id.last()),
    ensures
        cookie_session(before + ("session_id="@ + id) + after) == Some(id),
{
    reveal_strlit("session_id=");
    reveal_strlit("session_id");
    let middle = "session_id="@ + id;
    assert(middle[0] == 's');
    assert(middle.last() == (if id.len() > 0 {
        id.last()
    } else {
        '='
    }));
    text::law_trim(before, middle, after);
    assert forall|j: int| 0 <= j < 10 implies middle[j] != '=' by {
        assert(middle[j] == "session_id="@[j]);
    }
    assert(middle[10] == '=');
    text::lemma_position(middle, '=', 10);
    assert(middle.take(10) =~= "session_id"@);
    assert(middle.skip(11) =~= id);
}

/// A cookie with another name, or with none, names no session.
pub proof fn law_other_cookies_name_no_session(name: Seq<char>, value: Seq<char>)
    requires
        !name.contains('='),
        name.len() > 0 ==> !text::is_white(name[0]) && !text::is_white(name.last()),
        value.len() > 0 ==> !text::is_white(value.last()),
        name != "session_id"@,
    ensures
        cookie_session(name + "="@ + value) is None,
        cookie_session(name) is None,
{
    reveal_strlit("=");
    let t = name + "="@ + value;
    let none = Seq::<char>::empty();
    assert(t[name.len() as int] == '=');
    assert(t[0] == (if name.len() > 0 {
        name[0]
    } else {
        '='
    }));
    assert(t.last() == (if value.len() > 0 {
        value.last()
    } else {
        '='
    }));
    text::law_trim(none, t, none);
    text::law_trim(none, name, none);
    assert(none + t + none =~= t);
    assert(none + name + none =~= name);
    assert forall|j: int| 0 <= j < name.len() implies t[j] != '=' by {
        assert(t[j] == name[j]);
    }
    text::lemma_position(t, '=', name.len() as int);
    text::lemma_position_bounds(name, '=');
    assert(t.take(name.len() as int) =~= name);
}

/// A client is recognised by the first of its cookies that names a session.
pub proof fn law_session_cookie_wins(fields: Fields, cookies: Seq<Seq<char>>, i: int, id: Seq<char>)
    requires
        0 <= i < cookies.len(),
        forall|k: int| 0 <= k < cookies.len() ==> !(#[trigger] cookies[k]).contains(';'),
        forall|k: int| 0 <= k < i ==> cookie_session(#[trigger] cookies[k]) is None,
        cookie_session(cookies[i]) == Some(id),
        headers::field_text(fields, "cookie"@) == Some(text::joined(cookies, ';')),
    ensures
        session_key(fields) == Some(id),
{
    text::law_join_is_undone(cookies, ';');
    lemma_first_session(cookies, 0, i);
}

proof fn lemma_first_session(cookies: Seq<Seq<char>>, from: int, i: int)
    requires
        0 <= from <= i < cookies.len(),
        forall|k: int| from <= k < i ==> cookie_session(#[trigger] cookies[k]) is None,
        cookie_session(cookies[i]) is Some,
    ensures
        first_session(cookies, from) == cookie_session(cookies[i]),
    decreases i - from,
{
    if from < i {
        assert(cookie_session(cookies[from]) is None);
        lemma_first_session(cookies, from + 1, i);
    }
}

proof fn lemma_no_session(cookies: Seq<Seq<char>>, from: int)
    requires
        0 <= from,
        forall|k: int| from <= k < cookies.len() ==> cookie_session(#[trigger] cookies[k]) is None,
    ensures
        first_session(cookies, from) is None,
    decreases cookies.len() - from,
{
    if from < cookies.len() {
        assert(cookie_session(cookies[from]) is None);
        lemma_no_session(cookies, from + 1);
    }
}

/// A client without a session in its cookies is recognised by the address that it was forwarded for,
/// and where that is not told, by its real address.
pub proof fn law_addresses_stand_in_for_sessions(fields: Fields, cookies: Seq<Seq<char>>)
    requires
        cookies.len() > 0,
        forall|k: int|
            0 <= k < cookies.len() ==> !(#[trigger] cookies[k]).contains(';') && cookie_session(
                cookies[k],
            ) is None,
        headers::field_text(fields, "cookie"@) == Some(text::joined(cookies, ';'))
            || headers::field_text(fields, "cookie"@) is None,
    ensures
        fields.contains_key("x-forwarded-for"@) ==> session_key(fields) == headers::value_text(
            fields["x-forwarded-for"@][0],
        ),
        !fields.contains_key("x-forwarded-for"@) && fields.contains_key("x-real-ip"@)
            ==> session_key(fields) == headers::value_text(fields["x-real-ip"@][0]),
        !fields.contains_key("x-forwarded-for"@) && !fields.contains_key("x-real-ip"@)
            ==> session_key(fields) is None,
{
    text::law_join_is_undone(cookies, ';');
    lemma_no_session(cookies, 0);
}

/// An instance is served as HTTP exactly where it is meant to be, takes requests of some size up to a
/// gigabyte, gives them some time, and names headers that are some.
pub proof fn law_http_settings_are_checked(config: ProxyInstanceConfig)
    ensures
        http_fault(config) is None <==> {
            let http = config.config.http;
            &&& config.proxy_type == ProxyType::Http
            &&& 0 < http.max_request_size <= 1024 * 1024 * 1024
            &&& http.request_timeout_secs > 0
            &&& forall|i: int|
                0 <= i < http.add_headers.entries@.len() ==> headers::is_header_name(
                    (#[trigger] http.add_headers.entries@[i]).0@,
                )
            &&& forall|i: int|
                0 <= i < http.remove_headers@.len() ==> headers::is_header_name(
                    (#[trigger] http.remove_headers@[i])@,
                )
        },
{
    lemma_added_names(config.config.http.add_headers.entries@, 0);
    lemma_removed_names(config.config.http.remove_headers@, 0);
}

proof fn lemma_added_names(entries: Seq<(String, String)>, i: int)
    requires
        0 <= i,
    ensures
        added_names_fault(entries, i) is None <==> forall|k: int|
            i <= k < entries.len() ==> headers::is_header_name((#[trigger] entries[k]).0@),
    decreases entries.len() - i,
{
    if i < entries.len() && headers::is_header_name(entries[i].0@) {
        lemma_added_names(entries, i + 1);
    }
}

proof fn lemma_removed_names(names: Seq<String>, i: int)
    requires
        0 <= i,
    ensures
        removed_names_fault(names, i) is None <==> forall|k: int|
            i <= k < names.len() ==> headers::is_header_name((#[trigger] names[k])@),
    decreases names.len() - i,
{
    if i < names.len() && headers::is_header_name(names[i]@) {
        lemma_removed_names(names, i + 1);
    }
}

/// A request is an error of the network exactly where the upstream did not answer it, and a timeout
/// exactly where its time ran out. An answered request counts as a response, any other as a failure.
pub proof fn law_replies_are_told_apart(
    reply: UpstreamReply,
    name: Seq<char>,
    stats: routing::UpstreamStats,
    elapsed: Duration,
    now: Instant,
)
    ensures
        reply_error(reply, name) is None <==> reply is Answered,
        (reply_error(reply, name) matches Some(ErrorView::Network { kind, .. }) && kind
            == NetworkErrorKind::Timeout) <==> reply is TimedOut,
        (reply_error(reply, name) matches Some(ErrorView::Network { kind, .. }) && kind
            == NetworkErrorKind::ConnectionFailed) <==> reply is Failed,
        recorded(stats, true, elapsed, now).requests_sent == routing::one_more(stats.requests_sent),
        recorded(stats, false, elapsed, now).requests_sent == routing::one_more(
            stats.requests_sent,
        ),
        recorded(stats, true, elapsed, now).responses_received == routing::one_more(
            stats.responses_received,
        ),
        recorded(stats, false, elapsed, now).responses_received == stats.responses_received,
        recorded(stats, true, elapsed, now).failures == stats.failures,
        recorded(stats, false, elapsed, now).failures == routing::one_more(stats.failures),
{
}

} // verus!
