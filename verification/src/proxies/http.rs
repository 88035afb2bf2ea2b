//! HTTP for named hosts: which host a path belongs to, what is asked of its upstream, and how often.
use vstd::prelude::*;

use std::str::FromStr;

use crate::error::opt_text;
use crate::headers;
use crate::proxies::HostConfig;
use crate::text;
use crate::time::Duration;

verus! {

broadcast use vstd::string::group_string_axioms;

/// HTTP proxy for named hosts.
pub struct HttpProxy {
    pub hosts: Vec<HostConfig>,
}

/// What is asked of an upstream for a request.
#[derive(Debug)]
pub struct ForwardPlan {
    /// The place of the host
    pub host: usize,
    /// The URL that is asked for
    pub url: String,
    /// How long one attempt may take
    pub timeout: Duration,
    /// How many attempts may follow the first
    pub retry_count: u32,
    /// The host header to send in place of the client's
    pub host_header: Option<String>,
}

/// What becomes of a request.
#[derive(Debug)]
pub enum RoutePlan {
    /// No host is there for the path
    NotFound,
    /// The host has no valid upstream URL, or the one that is asked for would be too long
    InvalidUpstream,
    Forward(ForwardPlan),
}

/// What follows an attempt.
#[derive(Debug, Clone, Copy, PartialEq, Eq, Structural)]
pub enum AttemptStep {
    /// The upstream answered
    Done,
    /// Try once more; this is the number of the attempt
    Retry(u32),
    /// The upstream did not answer in any attempt
    GiveUp,
}

/// A plain answer of the proxy itself.
#[derive(Debug)]
pub struct PlainAnswer {
    pub status: u16,
    pub body: String,
}

// ---------------------------------------------------------------------------------------------
// URLs
// ---------------------------------------------------------------------------------------------

/// The path of a URL, as `Url::path` gives it; none where the text is no URL.
pub uninterp spec fn url_path_of(url: Seq<char>) -> Option<Seq<char>>;

/// The URL with another path, as `Url::set_path` makes it; none where the text is no URL.
pub uninterp spec fn url_with_path(url: Seq<char>, path: Seq<char>) -> Option<Seq<char>>;

/// The URL with another query, as `Url::set_query` makes it; none where the text is no URL.
pub uninterp spec fn url_with_query(url: Seq<char>, query: Seq<char>) -> Option<Seq<char>>;

/// The host of a URL, as `Url::host_str` gives it; none where there is none or the text is no URL.
pub uninterp spec fn url_host_of(url: Seq<char>) -> Option<Seq<char>>;

/// Whether a URL keeps within the positions of 32 bits that `Url` knows, once so many characters are
/// added to it. An added character takes up to twelve bytes where it is percent-encoded. In the text
/// of a URL, a character of the host may become many in the host's ASCII form: one character stands
/// for no more than 18, each of them written with no more than eleven.
pub open spec fn url_fits(url: Seq<char>, added: nat) -> bool {
    256 * url.len() + 12 * added + 16 <= u32::MAX
}

/// Whether a URL keeps within its positions once these characters are added to it.
pub fn has_room(url: &str, added: &str) -> (result: bool)
    ensures
        result == url_fits(url@, added@.len()),
{
    256 * (url.unicode_len() as u128) + 12 * (added.unicode_len() as u128) + 16 <= 0xffff_ffff
}

/// `Url::path`: the path of a URL depends on nothing but its text.
#[verifier::external_body]
fn url_path(url: &str) -> (result: Option<String>)
    ensures
        opt_text(result) == url_path_of(url@),
{
    reqwest::Url::from_str(url).ok().map(|u| u.path().to_string())
}

/// `Url::set_path`: the new URL depends on nothing but the old one and the path. It panics on a URL
/// that outgrows its positions.
#[verifier::external_body]
fn set_path(url: &str, path: &str) -> (result: Option<String>)
    requires
        url_fits(url@, path@.len()),
    ensures
        opt_text(result) == url_with_path(url@, path@),
{
    let mut parsed = reqwest::Url::from_str(url).ok()?;
    parsed.set_path(path);
    Some(parsed.to_string())
}

/// `Url::set_query`: the new URL depends on nothing but the old one and the query. It panics on a URL
/// that outgrows its positions.
#[verifier::external_body]
fn set_query(url: &str, query: &str) -> (result: Option<String>)
    requires
        url_fits(url@, query@.len()),
    ensures
        opt_text(result) == url_with_query(url@, query@),
{
    let mut parsed = reqwest::Url::from_str(url).ok()?;
    parsed.set_query(Some(query));
    Some(parsed.to_string())
}

/// `Url::host_str`: the host of a URL depends on nothing but its text.
#[verifier::external_body]
fn url_host(url: &str) -> (result: Option<String>)
    ensures
        opt_text(result) == url_host_of(url@),
{
    reqwest::Url::from_str(url).ok().and_then(|u| u.host_str().map(|h| h.to_string()))
}

/// The path that is asked of an upstream: what follows the host's name in the requested path, under
/// the upstream's own path, without a slash at the end.
pub open spec fn target_path(upstream_path: Seq<char>, host: Seq<char>, path: Seq<char>) -> Seq<
    char,
> {
    let base = text::trim_end(upstream_path, '/');
    let rest = text::trim_start(
        if host == "/"@ {
            path
        } else {
            path.skip(host.len() as int)
        },
        '/',
    );
    text::trim_end(
        if base.len() == 0 {
            "/"@ + rest
        } else {
            base + "/"@ + rest
        },
        '/',
    )
}

/// What a client asks for below a host is asked for below the upstream's own path, which may be none:
/// a request for `r` below the host is a request for `r` below that path.
pub proof fn law_target_path_keeps_the_rest(u: Seq<char>, host: Seq<char>, r: Seq<char>)
    requires
        u.len() > 0 ==> u.last() != '/',
        r.len() > 0,
        r[0] != '/',
        r.last() != '/',
    ensures
        target_path(u, "/"@, "/"@ + r) == u + "/"@ + r,
        host != "/"@ ==> target_path(u, host, host + "/"@ + r) == u + "/"@ + r,
        host != "/"@ ==> target_path(u, host, host + r) == u + "/"@ + r,
{
    reveal_strlit("/");
    let wanted = u + "/"@ + r;
    assert(text::trim_end(u, '/') == u);
    text::lemma_trimmed(r, '/');
    assert(text::trim_start(r, '/') == r);
    assert("/"@ + r =~= seq!['/'] + r);
    if u.len() == 0 {
        assert("/"@ + r =~= wanted);
    }
    assert(wanted.last() == r.last());
    assert(text::trim_end(wanted, '/') == wanted);
    assert((host + "/"@ + r).skip(host.len() as int) =~= "/"@ + r);
    assert((host + r).skip(host.len() as int) =~= r);
}

/// Requests for different things below a host are requests for different things of the upstream.
pub proof fn law_target_paths_differ(u: Seq<char>, host: Seq<char>, r: Seq<char>, q: Seq<char>)
    requires
        u.len() > 0 ==> u.last() != '/',
        r.len() > 0 && r[0] != '/' && r.last() != '/',
        q.len() > 0 && q[0] != '/' && q.last() != '/',
        r != q,
    ensures
        target_path(u, "/"@, "/"@ + r) != target_path(u, "/"@, "/"@ + q),
        host != "/"@ ==> target_path(u, host, host + "/"@ + r) != target_path(
            u,
            host,
            host + "/"@ + q,
        ),
{
    law_target_path_keeps_the_rest(u, host, r);
    law_target_path_keeps_the_rest(u, host, q);
    let k = (u + "/"@).len() as int;
    assert((u + "/"@ + r).skip(k) =~= r);
    assert((u + "/"@ + q).skip(k) =~= q);
}

/// A request for a host itself is one for the upstream's own path. A slash at the end of either makes
/// no difference, and none is asked for.
pub proof fn law_target_path_of_a_host(u: Seq<char>, host: Seq<char>, path: Seq<char>)
    requires
        host == "/"@ || host.is_prefix_of(path),
    ensures
        u.len() > 0 && u.last() != '/' ==> target_path(u, host, host) == u,
        target_path(u + "/"@, host, path) == target_path(u, host, path),
        target_path(u, host, path + "/"@) == target_path(u, host, path),
        target_path(u, host, path).len() > 0 ==> target_path(u, host, path).last() != '/',
{
    reveal_strlit("/");
    let rest = if host == "/"@ {
        path
    } else {
        path.skip(host.len() as int)
    };
    let longer = if host == "/"@ {
        path + "/"@
    } else {
        (path + "/"@).skip(host.len() as int)
    };
    assert("/"@ =~= seq!['/']);
    text::lemma_trimmed(u, '/');
    assert(longer =~= rest + seq!['/']);
    let base = text::trim_end(u, '/');
    let front = if base.len() == 0 {
        "/"@
    } else {
        base + "/"@
    };
    lemma_trim_both(front, rest);
    assert(base.len() == 0 ==> front + text::trim_start(rest, '/') == "/"@ + text::trim_start(
        rest,
        '/',
    ));
    text::lemma_trimmed(front + text::trim_start(rest, '/'), '/');
    if u.len() > 0 && u.last() != '/' {
        let own = text::trim_start(
            if host == "/"@ {
                host
            } else {
                host.skip(host.len() as int)
            },
            '/',
        );
        assert(own.len() == 0) by {
            text::law_trim_start(1, Seq::empty(), '/');
            assert(Seq::new(1, |i: int| '/') + Seq::<char>::empty() =~= "/"@);
        }
        assert(u + "/"@ + own =~= u + seq!['/']);
        assert(text::trim_end(u, '/') == u);
    }
}

/// A slash behind what is trimmed in front is trimmed at the end.
proof fn lemma_trim_both(front: Seq<char>, rest: Seq<char>)
    requires
        front.len() > 0,
        front.last() == '/',
    ensures
        text::trim_end(front + text::trim_start(rest + seq!['/'], '/'), '/') == text::trim_end(
            front + text::trim_start(rest, '/'),
            '/',
        ),
    decreases rest.len(),
{
    let longer = rest + seq!['/'];
    if rest.len() == 0 {
        assert(longer.drop_first() =~= rest);
        assert(longer[0] == '/');
    } else if rest[0] == '/' {
        assert(longer[0] == '/');
        assert(longer.drop_first() =~= rest.drop_first() + seq!['/']);
        lemma_trim_both(front, rest.drop_first());
    } else {
        assert(longer[0] != '/');
        assert(front + longer =~= front + rest + seq!['/']);
        text::lemma_trimmed(front + rest, '/');
    }
}

/// The path that is asked of an upstream.
pub fn build_target_path(upstream_path: &str, host: &str, path: &str) -> (result: String)
    requires
        host@ == "/"@ || host@.is_prefix_of(path@),
    ensures
        result@ == target_path(upstream_path@, host@, path@),
{
    let base = text::trim_end_char(upstream_path, '/');
    let rest = if text::eq(host, "/") {
        text::trim_start_char(path, '/')
    } else {
        let cs = text::chars(path);
        let skipped = text::from_range(&cs, host.unicode_len(), cs.len());
        assert(skipped@ =~= path@.skip(host@.len() as int));
        text::trim_start_char(skipped.as_str(), '/')
    };
    let joined = if text::is_empty(base.as_str()) {
        text::cat2("/", rest.as_str())
    } else {
        text::cat3(base.as_str(), "/", rest.as_str())
    };
    text::trim_end_char(joined.as_str(), '/')
}

/// The query that is asked of an upstream: what was asked for, without question marks in front.
pub open spec fn clean_query(query: Seq<char>) -> Option<Seq<char>> {
    let clean = text::trim_start(query, '?');
    if clean.len() == 0 {
        None
    } else {
        Some(clean)
    }
}

/// A query is asked for as it is, whether a question mark stands in front or not; one that is empty is
/// none.
pub proof fn law_queries_are_kept(query: Seq<char>)
    ensures
        query.len() > 0 && query[0] != '?' ==> clean_query(query) == Some(query),
        clean_query(seq!['?'] + query) == clean_query(query),
        clean_query(Seq::empty()) is None,
{
    text::lemma_trimmed(query, '?');
}

/// URLs and paths of up to a million characters fit; what fits has less than sixteen million.
pub proof fn law_usual_urls_fit(url: Seq<char>, added: nat)
    ensures
        url.len() <= 1_000_000 && added <= 1_000_000 ==> url_fits(url, added),
        url_fits(url, added) ==> url.len() < 0x100_0000,
{
}

/// The URL that is asked of an upstream, given that of its path; none where it is no URL or outgrows
/// what a URL can be.
pub open spec fn target_url(
    upstream: Seq<char>,
    upstream_path: Seq<char>,
    host: Seq<char>,
    path: Seq<char>,
    query: Seq<char>,
) -> Option<Seq<char>> {
    let target = target_path(upstream_path, host, path);
    if !url_fits(upstream, target.len()) {
        None
    } else {
        match url_with_path(upstream, target) {
            Some(u) => match clean_query(query) {
                Some(q) => if url_fits(u, q.len()) {
                    url_with_query(u, q)
                } else {
                    None
                },
                None => Some(u),
            },
            None => None,
        }
    }
}

/// The upstream's URL gets the path that is asked for, and then the query, if there is one.
pub proof fn law_target_url_has_path_and_query(
    upstream: Seq<char>,
    upstream_path: Seq<char>,
    host: Seq<char>,
    path: Seq<char>,
    query: Seq<char>,
)
    requires
        url_fits(upstream, target_path(upstream_path, host, path).len()),
    ensures
        target_url(upstream, upstream_path, host, path, Seq::empty()) == url_with_path(
            upstream,
            target_path(upstream_path, host, path),
        ),
        target_url(upstream, upstream_path, host, path, seq!['?'] + query) == target_url(
            upstream,
            upstream_path,
            host,
            path,
            query,
        ),
        query.len() > 0 && query[0] != '?' ==> match target_url(
            upstream,
            upstream_path,
            host,
            path,
            Seq::empty(),
        ) {
            Some(u) => url_fits(u, query.len()) ==> target_url(
                upstream,
                upstream_path,
                host,
                path,
                query,
            ) == url_with_query(u, query),
            None => target_url(upstream, upstream_path, host, path, query) is None,
        },
{
    law_queries_are_kept(query);
}

// ---------------------------------------------------------------------------------------------
// Hosts
// ---------------------------------------------------------------------------------------------

/// Whether a path belongs to a host: the host `/` takes every path, any other the paths that begin
/// with its name.
pub open spec fn matches_path(host: HostConfig, path: Seq<char>) -> bool {
    host.name@ == "/"@ || host.name@.is_prefix_of(path)
}

/// The length of a name in bytes.
pub open spec fn byte_len(name: Seq<char>) -> nat {
    vstd::utf8::encode_utf8(name).len()
}

/// Whether a host comes before another: by higher priority, then by longer name, then by the
/// alphabet.
pub open spec fn outranks(a: HostConfig, b: HostConfig) -> bool {
    ||| a.rank() > b.rank()
    ||| a.rank() == b.rank() && byte_len(a.name@) > byte_len(b.name@)
    ||| a.rank() == b.rank() && byte_len(a.name@) == byte_len(b.name@) && a.name@ != b.name@
        && text::lex_le(a.name@, b.name@)
}

/// `i` is the host of a path: among those that the path belongs to, none comes before it, and of
/// equal ones it is the first.
pub open spec fn is_host_of(hosts: Seq<HostConfig>, path: Seq<char>, i: int) -> bool {
    &&& 0 <= i < hosts.len()
    &&& matches_path(hosts[i], path)
    &&& forall|j: int|
        0 <= j < hosts.len() && matches_path(#[trigger] hosts[j], path) ==> !outranks(
            hosts[j],
            hosts[i],
        )
    &&& forall|j: int|
        0 <= j < i && matches_path(#[trigger] hosts[j], path) ==> outranks(hosts[i], hosts[j])
}

proof fn lemma_outranks(a: HostConfig, b: HostConfig, c: HostConfig)
    requires
        outranks(a, b),
        !outranks(c, b),
    ensures
        outranks(a, c),
        !outranks(b, a),
        !outranks(a, a),
{
    text::lemma_lex_total(b.name@, c.name@);
    if text::lex_le(a.name@, b.name@) && text::lex_le(b.name@, c.name@) {
        text::lemma_lex_transitive(a.name@, b.name@, c.name@);
    }
    if text::lex_le(b.name@, a.name@) && text::lex_le(a.name@, b.name@) {
        text::lemma_lex_antisymmetric(a.name@, b.name@);
    }
    if a.name@ == c.name@ && text::lex_le(b.name@, c.name@) && text::lex_le(a.name@, b.name@) {
        text::lemma_lex_antisymmetric(a.name@, b.name@);
    }
}

/// Of two hosts of the same priority, a path that belongs to both goes to the one with the longer
/// name.
pub proof fn law_longer_path_wins(hosts: Seq<HostConfig>, path: Seq<char>, i: int, j: int)
    requires
        is_host_of(hosts, path, i),
        0 <= j < hosts.len(),
        matches_path(hosts[j], path),
        hosts[j].rank() == hosts[i].rank(),
    ensures
        byte_len(hosts[j].name@) <= byte_len(hosts[i].name@),
        vstd::utf8::encode_utf8(hosts[j].name@).len() <= vstd::utf8::encode_utf8(
            hosts[i].name@,
        ).len(),
{
    assert(!outranks(hosts[j], hosts[i]));
}

/// Of two hosts of the same priority with names of the same length, a path that belongs to both goes
/// to the one that stands first in the alphabet, and of two with the same name to the one that was
/// given first.
pub proof fn law_alphabet_breaks_ties(hosts: Seq<HostConfig>, path: Seq<char>, i: int, j: int)
    requires
        is_host_of(hosts, path, i),
        0 <= j < hosts.len(),
        matches_path(hosts[j], path),
        hosts[j].rank() == hosts[i].rank(),
        byte_len(hosts[j].name@) == byte_len(hosts[i].name@),
    ensures
        text::lex_le(hosts[i].name@, hosts[j].name@),
        hosts[i].name@ == hosts[j].name@ ==> i <= j,
{
    assert(!outranks(hosts[j], hosts[i]));
    text::lemma_lex_total(hosts[i].name@, hosts[j].name@);
    text::lemma_lex_total(hosts[i].name@, hosts[i].name@);
}

/// A host has exactly the paths that begin with its name; the host `/` has every path.
pub proof fn law_paths_belong_by_prefix(host: HostConfig, path: Seq<char>, rest: Seq<char>)
    ensures
        matches_path(host, host.name@ + rest),
        host.name@ == "/"@ ==> matches_path(host, path),
        host.name@ != "/"@ && matches_path(host, path) ==> path.len() >= host.name@.len()
            && path.take(host.name@.len() as int) == host.name@,
{
    assert(host.name@.is_prefix_of(host.name@ + rest)) by {
        assert((host.name@ + rest).subrange(0, host.name@.len() as int) =~= host.name@);
    }
}

/// A path never goes to a host of lower priority than another that it belongs to.
pub proof fn law_higher_priority_wins(hosts: Seq<HostConfig>, path: Seq<char>, i: int, j: int)
    requires
        is_host_of(hosts, path, i),
        0 <= j < hosts.len(),
        matches_path(hosts[j], path),
    ensures
        hosts[j].rank() <= hosts[i].rank(),
{
    assert(!outranks(hosts[j], hosts[i]));
}

/// The host `/` takes every path: with it, every path has a host.
pub proof fn law_catch_all(hosts: Seq<HostConfig>, path: Seq<char>, k: int)
    requires
        0 <= k < hosts.len(),
        hosts[k].name@ == "/"@,
    ensures
        exists|i: int| is_host_of(hosts, path, i),
{
    lemma_some_host(hosts, path, k);
}

/// With one more host, a path goes to that one if the path belongs to it and it comes before the host
/// so far.
proof fn lemma_next_host(hosts: Seq<HostConfig>, path: Seq<char>, b: int)
    requires
        hosts.len() > 0,
        is_host_of(hosts.drop_last(), path, b),
    ensures
        is_host_of(
            hosts,
            path,
            if matches_path(hosts.last(), path) && outranks(hosts.last(), hosts[b]) {
                hosts.len() - 1
            } else {
                b
            },
        ),
{
    let n = hosts.len() - 1;
    let before = hosts.drop_last();
    let wins = matches_path(hosts[n], path) && outranks(hosts[n], hosts[b]);
    let best = if wins {
        n
    } else {
        b
    };
    assert(forall|j: int| 0 <= j < n ==> before[j] == #[trigger] hosts[j]);
    assert forall|j: int| 0 <= j < hosts.len() && matches_path(#[trigger] hosts[j], path) implies !outranks(
        hosts[j],
        hosts[best],
    ) by {
        if j < n {
            assert(!outranks(before[j], before[b]));
        }
        if wins && j < n {
            lemma_outranks(hosts[n], hosts[b], hosts[j]);
            lemma_outranks(hosts[n], hosts[j], hosts[j]);
        } else if wins {
            lemma_outranks(hosts[n], hosts[b], hosts[b]);
        }
    }
    assert forall|j: int| 0 <= j < best && matches_path(#[trigger] hosts[j], path) implies outranks(
        hosts[best],
        hosts[j],
    ) by {
        assert(!outranks(before[j], before[b]));
        if wins {
            lemma_outranks(hosts[n], hosts[b], hosts[j]);
        }
    }
}

/// A path that belongs to some host has a host.
proof fn lemma_some_host(hosts: Seq<HostConfig>, path: Seq<char>, k: int)
    requires
        0 <= k < hosts.len(),
        matches_path(hosts[k], path),
    ensures
        exists|i: int| is_host_of(hosts, path, i),
    decreases hosts.len(),
{
    let n = hosts.len() - 1;
    let before = hosts.drop_last();
    assert(forall|j: int| 0 <= j < n ==> before[j] == #[trigger] hosts[j]);
    if exists|j: int| 0 <= j < n && matches_path(#[trigger] hosts[j], path) {
        let j = choose|j: int| 0 <= j < n && matches_path(#[trigger] hosts[j], path);
        lemma_some_host(before, path, j);
        let b = choose|i: int| is_host_of(before, path, i);
        lemma_next_host(hosts, path, b);
    } else {
        assert(k == n);
        assert(!outranks(hosts[n], hosts[n]));
        assert(is_host_of(hosts, path, n));
    }
}

/// A path has no more than one host.
pub proof fn law_host_is_unique(hosts: Seq<HostConfig>, path: Seq<char>, i: int, j: int)
    requires
        is_host_of(hosts, path, i),
        is_host_of(hosts, path, j),
    ensures
        i == j,
{
    assert(!outranks(hosts[j], hosts[i]));
    assert(!outranks(hosts[i], hosts[j]));
}

// ---------------------------------------------------------------------------------------------
// Attempts
// ---------------------------------------------------------------------------------------------

/// What follows the attempt with this number, counted from zero.
pub open spec fn step_after(attempt: int, retry_count: int, answered: bool) -> AttemptStep {
    if answered {
        AttemptStep::Done
    } else if attempt < retry_count {
        AttemptStep::Retry((attempt + 1) as u32)
    } else {
        AttemptStep::GiveUp
    }
}

/// How many attempts are made, from this one on, and whether one of them is answered, where
/// `answers` tells for each attempt whether it would be.
pub open spec fn attempts(answers: spec_fn(int) -> bool, attempt: int, retry_count: int) -> (
    int,
    bool,
)
    decreases retry_count - attempt,
{
    match step_after(attempt, retry_count, answers(attempt)) {
        AttemptStep::Done => (1, true),
        AttemptStep::GiveUp => (1, false),
        AttemptStep::Retry(_) => {
            if attempt < retry_count {
                let (n, ok) = attempts(answers, attempt + 1, retry_count);
                (n + 1, ok)
            } else {
                (1, false)
            }
        },
    }
}

/// There is at least one attempt and never more than the retries allow; a request is answered
/// exactly when one of the allowed attempts is, and then by the first that is.
pub proof fn law_attempts(answers: spec_fn(int) -> bool, attempt: int, retry_count: int)
    requires
        attempt <= retry_count,
    ensures
        1 <= attempts(answers, attempt, retry_count).0 <= retry_count - attempt + 1,
        attempts(answers, attempt, retry_count).1 <==> exists|k: int|
            attempt <= k <= retry_count && #[trigger] answers(k),
        attempts(answers, attempt, retry_count).1 ==> answers(
            attempt + attempts(answers, attempt, retry_count).0 - 1,
        ),
        forall|k: int|
            attempt <= k < attempt + attempts(answers, attempt, retry_count).0 - 1
                ==> !#[trigger] answers(k),
    decreases retry_count - attempt,
{
    if !answers(attempt) && attempt < retry_count {
        law_attempts(answers, attempt + 1, retry_count);
    }
}

/// An attempt that was answered is the last; another follows exactly where retries are left, and it
/// has the next number.
pub proof fn law_attempts_follow_each_other(attempt: u32, retry_count: u32, answered: bool)
    ensures
        step_after(attempt as int, retry_count as int, answered) == AttemptStep::Done <==> answered,
        step_after(attempt as int, retry_count as int, answered) is Retry <==> !answered && attempt
            < retry_count,
        !answered && attempt < retry_count ==> step_after(
            attempt as int,
            retry_count as int,
            answered,
        ) == AttemptStep::Retry((attempt + 1) as u32),
{
}

impl HttpProxy {
    pub fn new() -> (result: Self)
        ensures
            result.hosts@.len() == 0,
    {
        HttpProxy { hosts: Vec::new() }
    }

    /// The host of a path.
    pub fn select_host(&self, path: &str) -> (result: Option<usize>)
        ensures
            match result {
                Some(i) => is_host_of(self.hosts@, path@, i as int),
                None => forall|j: int|
                    0 <= j < self.hosts@.len() ==> !matches_path(#[trigger] self.hosts@[j], path@),
            },
    {
        let mut best: Option<usize> = None;
        let mut i: usize = 0;
        while i < self.hosts.len()
            invariant
                i <= self.hosts@.len(),
                match best {
                    Some(b) => b < i && is_host_of(self.hosts@.take(i as int), path@, b as int),
                    None => forall|j: int|
                        0 <= j < i ==> !matches_path(#[trigger] self.hosts@[j], path@),
                },
            decreases self.hosts@.len() - i,
        {
            let ghost before = self.hosts@.take(i as int);
            let ghost after = self.hosts@.take(i + 1);
            let name = self.hosts[i].name.as_str();
            let fits = text::eq(name, "/") || text::starts_with(path, name);
            proof {
                assert(after[i as int] == self.hosts@[i as int]);
                assert(forall|j: int| 0 <= j < i ==> before[j] == #[trigger] after[j]);
            }
            match best {
                Some(b) => {
                    let wins = fits && outranks_host(&self.hosts[i], &self.hosts[b]);
                    proof {
                        assert(after.drop_last() =~= before);
                        lemma_next_host(after, path@, b as int);
                    }
                    if wins {
                        best = Some(i);
                    }
                },
                None => {
                    if fits {
                        best = Some(i);
                        proof {
                            assert forall|j: int| 0 <= j < i implies !matches_path(
                                #[trigger] after[j],
                                path@,
                            ) by {
                                assert(!matches_path(self.hosts@[j], path@));
                            }
                        }
                    }
                },
            }
            i += 1;
        }
        assert(self.hosts@.take(i as int) =~= self.hosts@);
        best
    }

    /// What becomes of a request for a path and a query.
    pub fn handle_request(&self, path: &str, query: &str) -> (result: RoutePlan)
        ensures
            match result {
                RoutePlan::NotFound => forall|j: int|
                    0 <= j < self.hosts@.len() ==> !matches_path(#[trigger] self.hosts@[j], path@),
                RoutePlan::InvalidUpstream => exists|i: int| #[trigger]
                    is_host_of(self.hosts@, path@, i) && plan_url(
                        self.hosts@[i],
                        path@,
                        query@,
                    ) is None,
                RoutePlan::Forward(plan) => {
                    let host = self.hosts@[plan.host as int];
                    &&& is_host_of(self.hosts@, path@, plan.host as int)
                    &&& plan_url(host, path@, query@) == Some(plan.url@)
                    &&& plan.timeout.total_nanos() == (match host.timeout_ms {
                        Some(t) => t,
                        None => 30000,
                    }) * 1_000_000
                    &&& plan.retry_count == (match host.retry_count {
                        Some(r) => r,
                        None => 0,
                    })
                    &&& opt_text(plan.host_header) == plan_host_header(host, plan.url@)
                },
            },
    {
        let index = match self.select_host(path) {
            Some(i) => i,
            None => {
                return RoutePlan::NotFound;
            },
        };
        let host = &self.hosts[index];
        let upstream_path = match url_path(host.upstream.as_str()) {
            Some(p) => p,
            None => {
                return RoutePlan::InvalidUpstream;
            },
        };
        let final_path = build_target_path(upstream_path.as_str(), host.name.as_str(), path);
        if !has_room(host.upstream.as_str(), final_path.as_str()) {
            return RoutePlan::InvalidUpstream;
        }
        let with_path = match set_path(host.upstream.as_str(), final_path.as_str()) {
            Some(u) => u,
            None => {
                return RoutePlan::InvalidUpstream;
            },
        };
        let clean = text::trim_start_char(query, '?');
        let url = if text::is_empty(clean.as_str()) {
            with_path
        } else {
            if !has_room(with_path.as_str(), clean.as_str()) {
                return RoutePlan::InvalidUpstream;
            }
            match set_query(with_path.as_str(), clean.as_str()) {
                Some(u) => u,
                None => {
                    return RoutePlan::InvalidUpstream;
                },
            }
        };
        let preserve = match host.preserve_host_header {
            Some(p) => p,
            None => false,
        };
        let host_header = if preserve {
            None
        } else {
            match url_host(url.as_str()) {
                Some(h) => if headers::check_value(h.as_str()) {
                    Some(h)
                } else {
                    None
                },
                None => None,
            }
        };
        let timeout = Duration::from_millis(
            match host.timeout_ms {
                Some(t) => t,
                None => 30000,
            },
        );
        let retry_count: u32 = match host.retry_count {
            Some(r) => r,
            None => 0,
        };
        RoutePlan::Forward(ForwardPlan { host: index, url, timeout, retry_count, host_header })
    }

    /// What follows the attempt with this number, counted from zero.
    pub fn after_attempt(attempt: u32, retry_count: u32, answered: bool) -> (result: AttemptStep)
        ensures
            result == step_after(attempt as int, retry_count as int, answered),
    {
        if answered {
            AttemptStep::Done
        } else if attempt < retry_count {
            AttemptStep::Retry(attempt + 1)
        } else {
            AttemptStep::GiveUp
        }
    }

    /// The answer where no host is there for a path.
    pub fn route_not_found() -> (result: PlainAnswer)
        ensures
            result.status == 404,
            result.body@ == "Route not found"@,
    {
        PlainAnswer { status: 404, body: "Route not found".to_string() }
    }

    /// The answer where an upstream did not answer.
    pub fn service_unavailable() -> (result: PlainAnswer)
        ensures
            result.status == 503,
            result.body@ == "Service Unavailable"@,
    {
        PlainAnswer { status: 503, body: "Service Unavailable".to_string() }
    }

    /// The method to send for a method that was received.
    pub fn convert_method(method: &str) -> (result: String)
        ensures
            result@ == (if is_method(method@) {
                method@
            } else {
                "GET"@
            }),
    {
        match parse_method(method) {
            Some(m) => m,
            None => "GET".to_string(),
        }
    }

    /// The headers to send for headers that were received: every header with its last value.
    pub fn convert_headers(fields: &hyper::HeaderMap<hyper::header::HeaderValue>) -> (result: Option<
        hyper::HeaderMap<hyper::header::HeaderValue>,
    >)
        ensures
            match result {
                Some(copy) => headers::header_contents(copy) == headers::flat(
                    headers::header_contents(*fields),
                ),
                None => !(headers::header_contents(*fields).dom().finite()
                    && headers::header_contents(*fields).dom().len() <= 6553),
            },
    {
        headers::flatten(fields)
    }
}

/// The URL that is asked of a host's upstream; none where the upstream is no URL.
pub open spec fn plan_url(host: HostConfig, path: Seq<char>, query: Seq<char>) -> Option<Seq<char>> {
    match url_path_of(host.upstream@) {
        Some(p) => target_url(host.upstream@, p, host.name@, path, query),
        None => None,
    }
}

/// The host header that takes the place of the client's: the host of the URL, unless the client's is
/// to be kept.
pub open spec fn plan_host_header(host: HostConfig, url: Seq<char>) -> Option<Seq<char>> {
    if host.preserve_host_header == Some(true) {
        None
    } else {
        match url_host_of(url) {
            Some(h) => if headers::is_header_value(h) {
                Some(h)
            } else {
                None
            },
            None => None,
        }
    }
}

/// A client's host header stays as it is exactly where that is asked for or the URL has no host that
/// could stand in its place.
pub proof fn law_host_header_is_replaced(host: HostConfig, url: Seq<char>)
    ensures
        host.preserve_host_header == Some(true) ==> plan_host_header(host, url) is None,
        host.preserve_host_header != Some(true) && (url_host_of(url) matches Some(h)
            && headers::is_header_value(h)) ==> plan_host_header(host, url) == url_host_of(url),
        plan_host_header(host, url) matches Some(h) ==> url_host_of(url) == Some(h)
            && headers::is_header_value(h),
{
}

/// The characters of methods.
pub open spec fn is_method_char(c: char) -> bool {
    ||| 'a' <= c <= 'z'
    ||| 'A' <= c <= 'Z'
    ||| '0' <= c <= '9'
    ||| c == '!'
    ||| c == '*'
    ||| c == '+'
    ||| c == '-'
    ||| c == '.'
    ||| c == '^'
    ||| c == '_'
    ||| c == '`'
    ||| c == '|'
    ||| c == '~'
}

/// Whether a text is a method: not empty, and of the right characters.
pub open spec fn is_method(method: Seq<char>) -> bool {
    &&& method.len() > 0
    &&& forall|i: int| 0 <= i < method.len() ==> is_method_char(#[trigger] method[i])
}

/// `Method::from_bytes` takes the text of a method as it is; every other text is refused.
#[verifier::external_body]
pub(crate) fn parse_method(method: &str) -> (result: Option<String>)
    ensures
        result is Some <==> is_method(method@),
        result matches Some(m) ==> m@ == method@,
{
    hyper::Method::from_bytes(method.as_bytes()).ok().map(|m| m.as_str().to_string())
}

fn outranks_host(a: &HostConfig, b: &HostConfig) -> (result: bool)
    ensures
        result == outranks(*a, *b),
{
    let ra = a.rank_value();
    let rb = b.rank_value();
    if ra != rb {
        return ra > rb;
    }
    let la = a.name.as_str().as_bytes().len();
    let lb = b.name.as_str().as_bytes().len();
    if la != lb {
        return la > lb;
    }
    !text::eq(a.name.as_str(), b.name.as_str()) && text::le(a.name.as_str(), b.name.as_str())
}

} // verus!
