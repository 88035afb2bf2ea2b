//! Utility functions for plugins.
use vstd::prelude::*;

use crate::address::SocketAddress;
use crate::error::opt_text;
use crate::name_map::NameMap;
use crate::plugin::ConnectionContext;
use crate::text;
use crate::time::SystemTime;

verus! {

broadcast use vstd::string::group_string_axioms;

/// The header that names the host: the first of `host`, `Host` and `SERVER_NAME` that is there.
pub open spec fn host_header(headers: Map<Seq<char>, Seq<char>>) -> Option<Seq<char>> {
    if headers.contains_key("host"@) {
        Some(headers["host"@])
    } else if headers.contains_key("Host"@) {
        Some(headers["Host"@])
    } else if headers.contains_key("SERVER_NAME"@) {
        Some(headers["SERVER_NAME"@])
    } else {
        None
    }
}

/// The domain that a request is for: the host without a port.
pub open spec fn domain_of(headers: Map<Seq<char>, Seq<char>>) -> Option<Seq<char>> {
    match host_header(headers) {
        Some(h) => Some(h.take(text::position(h, ':'))),
        None => None,
    }
}

/// The part of a string before the first occurrence of a character.
fn before_char(s: &str, c: char) -> (result: String)
    ensures
        result@ == s@.take(text::position(s@, c)),
{
    let cs = text::chars(s);
    let p = text::position_from(&cs, 0, c);
    proof {
        assert(cs@.skip(0) =~= s@);
    }
    let result = text::from_range(&cs, 0, p);
    assert(result@ =~= s@.take(p as int));
    result
}

/// Extract domain from various headers.
pub fn extract_domain(headers: &NameMap<String>) -> (result: Option<String>)
    requires
        headers.wf(),
    ensures
        opt_text(result) == domain_of(headers.texts()),
{
    let host = match headers.get("host") {
        Some(h) => Some(h),
        None => match headers.get("Host") {
            Some(h) => Some(h),
            None => headers.get("SERVER_NAME"),
        },
    };
    match host {
        Some(h) => Some(before_char(h.as_str(), ':')),
        None => None,
    }
}

/// The text that a percent-encoded text stands for, as `urlencoding::decode` gives it; none where
/// the decoded bytes are not UTF-8.
pub uninterp spec fn url_decoded(s: Seq<char>) -> Option<Seq<char>>;

/// `urlencoding::decode`: what comes out depends on nothing but the text, and a text without a `%`
/// stands for itself.
#[verifier::external_body]
fn decode(s: &str) -> (result: Option<String>)
    ensures
        opt_text(result) == url_decoded(s@),
        !s@.contains('%') ==> opt_text(result) == Some(s@),
{
    urlencoding::decode(s).ok().map(|t| t.into_owned())
}

/// The text, or nothing where there is none.
pub open spec fn or_empty(s: Option<Seq<char>>) -> Seq<char> {
    match s {
        Some(t) => t,
        None => Seq::empty(),
    }
}

/// The parameters of the pieces of a query: each piece with a `=` gives the name before the first
/// one the value after it, and later pieces win over earlier ones.
pub open spec fn params_of(pieces: Seq<Seq<char>>) -> Map<Seq<char>, Seq<char>>
    decreases pieces.len(),
{
    if pieces.len() == 0 {
        Map::empty()
    } else {
        let before = params_of(pieces.drop_last());
        let piece = pieces.last();
        let p = text::position(piece, '=');
        if p < piece.len() {
            before.insert(
                or_empty(url_decoded(piece.take(p))),
                or_empty(url_decoded(piece.skip(p + 1))),
            )
        } else {
            before
        }
    }
}

/// Adds a parameter, given what came of decoding its name and value.
pub fn record_param(params: &mut NameMap<String>, key: Option<String>, value: Option<String>)
    requires
        old(params).wf(),
    ensures
        final(params).wf(),
        final(params).texts() == old(params).texts().insert(
            or_empty(opt_text(key)),
            or_empty(opt_text(value)),
        ),
{
    let name = match key {
        Some(k) => k,
        None => String::new(),
    };
    let text = match value {
        Some(v) => v,
        None => String::new(),
    };
    let ghost before = params.texts();
    let _ = params.insert(name, text);
    assert(name@ =~= or_empty(opt_text(key)));
    assert(text@ =~= or_empty(opt_text(value)));
    assert(params.texts() =~= before.insert(name@, text@));
}

/// Parse query parameters from URL.
pub fn parse_query_params(query: &str) -> (result: NameMap<String>)
    ensures
        result.wf(),
        result.texts() == params_of(text::split(query@, '&')),
{
    let pieces = text::split_char(query, '&');
    let ghost all = text::views(pieces@);
    let mut params: NameMap<String> = NameMap::new();
    let mut i: usize = 0;
    assert(params.texts() =~= Map::<Seq<char>, Seq<char>>::empty());
    while i < pieces.len()
        invariant
            i <= pieces@.len(),
            all == text::views(pieces@),
            params.wf(),
            params.texts() == params_of(all.take(i as int)),
        decreases pieces@.len() - i,
    {
        let cs = text::chars(pieces[i].as_str());
        let p = text::position_from(&cs, 0, '=');
        proof {
            assert(cs@.skip(0) =~= cs@);
            assert(all[i as int] == cs@);
            assert(all.take(i + 1).drop_last() =~= all.take(i as int));
            assert(all.take(i + 1).last() == cs@);
        }
        if p < cs.len() {
            let key = text::from_range(&cs, 0, p);
            let value = text::from_range(&cs, p + 1, cs.len());
            assert(key@ =~= cs@.take(p as int));
            assert(value@ =~= cs@.skip(p + 1));
            record_param(&mut params, decode(key.as_str()), decode(value.as_str()));
        }
        i += 1;
    }
    assert(all.take(i as int) =~= all);
    params
}

/// The id of a connection that was made at this time.
pub open spec fn connection_id_at(now: SystemTime) -> Seq<char> {
    "conn-"@ + text::decimal(now.secs as nat) + "-"@ + text::decimal(now.nanos as nat)
}

/// Generate unique connection ID.
pub fn generate_connection_id(now: SystemTime) -> (result: String)
    ensures
        result@ == connection_id_at(now),
{
    let secs = text::number(now.secs);
    let nanos = text::number(now.nanos as u64);
    text::cat4("conn-", secs.as_str(), "-", nanos.as_str())
}

/// Create connection context.
pub fn create_connection_context(
    client_addr: SocketAddress,
    server_addr: SocketAddress,
    metadata: NameMap<String>,
    now: SystemTime,
) -> (result: ConnectionContext)
    ensures
        result.connection_id@ == connection_id_at(now),
        result.client_addr == client_addr,
        result.server_addr == server_addr,
        result.metadata == metadata,
        result.created_at == now,
{
    ConnectionContext {
        connection_id: generate_connection_id(now),
        client_addr,
        server_addr,
        metadata,
        created_at: now,
    }
}

/// A request is for the host that its headers name, without the port: the header `host` comes before
/// `Host`, and that before `SERVER_NAME`.
pub proof fn law_domain_is_the_host_without_port(
    headers: Map<Seq<char>, Seq<char>>,
    domain: Seq<char>,
    port: Seq<char>,
    header: Seq<char>,
)
    requires
        !domain.contains(':'),
        headers.contains_key(header),
        headers[header] == domain || headers[header] == domain + seq![':'] + port,
        header == "host"@ || header == "Host"@ && !headers.contains_key("host"@) || header
            == "SERVER_NAME"@ && !headers.contains_key("host"@) && !headers.contains_key("Host"@),
    ensures
        domain_of(headers) == Some(domain),
{
    let h = headers[header];
    let n = domain.len() as int;
    assert forall|j: int| 0 <= j < n implies h[j] != ':' by {
        assert(h[j] == domain[j]);
    }
    text::lemma_position(h, ':', n);
    assert(h.take(n) =~= domain);
}

/// A request whose headers name no host is for no domain.
pub proof fn law_no_host_no_domain(headers: Map<Seq<char>, Seq<char>>)
    ensures
        domain_of(headers) is None <==> !headers.contains_key("host"@) && !headers.contains_key(
            "Host"@,
        ) && !headers.contains_key("SERVER_NAME"@),
{
}

/// A piece `name=value` of a query gives the name the value, both decoded, unless a later piece gives
/// the same name another.
pub proof fn law_query_pieces_are_parameters(
    pieces: Seq<Seq<char>>,
    name: Seq<char>,
    value: Seq<char>,
    more: Seq<Seq<char>>,
)
    requires
        !name.contains('='),
        url_decoded(name) is Some,
        url_decoded(value) is Some,
        forall|i: int| 0 <= i < more.len() ==> !(#[trigger] more[i]).contains('='),
    ensures
        ({
            let params = params_of(pieces.push(name + seq!['='] + value) + more);
            &&& params.contains_key(url_decoded(name)->0)
            &&& params[url_decoded(name)->0] == url_decoded(value)->0
        }),
        params_of(pieces + more) == params_of(pieces),
    decreases more.len(),
{
    let piece = name + seq!['='] + value;
    let first = pieces.push(piece);
    let n = name.len() as int;
    if more.len() == 0 {
        assert(first + more =~= first);
        assert(pieces + more =~= pieces);
        assert forall|j: int| 0 <= j < n implies piece[j] != '=' by {
            assert(piece[j] == name[j]);
        }
        text::lemma_position(piece, '=', n);
        assert(piece.take(n) =~= name);
        assert(piece.skip(n + 1) =~= value);
        assert(first.drop_last() =~= pieces);
    } else {
        let less = more.drop_last();
        assert forall|i: int| 0 <= i < less.len() implies !(#[trigger] less[i]).contains('=') by {
            assert(!more[i].contains('='));
        }
        law_query_pieces_are_parameters(pieces, name, value, less);
        let last = more[more.len() - 1];
        assert(!last.contains('='));
        text::lemma_position_bounds(last, '=');
        assert((first + more).drop_last() =~= first + less);
        assert((pieces + more).drop_last() =~= pieces + less);
        assert((first + more).last() == last);
        assert((pieces + more).last() == last);
    }
}

} // verus!
