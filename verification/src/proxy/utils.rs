//! Utility functions for proxy implementations.
use vstd::prelude::*;

use crate::address::SocketAddress;
use crate::error::{config_error, Error, ErrorView, Result};
use crate::text;
use crate::time::Duration;

verus! {

broadcast use vstd::string::group_string_axioms;

/// The error for a text that is no socket address, with the parser's description.
pub open spec fn address_error(address: Seq<char>, description: Seq<char>) -> ErrorView {
    config_error("Invalid address '"@ + address + "': "@ + description)
}

/// What is wrong with a text as an address, given the outcome of parsing it.
pub open spec fn parse_fault(
    address: Seq<char>,
    parsed: std::result::Result<SocketAddress, String>,
) -> Option<ErrorView> {
    match parsed {
        Ok(_) => None,
        Err(d) => Some(address_error(address, d@)),
    }
}

/// The outcome of parsing an address string: the address, or the parser's description of what is
/// wrong with it.
pub fn parse_address(
    address: &str,
    parsed: std::result::Result<SocketAddress, String>,
) -> (result: Result<SocketAddress>)
    ensures
        match parse_fault(address@, parsed) {
            Some(f) => result matches Err(e) && e@ == f,
            None => result == Ok::<SocketAddress, Error>(parsed->Ok_0),
        },
{
    match parsed {
        Ok(a) => Ok(a),
        Err(d) => {
            let message = text::cat4("Invalid address '", address, "': ", d.as_str());
            Err(Error::config(message.as_str()))
        },
    }
}

/// Convert milliseconds to Duration.
pub fn millis_to_duration(millis: u64) -> (result: Duration)
    ensures
        result.wf(),
        result.total_nanos() == millis * 1_000_000,
{
    Duration::from_millis(millis)
}

/// What is wrong with an upstream address, given the outcome of parsing it.
pub open spec fn upstream_address_fault(
    address: Seq<char>,
    parsed: std::result::Result<SocketAddress, String>,
) -> Option<ErrorView> {
    if address.len() == 0 {
        Some(config_error("Upstream address cannot be empty"@))
    } else if !address.contains(':') {
        Some(config_error("Upstream address must include port"@))
    } else {
        parse_fault(address, parsed)
    }
}

/// Check if an address is a valid upstream target, given the outcome of parsing it.
pub fn validate_upstream_address(
    address: &str,
    parsed: std::result::Result<SocketAddress, String>,
) -> (result: Result<()>)
    ensures
        match upstream_address_fault(address@, parsed) {
            Some(f) => result matches Err(e) && e@ == f,
            None => result is Ok,
        },
{
    if text::is_empty(address) {
        return Err(Error::config("Upstream address cannot be empty"));
    }
    if !text::contains_char(address, ':') {
        return Err(Error::config("Upstream address must include port"));
    }
    match parse_address(address, parsed) {
        Ok(_) => Ok(()),
        Err(e) => Err(e),
    }
}

/// For one outcome of parsing a text, `validate_upstream_address` and `parse_address` accept the same
/// texts, and whatever either of them refuses is an error of configuration. A text that parses as an
/// address holds a colon.
pub proof fn law_validation_agrees_with_parsing(
    address: Seq<char>,
    parsed: std::result::Result<SocketAddress, String>,
)
    requires
        parsed is Ok ==> address.contains(':'),
    ensures
        upstream_address_fault(address, parsed) is None <==> parse_fault(address, parsed) is None,
        parse_fault(address, parsed) is None <==> parsed is Ok,
        upstream_address_fault(address, parsed) matches Some(f) ==> f is Config,
        parse_fault(address, parsed) matches Some(f) ==> f is Config,
{
    if parsed is Ok {
        assert(address[address.index_of(':')] == ':');
    }
}

/// Create a connection timeout from configuration: more than nothing, and five minutes at most.
pub fn create_timeout(timeout_ms: u64, operation: &str) -> (result: Result<Duration>)
    ensures
        if timeout_ms == 0 {
            result matches Err(e) && e@ == config_error(operation@ + " timeout cannot be zero"@)
        } else if timeout_ms > 300_000 {
            result matches Err(e) && e@ == config_error(
                operation@ + " timeout cannot exceed 5 minutes"@,
            )
        } else {
            result matches Ok(d) && d.wf() && d.total_nanos() == timeout_ms * 1_000_000
        },
{
    if timeout_ms == 0 {
        let message = text::cat2(operation, " timeout cannot be zero");
        return Err(Error::config(message.as_str()));
    }
    if timeout_ms > 300_000 {
        let message = text::cat2(operation, " timeout cannot exceed 5 minutes");
        return Err(Error::config(message.as_str()));
    }
    Ok(Duration::from_millis(timeout_ms))
}

/// An upstream address is accepted exactly where it is there, names a port and is an address.
pub proof fn law_upstream_addresses_are_checked(
    address: Seq<char>,
    parsed: std::result::Result<SocketAddress, String>,
)
    ensures
        upstream_address_fault(address, parsed) is None <==> address.contains(':') && parsed is Ok,
{
    if address.contains(':') {
        assert(address[address.index_of(':')] == ':');
    }
}

} // verus!
