//! What the program says when it starts.
use vstd::prelude::*;

use crate::config::{Config, ProxyInstanceConfig};
use crate::proxy::{name_of_type, type_text};
use crate::text;
use crate::text::decimal;

verus! {

broadcast use vstd::string::group_string_axioms;

/// Current version of the router
pub const VERSION: &'static str = "0.1.0";

/// Maximum supported proxy instances per router
pub const MAX_PROXY_INSTANCES: usize = 1000;

/// Default configuration file name
pub const DEFAULT_CONFIG_FILE: &'static str = "config.yml";

/// What is logged for a verbosity that was asked for.
pub open spec fn verbosity_text(verbosity: u8) -> Option<Seq<char>> {
    if verbosity == 0 {
        None
    } else if verbosity == 1 {
        Some("Verbose logging enabled"@)
    } else if verbosity == 2 {
        Some("Debug logging enabled"@)
    } else {
        Some("Trace logging enabled"@)
    }
}

/// What to log for the verbosity flag.
pub fn adjust_logging_level(verbosity: u8) -> (result: Option<String>)
    ensures
        crate::error::opt_text(result) == verbosity_text(verbosity),
{
    if verbosity == 0 {
        None
    } else if verbosity == 1 {
        Some("Verbose logging enabled".to_string())
    } else if verbosity == 2 {
        Some("Debug logging enabled".to_string())
    } else {
        Some("Trace logging enabled".to_string())
    }
}

/// The word for a truth value.
pub open spec fn bool_text(b: bool) -> Seq<char> {
    if b {
        "true"@
    } else {
        "false"@
    }
}

/// The line about a proxy instance.
pub open spec fn instance_line(i: ProxyInstanceConfig) -> Seq<char> {
    ("  Instance '"@ + i.name@ + "': "@ + type_text(i.proxy_type) + " proxy on "@) + (
    i.listen_addr.text@ + " with "@ + decimal(i.upstreams@.len()) + " upstreams"@)
}

/// The lines about the system and its configuration.
pub open spec fn info_lines(cpus: nat, workers: nat, config: Config) -> Seq<Seq<char>> {
    seq![
        "System Information:"@,
        "  CPU cores: "@ + decimal(cpus),
        "  Optimal workers: "@ + decimal(workers),
        "  \nConfiguration Summary:"@,
        "  Proxy instances: "@ + decimal(config.proxy_instances@.len()),
        "  Metrics enabled: "@ + bool_text(config.global.metrics.enabled),
        "  Health checks enabled: "@ + bool_text(config.global.health_check.enabled),
        "  CPU affinity enabled: "@ + bool_text(config.global.performance.cpu_affinity),
    ] + config.proxy_instances@.map_values(|i: ProxyInstanceConfig| instance_line(i))
}

fn bool_name(b: bool) -> (result: String)
    ensures
        result@ == bool_text(b),
{
    if b {
        "true".to_string()
    } else {
        "false".to_string()
    }
}

fn write_instance(i: &ProxyInstanceConfig) -> (result: String)
    ensures
        result@ == instance_line(*i),
{
    let kind = name_of_type(i.proxy_type);
    let mut s = text::cat5("  Instance '", i.name.as_str(), "': ", kind.as_str(), " proxy on ");
    let count = text::number(i.upstreams.len() as u64);
    let end = text::cat4(i.listen_addr.text.as_str(), " with ", count.as_str(), " upstreams");
    s.append(end.as_str());
    s
}

/// The lines to log about the system and its configuration.
pub fn display_system_info(cpus: usize, workers: usize, config: &Config) -> (result: Vec<String>)
    ensures
        text::views(result@) == info_lines(cpus as nat, workers as nat, *config),
{
    let mut lines: Vec<String> = Vec::new();
    lines.push("System Information:".to_string());
    lines.push(text::cat2("  CPU cores: ", text::number(cpus as u64).as_str()));
    lines.push(text::cat2("  Optimal workers: ", text::number(workers as u64).as_str()));
    lines.push("  \nConfiguration Summary:".to_string());
    let instances = text::number(config.proxy_instances.len() as u64);
    lines.push(text::cat2("  Proxy instances: ", instances.as_str()));
    let metrics = bool_name(config.global.metrics.enabled);
    lines.push(text::cat2("  Metrics enabled: ", metrics.as_str()));
    let health = bool_name(config.global.health_check.enabled);
    lines.push(text::cat2("  Health checks enabled: ", health.as_str()));
    let affinity = bool_name(config.global.performance.cpu_affinity);
    lines.push(text::cat2("  CPU affinity enabled: ", affinity.as_str()));
    let ghost head = text::views(lines@);
    let ghost all = config.proxy_instances@;
    let ghost line = |i: ProxyInstanceConfig| instance_line(i);
    let mut i: usize = 0;
    assert(head + all.take(0).map_values(line) =~= head);
    while i < config.proxy_instances.len()
        invariant
            i <= all.len(),
            all == config.proxy_instances@,
            line == |i: ProxyInstanceConfig| instance_line(i),
            text::views(lines@) == head + all.take(i as int).map_values(line),
        decreases all.len() - i,
    {
        let ghost before = lines@;
        let next = write_instance(&config.proxy_instances[i]);
        lines.push(next);
        assert(text::views(lines@) =~= text::views(before).push(next@));
        assert(head + all.take(i + 1).map_values(line) =~= (head + all.take(i as int).map_values(
            line,
        )).push(next@));
        i += 1;
    }
    assert(all.take(i as int) =~= all);
    assert(text::views(lines@) =~= info_lines(cpus as nat, workers as nat, *config));
    lines
}

} // verus!
