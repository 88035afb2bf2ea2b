//! Configuration by proxy instances with named hosts.
use vstd::prelude::*;

use crate::config::ConfigFormat;
use crate::proxies::{says, HostConfig, ProxyInstance};
use crate::text;

verus! {

broadcast use vstd::string::group_string_axioms;

/// The whole configuration.
#[derive(Debug)]
pub struct NewProxyConfig {
    pub proxy_instances: Vec<ProxyInstance>,
    pub global: GlobalConfig,
}

/// Settings that apply to all instances.
#[derive(Debug, Clone)]
pub struct GlobalConfig {
    pub metrics: MetricsConfig,
    pub health_check: HealthCheckServerConfig,
    pub logging: LoggingConfig,
}

/// Where metrics are served.
#[derive(Debug, Clone)]
pub struct MetricsConfig {
    pub enabled: bool,
    pub listen_addr: String,
    pub path: String,
}

/// Where health is served.
#[derive(Debug, Clone)]
pub struct HealthCheckServerConfig {
    pub enabled: bool,
    pub listen_addr: String,
    pub path: String,
}

/// How messages are logged.
#[derive(Debug, Clone)]
pub struct LoggingConfig {
    pub level: String,
    pub format: String,
}

/// The format of a file by the end of its name: TOML and JSON by theirs, and YAML for every other.
pub open spec fn format_of_path(path: Seq<char>) -> ConfigFormat {
    if ".toml"@.is_suffix_of(path) {
        ConfigFormat::Toml
    } else if ".json"@.is_suffix_of(path) {
        ConfigFormat::Json
    } else {
        ConfigFormat::Yaml
    }
}

/// The format of a file by the end of its name.
pub fn file_format(path: &str) -> (result: ConfigFormat)
    ensures
        result == format_of_path(path@),
{
    if text::ends_with(path, ".toml") {
        ConfigFormat::Toml
    } else if text::ends_with(path, ".json") {
        ConfigFormat::Json
    } else {
        ConfigFormat::Yaml
    }
}

/// What is wrong with the first host at or behind `i` that something is wrong with.
pub open spec fn hosts_fault(hosts: Seq<HostConfig>, instance: Seq<char>, i: int) -> Option<
    Seq<char>,
>
    decreases hosts.len() - i,
{
    if i < 0 || i >= hosts.len() {
        None
    } else if hosts[i].name@.len() == 0 {
        Some("Host name cannot be empty in instance '"@ + instance + "'"@)
    } else if hosts[i].upstream@.len() == 0 {
        Some("Host upstream cannot be empty in instance '"@ + instance + "'"@)
    } else {
        hosts_fault(hosts, instance, i + 1)
    }
}

/// What is wrong with an instance by itself.
pub open spec fn instance_fault(instance: ProxyInstance) -> Option<Seq<char>> {
    if instance.name@.len() == 0 {
        Some("Proxy instance name cannot be empty"@)
    } else if instance.proxy_type@.len() == 0 {
        Some("Proxy instance type cannot be empty"@)
    } else if instance.listen_addr@.len() == 0 {
        Some("Proxy instance listen_addr cannot be empty"@)
    } else {
        hosts_fault(instance.hosts@, instance.name@, 0)
    }
}

/// What is wrong with the first instance at or behind `i` that something is wrong with.
pub open spec fn instances_fault(s: Seq<ProxyInstance>, i: int) -> Option<Seq<char>>
    decreases s.len() - i,
{
    if i < 0 || i >= s.len() {
        None
    } else if instance_fault(s[i]) is Some {
        instance_fault(s[i])
    } else {
        instances_fault(s, i + 1)
    }
}

/// The names of instances.
pub open spec fn names(s: Seq<ProxyInstance>) -> Seq<Seq<char>> {
    s.map_values(|i: ProxyInstance| i.name@)
}

/// The listen addresses of instances.
pub open spec fn addresses(s: Seq<ProxyInstance>) -> Seq<Seq<char>> {
    s.map_values(|i: ProxyInstance| i.listen_addr@)
}

/// The first repetition, at or behind `i`, of a name or a listen address.
pub open spec fn repeat_fault(s: Seq<ProxyInstance>, i: int) -> Option<Seq<char>>
    decreases s.len() - i,
{
    if i < 0 || i >= s.len() {
        None
    } else if names(s).take(i).contains(names(s)[i]) {
        Some("Duplicate proxy instance name: "@ + s[i].name@)
    } else if addresses(s).take(i).contains(addresses(s)[i]) {
        Some("Duplicate listen address: "@ + s[i].listen_addr@)
    } else {
        repeat_fault(s, i + 1)
    }
}

impl NewProxyConfig {
    /// The first thing wrong with the configuration.
    pub open spec fn fault(self) -> Option<Seq<char>> {
        match instances_fault(self.proxy_instances@, 0) {
            Some(m) => Some(m),
            None => repeat_fault(self.proxy_instances@, 0),
        }
    }

    /// Check the configuration.
    pub fn validate(&self) -> (result: std::result::Result<(), String>)
        ensures
            match self.fault() {
                Some(m) => says(result, m),
                None => result is Ok,
            },
    {
        let n = self.proxy_instances.len();
        let mut i: usize = 0;
        while i < n
            invariant
                i <= n,
                n == self.proxy_instances@.len(),
                instances_fault(self.proxy_instances@, 0) == instances_fault(
                    self.proxy_instances@,
                    i as int,
                ),
            decreases n - i,
        {
            match validate_instance(&self.proxy_instances[i]) {
                Ok(()) => {},
                Err(m) => {
                    return Err(m);
                },
            }
            i += 1;
        }
        i = 0;
        let ghost all_names = names(self.proxy_instances@);
        let ghost all_addresses = addresses(self.proxy_instances@);
        while i < n
            invariant
                i <= n,
                n == self.proxy_instances@.len(),
                all_names == names(self.proxy_instances@),
                all_addresses == addresses(self.proxy_instances@),
                instances_fault(self.proxy_instances@, 0) is None,
                repeat_fault(self.proxy_instances@, 0) == repeat_fault(
                    self.proxy_instances@,
                    i as int,
                ),
            decreases n - i,
        {
            let mut same_name = false;
            let mut same_address = false;
            let mut j: usize = 0;
            while j < i
                invariant
                    j <= i < n,
                    n == self.proxy_instances@.len(),
                    all_names == names(self.proxy_instances@),
                    all_addresses == addresses(self.proxy_instances@),
                    same_name == all_names.take(j as int).contains(all_names[i as int]),
                    same_address == all_addresses.take(j as int).contains(
                        all_addresses[i as int],
                    ),
                decreases i - j,
            {
                let hit_name = text::eq(
                    self.proxy_instances[j].name.as_str(),
                    self.proxy_instances[i].name.as_str(),
                );
                let hit_address = text::eq(
                    self.proxy_instances[j].listen_addr.as_str(),
                    self.proxy_instances[i].listen_addr.as_str(),
                );
                proof {
                    lemma_take_contains(all_names, j as int, all_names[i as int]);
                    lemma_take_contains(all_addresses, j as int, all_addresses[i as int]);
                }
                same_name = same_name || hit_name;
                same_address = same_address || hit_address;
                j += 1;
            }
            if same_name {
                return Err(
                    text::cat2(
                        "Duplicate proxy instance name: ",
                        self.proxy_instances[i].name.as_str(),
                    ),
                );
            }
            if same_address {
                return Err(
                    text::cat2(
                        "Duplicate listen address: ",
                        self.proxy_instances[i].listen_addr.as_str(),
                    ),
                );
            }
            i += 1;
        }
        Ok(())
    }
}

/// What one more item of a prefix adds to it.
proof fn lemma_take_contains<A>(s: Seq<A>, j: int, x: A)
    requires
        0 <= j < s.len(),
    ensures
        s.take(j + 1).contains(x) <==> s.take(j).contains(x) || s[j] == x,
{
    if s.take(j).contains(x) {
        let k = s.take(j).index_of(x);
        assert(s.take(j + 1)[k] == x);
    }
    if s[j] == x {
        assert(s.take(j + 1)[j] == x);
    }
    if s.take(j + 1).contains(x) {
        let k = s.take(j + 1).index_of(x);
        if k < j {
            assert(s.take(j)[k] == x);
        }
    }
}

fn validate_instance(instance: &ProxyInstance) -> (result: std::result::Result<(), String>)
    ensures
        match instance_fault(*instance) {
            Some(m) => says(result, m),
            None => result is Ok,
        },
{
    if text::is_empty(instance.name.as_str()) {
        return Err("Proxy instance name cannot be empty".to_string());
    }
    if text::is_empty(instance.proxy_type.as_str()) {
        return Err("Proxy instance type cannot be empty".to_string());
    }
    if text::is_empty(instance.listen_addr.as_str()) {
        return Err("Proxy instance listen_addr cannot be empty".to_string());
    }
    let mut i: usize = 0;
    while i < instance.hosts.len()
        invariant
            i <= instance.hosts@.len(),
            instance.name@.len() > 0,
            instance.proxy_type@.len() > 0,
            instance.listen_addr@.len() > 0,
            hosts_fault(instance.hosts@, instance.name@, 0) == hosts_fault(
                instance.hosts@,
                instance.name@,
                i as int,
            ),
        decreases instance.hosts@.len() - i,
    {
        if text::is_empty(instance.hosts[i].name.as_str()) {
            return Err(
                text::cat3(
                    "Host name cannot be empty in instance '",
                    instance.name.as_str(),
                    "'",
                ),
            );
        }
        if text::is_empty(instance.hosts[i].upstream.as_str()) {
            return Err(
                text::cat3(
                    "Host upstream cannot be empty in instance '",
                    instance.name.as_str(),
                    "'",
                ),
            );
        }
        i += 1;
    }
    Ok(())
}

/// In an accepted configuration every instance has a name, a type and an address, every host a name
/// and an upstream, and no two instances share a name or an address; and a configuration like this is
/// accepted.
pub proof fn law_accepted_config(config: NewProxyConfig)
    ensures
        config.fault() is None <==> {
            &&& names(config.proxy_instances@).no_duplicates()
            &&& addresses(config.proxy_instances@).no_duplicates()
            &&& forall|i: int|
                0 <= i < config.proxy_instances@.len() ==> is_complete(
                    #[trigger] config.proxy_instances@[i],
                )
        },
{
    let s = config.proxy_instances@;
    lemma_instances(s, 0);
    if instances_fault(s, 0) is None && repeat_fault(s, 0) is None {
        lemma_no_repeat(s, 0);
    }
    if names(s).no_duplicates() && addresses(s).no_duplicates() {
        lemma_none_repeats(s, 0);
    }
}

/// Nothing that an instance needs is missing.
pub open spec fn is_complete(instance: ProxyInstance) -> bool {
    &&& instance.name@.len() > 0
    &&& instance.proxy_type@.len() > 0
    &&& instance.listen_addr@.len() > 0
    &&& forall|i: int|
        0 <= i < instance.hosts@.len() ==> (#[trigger] instance.hosts@[i]).name@.len() > 0
            && instance.hosts@[i].upstream@.len() > 0
}

proof fn lemma_none_repeats(s: Seq<ProxyInstance>, i: int)
    requires
        0 <= i,
        names(s).no_duplicates(),
        addresses(s).no_duplicates(),
    ensures
        repeat_fault(s, i) is None,
    decreases s.len() - i,
{
    if i < s.len() {
        assert(!names(s).take(i).contains(names(s)[i]));
        assert(!addresses(s).take(i).contains(addresses(s)[i]));
        lemma_none_repeats(s, i + 1);
    }
}

proof fn lemma_no_repeat(s: Seq<ProxyInstance>, i: int)
    requires
        0 <= i <= s.len(),
        repeat_fault(s, i) is None,
        forall|a: int, b: int| 0 <= a < b < i ==> names(s)[a] != names(s)[b],
        forall|a: int, b: int| 0 <= a < b < i ==> addresses(s)[a] != addresses(s)[b],
    ensures
        names(s).no_duplicates(),
        addresses(s).no_duplicates(),
    decreases s.len() - i,
{
    if i < s.len() {
        assert forall|a: int, b: int| 0 <= a < b < i + 1 implies names(s)[a] != names(s)[b] by {
            if b == i {
                assert(names(s).take(i)[a] == names(s)[a]);
            }
        }
        assert forall|a: int, b: int| 0 <= a < b < i + 1 implies addresses(s)[a] != addresses(
            s,
        )[b] by {
            if b == i {
                assert(addresses(s).take(i)[a] == addresses(s)[a]);
            }
        }
        lemma_no_repeat(s, i + 1);
    }
}

proof fn lemma_instances(s: Seq<ProxyInstance>, i: int)
    requires
        0 <= i,
    ensures
        instances_fault(s, i) is None <==> forall|j: int|
            i <= j < s.len() ==> is_complete(#[trigger] s[j]),
    decreases s.len() - i,
{
    if i < s.len() {
        lemma_hosts(s[i].hosts@, s[i].name@, 0);
        lemma_instances(s, i + 1);
    }
}

proof fn lemma_hosts(hosts: Seq<HostConfig>, instance: Seq<char>, i: int)
    requires
        0 <= i,
    ensures
        hosts_fault(hosts, instance, i) is None <==> forall|j: int|
            i <= j < hosts.len() ==> (#[trigger] hosts[j]).name@.len() > 0
                && hosts[j].upstream@.len() > 0,
    decreases hosts.len() - i,
{
    if i < hosts.len() {
        lemma_hosts(hosts, instance, i + 1);
    }
}

/// A file is read as TOML or JSON where its name ends so, and as YAML otherwise.
pub proof fn law_formats_go_by_the_end_of_the_name(stem: Seq<char>)
    ensures
        format_of_path(stem + ".toml"@) == ConfigFormat::Toml,
        format_of_path(stem + ".json"@) == ConfigFormat::Json,
        format_of_path(stem) == ConfigFormat::Toml <==> ".toml"@.is_suffix_of(stem),
        format_of_path(stem) == ConfigFormat::Json <==> ".json"@.is_suffix_of(stem),
{
    reveal_strlit(".toml");
    reveal_strlit(".json");
    let toml = stem + ".toml"@;
    let json = stem + ".json"@;
    let n = stem.len() as int;
    assert(toml.subrange(n, n + 5) =~= ".toml"@);
    assert(json.subrange(n, n + 5) =~= ".json"@);
    assert(json.subrange(n, n + 5)[1] == 'j');
    assert(!".toml"@.is_suffix_of(json)) by {
        assert(".toml"@[1] == 't');
    }
    if stem.len() >= 5 {
        let end = stem.subrange(stem.len() - 5, stem.len() as int);
        assert(".toml"@[1] == 't' && ".json"@[1] == 'j');
    }
}

} // verus!
