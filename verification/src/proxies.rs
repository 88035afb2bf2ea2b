//! Proxy instances that serve named hosts: the hosts, the proxies and the manager of both.
pub mod http;
pub mod tcp;
pub mod udp;

use vstd::prelude::*;

use crate::name_map::NameMap;
use crate::proxies::http::HttpProxy;
use crate::proxies::tcp::TcpProxy;
use crate::proxies::udp::UdpProxy;
use crate::text;

verus! {

broadcast use vstd::string::group_string_axioms;

/// A proxy that listens on an address for its hosts.
#[derive(Debug)]
pub struct ProxyInstance {
    pub name: String,
    pub proxy_type: String,
    pub listen_addr: String,
    pub config: InstanceSettings,
    pub hosts: Vec<HostConfig>,
}

/// The settings of an instance: the one that is read here, and all of them as they were written.
#[derive(Debug, Clone)]
pub struct InstanceSettings {
    pub max_idle_time_secs: Option<u64>,
    pub text: String,
}

/// A host that requests are passed on to.
#[derive(Debug, Clone)]
pub struct HostConfig {
    pub name: String,
    pub upstream: String,
    pub weight: Option<u32>,
    pub health_check: Option<HealthCheckConfig>,
    pub timeout_ms: Option<u64>,
    pub retry_count: Option<u32>,
    pub priority: Option<i32>,
    pub preserve_host_header: Option<bool>,
}

/// How the health of a host is checked.
#[derive(Debug, Clone)]
pub struct HealthCheckConfig {
    pub enabled: bool,
    pub interval_ms: u64,
    pub timeout_ms: u64,
    pub path: Option<String>,
    pub expected_status: Option<u16>,
}

/// A failure of input or output that the proxies report themselves.
#[derive(Debug, Clone)]
pub struct IoFailure {
    pub kind: IoFailureKind,
    pub message: String,
}

/// The kinds of such failures.
#[derive(Debug, Clone, Copy, PartialEq, Eq, Structural)]
pub enum IoFailureKind {
    NotFound,
    InvalidInput,
    TimedOut,
    /// A failure that the system reported
    System,
}

/// Whether a result is a failure with this message.
pub open spec fn says<T>(result: std::result::Result<T, String>, message: Seq<char>) -> bool {
    result matches Err(e) && e@ == message
}

/// Whether a result is this failure.
pub open spec fn io_fails<T>(
    result: std::result::Result<T, IoFailure>,
    kind: IoFailureKind,
    message: Seq<char>,
) -> bool {
    result matches Err(e) && e.kind == kind && e.message@ == message
}

impl HealthCheckConfig {
    /// The same once more.
    pub fn copy(&self) -> (result: Self)
        ensures
            result == *self,
    {
        HealthCheckConfig {
            enabled: self.enabled,
            interval_ms: self.interval_ms,
            timeout_ms: self.timeout_ms,
            path: match &self.path {
                Some(p) => Some(p.clone()),
                None => None,
            },
            expected_status: self.expected_status,
        }
    }
}

impl HostConfig {
    /// The same once more.
    pub fn copy(&self) -> (result: Self)
        ensures
            result == *self,
    {
        HostConfig {
            name: self.name.clone(),
            upstream: self.upstream.clone(),
            weight: self.weight,
            health_check: match &self.health_check {
                Some(h) => Some(h.copy()),
                None => None,
            },
            timeout_ms: self.timeout_ms,
            retry_count: self.retry_count,
            priority: self.priority,
            preserve_host_header: self.preserve_host_header,
        }
    }

    /// The priority, or zero where none is set.
    pub open spec fn rank(self) -> i32 {
        match self.priority {
            Some(p) => p,
            None => 0,
        }
    }

    /// The priority, or zero where none is set.
    pub fn rank_value(&self) -> (result: i32)
        ensures
            result == self.rank(),
    {
        match self.priority {
            Some(p) => p,
            None => 0,
        }
    }
}

/// A copy of a list of hosts.
pub fn copy_hosts(hosts: &Vec<HostConfig>) -> (result: Vec<HostConfig>)
    ensures
        result@ == hosts@,
{
    let mut result: Vec<HostConfig> = Vec::new();
    let mut i: usize = 0;
    while i < hosts.len()
        invariant
            i <= hosts@.len(),
            result@ == hosts@.take(i as int),
        decreases hosts@.len() - i,
    {
        result.push(hosts[i].copy());
        i += 1;
    }
    result
}

// ---------------------------------------------------------------------------------------------
// Lists of hosts
// ---------------------------------------------------------------------------------------------

/// The place of the first host with this name, or the number of hosts where there is none.
pub open spec fn host_at(hosts: Seq<HostConfig>, name: Seq<char>) -> int
    decreases hosts.len(),
{
    if hosts.len() == 0 || hosts[0].name@ == name {
        0
    } else {
        1 + host_at(hosts.drop_first(), name)
    }
}

/// Whether there is a host with this name.
pub open spec fn has_host(hosts: Seq<HostConfig>, name: Seq<char>) -> bool {
    host_at(hosts, name) < hosts.len()
}

proof fn lemma_host_at(hosts: Seq<HostConfig>, name: Seq<char>, i: int)
    requires
        0 <= i <= hosts.len(),
        forall|j: int| 0 <= j < i ==> (#[trigger] hosts[j]).name@ != name,
        i < hosts.len() ==> hosts[i].name@ == name,
    ensures
        host_at(hosts, name) == i,
    decreases hosts.len(),
{
    if i > 0 {
        assert(hosts[0].name@ != name);
        let rest = hosts.drop_first();
        assert forall|j: int| 0 <= j < i - 1 implies (#[trigger] rest[j]).name@ != name by {
            assert(hosts[j + 1].name@ != name);
        }
        lemma_host_at(rest, name, i - 1);
    }
}

/// The place of the first host with this name.
pub fn find_host(hosts: &Vec<HostConfig>, name: &str) -> (result: Option<usize>)
    ensures
        match result {
            Some(i) => i < hosts@.len() && i == host_at(hosts@, name@) && hosts@[i as int].name@
                == name@,
            None => !has_host(hosts@, name@),
        },
{
    let mut i: usize = 0;
    while i < hosts.len()
        invariant
            i <= hosts@.len(),
            forall|j: int| 0 <= j < i ==> (#[trigger] hosts@[j]).name@ != name@,
        decreases hosts@.len() - i,
    {
        if text::eq(hosts[i].name.as_str(), name) {
            proof {
                lemma_host_at(hosts@, name@, i as int);
            }
            return Some(i);
        }
        i += 1;
    }
    proof {
        lemma_host_at(hosts@, name@, i as int);
    }
    None
}

/// Adds a host, unless there is one of its name.
pub fn add_to(hosts: &mut Vec<HostConfig>, host: HostConfig) -> (result: std::result::Result<
    (),
    String,
>)
    ensures
        if has_host(old(hosts)@, host.name@) {
            final(hosts)@ == old(hosts)@ && says(
                result,
                "Host '"@ + host.name@ + "' already exists"@,
            )
        } else {
            final(hosts)@ == old(hosts)@.push(host) && result is Ok
        },
{
    if find_host(hosts, host.name.as_str()).is_some() {
        return Err(text::cat3("Host '", host.name.as_str(), "' already exists"));
    }
    hosts.push(host);
    Ok(())
}

/// Removes the first host of this name.
pub fn remove_from(hosts: &mut Vec<HostConfig>, name: &str) -> (result: std::result::Result<
    (),
    String,
>)
    ensures
        if has_host(old(hosts)@, name@) {
            final(hosts)@ == old(hosts)@.remove(host_at(old(hosts)@, name@)) && result is Ok
        } else {
            final(hosts)@ == old(hosts)@ && says(result, "Host '"@ + name@ + "' not found"@)
        },
{
    match find_host(hosts, name) {
        Some(i) => {
            let _ = hosts.remove(i);
            Ok(())
        },
        None => Err(text::cat3("Host '", name, "' not found")),
    }
}

/// Puts a host in the place of the first of its name.
pub fn update_in(hosts: &mut Vec<HostConfig>, host: HostConfig) -> (result: std::result::Result<
    (),
    String,
>)
    ensures
        if has_host(old(hosts)@, host.name@) {
            final(hosts)@ == old(hosts)@.update(host_at(old(hosts)@, host.name@), host)
                && result is Ok
        } else {
            final(hosts)@ == old(hosts)@ && says(result, "Host '"@ + host.name@ + "' not found"@)
        },
{
    match find_host(hosts, host.name.as_str()) {
        Some(i) => {
            hosts.set(i, host);
            Ok(())
        },
        None => Err(text::cat3("Host '", host.name.as_str(), "' not found")),
    }
}

/// A host that was not there is gone again once it is removed, and nothing else has changed.
pub proof fn law_add_then_remove(hosts: Seq<HostConfig>, host: HostConfig)
    requires
        !has_host(hosts, host.name@),
    ensures
        has_host(hosts.push(host), host.name@),
        hosts.push(host).remove(host_at(hosts.push(host), host.name@)) == hosts,
{
    lemma_absent(hosts, host.name@);
    let more = hosts.push(host);
    assert forall|j: int| 0 <= j < hosts.len() implies (#[trigger] more[j]).name@
        != host.name@ by {
        assert(more[j] == hosts[j]);
    }
    lemma_host_at(more, host.name@, hosts.len() as int);
    assert(more.remove(hosts.len() as int) =~= hosts);
}

proof fn lemma_absent(hosts: Seq<HostConfig>, name: Seq<char>)
    requires
        !has_host(hosts, name),
    ensures
        forall|j: int| 0 <= j < hosts.len() ==> (#[trigger] hosts[j]).name@ != name,
    decreases hosts.len(),
{
    if hosts.len() > 0 {
        let rest = hosts.drop_first();
        lemma_absent(rest, name);
        assert forall|j: int| 0 <= j < hosts.len() implies (#[trigger] hosts[j]).name@ != name by {
            if j > 0 {
                assert(hosts[j] == rest[j - 1]);
            }
        }
    }
}

/// The hosts without any of this name.
pub open spec fn without_host(hosts: Seq<HostConfig>, name: Seq<char>) -> Seq<HostConfig>
    decreases hosts.len(),
{
    if hosts.len() == 0 {
        hosts
    } else if hosts.last().name@ == name {
        without_host(hosts.drop_last(), name)
    } else {
        without_host(hosts.drop_last(), name).push(hosts.last())
    }
}

fn drop_named(hosts: &mut Vec<HostConfig>, name: &str)
    ensures
        final(hosts)@ == without_host(old(hosts)@, name@),
{
    let ghost all = hosts@;
    let ghost mut seen: int = 0;
    let mut i: usize = 0;
    assert(without_host(all.take(0), name@) =~= hosts@.take(0));
    while i < hosts.len()
        invariant
            0 <= i <= hosts@.len(),
            0 <= seen <= all.len(),
            hosts@.take(i as int) == without_host(all.take(seen), name@),
            hosts@.skip(i as int) == all.skip(seen),
        decreases hosts@.len() - i,
    {
        let ghost before = hosts@;
        proof {
            assert(before.skip(i as int).len() == before.len() - i);
            assert(all.skip(seen).len() == all.len() - seen);
            assert(before.skip(i as int)[0] == before[i as int]);
            assert(all.skip(seen)[0] == all[seen]);
            assert(all.take(seen + 1).drop_last() =~= all.take(seen));
            assert(before.skip(i as int).drop_first() =~= before.skip(i + 1));
            assert(all.skip(seen).drop_first() =~= all.skip(seen + 1));
        }
        if text::eq(hosts[i].name.as_str(), name) {
            let _ = hosts.remove(i);
            proof {
                assert(hosts@.take(i as int) =~= before.take(i as int));
                assert(hosts@.skip(i as int) =~= before.skip(i + 1));
            }
        } else {
            assert(before.take(i + 1) =~= before.take(i as int).push(before[i as int]));
            i += 1;
        }
        proof {
            seen = seen + 1;
        }
    }
    proof {
        assert(hosts@.skip(i as int).len() == 0);
        assert(all.skip(seen).len() == 0);
        assert(all.take(seen) =~= all);
        assert(hosts@.take(i as int) =~= hosts@);
    }
}

/// `i` is the first of the hosts with the highest priority.
pub open spec fn is_first_ranked(hosts: Seq<HostConfig>, i: int) -> bool {
    &&& 0 <= i < hosts.len()
    &&& forall|j: int| 0 <= j < hosts.len() ==> (#[trigger] hosts[j]).rank() <= hosts[i].rank()
    &&& forall|j: int| 0 <= j < i ==> (#[trigger] hosts[j]).rank() < hosts[i].rank()
}

/// The first of the hosts with the highest priority.
pub fn first_ranked(hosts: &Vec<HostConfig>) -> (result: Option<usize>)
    ensures
        match result {
            Some(i) => is_first_ranked(hosts@, i as int),
            None => hosts@.len() == 0,
        },
{
    if hosts.len() == 0 {
        return None;
    }
    let mut best: usize = 0;
    let mut i: usize = 1;
    while i < hosts.len()
        invariant
            1 <= i <= hosts@.len(),
            best < i,
            forall|j: int| 0 <= j < i ==> (#[trigger] hosts@[j]).rank() <= hosts@[best as int].rank(),
            forall|j: int| 0 <= j < best ==> (#[trigger] hosts@[j]).rank() < hosts@[best as int].rank(),
        decreases hosts@.len() - i,
    {
        if hosts[i].rank_value() > hosts[best].rank_value() {
            best = i;
        }
        i += 1;
    }
    Some(best)
}

// ---------------------------------------------------------------------------------------------
// Addresses in URLs
// ---------------------------------------------------------------------------------------------

/// The host and port of an upstream URL: what stands between the scheme, if there is one, and the
/// first slash behind it.
pub open spec fn host_port(url: Seq<char>) -> Seq<char> {
    let pat = "://"@;
    let behind = match text::find_from(url, pat, 0) {
        Some(p) => {
            let rest = url.skip(p + 3);
            match text::find_from(rest, pat, 0) {
                Some(q) => rest.take(q),
                None => rest,
            }
        },
        None => url,
    };
    behind.take(text::position(behind, '/'))
}

/// The host and port of an upstream URL.
pub fn extract_host_port(url: &str) -> (result: String)
    ensures
        result@ == host_port(url@),
{
    let cs = text::chars(url);
    let pat = text::chars("://");
    let n = cs.len();
    proof {
        reveal_strlit("://");
    }
    let (from, to): (usize, usize) = match text::find_in(&cs, &pat, 0) {
        Some(p) => {
            let start: usize = p + 3;
            let rest_text = text::from_range(&cs, start, n);
            let rest = text::chars(rest_text.as_str());
            assert(rest@ =~= url@.skip(p + 3));
            match text::find_in(&rest, &pat, 0) {
                Some(q) => (start, start + q),
                None => (start, n),
            }
        },
        None => (0, n),
    };
    let behind_text = text::from_range(&cs, from, to);
    let behind = text::chars(behind_text.as_str());
    proof {
        match text::find_from(url@, "://"@, 0) {
            Some(p) => {
                let rest = url@.skip(p + 3);
                match text::find_from(rest, "://"@, 0) {
                    Some(q) => {
                        assert(behind@ =~= rest.take(q));
                    },
                    None => {
                        assert(behind@ =~= rest);
                    },
                }
            },
            None => {
                assert(behind@ =~= url@);
            },
        }
    }
    let slash = text::position_from(&behind, 0, '/');
    assert(behind@.skip(0) =~= behind@);
    let result = text::from_range(&behind, 0, slash);
    assert(result@ =~= behind@.take(slash as int));
    result
}

// ---------------------------------------------------------------------------------------------
// The manager
// ---------------------------------------------------------------------------------------------

/// A proxy of one of the known types.
pub enum HostedProxy {
    Http(HttpProxy),
    Tcp(TcpProxy),
    Udp(UdpProxy),
}

/// Manager of proxies, by type, and of the instances that they serve, by name.
pub struct ProxyManager {
    pub proxies: NameMap<HostedProxy>,
    pub instances: NameMap<ProxyInstance>,
}

impl HostedProxy {
    /// The name of the type.
    pub open spec fn type_text(self) -> Seq<char> {
        match self {
            HostedProxy::Http(_) => "http"@,
            HostedProxy::Tcp(_) => "tcp"@,
            HostedProxy::Udp(_) => "udp"@,
        }
    }

    /// The hosts that are served.
    pub open spec fn hosts(self) -> Seq<HostConfig> {
        match self {
            HostedProxy::Http(p) => p.hosts@,
            HostedProxy::Tcp(p) => p.hosts@,
            HostedProxy::Udp(p) => p.hosts@,
        }
    }

    /// Whether this is a proxy as it was before, apart from its hosts.
    pub open spec fn keeps(self, before: HostedProxy) -> bool {
        match (self, before) {
            (HostedProxy::Http(_), HostedProxy::Http(_)) => true,
            (HostedProxy::Tcp(a), HostedProxy::Tcp(b)) => a == (TcpProxy { hosts: a.hosts, ..b }),
            (HostedProxy::Udp(a), HostedProxy::Udp(b)) => a == (UdpProxy { hosts: a.hosts, ..b }),
            _ => false,
        }
    }

    /// What is wrong with settings for this proxy.
    pub open spec fn settings_fault(self, settings: InstanceSettings) -> Option<Seq<char>> {
        match self {
            HostedProxy::Tcp(_) => crate::proxies::tcp::settings_fault(settings),
            _ => None,
        }
    }

    /// The name of the type.
    pub fn proxy_type(&self) -> (result: String)
        ensures
            result@ == self.type_text(),
    {
        match self {
            HostedProxy::Http(_) => "http".to_string(),
            HostedProxy::Tcp(_) => "tcp".to_string(),
            HostedProxy::Udp(_) => "udp".to_string(),
        }
    }

    /// The hosts that are served.
    pub fn get_hosts(&self) -> (result: &Vec<HostConfig>)
        ensures
            result@ == self.hosts(),
    {
        match self {
            HostedProxy::Http(p) => &p.hosts,
            HostedProxy::Tcp(p) => &p.hosts,
            HostedProxy::Udp(p) => &p.hosts,
        }
    }

    fn hosts_mut(&mut self) -> (result: &mut Vec<HostConfig>)
        ensures
            result@ == old(self).hosts(),
            final(self).hosts() == final(result)@,
            final(self).keeps(*old(self)),
    {
        match self {
            HostedProxy::Http(p) => &mut p.hosts,
            HostedProxy::Tcp(p) => &mut p.hosts,
            HostedProxy::Udp(p) => &mut p.hosts,
        }
    }

    /// Check the settings of an instance.
    pub fn validate_config(&self, settings: &InstanceSettings) -> (result: std::result::Result<
        (),
        String,
    >)
        ensures
            match self.settings_fault(*settings) {
                Some(m) => says(result, m),
                None => result is Ok,
            },
    {
        match self {
            HostedProxy::Tcp(p) => p.validate_config(settings),
            _ => Ok(()),
        }
    }

    /// The hosts of an instance take the place of those that were served.
    pub fn start(&mut self, instance: &ProxyInstance)
        ensures
            final(self).hosts() == instance.hosts@,
            final(self).keeps(*old(self)),
    {
        let hosts = copy_hosts(&instance.hosts);
        let slot = self.hosts_mut();
        *slot = hosts;
    }

    /// Add a host.
    pub fn add_host(&mut self, host: HostConfig) -> (result: std::result::Result<(), String>)
        ensures
            final(self).keeps(*old(self)),
            if has_host(old(self).hosts(), host.name@) {
                final(self).hosts() == old(self).hosts() && says(
                    result,
                    "Host '"@ + host.name@ + "' already exists"@,
                )
            } else {
                final(self).hosts() == old(self).hosts().push(host) && result is Ok
            },
    {
        let hosts = self.hosts_mut();
        add_to(hosts, host)
    }

    /// Remove a host.
    pub fn remove_host(&mut self, name: &str) -> (result: std::result::Result<(), String>)
        ensures
            final(self).keeps(*old(self)),
            if has_host(old(self).hosts(), name@) {
                final(self).hosts() == old(self).hosts().remove(host_at(old(self).hosts(), name@))
                    && result is Ok
            } else {
                final(self).hosts() == old(self).hosts() && says(
                    result,
                    "Host '"@ + name@ + "' not found"@,
                )
            },
    {
        let hosts = self.hosts_mut();
        remove_from(hosts, name)
    }

    /// Change a host.
    pub fn update_host(&mut self, host: HostConfig) -> (result: std::result::Result<(), String>)
        ensures
            final(self).keeps(*old(self)),
            if has_host(old(self).hosts(), host.name@) {
                final(self).hosts() == old(self).hosts().update(
                    host_at(old(self).hosts(), host.name@),
                    host,
                ) && result is Ok
            } else {
                final(self).hosts() == old(self).hosts() && says(
                    result,
                    "Host '"@ + host.name@ + "' not found"@,
                )
            },
    {
        let hosts = self.hosts_mut();
        update_in(hosts, host)
    }

    /// A proxy that runs is well.
    pub fn health_check(&self) -> (result: bool)
        ensures
            result,
    {
        true
    }
}

/// The message for a type that no proxy has.
pub open spec fn unknown_type(proxy_type: Seq<char>) -> Seq<char> {
    "Unknown proxy type: "@ + proxy_type
}

/// The message for an instance that is not there.
pub open spec fn no_instance(name: Seq<char>) -> Seq<char> {
    "Instance not found: "@ + name
}

/// What keeps an instance from being found, among these proxies and instances.
pub open spec fn lookup_fault_in(
    proxies: Map<Seq<char>, HostedProxy>,
    instances: Map<Seq<char>, ProxyInstance>,
    name: Seq<char>,
) -> Option<Seq<char>> {
    if !instances.contains_key(name) {
        Some(no_instance(name))
    } else if !proxies.contains_key(instances[name].proxy_type@) {
        Some(unknown_type(instances[name].proxy_type@))
    } else {
        None
    }
}

impl ProxyManager {
    /// No type and no instance is there twice.
    pub open spec fn wf(self) -> bool {
        &&& self.proxies.wf()
        &&& self.instances.wf()
    }

    /// What keeps an instance from being created, apart from its address.
    pub open spec fn create_fault(self, instance: ProxyInstance) -> Option<Seq<char>> {
        if !self.proxies@.contains_key(instance.proxy_type@) {
            Some(unknown_type(instance.proxy_type@))
        } else {
            self.proxies@[instance.proxy_type@].settings_fault(instance.config)
        }
    }

    /// What keeps the hosts of an instance from being changed.
    pub open spec fn lookup_fault(self, instance_name: Seq<char>) -> Option<Seq<char>> {
        lookup_fault_in(self.proxies@, self.instances@, instance_name)
    }

    /// The hosts that the proxy of an instance serves.
    pub open spec fn served(self, instance_name: Seq<char>) -> Seq<HostConfig> {
        self.proxies@[self.instances@[instance_name].proxy_type@].hosts()
    }

    /// Whether nothing but the hosts of an instance changed: the proxy of the instance serves some
    /// and the instance lists some.
    pub open spec fn rehosted(
        self,
        before: ProxyManager,
        name: Seq<char>,
        served: Seq<HostConfig>,
        listed: Seq<HostConfig>,
    ) -> bool {
        let kind = before.instances@[name].proxy_type@;
        let proxy = self.proxies@[kind];
        let instance = self.instances@[name];
        &&& self.proxies@ == before.proxies@.insert(kind, proxy)
        &&& proxy.keeps(before.proxies@[kind])
        &&& proxy.hosts() == served
        &&& self.instances@ == before.instances@.insert(name, instance)
        &&& instance == (ProxyInstance { hosts: instance.hosts, ..before.instances@[name] })
        &&& instance.hosts@ == listed
    }

    pub fn new() -> (result: Self)
        ensures
            result.wf(),
            result.proxies@ == Map::<Seq<char>, HostedProxy>::empty(),
            result.instances@ == Map::<Seq<char>, ProxyInstance>::empty(),
    {
        ProxyManager { proxies: NameMap::new(), instances: NameMap::new() }
    }

    /// Makes a proxy available under its type.
    pub fn register_proxy_type(&mut self, proxy: HostedProxy)
        requires
            old(self).wf(),
        ensures
            final(self).wf(),
            final(self).proxies@ == old(self).proxies@.insert(proxy.type_text(), proxy),
            final(self).instances == old(self).instances,
    {
        let name = proxy.proxy_type();
        let _ = self.proxies.insert(name, proxy);
    }

    /// Whether an instance can be created, apart from its address.
    pub fn check_instance(&self, instance: &ProxyInstance) -> (result: std::result::Result<
        (),
        String,
    >)
        requires
            self.wf(),
        ensures
            match self.create_fault(*instance) {
                Some(m) => says(result, m),
                None => result is Ok,
            },
    {
        match self.proxies.get(instance.proxy_type.as_str()) {
            Some(proxy) => proxy.validate_config(&instance.config),
            None => Err(text::cat2("Unknown proxy type: ", instance.proxy_type.as_str())),
        }
    }

    /// Creates an instance, given whether its address could be listened on.
    pub fn create_instance(
        &mut self,
        instance: ProxyInstance,
        listening: std::result::Result<(), String>,
    ) -> (result: std::result::Result<(), String>)
        requires
            old(self).wf(),
        ensures
            final(self).wf(),
            match old(self).create_fault(instance) {
                Some(m) => *final(self) == *old(self) && says(result, m),
                None => match listening {
                    Err(e) => *final(self) == *old(self) && says(result, e@),
                    Ok(()) => {
                        let kind = instance.proxy_type@;
                        let proxy = final(self).proxies@[kind];
                        &&& result is Ok
                        &&& final(self).instances@ == old(self).instances@.insert(
                            instance.name@,
                            instance,
                        )
                        &&& final(self).proxies@ == old(self).proxies@.insert(kind, proxy)
                        &&& proxy.hosts() == instance.hosts@
                        &&& proxy.keeps(old(self).proxies@[kind])
                    },
                },
            },
    {
        match self.check_instance(&instance) {
            Ok(()) => {},
            Err(e) => {
                return Err(e);
            },
        }
        match listening {
            Ok(()) => {},
            Err(e) => {
                return Err(e);
            },
        }
        if let Some(proxy) = self.proxies.get_mut(instance.proxy_type.as_str()) {
            proxy.start(&instance);
        }
        let _ = self.instances.insert(instance.name.clone(), instance);
        Ok(())
    }

    /// Removes an instance.
    pub fn remove_instance(&mut self, instance_name: &str) -> (result: std::result::Result<
        (),
        String,
    >)
        requires
            old(self).wf(),
        ensures
            final(self).wf(),
            final(self).proxies == old(self).proxies,
            final(self).instances@ == old(self).instances@.remove(instance_name@),
            match old(self).lookup_fault(instance_name@) {
                Some(m) => says(result, m),
                None => result is Ok,
            },
    {
        match self.instances.remove(instance_name) {
            Some(instance) => {
                if self.proxies.contains_key(instance.proxy_type.as_str()) {
                    Ok(())
                } else {
                    Err(text::cat2("Unknown proxy type: ", instance.proxy_type.as_str()))
                }
            },
            None => Err(text::cat2("Instance not found: ", instance_name)),
        }
    }

    fn proxy_type_of(&self, instance_name: &str) -> (result: std::result::Result<String, String>)
        requires
            self.wf(),
        ensures
            match self.lookup_fault(instance_name@) {
                Some(m) => says(result, m),
                None => result matches Ok(t) && t@ == self.instances@[instance_name@].proxy_type@,
            },
    {
        match self.instances.get(instance_name) {
            Some(instance) => {
                if self.proxies.contains_key(instance.proxy_type.as_str()) {
                    Ok(instance.proxy_type.clone())
                } else {
                    Err(text::cat2("Unknown proxy type: ", instance.proxy_type.as_str()))
                }
            },
            None => Err(text::cat2("Instance not found: ", instance_name)),
        }
    }

    /// Adds a host to an instance and to the proxy that serves it.
    pub fn add_host_to_instance(&mut self, instance_name: &str, host: HostConfig) -> (result:
        std::result::Result<(), String>)
        requires
            old(self).wf(),
        ensures
            final(self).wf(),
            ({
                let name = instance_name@;
                match old(self).lookup_fault(name) {
                    Some(m) => *final(self) == *old(self) && says(result, m),
                    None => if has_host(old(self).served(name), host.name@) {
                        &&& says(result, "Host '"@ + host.name@ + "' already exists"@)
                        &&& final(self).rehosted(
                            *old(self),
                            name,
                            old(self).served(name),
                            old(self).instances@[name].hosts@,
                        )
                    } else {
                        &&& result is Ok
                        &&& final(self).rehosted(
                            *old(self),
                            name,
                            old(self).served(name).push(host),
                            old(self).instances@[name].hosts@.push(host),
                        )
                    },
                }
            }),
    {
        let kind = match self.proxy_type_of(instance_name) {
            Ok(k) => k,
            Err(e) => {
                return Err(e);
            },
        };
        let copy = host.copy();
        if let Some(proxy) = self.proxies.get_mut(kind.as_str()) {
            match proxy.add_host(copy) {
                Ok(()) => {},
                Err(e) => {
                    assert(self.instances@.insert(
                        instance_name@,
                        self.instances@[instance_name@],
                    ) =~= self.instances@);
                    return Err(e);
                },
            }
        }
        if let Some(instance) = self.instances.get_mut(instance_name) {
            instance.hosts.push(host);
        }
        Ok(())
    }

    /// Removes a host from an instance and from the proxy that serves it.
    pub fn remove_host_from_instance(&mut self, instance_name: &str, host_name: &str) -> (result:
        std::result::Result<(), String>)
        requires
            old(self).wf(),
        ensures
            final(self).wf(),
            ({
                let name = instance_name@;
                match old(self).lookup_fault(name) {
                    Some(m) => *final(self) == *old(self) && says(result, m),
                    None => if has_host(old(self).served(name), host_name@) {
                        &&& result is Ok
                        &&& final(self).rehosted(
                            *old(self),
                            name,
                            old(self).served(name).remove(
                                host_at(old(self).served(name), host_name@),
                            ),
                            without_host(old(self).instances@[name].hosts@, host_name@),
                        )
                    } else {
                        &&& says(result, "Host '"@ + host_name@ + "' not found"@)
                        &&& final(self).rehosted(
                            *old(self),
                            name,
                            old(self).served(name),
                            old(self).instances@[name].hosts@,
                        )
                    },
                }
            }),
    {
        let kind = match self.proxy_type_of(instance_name) {
            Ok(k) => k,
            Err(e) => {
                return Err(e);
            },
        };
        if let Some(proxy) = self.proxies.get_mut(kind.as_str()) {
            match proxy.remove_host(host_name) {
                Ok(()) => {},
                Err(e) => {
                    assert(self.instances@.insert(
                        instance_name@,
                        self.instances@[instance_name@],
                    ) =~= self.instances@);
                    return Err(e);
                },
            }
        }
        if let Some(instance) = self.instances.get_mut(instance_name) {
            drop_named(&mut instance.hosts, host_name);
        }
        Ok(())
    }

    /// All instances with their names.
    pub fn list_instances(&self) -> (result: &Vec<(String, ProxyInstance)>)
        ensures
            result@ == self.instances.entries@,
    {
        &self.instances.entries
    }

    /// The instance of this name.
    pub fn get_instance(&self, instance_name: &str) -> (result: Option<&ProxyInstance>)
        requires
            self.wf(),
        ensures
            match result {
                Some(i) => self.instances@.contains_key(instance_name@) && *i
                    == self.instances@[instance_name@],
                None => !self.instances@.contains_key(instance_name@),
            },
    {
        self.instances.get(instance_name)
    }
}

impl Default for ProxyManager {
    fn default() -> (result: Self)
        ensures
            result.wf(),
            result.proxies@ == Map::<Seq<char>, HostedProxy>::empty(),
            result.instances@ == Map::<Seq<char>, ProxyInstance>::empty(),
    {
        ProxyManager::new()
    }
}

/// A host has the priority that it is given, and zero where it is given none.
pub proof fn law_hosts_rank_by_priority(host: HostConfig, p: i32)
    ensures
        host.priority == Some(p) ==> host.rank() == p,
        host.priority is None ==> host.rank() == 0,
{
}

/// A host is found by its name at the first place that has it.
pub proof fn law_hosts_are_found_by_name(hosts: Seq<HostConfig>, name: Seq<char>, k: int)
    requires
        0 <= k < hosts.len(),
        hosts[k].name@ == name,
        forall|j: int| 0 <= j < k ==> (#[trigger] hosts[j]).name@ != name,
    ensures
        has_host(hosts, name),
        host_at(hosts, name) == k,
{
    lemma_host_at(hosts, name, k);
}

/// There is a host of a name exactly where one of the hosts has it.
pub proof fn law_hosts_are_there_by_name(hosts: Seq<HostConfig>, name: Seq<char>)
    ensures
        has_host(hosts, name) <==> exists|k: int|
            0 <= k < hosts.len() && (#[trigger] hosts[k]).name@ == name,
    decreases hosts.len(),
{
    if !has_host(hosts, name) {
        lemma_absent(hosts, name);
    } else if hosts.len() > 0 {
        if hosts[0].name@ != name {
            let rest = hosts.drop_first();
            law_hosts_are_there_by_name(rest, name);
            let k = choose|k: int| 0 <= k < rest.len() && (#[trigger] rest[k]).name@ == name;
            assert(hosts[k + 1].name@ == name);
        }
    }
}

/// Dropping the hosts of a name leaves exactly the others, in order.
pub proof fn law_dropping_leaves_the_others(hosts: Seq<HostConfig>, name: Seq<char>)
    ensures
        without_host(hosts, name) == hosts.filter(|h: HostConfig| h.name@ != name),
    decreases hosts.len(),
{
    reveal(Seq::filter);
    if hosts.len() > 0 {
        law_dropping_leaves_the_others(hosts.drop_last(), name);
    }
}

/// The host and port of a URL are what stands between its scheme and its path, whatever the path is.
pub proof fn law_host_port_of_a_url(scheme: Seq<char>, authority: Seq<char>, path: Seq<char>)
    requires
        !scheme.contains(':'),
        !authority.contains('/'),
        authority.len() > 0 ==> authority.last() != ':',
    ensures
        host_port(scheme + "://"@ + authority + "/"@ + path) == authority,
        host_port(scheme + "://"@ + authority) == authority,
{
    reveal_strlit("://");
    reveal_strlit("/");
    lemma_host_port(scheme, authority, "/"@ + path);
    lemma_host_port(scheme, authority, Seq::empty());
    assert(scheme + "://"@ + authority + "/"@ + path =~= scheme + "://"@ + (authority + ("/"@
        + path)));
    assert(scheme + "://"@ + authority =~= scheme + "://"@ + (authority + Seq::<char>::empty()));
}

proof fn lemma_host_port(scheme: Seq<char>, authority: Seq<char>, rest: Seq<char>)
    requires
        !scheme.contains(':'),
        !authority.contains('/'),
        authority.len() > 0 ==> authority.last() != ':',
        rest.len() > 0 ==> rest[0] == '/',
    ensures
        host_port(scheme + "://"@ + (authority + rest)) == authority,
{
    reveal_strlit("://");
    let pat = "://"@;
    let behind = authority + rest;
    let url = scheme + pat + behind;
    let n = scheme.len() as int;
    assert(url.subrange(n, n + 3) =~= pat);
    assert(text::occurs_at(url, pat, n));
    text::lemma_find_from(url, pat, 0);
    assert forall|j: int| 0 <= j < n implies !text::occurs_at(url, pat, j) by {
        if text::occurs_at(url, pat, j) {
            assert(url.subrange(j, j + 3)[0] == pat[0]);
            assert(scheme[j] == ':');
        }
    }
    assert(text::find_from(url, pat, 0) == Some(n));
    assert(url.skip(n + 3) =~= behind);
    text::lemma_find_from(behind, pat, 0);
    let cut = match text::find_from(behind, pat, 0) {
        Some(q) => {
            assert(behind.subrange(q, q + 3)[0] == ':');
            assert(behind.subrange(q, q + 3)[1] == '/');
            assert(behind[q] == ':' && behind[q + 1] == '/');
            assert(q + 1 >= authority.len()) by {
                if q + 1 < authority.len() {
                    assert(authority[q + 1] == '/');
                }
            }
            assert(q >= authority.len());
            behind.take(q)
        },
        None => behind,
    };
    let k = authority.len() as int;
    assert(cut.take(k) =~= authority);
    assert forall|j: int| 0 <= j < k implies cut[j] != '/' by {
        assert(cut[j] == authority[j]);
    }
    assert(k < cut.len() ==> cut[k] == '/');
    text::lemma_position(cut, '/', k);
}

/// An address without a scheme is taken up to its first slash.
pub proof fn law_host_port_of_an_address(authority: Seq<char>, path: Seq<char>)
    requires
        !authority.contains('/'),
        !path.contains(':'),
        authority.len() > 0 ==> authority.last() != ':',
    ensures
        host_port(authority) == authority,
        host_port(authority + "/"@ + path) == authority,
{
    reveal_strlit("/");
    lemma_plain_address(authority, Seq::empty());
    assert(!("/"@ + path).contains(':')) by {
        assert forall|j: int| 0 <= j < ("/"@ + path).len() implies ("/"@ + path)[j] != ':' by {
            if j > 0 {
                assert(("/"@ + path)[j] == path[j - 1]);
            }
        }
    }
    lemma_plain_address(authority, "/"@ + path);
    assert(authority + Seq::<char>::empty() =~= authority);
    assert(authority + "/"@ + path =~= authority + ("/"@ + path));
}

proof fn lemma_plain_address(authority: Seq<char>, rest: Seq<char>)
    requires
        !authority.contains('/'),
        !rest.contains(':'),
        authority.len() > 0 ==> authority.last() != ':',
        rest.len() > 0 ==> rest[0] == '/',
    ensures
        host_port(authority + rest) == authority,
{
    reveal_strlit("://");
    let pat = "://"@;
    let url = authority + rest;
    let k = authority.len() as int;
    text::lemma_find_from(url, pat, 0);
    if let Some(q) = text::find_from(url, pat, 0) {
        assert(url.subrange(q, q + 3)[0] == ':');
        assert(url.subrange(q, q + 3)[1] == '/');
        if q < k - 1 {
            assert(authority[q + 1] == '/');
        } else if q >= k {
            assert(rest[q - k] == ':');
        } else {
            assert(authority.last() == ':');
        }
        assert(false);
    }
    assert(url.take(k) =~= authority);
    assert forall|j: int| 0 <= j < k implies url[j] != '/' by {
        assert(url[j] == authority[j]);
    }
    text::lemma_position(url, '/', k);
}

/// An instance is found exactly where it is there and a proxy of its type is registered.
pub proof fn law_instances_are_found(
    manager: ProxyManager,
    name: Seq<char>,
    instance: ProxyInstance,
)
    ensures
        manager.lookup_fault(name) is None <==> manager.instances@.contains_key(name)
            && manager.proxies@.contains_key(manager.instances@[name].proxy_type@),
        manager.create_fault(instance) is None ==> manager.proxies@.contains_key(
            instance.proxy_type@,
        ),
        manager.proxies@.contains_key(instance.proxy_type@) ==> (manager.create_fault(
            instance,
        ) is None <==> manager.proxies@[instance.proxy_type@].settings_fault(
            instance.config,
        ) is None),
{
}

/// Only TCP proxies look at settings, and what they refuse is too long an idle time.
pub proof fn law_only_tcp_refuses_settings(proxy: HostedProxy, settings: InstanceSettings)
    ensures
        proxy.settings_fault(settings) is Some <==> proxy is Tcp && (
        settings.max_idle_time_secs matches Some(secs) && secs > 60 * 60),
{
}

/// The host that is chosen has the highest priority, and of those with that priority it comes first.
pub proof fn law_highest_priority_comes_first(hosts: Seq<HostConfig>, i: int, j: int)
    requires
        is_first_ranked(hosts, i),
        0 <= j < hosts.len(),
    ensures
        hosts[j].rank() <= hosts[i].rank(),
        hosts[j].rank() == hosts[i].rank() ==> i <= j,
        is_first_ranked(hosts, j) ==> i == j,
{
    assert(hosts[j].rank() <= hosts[i].rank());
}

} // verus!
