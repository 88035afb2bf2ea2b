//! The router over proxy instances with named hosts.
use vstd::prelude::*;

use crate::new_config::NewProxyConfig;
use crate::proxies::{
    copy_hosts, has_host, host_at, lookup_fault_in, says, without_host, HostConfig, HostedProxy,
    InstanceSettings, ProxyInstance, ProxyManager,
};
use crate::proxies::http::HttpProxy;
use crate::proxies::tcp::TcpProxy;
use crate::proxies::udp::UdpProxy;
use crate::text;

verus! {

broadcast use vstd::string::group_string_axioms;

/// The router: its configuration, and the manager of the proxies.
pub struct ModernRouter {
    pub config: NewProxyConfig,
    pub proxy_manager: ProxyManager,
}

/// Whether an instance is a copy of another.
pub open spec fn is_copy(a: ProxyInstance, b: ProxyInstance) -> bool {
    &&& a.name == b.name
    &&& a.proxy_type == b.proxy_type
    &&& a.listen_addr == b.listen_addr
    &&& a.config == b.config
    &&& a.hosts@ == b.hosts@
}

fn copy_instance(instance: &ProxyInstance) -> (result: ProxyInstance)
    ensures
        is_copy(result, *instance),
{
    ProxyInstance {
        name: instance.name.clone(),
        proxy_type: instance.proxy_type.clone(),
        listen_addr: instance.listen_addr.clone(),
        config: InstanceSettings {
            max_idle_time_secs: instance.config.max_idle_time_secs,
            text: instance.config.text.clone(),
        },
        hosts: copy_hosts(&instance.hosts),
    }
}

/// The instances that are left when the first `n` of the configured ones are removed.
pub open spec fn after_removal(
    instances: Map<Seq<char>, ProxyInstance>,
    configured: Seq<ProxyInstance>,
    n: int,
) -> Map<Seq<char>, ProxyInstance>
    decreases n,
{
    if n <= 0 {
        instances
    } else {
        after_removal(instances, configured, n - 1).remove(configured[n - 1].name@)
    }
}

impl ModernRouter {
    pub fn new(config: NewProxyConfig) -> (result: Self)
        ensures
            result.config == config,
            result.proxy_manager.wf(),
            result.proxy_manager.proxies@ == Map::<Seq<char>, HostedProxy>::empty(),
            result.proxy_manager.instances@ == Map::<Seq<char>, ProxyInstance>::empty(),
    {
        ModernRouter { config, proxy_manager: ProxyManager::new() }
    }

    /// The router for a configuration that was read, where it is accepted.
    pub fn from_parsed(config: NewProxyConfig) -> (result: std::result::Result<Self, String>)
        ensures
            match config.fault() {
                Some(m) => says(result, m),
                None => result matches Ok(r) && r.config == config && r.proxy_manager.wf()
                    && r.proxy_manager.proxies@ == Map::<Seq<char>, HostedProxy>::empty()
                    && r.proxy_manager.instances@ == Map::<Seq<char>, ProxyInstance>::empty(),
            },
    {
        match config.validate() {
            Ok(()) => Ok(ModernRouter::new(config)),
            Err(m) => Err(m),
        }
    }

    /// Makes the proxies for HTTP, TCP and UDP available.
    pub fn register_proxy_types(&mut self)
        requires
            old(self).proxy_manager.wf(),
        ensures
            final(self).proxy_manager.wf(),
            final(self).config == old(self).config,
            final(self).proxy_manager.instances == old(self).proxy_manager.instances,
            ({
                let proxies = final(self).proxy_manager.proxies@;
                &&& proxies == old(self).proxy_manager.proxies@.insert(
                    "http"@,
                    proxies["http"@],
                ).insert("tcp"@, proxies["tcp"@]).insert("udp"@, proxies["udp"@])
                &&& proxies["http"@] is Http && proxies["http"@].hosts().len() == 0
                &&& proxies["tcp"@] is Tcp && proxies["tcp"@].hosts().len() == 0
                &&& proxies["udp"@] is Udp && proxies["udp"@].hosts().len() == 0
            }),
    {
        proof {
            reveal_strlit("http");
            reveal_strlit("tcp");
            reveal_strlit("udp");
            assert("http"@.len() == 4);
            assert("tcp"@.len() == 3);
            assert("tcp"@[0] == 't');
            assert("udp"@[0] == 'u');
        }
        self.proxy_manager.register_proxy_type(HostedProxy::Http(HttpProxy::new()));
        self.proxy_manager.register_proxy_type(HostedProxy::Tcp(TcpProxy::new()));
        self.proxy_manager.register_proxy_type(HostedProxy::Udp(UdpProxy::new()));
    }

    /// Whether the configured instance at this place can be created, apart from its address.
    pub fn check_configured(&self, index: usize) -> (result: std::result::Result<(), String>)
        requires
            self.proxy_manager.wf(),
            index < self.config.proxy_instances@.len(),
        ensures
            match self.proxy_manager.create_fault(self.config.proxy_instances@[index as int]) {
                Some(m) => says(result, m),
                None => result is Ok,
            },
    {
        self.proxy_manager.check_instance(&self.config.proxy_instances[index])
    }

    /// Creates the configured instance at this place, given whether its address could be listened
    /// on.
    pub fn create_configured(
        &mut self,
        index: usize,
        listening: std::result::Result<(), String>,
    ) -> (result: std::result::Result<(), String>)
        requires
            old(self).proxy_manager.wf(),
            index < old(self).config.proxy_instances@.len(),
        ensures
            final(self).proxy_manager.wf(),
            final(self).config == old(self).config,
            ({
                let instance = old(self).config.proxy_instances@[index as int];
                let name = instance.name@;
                let kind = instance.proxy_type@;
                let before = old(self).proxy_manager;
                let after = final(self).proxy_manager;
                match before.create_fault(instance) {
                    Some(m) => after == before && says(result, m),
                    None => match listening {
                        Err(e) => after == before && says(result, e@),
                        Ok(()) => {
                            &&& result is Ok
                            &&& after.instances@ == before.instances@.insert(
                                name,
                                after.instances@[name],
                            )
                            &&& is_copy(after.instances@[name], instance)
                            &&& after.proxies@ == before.proxies@.insert(kind, after.proxies@[kind])
                            &&& after.proxies@[kind].keeps(before.proxies@[kind])
                            &&& after.proxies@[kind].hosts() == instance.hosts@
                        },
                    },
                }
            }),
    {
        let copy = copy_instance(&self.config.proxy_instances[index]);
        let ghost kept = copy;
        let result = self.proxy_manager.create_instance(copy, listening);
        proof {
            if result is Ok {
                assert(self.proxy_manager.instances@[kept.name@] == kept);
            }
        }
        result
    }

    /// The path segment under which health is served.
    pub fn health_segment(&self) -> (result: String)
        ensures
            result@ == text::trim_start(self.config.global.health_check.path@, '/'),
    {
        text::trim_start_char(self.config.global.health_check.path.as_str(), '/')
    }

    /// The path segment under which metrics are served.
    pub fn metrics_segment(&self) -> (result: String)
        ensures
            result@ == text::trim_start(self.config.global.metrics.path@, '/'),
    {
        text::trim_start_char(self.config.global.metrics.path.as_str(), '/')
    }

    /// Adds a host to an instance.
    pub fn add_host_to_instance(&mut self, instance_name: &str, host: HostConfig) -> (result:
        std::result::Result<(), String>)
        requires
            old(self).proxy_manager.wf(),
        ensures
            final(self).proxy_manager.wf(),
            final(self).config == old(self).config,
            ({
                let name = instance_name@;
                let before = old(self).proxy_manager;
                let after = final(self).proxy_manager;
                match before.lookup_fault(name) {
                    Some(m) => after == before && says(result, m),
                    None => if has_host(before.served(name), host.name@) {
                        &&& says(result, "Host '"@ + host.name@ + "' already exists"@)
                        &&& after.rehosted(
                            before,
                            name,
                            before.served(name),
                            before.instances@[name].hosts@,
                        )
                    } else {
                        &&& result is Ok
                        &&& after.rehosted(
                            before,
                            name,
                            before.served(name).push(host),
                            before.instances@[name].hosts@.push(host),
                        )
                    },
                }
            }),
    {
        self.proxy_manager.add_host_to_instance(instance_name, host)
    }

    /// Removes a host from an instance.
    pub fn remove_host_from_instance(&mut self, instance_name: &str, host_name: &str) -> (result:
        std::result::Result<(), String>)
        requires
            old(self).proxy_manager.wf(),
        ensures
            final(self).proxy_manager.wf(),
            final(self).config == old(self).config,
            ({
                let name = instance_name@;
                let before = old(self).proxy_manager;
                let after = final(self).proxy_manager;
                match before.lookup_fault(name) {
                    Some(m) => after == before && says(result, m),
                    None => if has_host(before.served(name), host_name@) {
                        &&& result is Ok
                        &&& after.rehosted(
                            before,
                            name,
                            before.served(name).remove(
                                host_at(before.served(name), host_name@),
                            ),
                            without_host(before.instances@[name].hosts@, host_name@),
                        )
                    } else {
                        &&& says(result, "Host '"@ + host_name@ + "' not found"@)
                        &&& after.rehosted(
                            before,
                            name,
                            before.served(name),
                            before.instances@[name].hosts@,
                        )
                    },
                }
            }),
    {
        self.proxy_manager.remove_host_from_instance(instance_name, host_name)
    }

    /// All instances with their names.
    pub fn list_instances(&self) -> (result: &Vec<(String, ProxyInstance)>)
        ensures
            result@ == self.proxy_manager.instances.entries@,
    {
        self.proxy_manager.list_instances()
    }

    /// The instance of this name.
    pub fn get_instance(&self, instance_name: &str) -> (result: Option<&ProxyInstance>)
        requires
            self.proxy_manager.wf(),
        ensures
            match result {
                Some(i) => self.proxy_manager.instances@.contains_key(instance_name@) && *i
                    == self.proxy_manager.instances@[instance_name@],
                None => !self.proxy_manager.instances@.contains_key(instance_name@),
            },
    {
        self.proxy_manager.get_instance(instance_name)
    }

    /// Removes all configured instances, and tells for each whether that went well.
    pub fn shutdown(&mut self) -> (result: Vec<std::result::Result<(), String>>)
        requires
            old(self).proxy_manager.wf(),
        ensures
            final(self).proxy_manager.wf(),
            final(self).config == old(self).config,
            final(self).proxy_manager.proxies == old(self).proxy_manager.proxies,
            final(self).proxy_manager.instances@ == after_removal(
                old(self).proxy_manager.instances@,
                old(self).config.proxy_instances@,
                old(self).config.proxy_instances@.len() as int,
            ),
            result@.len() == old(self).config.proxy_instances@.len(),
            forall|i: int|
                0 <= i < result@.len() ==> match lookup_fault_in(
                    old(self).proxy_manager.proxies@,
                    after_removal(
                        old(self).proxy_manager.instances@,
                        old(self).config.proxy_instances@,
                        i,
                    ),
                    old(self).config.proxy_instances@[i].name@,
                ) {
                    Some(m) => says(#[trigger] result@[i], m),
                    None => result@[i] is Ok,
                },
    {
        let mut outcomes: Vec<std::result::Result<(), String>> = Vec::new();
        let mut i: usize = 0;
        let ghost configured = self.config.proxy_instances@;
        let ghost before = self.proxy_manager;
        while i < self.config.proxy_instances.len()
            invariant
                i <= configured.len(),
                configured == self.config.proxy_instances@,
                before == old(self).proxy_manager,
                self.config == old(self).config,
                self.proxy_manager.wf(),
                self.proxy_manager.proxies == before.proxies,
                self.proxy_manager.instances@ == after_removal(
                    before.instances@,
                    configured,
                    i as int,
                ),
                outcomes@.len() == i,
                forall|k: int|
                    0 <= k < i ==> match lookup_fault_in(
                        before.proxies@,
                        after_removal(before.instances@, configured, k),
                        configured[k].name@,
                    ) {
                        Some(m) => says(#[trigger] outcomes@[k], m),
                        None => outcomes@[k] is Ok,
                    },
            decreases configured.len() - i,
        {
            let outcome = self.proxy_manager.remove_instance(
                self.config.proxy_instances[i].name.as_str(),
            );
            outcomes.push(outcome);
            i += 1;
        }
        outcomes
    }
}

/// After a shutdown, none of the configured instances is left.
pub proof fn law_shutdown_removes_all(
    instances: Map<Seq<char>, ProxyInstance>,
    configured: Seq<ProxyInstance>,
    n: int,
    k: int,
)
    requires
        0 <= k < n <= configured.len(),
    ensures
        !after_removal(instances, configured, n).contains_key(configured[k].name@),
    decreases n,
{
    if k < n - 1 {
        law_shutdown_removes_all(instances, configured, n - 1, k);
    }
}

/// Instances that are not among those removed stay as they are.
pub proof fn law_shutdown_leaves_others(
    instances: Map<Seq<char>, ProxyInstance>,
    configured: Seq<ProxyInstance>,
    n: int,
    name: Seq<char>,
)
    requires
        0 <= n <= configured.len(),
        forall|j: int| 0 <= j < n ==> (#[trigger] configured[j]).name@ != name,
    ensures
        after_removal(instances, configured, n).contains_key(name) <==> instances.contains_key(name),
        after_removal(instances, configured, n)[name] == instances[name],
    decreases n,
{
    if n > 0 {
        assert(configured[n - 1].name@ != name);
        law_shutdown_leaves_others(instances, configured, n - 1, name);
    }
}

} // verus!
