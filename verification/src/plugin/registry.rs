//! The registry of plugins: which are there, and which domains and ports belong to them.
use vstd::prelude::*;

use crate::error::opt_text;
use crate::name_map::NameMap;
use crate::plugin::domains::{
    add_domains, find_for_domain, law_domains_round_trip, lemma_lists_after, lemma_without_absent,
    lemma_without_contains, list_of, lists_of, none_empty, remove_from_domains, serves, sorted,
    with_domains, without, without_domains, without_name, DomainLists,
};
use crate::plugin::ports::{
    first_taken, law_ports_are_kept, law_ports_round_trip, lemma_first_taken, lemma_owners_after,
    with_ports, without_ports, PortMap,
};
use crate::plugin::{
    is_health_event, is_metrics_event, same_config, PluginConfig, PluginContext, PluginHealth,
    PluginMetrics, PluginWrapper, RouterEvent,
};
use crate::proxies::says;
use crate::text;
use crate::time::SystemTime;

verus! {

broadcast use vstd::string::group_string_axioms;

// ---------------------------------------------------------------------------------------------
// The map of plugins
// ---------------------------------------------------------------------------------------------

/// The map from names to plugins.
pub type PluginMap = dashmap::DashMap<
    String,
    PluginWrapper,
    std::collections::hash_map::RandomState,
>;

/// What a `dashmap` map from names to plugins holds.
pub uninterp spec fn plugin_contents(
    m: dashmap::DashMap<String, PluginWrapper, std::collections::hash_map::RandomState>,
) -> Map<Seq<char>, PluginWrapper>;

/// `DashMap::new` makes a map without entries.
#[verifier::external_body]
fn plugins_new() -> (result: PluginMap)
    ensures
        plugin_contents(result).dom() == Set::<Seq<char>>::empty(),
{
    dashmap::DashMap::new()
}

/// `DashMap::contains_key` tells whether the name is there.
#[verifier::external_body]
fn plugins_contain(m: &PluginMap, name: &str) -> (result: bool)
    ensures
        result == plugin_contents(*m).contains_key(name@),
{
    m.contains_key(name)
}

/// `DashMap::get` looks a name up; the number of its plugin is copied out of the map.
#[verifier::external_body]
fn plugins_number(m: &PluginMap, name: &str) -> (result: Option<u64>)
    ensures
        result == (if plugin_contents(*m).contains_key(name@) {
            Some(plugin_contents(*m)[name@].plugin)
        } else {
            None
        }),
{
    m.get(name).map(|entry| entry.value().plugin)
}

/// `DashMap::insert` gives the name this plugin and leaves the other names alone.
#[verifier::external_body]
fn plugins_insert(m: &mut PluginMap, name: String, wrapper: PluginWrapper)
    ensures
        plugin_contents(*final(m)) == plugin_contents(*old(m)).insert(name@, wrapper),
{
    m.insert(name, wrapper);
}

/// `DashMap::remove` takes the name out and hands over its plugin.
#[verifier::external_body]
fn plugins_remove(m: &mut PluginMap, name: &str) -> (result: Option<PluginWrapper>)
    ensures
        plugin_contents(*final(m)) == plugin_contents(*old(m)).remove(name@),
        result == (if plugin_contents(*old(m)).contains_key(name@) {
            Some(plugin_contents(*old(m))[name@])
        } else {
            None
        }),
{
    m.remove(name).map(|entry| entry.1)
}

/// `DashMap::iter` visits every entry once, in an order of its own.
#[verifier::external_body]
fn plugins_names(m: &PluginMap) -> (result: Vec<String>)
    ensures
        text::views(result@).no_duplicates(),
        forall|name: Seq<char>| #[trigger]
            plugin_contents(*m).contains_key(name) <==> text::views(result@).contains(name),
{
    m.iter().map(|entry| entry.key().clone()).collect()
}

// ---------------------------------------------------------------------------------------------
// The registry
// ---------------------------------------------------------------------------------------------

/// Plugin registry manages all loaded plugins.
pub struct PluginRegistry {
    pub plugins: PluginMap,
    pub plugin_configs: NameMap<PluginConfig>,
    /// From domains to names of plugins
    pub domain_mappings: NameMap<Vec<String>>,
    /// From ports to names of plugins
    pub port_mappings: PortMap,
    pub event_router: EventRouter,
    pub metrics_aggregator: MetricsAggregator,
}

/// What a registry holds.
#[verifier::ext_equal]
pub struct RegistryView {
    pub plugins: Map<Seq<char>, PluginWrapper>,
    pub configs: Map<Seq<char>, PluginConfig>,
    pub domains: DomainLists,
    pub ports: Map<u16, Seq<char>>,
    pub subscribers: DomainLists,
}

impl View for PluginRegistry {
    type V = RegistryView;

    open spec fn view(&self) -> RegistryView {
        RegistryView {
            plugins: plugin_contents(self.plugins),
            configs: self.plugin_configs@,
            domains: lists_of(self.domain_mappings),
            ports: self.port_mappings@,
            subscribers: lists_of(self.event_router.subscribers),
        }
    }
}

impl RegistryView {
    /// Nothing is registered.
    pub open spec fn empty() -> RegistryView {
        RegistryView {
            plugins: Map::empty(),
            configs: Map::empty(),
            domains: Map::empty(),
            ports: Map::empty(),
            subscribers: Map::empty(),
        }
    }

    /// Each plugin has a configuration that is in order, and only plugins that are there have domains
    /// and ports.
    pub open spec fn wf(self) -> bool {
        &&& self.configs.dom() == self.plugins.dom()
        &&& forall|n: Seq<char>| #[trigger]
            self.configs.contains_key(n) ==> settings_fault(n, self.configs[n]) is None
        &&& none_empty(self.domains)
        &&& forall|d: Seq<char>, n: Seq<char>|
            self.domains.contains_key(d) && (#[trigger] self.domains[d].contains(n))
                ==> self.plugins.contains_key(n)
        &&& forall|p: u16| #[trigger]
            self.ports.contains_key(p) ==> self.plugins.contains_key(self.ports[p])
    }

    /// With a plugin added under a name.
    pub open spec fn registered(
        self,
        name: Seq<char>,
        wrapper: PluginWrapper,
        config: PluginConfig,
    ) -> RegistryView {
        RegistryView {
            plugins: self.plugins.insert(name, wrapper),
            configs: self.configs.insert(name, config),
            domains: with_domains(self.domains, text::views(config.domains@), name),
            ports: with_ports(self.ports, config.bind_ports@, name),
            subscribers: self.subscribers,
        }
    }

    /// Without the plugin of a name, and without its domains and ports.
    pub open spec fn unregistered(self, name: Seq<char>) -> RegistryView {
        RegistryView {
            plugins: self.plugins.remove(name),
            configs: self.configs.remove(name),
            domains: without_domains(self.domains, name),
            ports: without_ports(self.ports, name),
            subscribers: self.subscribers,
        }
    }

    /// With another plugin under a name.
    pub open spec fn with_plugin(self, name: Seq<char>, wrapper: PluginWrapper) -> RegistryView {
        RegistryView { plugins: self.plugins.insert(name, wrapper), ..self }
    }

    /// With another configuration for a name.
    pub open spec fn with_config(self, name: Seq<char>, config: PluginConfig) -> RegistryView {
        RegistryView { configs: self.configs.insert(name, config), ..self }
    }

    /// Why a plugin cannot be registered.
    pub open spec fn register_fault(self, name: Seq<char>, config: PluginConfig) -> Option<
        Seq<char>,
    > {
        if self.plugins.contains_key(name) {
            Some(already_registered(name))
        } else {
            match config_fault(name, config) {
                Some(m) => Some(m),
                None => self.admit_fault(name, config),
            }
        }
    }

    /// Why a plugin cannot be registered where it may go without ports and domains.
    pub open spec fn admit_fault(self, name: Seq<char>, config: PluginConfig) -> Option<Seq<char>> {
        if self.plugins.contains_key(name) {
            Some(already_registered(name))
        } else {
            match settings_fault(name, config) {
                Some(m) => Some(m),
                None => match first_taken(self.ports, config.bind_ports@) {
                    Some(p) => Some(
                        "Port "@ + text::decimal(p as nat) + " is already in use by plugin '"@
                            + self.ports[p] + "'"@,
                    ),
                    None => None,
                },
            }
        }
    }

    /// A plugin has all the ports of its configuration.
    pub open spec fn owns_its_ports(self, name: Seq<char>) -> bool {
        &&& self.configs.contains_key(name)
        &&& forall|p: u16| #[trigger]
            self.configs[name].bind_ports@.contains(p) ==> self.ports.contains_key(p)
                && self.ports[p] == name
    }
}

/// That a plugin of a name is there already.
pub open spec fn already_registered(name: Seq<char>) -> Seq<char> {
    "Plugin '"@ + name + "' is already registered"@
}

/// That there is no plugin of a name.
pub open spec fn not_found(name: Seq<char>) -> Seq<char> {
    "Plugin '"@ + name + "' not found"@
}

/// What is wrong with the configuration of a plugin.
pub open spec fn config_fault(name: Seq<char>, config: PluginConfig) -> Option<Seq<char>> {
    if config.name@ != name {
        Some("Plugin name mismatch"@)
    } else if config.bind_ports@.len() == 0 && config.domains@.len() == 0 {
        Some("Plugin must bind to at least one port or handle at least one domain"@)
    } else {
        settings_fault(name, config)
    }
}

/// What is wrong with the configuration of a plugin that may go without ports and domains.
pub open spec fn settings_fault(name: Seq<char>, config: PluginConfig) -> Option<Seq<char>> {
    if config.name@ != name {
        Some("Plugin name mismatch"@)
    } else if config.bind_ports@.contains(0) {
        Some("Invalid port: 0"@)
    } else if text::views(config.domains@).contains(Seq::empty()) {
        Some("Empty domain pattern"@)
    } else {
        None
    }
}

/// A plugin as it is when it was registered: it does not run, nothing is counted, and its health is
/// not known.
pub open spec fn is_fresh(
    wrapper: PluginWrapper,
    plugin: u64,
    name: Seq<char>,
    config: PluginConfig,
    now: SystemTime,
) -> bool {
    &&& wrapper.plugin == plugin
    &&& !wrapper.running
    &&& wrapper.context.plugin_name@ == name
    &&& same_config(wrapper.context.config, config)
    &&& wrapper.context.metrics.is_zero()
    &&& wrapper.context.metrics.last_updated == now
    &&& wrapper.context.health.is_pending("Initializing"@)
    &&& wrapper.context.health.last_check == now
}

/// A plugin with the health and the metrics that it reported, as far as it did.
pub open spec fn with_report(
    wrapper: PluginWrapper,
    health: Option<PluginHealth>,
    metrics: Option<PluginMetrics>,
) -> PluginWrapper {
    PluginWrapper {
        context: PluginContext {
            health: match health {
                Some(h) => h,
                None => wrapper.context.health,
            },
            metrics: match metrics {
                Some(m) => m,
                None => wrapper.context.metrics,
            },
            ..wrapper.context
        },
        ..wrapper
    }
}

fn no_such_plugin(name: &str) -> (result: String)
    ensures
        result@ == not_found(name@),
{
    text::cat3("Plugin '", name, "' not found")
}

impl PluginRegistry {
    /// The parts are in order, and fit each other.
    pub open spec fn wf(self) -> bool {
        &&& self.plugin_configs.wf()
        &&& self.domain_mappings.wf()
        &&& self.port_mappings.wf()
        &&& self.event_router.wf()
        &&& self@.wf()
    }

    pub fn new() -> (result: Self)
        ensures
            result.wf(),
            result@ == RegistryView::empty(),
    {
        let result = PluginRegistry {
            plugins: plugins_new(),
            plugin_configs: NameMap::new(),
            domain_mappings: NameMap::new(),
            port_mappings: PortMap::new(),
            event_router: EventRouter::new(),
            metrics_aggregator: MetricsAggregator::new(),
        };
        assert(result@.plugins =~= Map::<Seq<char>, PluginWrapper>::empty());
        assert(result@.domains =~= Map::<Seq<char>, Seq<Seq<char>>>::empty());
        assert(result@.configs.dom() =~= result@.plugins.dom());
        assert(result@ =~= RegistryView::empty());
        result
    }

    /// Register a new plugin. The plugin itself is known by its number.
    pub fn register_plugin(
        &mut self,
        name: String,
        plugin: u64,
        config: PluginConfig,
        now: SystemTime,
    ) -> (result: std::result::Result<(), String>)
        requires
            old(self).wf(),
        ensures
            final(self).wf(),
            match old(self)@.register_fault(name@, config) {
                Some(m) => final(self)@ == old(self)@ && says(result, m),
                None => {
                    &&& result is Ok
                    &&& final(self)@ == old(self)@.registered(
                        name@,
                        final(self)@.plugins[name@],
                        config,
                    )
                    &&& is_fresh(final(self)@.plugins[name@], plugin, name@, config, now)
                },
            },
    {
        if plugins_contain(&self.plugins, name.as_str()) {
            return Err(text::cat3("Plugin '", name.as_str(), "' is already registered"));
        }
        if let Err(e) = validate_plugin_config(name.as_str(), &config) {
            return Err(e);
        }
        self.admit_plugin(name, plugin, config, now)
    }

    /// Register a new plugin that may go without ports and domains: one that is loaded with the
    /// default configuration, or again with the configuration that it had.
    pub fn admit_plugin(
        &mut self,
        name: String,
        plugin: u64,
        config: PluginConfig,
        now: SystemTime,
    ) -> (result: std::result::Result<(), String>)
        requires
            old(self).wf(),
        ensures
            final(self).wf(),
            match old(self)@.admit_fault(name@, config) {
                Some(m) => final(self)@ == old(self)@ && says(result, m),
                None => {
                    &&& result is Ok
                    &&& final(self)@ == old(self)@.registered(
                        name@,
                        final(self)@.plugins[name@],
                        config,
                    )
                    &&& is_fresh(final(self)@.plugins[name@], plugin, name@, config, now)
                },
            },
    {
        // Check if plugin already exists
        if plugins_contain(&self.plugins, name.as_str()) {
            return Err(text::cat3("Plugin '", name.as_str(), "' is already registered"));
        }
        // Validate configuration

        if let Err(e) = validate_settings(name.as_str(), &config) {
            return Err(e);
        }
        // Check port conflicts

        if let Some((port, owner)) = self.port_mappings.find_taken(&config.bind_ports) {
            let number = text::number(port as u64);
            return Err(
                text::cat5(
                    "Port ",
                    number.as_str(),
                    " is already in use by plugin '",
                    owner.as_str(),
                    "'",
                ),
            );
        }
        let ghost before = self@;
        let context = PluginContext {
            plugin_name: name.clone(),
            config: config.copy(),
            metrics: PluginMetrics::zero(now),
            health: PluginHealth::pending("Initializing", now),
        };
        let wrapper = PluginWrapper::new(plugin, context);
        add_domains(&mut self.domain_mappings, &config.domains, name.as_str());
        self.port_mappings.insert_all(&config.bind_ports, name.as_str());
        let _ = self.plugin_configs.insert(name.clone(), config);
        plugins_insert(&mut self.plugins, name, wrapper);
        proof {
            assert(self@ =~= before.registered(name@, wrapper, config));
            lemma_registered_wf(before, name@, wrapper, config);
        }
        Ok(())
    }

    /// Unregister a plugin, given what came of its `stop`. The event is the one to send to the
    /// router.
    pub fn unregister_plugin(
        &mut self,
        name: &str,
        stopped: std::result::Result<(), String>,
    ) -> (result: std::result::Result<RouterEvent, String>)
        requires
            old(self).wf(),
        ensures
            final(self).wf(),
            if !old(self)@.plugins.contains_key(name@) {
                final(self)@ == old(self)@ && says(result, not_found(name@))
            } else {
                let wrapper = old(self)@.plugins[name@];
                match stopped {
                    Err(e) => {
                        &&& result == Err::<RouterEvent, String>(e)
                        &&& final(self)@ == old(self)@.with_plugin(
                            name@,
                            (PluginWrapper { running: false, ..wrapper }),
                        )
                    },
                    Ok(()) => {
                        &&& result == Ok::<RouterEvent, String>(
                            RouterEvent::PluginStopped(wrapper.context.plugin_name),
                        )
                        &&& final(self)@ == old(self)@.unregistered(name@)
                    },
                }
            },
    {
        match plugins_remove(&mut self.plugins, name) {
            None => {
                assert(self@ =~= old(self)@);
                Err(no_such_plugin(name))
            },
            Some(mut wrapper) => {
                match wrapper.stop(stopped) {
                    Err(e) => {
                        plugins_insert(&mut self.plugins, name.to_string(), wrapper);
                        proof {
                            assert(self@ =~= old(self)@.with_plugin(name@, wrapper));
                            assert(self@.configs.dom() =~= self@.plugins.dom());
                        }
                        Err(e)
                    },
                    Ok(event) => {
                        let kept = remove_from_domains(&self.domain_mappings, name);
                        self.domain_mappings = kept;
                        self.port_mappings.remove_name(name);
                        let _ = self.plugin_configs.remove(name);
                        proof {
                            assert(self@ =~= old(self)@.unregistered(name@));
                            lemma_unregistered_wf(old(self)@, name@);
                        }
                        Ok(event)
                    },
                }
            },
        }
    }

    /// Start a plugin, given what came of its `initialize` and of its `start`. The event is the one
    /// to send to the router.
    pub fn start_plugin(
        &mut self,
        name: &str,
        initialized: std::result::Result<(), String>,
        started: std::result::Result<(), String>,
    ) -> (result: std::result::Result<RouterEvent, String>)
        requires
            old(self).wf(),
        ensures
            final(self).wf(),
            if !old(self)@.plugins.contains_key(name@) {
                final(self)@ == old(self)@ && says(result, not_found(name@))
            } else {
                let wrapper = old(self)@.plugins[name@];
                &&& final(self)@ == old(self)@.with_plugin(
                    name@,
                    (PluginWrapper { running: true, ..wrapper }),
                )
                &&& match (initialized, started) {
                    (Err(e), _) => result == Err::<RouterEvent, String>(e),
                    (Ok(()), Err(e)) => result == Err::<RouterEvent, String>(e),
                    (Ok(()), Ok(())) => result == Ok::<RouterEvent, String>(
                        RouterEvent::PluginStarted(wrapper.context.plugin_name),
                    ),
                }
            },
    {
        match plugins_remove(&mut self.plugins, name) {
            None => {
                assert(self@ =~= old(self)@);
                Err(no_such_plugin(name))
            },
            Some(mut wrapper) => {
                let result = wrapper.start(initialized, started);
                plugins_insert(&mut self.plugins, name.to_string(), wrapper);
                proof {
                    assert(self@ =~= old(self)@.with_plugin(name@, wrapper));
                    assert(self@.configs.dom() =~= self@.plugins.dom());
                }
                result
            },
        }
    }

    /// Stop a plugin, given what came of its `stop`. The event is the one to send to the router.
    pub fn stop_plugin(&mut self, name: &str, stopped: std::result::Result<(), String>) -> (result:
        std::result::Result<RouterEvent, String>)
        requires
            old(self).wf(),
        ensures
            final(self).wf(),
            if !old(self)@.plugins.contains_key(name@) {
                final(self)@ == old(self)@ && says(result, not_found(name@))
            } else {
                let wrapper = old(self)@.plugins[name@];
                &&& final(self)@ == old(self)@.with_plugin(
                    name@,
                    (PluginWrapper { running: false, ..wrapper }),
                )
                &&& match stopped {
                    Err(e) => result == Err::<RouterEvent, String>(e),
                    Ok(()) => result == Ok::<RouterEvent, String>(
                        RouterEvent::PluginStopped(wrapper.context.plugin_name),
                    ),
                }
            },
    {
        match plugins_remove(&mut self.plugins, name) {
            None => {
                assert(self@ =~= old(self)@);
                Err(no_such_plugin(name))
            },
            Some(mut wrapper) => {
                let result = wrapper.stop(stopped);
                plugins_insert(&mut self.plugins, name.to_string(), wrapper);
                proof {
                    assert(self@ =~= old(self)@.with_plugin(name@, wrapper));
                    assert(self@.configs.dom() =~= self@.plugins.dom());
                }
                result
            },
        }
    }

    /// Keeps what a plugin reported of itself. The events are those to send to the router: one for
    /// its health and one for its metrics, as far as it reported them and is there.
    pub fn plugin_reported(
        &mut self,
        name: &str,
        health: Option<PluginHealth>,
        metrics: Option<PluginMetrics>,
    ) -> (result: (Option<RouterEvent>, Option<RouterEvent>))
        requires
            old(self).wf(),
        ensures
            final(self).wf(),
            if !old(self)@.plugins.contains_key(name@) {
                final(self)@ == old(self)@ && result.0 is None && result.1 is None
            } else {
                let wrapper = old(self)@.plugins[name@];
                &&& final(self)@ == old(self)@.with_plugin(
                    name@,
                    with_report(wrapper, health, metrics),
                )
                &&& match health {
                    Some(h) => result.0 matches Some(e) && is_health_event(
                        e,
                        wrapper.context.plugin_name,
                        h,
                    ),
                    None => result.0 is None,
                }
                &&& match metrics {
                    Some(m) => result.1 matches Some(e) && is_metrics_event(
                        e,
                        wrapper.context.plugin_name,
                        m,
                    ),
                    None => result.1 is None,
                }
            },
    {
        match plugins_remove(&mut self.plugins, name) {
            None => {
                assert(self@ =~= old(self)@);
                (None, None)
            },
            Some(mut wrapper) => {
                let checked = match health {
                    Some(h) => Some(wrapper.health_reported(h)),
                    None => None,
                };
                let counted = match metrics {
                    Some(m) => Some(wrapper.metrics_reported(m)),
                    None => None,
                };
                plugins_insert(&mut self.plugins, name.to_string(), wrapper);
                proof {
                    assert(self@ =~= old(self)@.with_plugin(name@, wrapper));
                    assert(self@.configs.dom() =~= self@.plugins.dom());
                }
                (checked, counted)
            },
        }
    }

    /// The number of the plugin of this name.
    pub fn get_plugin(&self, name: &str) -> (result: Option<u64>)
        ensures
            result == (if self@.plugins.contains_key(name@) {
                Some(self@.plugins[name@].plugin)
            } else {
                None
            }),
    {
        plugins_number(&self.plugins, name)
    }

    /// Find plugins that can handle a domain: those registered for it and those registered for a
    /// pattern with a wildcard that takes it, in alphabetical order.
    pub fn find_plugins_for_domain(&self, domain: &str, path: &str) -> (result: Vec<String>)
        requires
            self.wf(),
        ensures
            sorted(text::views(result@)),
            forall|n: Seq<char>| #[trigger]
                text::views(result@).contains(n) <==> serves(self@.domains, domain@, n),
    {
        find_for_domain(&self.domain_mappings, domain)
    }

    /// Find plugin that handles a specific port.
    pub fn find_plugin_for_port(&self, port: u16) -> (result: Option<String>)
        requires
            self.wf(),
        ensures
            opt_text(result) == (if self@.ports.contains_key(port) {
                Some(self@.ports[port])
            } else {
                None
            }),
    {
        match self.port_mappings.get(port) {
            Some(n) => Some(n.clone()),
            None => None,
        }
    }

    /// List all plugins, in no particular order.
    pub fn list_plugins(&self) -> (result: Vec<String>)
        ensures
            text::views(result@).no_duplicates(),
            forall|n: Seq<char>| #[trigger]
                self@.plugins.contains_key(n) <==> text::views(result@).contains(n),
    {
        plugins_names(&self.plugins)
    }

    /// The configuration of the plugin of this name.
    pub fn get_plugin_config(&self, name: &str) -> (result: Option<&PluginConfig>)
        requires
            self.wf(),
        ensures
            match result {
                Some(c) => self@.configs.contains_key(name@) && *c == self@.configs[name@],
                None => !self@.configs.contains_key(name@),
            },
    {
        self.plugin_configs.get(name)
    }

    /// Whether a plugin can be given this configuration.
    pub fn check_config_update(&self, name: &str, config: &PluginConfig) -> (result:
        std::result::Result<(), String>)
        ensures
            match update_fault(self@, name@, *config) {
                Some(m) => says(result, m),
                None => result is Ok,
            },
    {
        if !plugins_contain(&self.plugins, name) {
            return Err(no_such_plugin(name));
        }
        validate_plugin_config(name, config)
    }

    /// Update plugin configuration, given what came of the plugin's `update_config`.
    pub fn update_plugin_config(
        &mut self,
        name: &str,
        config: PluginConfig,
        updated: std::result::Result<(), String>,
    ) -> (result: std::result::Result<(), String>)
        requires
            old(self).wf(),
        ensures
            final(self).wf(),
            match (update_fault(old(self)@, name@, config), updated) {
                (Some(m), _) => final(self)@ == old(self)@ && says(result, m),
                (None, Err(e)) => final(self)@ == old(self)@ && result == Err::<(), String>(e),
                (None, Ok(())) => final(self)@ == old(self)@.with_config(name@, config)
                    && result is Ok,
            },
    {
        if let Err(e) = self.check_config_update(name, &config) {
            return Err(e);
        }
        if let Err(e) = updated {
            return Err(e);
        }
        let _ = self.plugin_configs.insert(name.to_string(), config);
        proof {
            assert(self@ =~= old(self)@.with_config(name@, config));
            assert(self@.configs.dom() =~= self@.plugins.dom());
        }
        Ok(())
    }

    /// What comes of sending an event to a plugin, given what came of the sending.
    pub fn send_event_to_plugin(
        &self,
        plugin_name: &str,
        sent: std::result::Result<(), String>,
    ) -> (result: std::result::Result<(), String>)
        ensures
            if !self@.plugins.contains_key(plugin_name@) {
                says(result, not_found(plugin_name@))
            } else {
                match sent {
                    Err(e) => says(result, "Failed to send event: "@ + e@),
                    Ok(()) => result is Ok,
                }
            },
    {
        if !plugins_contain(&self.plugins, plugin_name) {
            return Err(no_such_plugin(plugin_name));
        }
        match sent {
            Err(e) => Err(text::cat2("Failed to send event: ", e.as_str())),
            Ok(()) => Ok(()),
        }
    }

    /// Graceful shutdown of all plugins: none is meant to run any longer. The names are those of the
    /// plugins to be stopped.
    pub fn shutdown_all(&mut self) -> (result: Vec<String>)
        requires
            old(self).wf(),
        ensures
            final(self).wf(),
            text::views(result@).no_duplicates(),
            forall|n: Seq<char>| #[trigger]
                old(self)@.plugins.contains_key(n) <==> text::views(result@).contains(n),
            final(self)@ == (RegistryView {
                plugins: all_stopped(old(self)@.plugins),
                ..old(self)@
            }),
    {
        let names = plugins_names(&self.plugins);
        let ghost before = self@;
        let ghost all = text::views(names@);
        let mut i: usize = 0;
        while i < names.len()
            invariant
                i <= names@.len(),
                all == text::views(names@),
                all.no_duplicates(),
                forall|n: Seq<char>| #[trigger] before.plugins.contains_key(n) <==> all.contains(n),
                self.wf(),
                self@.configs == before.configs,
                self@.domains == before.domains,
                self@.ports == before.ports,
                self@.subscribers == before.subscribers,
                self@.plugins.dom() == before.plugins.dom(),
                forall|j: int|
                    0 <= j < i ==> self@.plugins[#[trigger] all[j]] == (PluginWrapper {
                        running: false,
                        ..before.plugins[all[j]]
                    }),
                forall|j: int|
                    i <= j < all.len() ==> self@.plugins[#[trigger] all[j]]
                        == before.plugins[all[j]],
            decreases names@.len() - i,
        {
            let ghost here = self@;
            proof {
                assert(all[i as int] == names@[i as int]@);
                assert(all.contains(all[i as int]));
                assert(before.plugins.contains_key(all[i as int]));
            }
            let _ = self.stop_plugin(names[i].as_str(), Ok(()));
            proof {
                assert(self@.plugins.dom() =~= before.plugins.dom());
            }
            i += 1;
        }
        proof {
            assert forall|n: Seq<char>| before.plugins.contains_key(n) implies self@.plugins[n]
                == all_stopped(before.plugins)[n] by {
                assert(all.contains(n));
                let j = all.index_of(n);
                assert(all[j] == n);
            }
            assert(self@.plugins =~= all_stopped(before.plugins));
        }
        names
    }
}

/// The plugins with none of them meant to run.
pub open spec fn all_stopped(plugins: Map<Seq<char>, PluginWrapper>) -> Map<
    Seq<char>,
    PluginWrapper,
> {
    plugins.map_values(|w: PluginWrapper| PluginWrapper { running: false, ..w })
}

/// Why a plugin cannot be given a configuration.
pub open spec fn update_fault(view: RegistryView, name: Seq<char>, config: PluginConfig) -> Option<
    Seq<char>,
> {
    if !view.plugins.contains_key(name) {
        Some(not_found(name))
    } else {
        config_fault(name, config)
    }
}

/// Validate plugin configuration.
pub fn validate_plugin_config(name: &str, config: &PluginConfig) -> (result: std::result::Result<
    (),
    String,
>)
    ensures
        match config_fault(name@, *config) {
            Some(m) => says(result, m),
            None => result is Ok,
        },
{
    if !text::eq(config.name.as_str(), name) {
        return Err("Plugin name mismatch".to_string());
    }
    if config.bind_ports.len() == 0 && config.domains.len() == 0 {
        return Err(
            "Plugin must bind to at least one port or handle at least one domain".to_string(),
        );
    }
    validate_settings(name, config)
}

/// Validate the configuration of a plugin that may go without ports and domains.
pub fn validate_settings(name: &str, config: &PluginConfig) -> (result: std::result::Result<
    (),
    String,
>)
    ensures
        match settings_fault(name@, *config) {
            Some(m) => says(result, m),
            None => result is Ok,
        },
{
    if !text::eq(config.name.as_str(), name) {
        return Err("Plugin name mismatch".to_string());
    }
    let mut i: usize = 0;
    while i < config.bind_ports.len()
        invariant
            i <= config.bind_ports@.len(),
            forall|j: int| 0 <= j < i ==> #[trigger] config.bind_ports@[j] != 0,
            config.name@ == name@,
        decreases config.bind_ports@.len() - i,
    {
        if config.bind_ports[i] == 0 {
            assert(config.bind_ports@[i as int] == 0);
            return Err("Invalid port: 0".to_string());
        }
        i += 1;
    }
    assert(!config.bind_ports@.contains(0));
    proof {
        reveal_strlit("");
        assert(""@ =~= Seq::<char>::empty());
    }
    if text::list_contains(&config.domains, "") {
        return Err("Empty domain pattern".to_string());
    }
    Ok(())
}

proof fn lemma_registered_wf(
    view: RegistryView,
    name: Seq<char>,
    wrapper: PluginWrapper,
    config: PluginConfig,
)
    requires
        view.wf(),
        !view.plugins.contains_key(name),
        settings_fault(name, config) is None,
    ensures
        view.registered(name, wrapper, config).wf(),
{
    let after = view.registered(name, wrapper, config);
    let domains = text::views(config.domains@);
    assert(after.configs.dom() =~= after.plugins.dom());
    lemma_lists_after(view.domains, domains, name);
    assert forall|d: Seq<char>, n: Seq<char>|
        after.domains.contains_key(d) && (#[trigger] after.domains[d].contains(
            n,
        )) implies after.plugins.contains_key(n) by {
        if n != name {
            assert(list_of(view.domains, d).contains(n));
        }
    }
    lemma_owners_after(view.ports, config.bind_ports@, name);
}

proof fn lemma_unregistered_wf(view: RegistryView, name: Seq<char>)
    requires
        view.wf(),
    ensures
        view.unregistered(name).wf(),
{
    let after = view.unregistered(name);
    assert(after.configs.dom() =~= after.plugins.dom());
    assert forall|d: Seq<char>, n: Seq<char>|
        after.domains.contains_key(d) && (#[trigger] after.domains[d].contains(
            n,
        )) implies after.plugins.contains_key(n) by {
        lemma_without_contains(view.domains[d], name, n);
    }
}

/// A plugin that is registered and then unregistered leaves the registry as it was: the same
/// plugins, configurations, domains and ports.
pub proof fn law_register_then_unregister(
    view: RegistryView,
    name: Seq<char>,
    wrapper: PluginWrapper,
    config: PluginConfig,
)
    requires
        view.wf(),
        view.admit_fault(name, config) is None,
    ensures
        view.registered(name, wrapper, config).unregistered(name) == view,
{
    let after = view.registered(name, wrapper, config).unregistered(name);
    law_domains_round_trip(view.domains, text::views(config.domains@), name);
    law_ports_round_trip(view.ports, config.bind_ports@, name);
    assert(after.plugins =~= view.plugins);
    assert(!view.configs.dom().contains(name));
    assert(after.configs =~= view.configs);
}

/// A plugin that was registered is found for each of its domains and each of its ports.
pub proof fn law_registered_is_found(
    view: RegistryView,
    name: Seq<char>,
    wrapper: PluginWrapper,
    config: PluginConfig,
)
    requires
        view.wf(),
        view.admit_fault(name, config) is None,
    ensures
        forall|d: Seq<char>| #[trigger]
            text::views(config.domains@).contains(d) ==> serves(
                view.registered(name, wrapper, config).domains,
                d,
                name,
            ),
        forall|p: u16| #[trigger]
            config.bind_ports@.contains(p) ==> view.registered(
                name,
                wrapper,
                config,
            ).ports.contains_key(p) && view.registered(name, wrapper, config).ports[p] == name,
{
    law_domains_round_trip(view.domains, text::views(config.domains@), name);
    law_ports_round_trip(view.ports, config.bind_ports@, name);
}

/// A plugin has the ports of its configuration from its registration on. Whatever is registered,
/// unregistered, started, stopped or configured besides, it keeps them.
pub proof fn law_ports_stay_owned(
    view: RegistryView,
    name: Seq<char>,
    other: Seq<char>,
    wrapper: PluginWrapper,
    config: PluginConfig,
)
    requires
        view.wf(),
        other != name,
    ensures
        view.admit_fault(name, config) is None ==> view.registered(
            name,
            wrapper,
            config,
        ).owns_its_ports(name),
        view.owns_its_ports(name) ==> {
            &&& view.admit_fault(other, config) is None ==> view.registered(
                other,
                wrapper,
                config,
            ).owns_its_ports(name)
            &&& view.unregistered(other).owns_its_ports(name)
            &&& view.with_plugin(name, wrapper).owns_its_ports(name)
            &&& view.with_plugin(other, wrapper).owns_its_ports(name)
            &&& view.with_config(other, config).owns_its_ports(name)
        },
{
    if view.admit_fault(name, config) is None {
        law_ports_round_trip(view.ports, config.bind_ports@, name);
    }
    if view.owns_its_ports(name) && view.admit_fault(other, config) is None {
        assert forall|p: u16| #[trigger] view.configs[name].bind_ports@.contains(p) implies ({
            let after = view.registered(other, wrapper, config);
            after.ports.contains_key(p) && after.ports[p] == name
        }) by {
            law_ports_are_kept(view.ports, config.bind_ports@, other, p);
        }
    }
}

/// A plugin that is unregistered can be registered again with the configuration that it had, and
/// then it has that configuration, and the others are as they were. A plugin that was configured
/// anew with a port of another is left out.
pub proof fn law_reload_gives_back(
    view: RegistryView,
    name: Seq<char>,
    wrapper: PluginWrapper,
    config: PluginConfig,
)
    requires
        view.wf(),
        view.plugins.contains_key(name),
        same_config(config, view.configs[name]),
        forall|p: u16| #[trigger]
            view.configs[name].bind_ports@.contains(p) && view.ports.contains_key(p)
                ==> view.ports[p] == name,
    ensures
        view.unregistered(name).admit_fault(name, config) is None,
        ({
            let after = view.unregistered(name).registered(name, wrapper, config);
            &&& after.wf()
            &&& after.plugins == view.plugins.insert(name, wrapper)
            &&& after.configs == view.configs.insert(name, config)
            &&& after.owns_its_ports(name)
        }),
{
    let gone = view.unregistered(name);
    lemma_unregistered_wf(view, name);
    assert(settings_fault(name, view.configs[name]) is None);
    lemma_first_taken(gone.ports, config.bind_ports@);
    lemma_registered_wf(gone, name, wrapper, config);
    law_ports_round_trip(gone.ports, config.bind_ports@, name);
    assert(gone.registered(name, wrapper, config).plugins =~= view.plugins.insert(name, wrapper));
    assert(gone.registered(name, wrapper, config).configs =~= view.configs.insert(name, config));
}

// ---------------------------------------------------------------------------------------------
// Events and metrics
// ---------------------------------------------------------------------------------------------

/// Event router for inter-plugin communication.
pub struct EventRouter {
    /// From types of events to names of plugins
    pub subscribers: NameMap<Vec<String>>,
}

impl EventRouter {
    pub open spec fn wf(self) -> bool {
        self.subscribers.wf()
    }

    /// The names of the plugins that want events of a type.
    pub open spec fn wanting(self, event_type: Seq<char>) -> Seq<Seq<char>> {
        list_of(lists_of(self.subscribers), event_type)
    }

    pub fn new() -> (result: Self)
        ensures
            result.wf(),
            lists_of(result.subscribers) == Map::<Seq<char>, Seq<Seq<char>>>::empty(),
    {
        let result = EventRouter { subscribers: NameMap::new() };
        assert(lists_of(result.subscribers) =~= Map::<Seq<char>, Seq<Seq<char>>>::empty());
        result
    }

    /// The plugin wants events of this type from now on.
    pub fn subscribe(&mut self, plugin_name: String, event_type: String)
        requires
            old(self).wf(),
        ensures
            final(self).wf(),
            final(self).wanting(event_type@) == old(self).wanting(event_type@).push(plugin_name@),
            forall|t: Seq<char>|
                t != event_type@ ==> #[trigger] final(self).wanting(t) == old(self).wanting(t),
    {
        let mut types: Vec<String> = Vec::new();
        types.push(event_type);
        add_domains(&mut self.subscribers, &types, plugin_name.as_str());
        proof {
            let all = text::views(types@);
            assert(all =~= seq![event_type@]);
            assert(all.drop_last() =~= Seq::<Seq<char>>::empty());
            assert(with_domains(
                lists_of(old(self).subscribers),
                all.drop_last(),
                plugin_name@,
            ) == lists_of(old(self).subscribers));
        }
    }

    /// The plugin does not want events of this type any longer.
    pub fn unsubscribe(&mut self, plugin_name: &str, event_type: &str)
        requires
            old(self).wf(),
        ensures
            final(self).wf(),
            final(self).wanting(event_type@) == without(
                old(self).wanting(event_type@),
                plugin_name@,
            ),
            forall|t: Seq<char>|
                t != event_type@ ==> #[trigger] final(self).wanting(t) == old(self).wanting(t),
    {
        if let Some(list) = self.subscribers.get_mut(event_type) {
            let kept = without_name(list, plugin_name);
            *list = kept;
        }
    }

    /// The plugins that want events of this type.
    pub fn get_subscribers(&self, event_type: &str) -> (result: Vec<String>)
        requires
            self.wf(),
        ensures
            text::views(result@) == self.wanting(event_type@),
    {
        match self.subscribers.get(event_type) {
            Some(list) => text::copy_strings(list),
            None => {
                let none: Vec<String> = Vec::new();
                assert(text::views(none@) =~= Seq::<Seq<char>>::empty());
                none
            },
        }
    }
}

/// A plugin that unsubscribes from a type it had not wanted before leaves the subscribers as they
/// were before it subscribed.
pub proof fn law_subscribe_then_unsubscribe(names: Seq<Seq<char>>, name: Seq<char>)
    requires
        !names.contains(name),
    ensures
        without(names.push(name), name) == names,
{
    lemma_without_absent(names, name);
    assert(names.push(name).drop_last() =~= names);
}

/// Adds metrics of plugins up.
pub struct MetricsAggregator {}

/// What the plugins have counted together.
#[derive(Debug, Clone, Copy, PartialEq, Eq, Structural)]
pub struct AggregatedMetrics {
    pub total_connections: u64,
    pub total_bytes_sent: u64,
    pub total_bytes_received: u64,
    pub total_errors: u64,
    pub plugin_count: usize,
}

/// What plugins count.
#[derive(Debug, Clone, Copy, PartialEq, Eq, Structural)]
pub enum Counter {
    ConnectionsTotal,
    ConnectionsActive,
    BytesSent,
    BytesReceived,
    Errors,
}

impl Counter {
    /// What a plugin has counted.
    pub open spec fn of(self, metrics: PluginMetrics) -> u64 {
        match self {
            Counter::ConnectionsTotal => metrics.connections_total,
            Counter::ConnectionsActive => metrics.connections_active,
            Counter::BytesSent => metrics.bytes_sent,
            Counter::BytesReceived => metrics.bytes_received,
            Counter::Errors => metrics.errors_total,
        }
    }

    fn read(self, metrics: &PluginMetrics) -> (result: u64)
        ensures
            result == self.of(*metrics),
    {
        match self {
            Counter::ConnectionsTotal => metrics.connections_total,
            Counter::ConnectionsActive => metrics.connections_active,
            Counter::BytesSent => metrics.bytes_sent,
            Counter::BytesReceived => metrics.bytes_received,
            Counter::Errors => metrics.errors_total,
        }
    }
}

/// What all plugins have counted together.
pub open spec fn total(metrics: Seq<(String, PluginMetrics)>, counter: Counter) -> int
    decreases metrics.len(),
{
    if metrics.len() == 0 {
        0
    } else {
        total(metrics.drop_last(), counter) + counter.of(metrics.last().1)
    }
}

proof fn lemma_total_grows(metrics: Seq<(String, PluginMetrics)>, counter: Counter, n: int)
    requires
        0 <= n <= metrics.len(),
    ensures
        0 <= total(metrics.take(n), counter) <= total(metrics, counter),
    decreases metrics.len(),
{
    if n == metrics.len() {
        assert(metrics.take(n) =~= metrics);
        if n > 0 {
            lemma_total_grows(metrics.drop_last(), counter, n - 1);
        }
    } else {
        lemma_total_grows(metrics.drop_last(), counter, n);
        assert(metrics.drop_last().take(n) =~= metrics.take(n));
    }
}

/// Adds up what all plugins have counted.
pub fn sum_of(metrics: &NameMap<PluginMetrics>, counter: Counter) -> (result: u64)
    requires
        total(metrics.entries@, counter) <= u64::MAX,
    ensures
        result == total(metrics.entries@, counter),
{
    let mut sum: u64 = 0;
    let mut i: usize = 0;
    while i < metrics.entries.len()
        invariant
            i <= metrics.entries@.len(),
            total(metrics.entries@, counter) <= u64::MAX,
            sum == total(metrics.entries@.take(i as int), counter),
        decreases metrics.entries@.len() - i,
    {
        proof {
            let next = metrics.entries@.take(i + 1);
            assert(next.drop_last() =~= metrics.entries@.take(i as int));
            lemma_total_grows(metrics.entries@, counter, i + 1);
        }
        let more: u64 = counter.read(&metrics.entries[i].1);
        sum = sum + more;
        i += 1;
    }
    assert(metrics.entries@.take(i as int) =~= metrics.entries@);
    sum
}

/// What the plugins reported, by name; a plugin that could not report is left out.
pub open spec fn reported(reports: Seq<(String, Option<PluginMetrics>)>) -> Map<
    Seq<char>,
    PluginMetrics,
>
    decreases reports.len(),
{
    if reports.len() == 0 {
        Map::empty()
    } else {
        let before = reported(reports.drop_last());
        match reports.last().1 {
            Some(m) => before.insert(reports.last().0@, m),
            None => before,
        }
    }
}

/// Get aggregated metrics from all plugins, given what each of them reported.
pub fn get_aggregated_metrics(reports: Vec<(String, Option<PluginMetrics>)>) -> (result: NameMap<
    PluginMetrics,
>)
    ensures
        result.wf(),
        result@ == reported(reports@),
{
    let mut all: NameMap<PluginMetrics> = NameMap::new();
    let ghost list = reports@;
    assert(list.take(0) =~= Seq::<(String, Option<PluginMetrics>)>::empty());
    for report in it: reports
        invariant
            it.seq() == list,
            all.wf(),
            all@ == reported(list.take(it.index())),
    {
        proof {
            let next = list.take(it.index() + 1);
            assert(next.drop_last() =~= list.take(it.index()));
            assert(next.last() == report);
        }
        let (name, metrics) = report;
        if let Some(m) = metrics {
            let _ = all.insert(name, m);
        }
    }
    assert(list.take(list.len() as int) =~= list);
    all
}

impl MetricsAggregator {
    pub fn new() -> (result: Self)
        ensures
            result == (MetricsAggregator {}),
    {
        MetricsAggregator {  }
    }

    /// The sums of what the plugins have counted.
    pub fn aggregate_metrics(&self, plugin_metrics: &NameMap<PluginMetrics>) -> (result:
        AggregatedMetrics)
        requires
            total(plugin_metrics.entries@, Counter::ConnectionsTotal) <= u64::MAX,
            total(plugin_metrics.entries@, Counter::BytesSent) <= u64::MAX,
            total(plugin_metrics.entries@, Counter::BytesReceived) <= u64::MAX,
            total(plugin_metrics.entries@, Counter::Errors) <= u64::MAX,
        ensures
            result.total_connections == total(plugin_metrics.entries@, Counter::ConnectionsTotal),
            result.total_bytes_sent == total(plugin_metrics.entries@, Counter::BytesSent),
            result.total_bytes_received == total(plugin_metrics.entries@, Counter::BytesReceived),
            result.total_errors == total(plugin_metrics.entries@, Counter::Errors),
            result.plugin_count == plugin_metrics.entries@.len(),
    {
        AggregatedMetrics {
            total_connections: sum_of(plugin_metrics, Counter::ConnectionsTotal),
            total_bytes_sent: sum_of(plugin_metrics, Counter::BytesSent),
            total_bytes_received: sum_of(plugin_metrics, Counter::BytesReceived),
            total_errors: sum_of(plugin_metrics, Counter::Errors),
            plugin_count: plugin_metrics.len(),
        }
    }
}

/// A configuration is accepted exactly where it is for the plugin's own name, names a port or a
/// domain, and has no port zero and no empty domain.
pub proof fn law_plugin_configs_are_checked(name: Seq<char>, config: PluginConfig)
    ensures
        config_fault(name, config) is None <==> config.name@ == name && (config.bind_ports@.len() > 0
            || config.domains@.len() > 0) && !config.bind_ports@.contains(0) && forall|i: int|
            0 <= i < config.domains@.len() ==> (#[trigger] config.domains@[i])@.len() > 0,
        settings_fault(name, config) is None <==> config.name@ == name
            && !config.bind_ports@.contains(0) && forall|i: int|
            0 <= i < config.domains@.len() ==> (#[trigger] config.domains@[i])@.len() > 0,
{
    let texts = text::views(config.domains@);
    if texts.contains(Seq::empty()) {
        let k = texts.index_of(Seq::empty());
        assert(config.domains@[k]@ == texts[k]);
        assert(config.domains@[k]@.len() == 0);
    } else {
        assert forall|i: int| 0 <= i < config.domains@.len() implies (
        #[trigger] config.domains@[i])@.len() > 0 by {
            assert(texts[i] == config.domains@[i]@);
            if config.domains@[i]@.len() == 0 {
                assert(texts[i] =~= Seq::<char>::empty());
            }
        }
    }
}

/// A plugin is admitted exactly where its name is free, its configuration is in order and nobody has
/// one of its ports; and it is registered exactly where it names a port or a domain besides.
pub proof fn law_admission(view: RegistryView, name: Seq<char>, config: PluginConfig)
    ensures
        view.admit_fault(name, config) is None <==> !view.plugins.contains_key(name)
            && settings_fault(name, config) is None && forall|p: u16| #[trigger]
            config.bind_ports@.contains(p) ==> !view.ports.contains_key(p),
        view.register_fault(name, config) is None <==> view.admit_fault(name, config) is None && (
        config.bind_ports@.len() > 0 || config.domains@.len() > 0),
        update_fault(view, name, config) is None <==> view.plugins.contains_key(name)
            && config_fault(name, config) is None,
{
    crate::plugin::ports::lemma_first_taken(view.ports, config.bind_ports@);
}

/// What plugins have counted together is the sum of what each has counted.
pub proof fn law_totals_add_up(
    a: Seq<(String, PluginMetrics)>,
    b: Seq<(String, PluginMetrics)>,
    one: (String, PluginMetrics),
    counter: Counter,
)
    ensures
        total(a + b, counter) == total(a, counter) + total(b, counter),
        total(seq![one], Counter::ConnectionsTotal) == one.1.connections_total,
        total(seq![one], Counter::ConnectionsActive) == one.1.connections_active,
        total(seq![one], Counter::BytesSent) == one.1.bytes_sent,
        total(seq![one], Counter::BytesReceived) == one.1.bytes_received,
        total(seq![one], Counter::Errors) == one.1.errors_total,
    decreases b.len(),
{
    let none = Seq::<(String, PluginMetrics)>::empty();
    assert(seq![one].drop_last() =~= none);
    assert(seq![one].last() == one);
    assert(total(none, Counter::ConnectionsTotal) == 0);
    assert(total(none, Counter::ConnectionsActive) == 0);
    assert(total(none, Counter::BytesSent) == 0);
    assert(total(none, Counter::BytesReceived) == 0);
    assert(total(none, Counter::Errors) == 0);
    if b.len() == 0 {
        assert(a + b =~= a);
    } else {
        law_totals_add_up(a, b.drop_last(), one, counter);
        assert((a + b).drop_last() =~= a + b.drop_last());
    }
}

/// A plugin's metrics are those that it reported last; a plugin that never reported any has none.
pub proof fn law_last_report_counts(
    reports: Seq<(String, Option<PluginMetrics>)>,
    name: Seq<char>,
    k: int,
)
    requires
        -1 <= k < reports.len(),
        k >= 0 ==> reports[k].0@ == name && reports[k].1 is Some,
        forall|j: int|
            k < j < reports.len() ==> (#[trigger] reports[j]).0@ != name || reports[j].1 is None,
    ensures
        k >= 0 ==> reported(reports).contains_key(name) && Some(reported(reports)[name])
            == reports[k].1,
        k == -1 ==> !reported(reports).contains_key(name),
    decreases reports.len(),
{
    if reports.len() > 0 && k < reports.len() - 1 {
        let rest = reports.drop_last();
        assert(reports[reports.len() - 1].0@ != name || reports[reports.len() - 1].1 is None);
        assert forall|j: int| k < j < rest.len() implies (#[trigger] rest[j]).0@ != name
            || rest[j].1 is None by {
            assert(reports[j].0@ != name || reports[j].1 is None);
        }
        law_last_report_counts(rest, name, k);
    }
}

/// A report changes what it tells and nothing else; what it does not tell stays.
pub proof fn law_reports_change_what_they_tell(
    wrapper: PluginWrapper,
    health: Option<PluginHealth>,
    metrics: Option<PluginMetrics>,
)
    ensures
        ({
            let after = with_report(wrapper, health, metrics);
            &&& health is Some ==> Some(after.context.health) == health
            &&& health is None ==> after.context.health == wrapper.context.health
            &&& metrics is Some ==> Some(after.context.metrics) == metrics
            &&& metrics is None ==> after.context.metrics == wrapper.context.metrics
            &&& after.plugin == wrapper.plugin
            &&& after.running == wrapper.running
            &&& after.context.plugin_name == wrapper.context.plugin_name
            &&& after.context.config == wrapper.context.config
        }),
{
}

/// Stopping all plugins stops each and takes none away.
pub proof fn law_stopping_stops_all(plugins: Map<Seq<char>, PluginWrapper>, name: Seq<char>)
    ensures
        all_stopped(plugins).contains_key(name) <==> plugins.contains_key(name),
        plugins.contains_key(name) ==> !all_stopped(plugins)[name].running && all_stopped(
            plugins,
        )[name].plugin == plugins[name].plugin && all_stopped(plugins)[name].context
            == plugins[name].context,
{
}

} // verus!
