//! The plugin manager, which coordinates loader and registry.
use vstd::prelude::*;

use crate::name_map::NameMap;
use crate::plugin::domains::{serves, sorted};
use crate::plugin::loader::{
    same_loader_config, total_size, unloaded, LoadedPluginInfo, LoaderConfig, PluginLoader,
    PluginLoaderStatistics, Released,
};
use crate::plugin::ports::first_taken;
use crate::plugin::registry::{
    all_stopped, already_registered, is_fresh, not_found, settings_fault, sum_of, total, Counter,
    PluginRegistry, RegistryView,
};
use crate::plugin::{
    same_config, HealthCheckConfig, PluginConfig, PluginHealth, PluginMetrics, PluginWrapper, RouterEvent,
};
use crate::proxies::says;
use crate::text;
use crate::time::SystemTime;

verus! {

broadcast use vstd::string::group_string_axioms;

/// Plugin manager configuration.
#[derive(Debug)]
pub struct PluginManagerConfig {
    pub loader: LoaderConfig,
    pub enable_inter_plugin_communication: bool,
    pub max_concurrent_loads: usize,
    pub plugin_startup_timeout_seconds: u64,
    pub health_check_interval_seconds: u64,
    pub metrics_collection_interval_seconds: u64,
    pub enable_plugin_isolation: bool,
    /// As JSON text
    pub default_plugin_config: String,
}

impl Default for PluginManagerConfig {
    fn default() -> (result: Self)
        ensures
            result.loader.is_default(),
            result.enable_inter_plugin_communication,
            result.max_concurrent_loads == 10,
            result.plugin_startup_timeout_seconds == 30,
            result.health_check_interval_seconds == 30,
            result.metrics_collection_interval_seconds == 60,
            result.enable_plugin_isolation,
            result.default_plugin_config@ == "{}"@,
    {
        PluginManagerConfig {
            loader: LoaderConfig::default(),
            enable_inter_plugin_communication: true,
            max_concurrent_loads: 10,
            plugin_startup_timeout_seconds: 30,
            health_check_interval_seconds: 30,
            metrics_collection_interval_seconds: 60,
            enable_plugin_isolation: true,
            default_plugin_config: "{}".to_string(),
        }
    }
}

/// Looks at something again and again: how often, and whether it does.
#[derive(Debug, Clone, Copy, PartialEq, Eq, Structural)]
pub struct HealthMonitor {
    pub interval_seconds: u64,
    pub running: bool,
}

impl HealthMonitor {
    pub fn new(interval_seconds: u64) -> (result: Self)
        ensures
            result == (HealthMonitor { interval_seconds, running: false }),
    {
        HealthMonitor { interval_seconds, running: false }
    }

    pub fn start(&mut self)
        ensures
            *final(self) == (HealthMonitor { running: true, ..*old(self) }),
    {
        self.running = true;
    }

    pub fn stop(&mut self)
        ensures
            *final(self) == (HealthMonitor { running: false, ..*old(self) }),
    {
        self.running = false;
    }

    /// What to warn of when a plugin has told its health.
    pub fn warning(plugin_name: &str, health: &PluginHealth) -> (result: Option<String>)
        ensures
            match result {
                Some(w) => !health.healthy && w@ == "Plugin '"@ + plugin_name@ + "' is unhealthy: "@
                    + health.message@,
                None => health.healthy,
            },
    {
        if health.healthy {
            None
        } else {
            Some(
                text::cat4(
                    "Plugin '",
                    plugin_name,
                    "' is unhealthy: ",
                    health.message.as_str(),
                ),
            )
        }
    }
}

/// Collects the metrics of plugins again and again: how often, and whether it does.
#[derive(Debug, Clone, Copy, PartialEq, Eq, Structural)]
pub struct MetricsCollector {
    pub interval_seconds: u64,
    pub running: bool,
}

impl MetricsCollector {
    pub fn new(interval_seconds: u64) -> (result: Self)
        ensures
            result == (MetricsCollector { interval_seconds, running: false }),
    {
        MetricsCollector { interval_seconds, running: false }
    }

    pub fn start(&mut self)
        ensures
            *final(self) == (MetricsCollector { running: true, ..*old(self) }),
    {
        self.running = true;
    }

    pub fn stop(&mut self)
        ensures
            *final(self) == (MetricsCollector { running: false, ..*old(self) }),
    {
        self.running = false;
    }
}

// ---------------------------------------------------------------------------------------------
// Events
// ---------------------------------------------------------------------------------------------

/// Event bus for inter-plugin communication. Those who listen are known by numbers.
pub struct EventBus {
    pub subscribers: NameMap<Vec<u64>>,
}

impl EventBus {
    pub open spec fn wf(self) -> bool {
        self.subscribers.wf()
    }

    /// Those who listen to events of a type, in the order in which they began to.
    pub open spec fn listening(self, event_type: Seq<char>) -> Seq<u64> {
        if self.subscribers@.contains_key(event_type) {
            self.subscribers@[event_type]@
        } else {
            Seq::empty()
        }
    }

    pub fn new() -> (result: Self)
        ensures
            result.wf(),
            result.subscribers@ == Map::<Seq<char>, Vec<u64>>::empty(),
    {
        EventBus { subscribers: NameMap::new() }
    }

    /// This one listens to events of a type from now on.
    pub fn subscribe(&mut self, event_type: &str, subscriber: u64)
        requires
            old(self).wf(),
        ensures
            final(self).wf(),
            final(self).listening(event_type@) == old(self).listening(event_type@).push(subscriber),
            forall|t: Seq<char>|
                t != event_type@ ==> #[trigger] final(self).listening(t) == old(self).listening(t),
    {
        let found = match self.subscribers.get_mut(event_type) {
            Some(list) => {
                list.push(subscriber);
                true
            },
            None => false,
        };
        if !found {
            let mut list: Vec<u64> = Vec::new();
            list.push(subscriber);
            assert(list@ =~= Seq::<u64>::empty().push(subscriber));
            let _ = self.subscribers.insert(event_type.to_string(), list);
        }
    }

    /// Those to whom an event of a type is to be sent.
    pub fn publish(&self, event_type: &str) -> (result: Vec<u64>)
        requires
            self.wf(),
        ensures
            result@ == self.listening(event_type@),
    {
        let mut receivers: Vec<u64> = Vec::new();
        if let Some(list) = self.subscribers.get(event_type) {
            let mut i: usize = 0;
            while i < list.len()
                invariant
                    i <= list@.len(),
                    receivers@ == list@.take(i as int),
                decreases list@.len() - i,
            {
                receivers.push(list[i]);
                i += 1;
            }
        }
        receivers
    }
}

/// How important a message is.
#[derive(Debug, Clone, Copy, PartialEq, Eq, Structural)]
pub enum LogLevel {
    Error,
    Warn,
    Info,
    Debug,
}

/// What is published on the event bus.
#[derive(Debug)]
pub enum EventData {
    Name(String),
    Error { plugin: String, error: String },
    Metrics { plugin: String, metrics: PluginMetrics },
    Health { plugin: String, health: PluginHealth },
    /// As JSON text
    Custom(String),
}

/// What becomes of an event that a plugin sent to the router.
#[derive(Debug)]
pub enum EventHandling {
    Publish { event_type: String, data: EventData },
    Log { level: LogLevel, message: String },
}

/// The level of a log message; messages of a level that is not known are informational.
pub open spec fn level_of(level: Seq<char>) -> LogLevel {
    if level == "error"@ {
        LogLevel::Error
    } else if level == "warn"@ {
        LogLevel::Warn
    } else if level == "debug"@ {
        LogLevel::Debug
    } else {
        LogLevel::Info
    }
}

/// Whether an event is handled like this.
pub open spec fn is_handling(event: RouterEvent, handling: EventHandling) -> bool {
    match handling {
        EventHandling::Publish { event_type, data } => match event {
            RouterEvent::PluginStarted(name) => event_type@ == "plugin.started"@ && data
                == EventData::Name(name),
            RouterEvent::PluginStopped(name) => event_type@ == "plugin.stopped"@ && data
                == EventData::Name(name),
            RouterEvent::PluginError { plugin_name, error } => event_type@ == "plugin.error"@
                && data == (EventData::Error { plugin: plugin_name, error }),
            RouterEvent::MetricsUpdated { plugin_name, metrics } => event_type@
                == "plugin.metrics"@ && data == (EventData::Metrics {
                plugin: plugin_name,
                metrics,
            }),
            RouterEvent::HealthUpdated { plugin_name, health } => event_type@ == "plugin.health"@
                && data == (EventData::Health { plugin: plugin_name, health }),
            RouterEvent::CustomEvent { plugin_name, event } => event_type@ == "plugin."@
                + plugin_name@ + ".custom"@ && data == EventData::Custom(event),
            RouterEvent::LogMessage { .. } => false,
        },
        EventHandling::Log { level, message } => match event {
            RouterEvent::LogMessage { plugin_name, level: l, message: m } => level == level_of(l@)
                && message@ == "["@ + plugin_name@ + "] "@ + m@,
            _ => false,
        },
    }
}

/// Handle router events.
pub fn handle_router_event(event: RouterEvent) -> (result: EventHandling)
    ensures
        is_handling(event, result),
{
    match event {
        RouterEvent::PluginStarted(name) => EventHandling::Publish {
            event_type: "plugin.started".to_string(),
            data: EventData::Name(name),
        },
        RouterEvent::PluginStopped(name) => EventHandling::Publish {
            event_type: "plugin.stopped".to_string(),
            data: EventData::Name(name),
        },
        RouterEvent::PluginError { plugin_name, error } => EventHandling::Publish {
            event_type: "plugin.error".to_string(),
            data: EventData::Error { plugin: plugin_name, error },
        },
        RouterEvent::MetricsUpdated { plugin_name, metrics } => EventHandling::Publish {
            event_type: "plugin.metrics".to_string(),
            data: EventData::Metrics { plugin: plugin_name, metrics },
        },
        RouterEvent::HealthUpdated { plugin_name, health } => EventHandling::Publish {
            event_type: "plugin.health".to_string(),
            data: EventData::Health { plugin: plugin_name, health },
        },
        RouterEvent::CustomEvent { plugin_name, event } => EventHandling::Publish {
            event_type: text::cat3("plugin.", plugin_name.as_str(), ".custom"),
            data: EventData::Custom(event),
        },
        RouterEvent::LogMessage { plugin_name, level, message } => {
            let l = level.as_str();
            let known = if text::eq(l, "error") {
                LogLevel::Error
            } else if text::eq(l, "warn") {
                LogLevel::Warn
            } else if text::eq(l, "debug") {
                LogLevel::Debug
            } else {
                LogLevel::Info
            };
            EventHandling::Log {
                level: known,
                message: text::cat4("[", plugin_name.as_str(), "] ", message.as_str()),
            }
        },
    }
}

// ---------------------------------------------------------------------------------------------
// The manager
// ---------------------------------------------------------------------------------------------

/// Plugin manager statistics.
#[derive(Debug, Clone, Copy, PartialEq, Eq, Structural)]
pub struct PluginManagerStatistics {
    pub total_plugins: usize,
    pub running_plugins: usize,
    pub loader_statistics: PluginLoaderStatistics,
    pub total_connections: u64,
    pub total_requests: u64,
    pub total_errors: u64,
    pub uptime_seconds: u64,
}

/// Main plugin manager that coordinates everything.
pub struct PluginManager {
    pub config: PluginManagerConfig,
    pub loader: PluginLoader,
    pub registry: PluginRegistry,
    /// Whether the events for the router are already being taken in
    pub processing_events: bool,
    pub health_monitor: HealthMonitor,
    pub metrics_collector: MetricsCollector,
    pub event_bus: EventBus,
    pub running: bool,
}

/// The configuration of a plugin for which none is given.
pub open spec fn is_default_config(
    result: PluginConfig,
    config: PluginManagerConfig,
    name: Seq<char>,
) -> bool {
    &&& result.name@ == name
    &&& result.enabled
    &&& result.priority == 0
    &&& result.bind_ports@.len() == 0
    &&& text::views(result.bind_addresses@) == seq!["0.0.0.0"@]
    &&& result.domains@.len() == 0
    &&& result.config == config.default_plugin_config
    &&& result.middleware_chain@.len() == 0
    &&& result.load_balancing is None
    &&& result.health_check == Some(
        HealthCheckConfig {
            enabled: true,
            interval_seconds: config.health_check_interval_seconds,
            timeout_seconds: 10,
            custom_check: None,
        },
    )
}

/// What registering a plugin with a configuration does to a registry, and what it gives: the
/// plugin is there, unless something is wrong with it.
pub open spec fn is_registering(
    before: RegistryView,
    after: RegistryView,
    loaded: (String, u64),
    config: PluginConfig,
    fault: Option<Seq<char>>,
    now: SystemTime,
    outcome: std::result::Result<String, String>,
) -> bool {
    let name = loaded.0@;
    match fault {
        Some(m) => after == before && says(outcome, m),
        None => {
            &&& outcome == Ok::<String, String>(loaded.0)
            &&& after == before.registered(name, after.plugins[name], config)
            &&& is_fresh(after.plugins[name], loaded.1, name, config, now)
        },
    }
}

/// What registering a plugin without a configuration of its own does to a registry, and what it
/// gives: it gets the default configuration, unless its name is taken.
pub open spec fn is_default_registering(
    before: RegistryView,
    after: RegistryView,
    loaded: (String, u64),
    defaults: PluginManagerConfig,
    now: SystemTime,
    outcome: std::result::Result<String, String>,
) -> bool {
    let name = loaded.0@;
    if before.plugins.contains_key(name) {
        after == before && says(outcome, already_registered(name))
    } else {
        &&& outcome == Ok::<String, String>(loaded.0)
        &&& after == before.registered(name, after.plugins[name], after.configs[name])
        &&& is_default_config(after.configs[name], defaults, name)
        &&& is_fresh(after.plugins[name], loaded.1, name, after.configs[name], now)
    }
}

/// The registry went through these states while plugins were registered one after the other, each
/// with the default configuration.
pub open spec fn are_default_registerings(
    states: Seq<RegistryView>,
    loaded: Seq<(String, u64)>,
    defaults: PluginManagerConfig,
    now: SystemTime,
    outcomes: Seq<std::result::Result<String, String>>,
) -> bool {
    &&& states.len() == loaded.len() + 1
    &&& outcomes.len() == loaded.len()
    &&& forall|i: int|
        0 <= i < loaded.len() ==> is_default_registering(
            states[i],
            states[i + 1],
            #[trigger] loaded[i],
            defaults,
            now,
            outcomes[i],
        )
}

/// Whether a plugin of this name is among those that were loaded.
pub open spec fn was_loaded(loaded: Seq<(String, u64)>, name: Seq<char>) -> bool {
    exists|i: int| 0 <= i < loaded.len() && (#[trigger] loaded[i]).0@ == name
}

impl PluginManager {
    /// Nothing differs but the plugins that are loaded and registered.
    pub open spec fn same_but_plugins(self, before: PluginManager) -> bool {
        self == (PluginManager { loader: self.loader, registry: self.registry, ..before })
    }

    pub open spec fn wf(self) -> bool {
        &&& self.loader.wf()
        &&& self.registry.wf()
        &&& self.event_bus.wf()
    }

    pub fn new(config: PluginManagerConfig) -> (result: Self)
        ensures
            result.wf(),
            result.config == config,
            same_loader_config(result.loader.config, config.loader),
            result.loader.loaded_plugins@ == Map::<Seq<char>, LoadedPluginInfo>::empty(),
            result.registry@ == RegistryView::empty(),
            !result.processing_events,
            result.health_monitor == (HealthMonitor {
                interval_seconds: config.health_check_interval_seconds,
                running: false,
            }),
            result.metrics_collector == (MetricsCollector {
                interval_seconds: config.metrics_collection_interval_seconds,
                running: false,
            }),
            result.event_bus.subscribers@ == Map::<Seq<char>, Vec<u64>>::empty(),
            !result.running,
    {
        let health_monitor = HealthMonitor::new(config.health_check_interval_seconds);
        let metrics_collector = MetricsCollector::new(config.metrics_collection_interval_seconds);
        let loader = PluginLoader::new(config.loader.copy());
        PluginManager {
            config,
            loader,
            registry: PluginRegistry::new(),
            processing_events: false,
            health_monitor,
            metrics_collector,
            event_bus: EventBus::new(),
            running: false,
        }
    }

    /// Start the plugin manager, up to the point where plugins are loaded. The events can be taken
    /// in only once.
    pub fn start(&mut self) -> (result: std::result::Result<(), String>)
        ensures
            final(self).config == old(self).config,
            final(self).loader == old(self).loader,
            final(self).registry == old(self).registry,
            final(self).event_bus == old(self).event_bus,
            final(self).running,
            final(self).processing_events,
            if old(self).processing_events {
                &&& says(result, "Event processor already started"@)
                &&& final(self).health_monitor == old(self).health_monitor
                &&& final(self).metrics_collector == old(self).metrics_collector
            } else {
                &&& result is Ok
                &&& final(self).health_monitor == (HealthMonitor {
                    running: true,
                    ..old(self).health_monitor
                })
                &&& final(self).metrics_collector == (MetricsCollector {
                    running: true,
                    ..old(self).metrics_collector
                })
            },
    {
        self.running = true;
        if self.processing_events {
            return Err("Event processor already started".to_string());
        }
        self.processing_events = true;
        self.health_monitor.start();
        self.metrics_collector.start();
        Ok(())
    }

    /// Stop the plugin manager: no plugin is meant to run, and nothing is loaded any longer. The
    /// result is the names of the plugins to be stopped.
    pub fn stop(&mut self) -> (result: Vec<String>)
        requires
            old(self).wf(),
        ensures
            final(self).wf(),
            final(self).config == old(self).config,
            !final(self).running,
            final(self).processing_events == old(self).processing_events,
            final(self).health_monitor == (HealthMonitor {
                running: false,
                ..old(self).health_monitor
            }),
            final(self).metrics_collector == (MetricsCollector {
                running: false,
                ..old(self).metrics_collector
            }),
            final(self).event_bus == old(self).event_bus,
            final(self).registry@ == (RegistryView {
                plugins: all_stopped(old(self).registry@.plugins),
                ..old(self).registry@
            }),
            final(self).loader.config == old(self).loader.config,
            final(self).loader.loaded_libraries@ == Map::<Seq<char>, u64>::empty(),
            final(self).loader.loaded_plugins@ == Map::<Seq<char>, LoadedPluginInfo>::empty(),
            final(self).loader.file_watchers@ == Map::<Seq<char>, u64>::empty(),
            text::views(result@).no_duplicates(),
            forall|n: Seq<char>| #[trigger]
                old(self).registry@.plugins.contains_key(n) <==> text::views(result@).contains(n),
    {
        self.running = false;
        let names = self.registry.shutdown_all();
        self.health_monitor.stop();
        self.metrics_collector.stop();
        let _ = self.loader.shutdown();
        names
    }

    /// Load a specific plugin by path: registers the plugin that was loaded, with this configuration
    /// or the default one. The result is its name; it is to be started next.
    pub fn load_plugin_from_path(
        &mut self,
        loaded: std::result::Result<(String, u64), String>,
        config: Option<PluginConfig>,
        now: SystemTime,
    ) -> (result: std::result::Result<String, String>)
        requires
            old(self).wf(),
        ensures
            final(self).wf(),
            final(self).same_but_plugins(*old(self)),
            final(self).loader == old(self).loader,
            match (loaded, config) {
                (Err(e), _) => {
                    &&& final(self).registry@ == old(self).registry@
                    &&& result == Err::<String, String>(e)
                },
                (Ok(l), Some(c)) => is_registering(
                    old(self).registry@,
                    final(self).registry@,
                    l,
                    c,
                    old(self).registry@.register_fault(l.0@, c),
                    now,
                    result,
                ),
                (Ok(l), None) => is_default_registering(
                    old(self).registry@,
                    final(self).registry@,
                    l,
                    old(self).config,
                    now,
                    result,
                ),
            },
    {
        let (name, plugin) = match loaded {
            Ok(l) => l,
            Err(e) => {
                return Err(e);
            },
        };
        match config {
            Some(c) => match self.registry.register_plugin(name.clone(), plugin, c, now) {
                Ok(()) => Ok(name),
                Err(e) => Err(e),
            },
            None => self.register_by_default(name, plugin, now),
        }
    }

    /// Registers a plugin with the default configuration, which needs neither port nor domain.
    fn register_by_default(&mut self, name: String, plugin: u64, now: SystemTime) -> (result:
        std::result::Result<String, String>)
        requires
            old(self).wf(),
        ensures
            final(self).wf(),
            final(self).same_but_plugins(*old(self)),
            final(self).loader == old(self).loader,
            is_default_registering(
                old(self).registry@,
                final(self).registry@,
                (name, plugin),
                old(self).config,
                now,
                result,
            ),
    {
        let config = self.create_default_plugin_config(name.as_str());
        assert(settings_fault(name@, config) is None);
        assert(first_taken(self.registry@.ports, config.bind_ports@) is None);
        match self.registry.admit_plugin(name.clone(), plugin, config, now) {
            Ok(()) => Ok(name),
            Err(e) => Err(e),
        }
    }

    /// Registers a plugin that was loaded again, with the configuration that it had.
    pub fn restore_plugin(
        &mut self,
        loaded: std::result::Result<(String, u64), String>,
        config: Option<PluginConfig>,
        now: SystemTime,
    ) -> (result: std::result::Result<String, String>)
        requires
            old(self).wf(),
        ensures
            final(self).wf(),
            final(self).same_but_plugins(*old(self)),
            final(self).loader == old(self).loader,
            match (loaded, config) {
                (Err(e), _) => {
                    &&& final(self).registry@ == old(self).registry@
                    &&& result == Err::<String, String>(e)
                },
                (Ok(l), Some(c)) => is_registering(
                    old(self).registry@,
                    final(self).registry@,
                    l,
                    c,
                    old(self).registry@.admit_fault(l.0@, c),
                    now,
                    result,
                ),
                (Ok(l), None) => is_default_registering(
                    old(self).registry@,
                    final(self).registry@,
                    l,
                    old(self).config,
                    now,
                    result,
                ),
            },
    {
        let (name, plugin) = match loaded {
            Ok(l) => l,
            Err(e) => {
                return Err(e);
            },
        };
        match config {
            Some(c) => match self.registry.admit_plugin(name.clone(), plugin, c, now) {
                Ok(()) => Ok(name),
                Err(e) => Err(e),
            },
            None => self.register_by_default(name, plugin, now),
        }
    }

    /// Registers the plugins that were loaded from the configured directories, one after the other
    /// and with the default configuration, and tells for each what came of it. All of them are
    /// registered then; only a name that was taken already is refused.
    pub fn load_all_plugins(&mut self, loaded: Vec<(String, u64)>, now: SystemTime) -> (result: Vec<
        std::result::Result<String, String>,
    >)
        requires
            old(self).wf(),
        ensures
            final(self).wf(),
            final(self).same_but_plugins(*old(self)),
            final(self).loader == old(self).loader,
            exists|states: Seq<RegistryView>| #[trigger]
                are_default_registerings(states, loaded@, old(self).config, now, result@)
                    && states[0] == old(self).registry@ && states.last() == final(self).registry@,
            forall|n: Seq<char>| #[trigger]
                final(self).registry@.plugins.contains_key(n)
                    <==> old(self).registry@.plugins.contains_key(n) || was_loaded(loaded@, n),
            forall|i: int|
                0 <= i < loaded@.len() ==> ((#[trigger] result@[i]) is Ok
                    <==> !old(self).registry@.plugins.contains_key(loaded@[i].0@) && !was_loaded(
                    loaded@.take(i),
                    loaded@[i].0@,
                )),
    {
        let mut outcomes: Vec<std::result::Result<String, String>> = Vec::new();
        let ghost list = loaded@;
        let ghost mut states: Seq<RegistryView> = seq![self.registry@];
        for plugin in it: loaded
            invariant
                it.seq() == list,
                self.wf(),
                self.same_but_plugins(*old(self)),
                self.loader == old(self).loader,
                are_default_registerings(
                    states,
                    list.take(it.index() as int),
                    old(self).config,
                    now,
                    outcomes@,
                ),
                states[0] == old(self).registry@,
                states.last() == self.registry@,
                forall|n: Seq<char>| #[trigger]
                    self.registry@.plugins.contains_key(n)
                        <==> old(self).registry@.plugins.contains_key(n) || was_loaded(
                        list.take(it.index() as int),
                        n,
                    ),
                forall|i: int|
                    0 <= i < it.index() ==> ((#[trigger] outcomes@[i]) is Ok
                        <==> !old(self).registry@.plugins.contains_key(list[i].0@) && !was_loaded(
                        list.take(i),
                        list[i].0@,
                    )),
        {
            let ghost n = it.index() as int;
            let ghost before = list.take(n);
            let ghost after = list.take(n + 1);
            let ghost known = self.registry@;
            let ghost reached = states;
            let (name, number) = plugin;
            let outcome = self.register_by_default(name, number, now);
            outcomes.push(outcome);
            proof {
                states = states.push(self.registry@);
                assert(after =~= before.push(list[n]));
                assert forall|i: int| 0 <= i < after.len() implies is_default_registering(
                    states[i],
                    states[i + 1],
                    #[trigger] after[i],
                    old(self).config,
                    now,
                    outcomes@[i],
                ) by {
                    if i < n {
                        assert(before[i] == after[i]);
                        assert(states[i] == reached[i] && states[i + 1] == reached[i + 1]);
                    }
                }
                assert forall|m: Seq<char>| was_loaded(after, m) <==> was_loaded(before, m) || m
                    == list[n].0@ by {
                    if was_loaded(before, m) {
                        let i = choose|i: int|
                            0 <= i < before.len() && (#[trigger] before[i]).0@ == m;
                        assert(after[i].0@ == m);
                    }
                    if m == list[n].0@ {
                        assert(after[n].0@ == m);
                    }
                    if was_loaded(after, m) {
                        let i = choose|i: int| 0 <= i < after.len() && (#[trigger] after[i]).0@ == m;
                        if i < n {
                            assert(before[i].0@ == m);
                        }
                    }
                }
            }
        }
        proof {
            assert(list.take(list.len() as int) =~= list);
        }
        outcomes
    }

    /// Unload a plugin, given what came of its `stop` when it was stopped and again when it was
    /// unregistered. The result tells what is to be closed and stopped.
    pub fn unload_plugin(
        &mut self,
        name: &str,
        stopped: std::result::Result<(), String>,
        stopped_again: std::result::Result<(), String>,
    ) -> (result: std::result::Result<Released, String>)
        requires
            old(self).wf(),
        ensures
            final(self).wf(),
            final(self).same_but_plugins(*old(self)),
            if !old(self).registry@.plugins.contains_key(name@) {
                &&& says(result, not_found(name@))
                &&& final(self).registry@ == old(self).registry@
                &&& final(self).loader == old(self).loader
            } else if stopped is Err || stopped_again is Err {
                &&& result is Err
                &&& result->Err_0 == (match stopped {
                    Err(e) => e,
                    Ok(()) => stopped_again->Err_0,
                })
                &&& final(self).registry@ == old(self).registry@.with_plugin(
                    name@,
                    (PluginWrapper { running: false, ..old(self).registry@.plugins[name@] }),
                )
                &&& final(self).loader == old(self).loader
            } else {
                &&& final(self).registry@ == old(self).registry@.unregistered(name@)
                &&& unloaded(old(self).loader, final(self).loader, name@, result)
            },
    {
        let ghost before = self.registry@;
        if let Err(e) = self.registry.stop_plugin(name, stopped) {
            return Err(e);
        }
        if let Err(e) = self.registry.unregister_plugin(name, stopped_again) {
            proof {
                let off = PluginWrapper { running: false, ..before.plugins[name@] };
                assert(before.with_plugin(name@, off).with_plugin(name@, off)
                    =~= before.with_plugin(name@, off));
            }
            return Err(e);
        }
        proof {
            let off = PluginWrapper { running: false, ..before.plugins[name@] };
            assert(before.with_plugin(name@, off).unregistered(name@)
                =~= before.unregistered(name@));
        }
        self.loader.unload_plugin(name)
    }

    /// What a plugin is to be loaded again from: the path of its file, and its configuration.
    pub fn reload_source(&self, name: &str) -> (result: std::result::Result<
        (String, Option<PluginConfig>),
        String,
    >)
        requires
            self.wf(),
        ensures
            if self.loader.loaded_plugins@.contains_key(name@) {
                &&& result matches Ok((path, config))
                &&& path == self.loader.loaded_plugins@[name@].path
                &&& match config {
                    Some(c) => self.registry@.configs.contains_key(name@)
                        && same_config(c, self.registry@.configs[name@]),
                    None => !self.registry@.configs.contains_key(name@),
                }
            } else {
                says(result, "Cannot find plugin file for '"@ + name@ + "'"@)
            },
    {
        let config = match self.registry.get_plugin_config(name) {
            Some(c) => Some(c.copy()),
            None => None,
        };
        match self.loader.get_loaded_plugin(name) {
            Some(loaded) => Ok((loaded.path.clone(), config)),
            None => Err(text::cat3("Cannot find plugin file for '", name, "'")),
        }
    }

    /// Route a request to appropriate plugin(s).
    pub fn route_request(&self, domain: &str, path: &str) -> (result: std::result::Result<
        Vec<String>,
        String,
    >)
        requires
            self.wf(),
        ensures
            match result {
                Ok(names) => {
                    &&& names@.len() > 0
                    &&& sorted(text::views(names@))
                    &&& forall|n: Seq<char>| #[trigger]
                        text::views(names@).contains(n) <==> serves(
                            self.registry@.domains,
                            domain@,
                            n,
                        )
                },
                Err(e) => {
                    &&& e@ == "No plugin found for domain: "@ + domain@
                    &&& forall|n: Seq<char>| !serves(self.registry@.domains, domain@, n)
                },
            },
    {
        let plugins = self.registry.find_plugins_for_domain(domain, path);
        if plugins.len() == 0 {
            assert(text::views(plugins@).len() == 0);
            assert forall|n: Seq<char>| !serves(self.registry@.domains, domain@, n) by {
                assert(!text::views(plugins@).contains(n));
            }
            return Err(text::cat2("No plugin found for domain: ", domain));
        }
        Ok(plugins)
    }

    /// The number of the plugin that a command is for.
    pub fn execute_plugin_command(&self, plugin_name: &str) -> (result: std::result::Result<u64, String>)
        ensures
            if self.registry@.plugins.contains_key(plugin_name@) {
                result == Ok::<u64, String>(self.registry@.plugins[plugin_name@].plugin)
            } else {
                says(result, not_found(plugin_name@))
            },
    {
        match self.registry.get_plugin(plugin_name) {
            Some(plugin) => Ok(plugin),
            None => Err(text::cat3("Plugin '", plugin_name, "' not found")),
        }
    }

    /// Create default plugin configuration.
    pub fn create_default_plugin_config(&self, plugin_name: &str) -> (result: PluginConfig)
        ensures
            is_default_config(result, self.config, plugin_name@),
    {
        let mut addresses: Vec<String> = Vec::new();
        addresses.push("0.0.0.0".to_string());
        assert(text::views(addresses@) =~= seq!["0.0.0.0"@]);
        PluginConfig {
            name: plugin_name.to_string(),
            enabled: true,
            priority: 0,
            bind_ports: Vec::new(),
            bind_addresses: addresses,
            domains: Vec::new(),
            config: self.config.default_plugin_config.clone(),
            middleware_chain: Vec::new(),
            load_balancing: None,
            health_check: Some(
                HealthCheckConfig {
                    enabled: true,
                    interval_seconds: self.config.health_check_interval_seconds,
                    timeout_seconds: 10,
                    custom_check: None,
                },
            ),
        }
    }

    /// Get manager statistics, given the metrics of the plugins.
    pub fn get_statistics(&self, metrics: &NameMap<PluginMetrics>) -> (result:
        PluginManagerStatistics)
        requires
            self.wf(),
            total_size(self.loader.loaded_plugins.entries@) <= u64::MAX,
            total(metrics.entries@, Counter::ConnectionsActive) <= u64::MAX,
            total(metrics.entries@, Counter::ConnectionsTotal) <= u64::MAX,
            total(metrics.entries@, Counter::Errors) <= u64::MAX,
        ensures
            result.total_plugins == self.registry@.plugins.dom().len(),
            result.running_plugins == result.total_plugins,
            result.loader_statistics.total_plugins == self.loader.loaded_plugins.entries@.len(),
            result.loader_statistics.total_libraries == self.loader.loaded_libraries.entries@.len(),
            result.loader_statistics.active_watchers == self.loader.file_watchers.entries@.len(),
            result.loader_statistics.total_file_size_bytes == total_size(
                self.loader.loaded_plugins.entries@,
            ),
            result.loader_statistics.directories_watched
                == self.loader.config.plugin_directories@.len(),
            result.loader_statistics.auto_reload_enabled == self.loader.config.auto_reload,
            result.total_connections == total(metrics.entries@, Counter::ConnectionsActive),
            result.total_requests == total(metrics.entries@, Counter::ConnectionsTotal),
            result.total_errors == total(metrics.entries@, Counter::Errors),
            result.uptime_seconds == 0,
    {
        let loader_statistics = self.loader.get_statistics();
        let plugins = self.registry.list_plugins();
        proof {
            let names = text::views(plugins@);
            names.unique_seq_to_set();
            assert(names.to_set() =~= self.registry@.plugins.dom()) by {
                assert forall|n: Seq<char>| names.to_set().contains(n)
                    <==> self.registry@.plugins.dom().contains(n) by {
                    assert(self.registry@.plugins.contains_key(n) <==> names.contains(n));
                }
            }
        }
        PluginManagerStatistics {
            total_plugins: plugins.len(),
            running_plugins: plugins.len(),
            loader_statistics,
            total_connections: sum_of(metrics, Counter::ConnectionsActive),
            total_requests: sum_of(metrics, Counter::ConnectionsTotal),
            total_errors: sum_of(metrics, Counter::Errors),
            uptime_seconds: 0,
        }
    }
}

/// Messages are logged at the level that they name; all others are informational.
pub proof fn law_levels_are_as_named(level: Seq<char>)
    ensures
        level_of(level) == LogLevel::Error <==> level == "error"@,
        level_of(level) == LogLevel::Warn <==> level == "warn"@,
        level_of(level) == LogLevel::Debug <==> level == "debug"@,
{
    reveal_strlit("error");
    reveal_strlit("warn");
    reveal_strlit("debug");
    assert("error"@[0] == 'e' && "warn"@[0] == 'w' && "debug"@[0] == 'd');
}

/// A message is logged and every other event is published.
pub proof fn law_messages_are_logged(event: RouterEvent, handling: EventHandling)
    requires
        is_handling(event, handling),
    ensures
        handling is Log <==> event is LogMessage,
        handling is Publish <==> !(event is LogMessage),
{
}

} // verus!
