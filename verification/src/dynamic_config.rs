//! Configuration that changes while the router runs: routes, settings, and the file they come from.
pub mod api;

use vstd::prelude::*;

use crate::name_map::NameMap;
use crate::proxies::says;
use crate::text;
use crate::time::SystemTime;

verus! {

broadcast use vstd::string::group_string_axioms;

/// Configuration of the proxy.
#[derive(Debug)]
pub struct ProxyConfig {
    pub listen_addr: String,
    pub global_timeout_ms: u64,
    pub max_connections: usize,
    pub routes: NameMap<RouteConfig>,
    pub tcp_proxy: TcpProxyConfig,
}

/// Where requests of a route go, and how.
#[derive(Debug, Clone)]
pub struct RouteConfig {
    pub upstream: String,
    pub timeout_ms: Option<u64>,
    pub retry_count: Option<u32>,
    pub priority: Option<i32>,
    pub preserve_host_header: Option<bool>,
    pub is_tcp: bool,
    pub tcp_listen_port: Option<u16>,
    pub is_udp: Option<bool>,
    pub udp_listen_port: Option<u16>,
    pub db_type: Option<String>,
}

/// Settings of the TCP and UDP proxies.
#[derive(Debug, Clone)]
pub struct TcpProxyConfig {
    pub enabled: bool,
    pub listen_addr: String,
    pub connection_pooling: bool,
    pub max_idle_time_secs: u64,
    pub udp_enabled: bool,
    pub udp_listen_addr: String,
}

/// Event types for configuration changes.
#[derive(Debug)]
pub enum ConfigEvent {
    FullUpdate(ProxyConfig),
    RouteAdded(String, RouteConfig),
    RouteUpdated(String, RouteConfig),
    RouteRemoved(String),
    TcpConfigUpdated(TcpProxyConfig),
    GlobalSettingsUpdated {
        listen_addr: Option<String>,
        global_timeout_ms: Option<u64>,
        max_connections: Option<usize>,
    },
}

/// What a change asks for: an event to send, and the file to save the configuration to.
#[derive(Debug)]
pub struct ConfigChange {
    pub event: ConfigEvent,
    pub save_to: Option<String>,
}

/// What came of reading a configuration file.
#[derive(Debug)]
pub enum FileContent {
    Unreadable,
    Unparsable,
    Config(ProxyConfig),
}

/// What a watcher does after a look at the file.
#[derive(Debug, Clone, Copy, PartialEq, Eq, Structural)]
pub enum WatchStep {
    Stop,
    Wait,
    Reload,
}

// ---------------------------------------------------------------------------------------------
// Copies
// ---------------------------------------------------------------------------------------------

pub(crate) fn copy_option(s: &Option<String>) -> (result: Option<String>)
    ensures
        result == *s,
{
    match s {
        Some(t) => Some(t.clone()),
        None => None,
    }
}

impl RouteConfig {
    /// The same once more.
    pub fn copy(&self) -> (result: Self)
        ensures
            result == *self,
    {
        RouteConfig {
            upstream: self.upstream.clone(),
            timeout_ms: self.timeout_ms,
            retry_count: self.retry_count,
            priority: self.priority,
            preserve_host_header: self.preserve_host_header,
            is_tcp: self.is_tcp,
            tcp_listen_port: self.tcp_listen_port,
            is_udp: self.is_udp,
            udp_listen_port: self.udp_listen_port,
            db_type: copy_option(&self.db_type),
        }
    }
}

impl TcpProxyConfig {
    /// The same once more.
    pub fn copy(&self) -> (result: Self)
        ensures
            result == *self,
    {
        TcpProxyConfig {
            enabled: self.enabled,
            listen_addr: self.listen_addr.clone(),
            connection_pooling: self.connection_pooling,
            max_idle_time_secs: self.max_idle_time_secs,
            udp_enabled: self.udp_enabled,
            udp_listen_addr: self.udp_listen_addr.clone(),
        }
    }
}

/// Whether two configurations say the same.
pub open spec fn same_proxy_config(a: ProxyConfig, b: ProxyConfig) -> bool {
    &&& a.listen_addr == b.listen_addr
    &&& a.global_timeout_ms == b.global_timeout_ms
    &&& a.max_connections == b.max_connections
    &&& a.routes.entries@ == b.routes.entries@
    &&& a.tcp_proxy == b.tcp_proxy
}

impl ProxyConfig {
    /// The same once more.
    pub fn copy(&self) -> (result: Self)
        ensures
            same_proxy_config(result, *self),
    {
        ProxyConfig {
            listen_addr: self.listen_addr.clone(),
            global_timeout_ms: self.global_timeout_ms,
            max_connections: self.max_connections,
            routes: copy_routes(&self.routes),
            tcp_proxy: self.tcp_proxy.copy(),
        }
    }
}

/// The same routes once more.
pub fn copy_routes(routes: &NameMap<RouteConfig>) -> (result: NameMap<RouteConfig>)
    ensures
        result.entries@ == routes.entries@,
{
    let mut entries: Vec<(String, RouteConfig)> = Vec::new();
    let mut i: usize = 0;
    while i < routes.entries.len()
        invariant
            i <= routes.entries@.len(),
            entries@ == routes.entries@.take(i as int),
        decreases routes.entries@.len() - i,
    {
        entries.push((routes.entries[i].0.clone(), routes.entries[i].1.copy()));
        i += 1;
    }
    assert(entries@ =~= routes.entries@);
    NameMap { entries }
}

// ---------------------------------------------------------------------------------------------
// Watchers
// ---------------------------------------------------------------------------------------------

/// The watchers that are at work, by their ids.
pub type WatcherMap = dashmap::DashMap<String, (), std::collections::hash_map::RandomState>;

/// The ids that a `dashmap` map of watchers holds.
pub uninterp spec fn watcher_contents(
    m: dashmap::DashMap<String, (), std::collections::hash_map::RandomState>,
) -> Set<Seq<char>>;

/// `DashMap::new` makes a map without entries.
#[verifier::external_body]
fn watchers_new() -> (result: WatcherMap)
    ensures
        watcher_contents(result) == Set::<Seq<char>>::empty(),
{
    dashmap::DashMap::new()
}

/// `DashMap::insert` adds the id and leaves the others alone.
#[verifier::external_body]
fn watchers_insert(m: &mut WatcherMap, id: String)
    ensures
        watcher_contents(*final(m)) == watcher_contents(*old(m)).insert(id@),
{
    m.insert(id, ());
}

/// `DashMap::contains_key` tells whether the id is there.
#[verifier::external_body]
fn watchers_contain(m: &WatcherMap, id: &str) -> (result: bool)
    ensures
        result == watcher_contents(*m).contains(id@),
{
    m.contains_key(id)
}

/// `DashMap::clear` removes every id.
#[verifier::external_body]
fn watchers_clear(m: &mut WatcherMap)
    ensures
        watcher_contents(*final(m)) == Set::<Seq<char>>::empty(),
{
    m.clear()
}

/// `Uuid::new_v4`, written with hyphens: 36 characters, chosen at random.
#[verifier::external_body]
fn random_id() -> (result: String)
    ensures
        result@.len() == 36,
{
    uuid::Uuid::new_v4().to_string()
}

/// Whether a time is later than another.
pub open spec fn later(a: SystemTime, b: SystemTime) -> bool {
    a.secs > b.secs || a.secs == b.secs && a.nanos > b.nanos
}

// ---------------------------------------------------------------------------------------------
// The manager
// ---------------------------------------------------------------------------------------------

/// Manages dynamic configuration updates.
pub struct DynamicConfigManager {
    pub config: ProxyConfig,
    pub file_path: Option<String>,
    pub last_modified: Option<SystemTime>,
    pub active_watchers: WatcherMap,
}

/// That a configuration file cannot be read.
pub open spec fn unreadable(path: Seq<char>) -> Seq<char> {
    "Failed to read config from "@ + path
}

/// That a configuration file cannot be parsed.
pub open spec fn unparsable(path: Seq<char>) -> Seq<char> {
    "Failed to parse config from "@ + path
}

impl DynamicConfigManager {
    pub open spec fn wf(self) -> bool {
        self.config.routes.wf()
    }

    /// The ids of the watchers that are at work.
    pub open spec fn watchers(self) -> Set<Seq<char>> {
        watcher_contents(self.active_watchers)
    }

    /// Whether this is `before` but for its configuration.
    pub open spec fn same_but_config(self, before: Self) -> bool {
        &&& self.file_path == before.file_path
        &&& self.last_modified == before.last_modified
        &&& self.active_watchers == before.active_watchers
    }

    /// Create a new configuration manager with the given config.
    pub fn new(config: ProxyConfig) -> (result: Self)
        ensures
            result.config == config,
            result.file_path is None,
            result.last_modified is None,
            result.watchers() == Set::<Seq<char>>::empty(),
    {
        DynamicConfigManager {
            config,
            file_path: None,
            last_modified: None,
            active_watchers: watchers_new(),
        }
    }

    /// Create a new configuration manager from a file, given what came of reading it and when it was
    /// last changed.
    pub fn from_file(path: String, content: FileContent, modified: Option<SystemTime>) -> (result:
        std::result::Result<Self, String>)
        ensures
            match content {
                FileContent::Unreadable => says(result, unreadable(path@)),
                FileContent::Unparsable => says(result, unparsable(path@)),
                FileContent::Config(config) => result matches Ok(m) && m.config == config
                    && m.file_path == Some(path) && m.last_modified == modified && m.watchers()
                    == Set::<Seq<char>>::empty(),
            },
    {
        match content {
            FileContent::Unreadable => Err(
                text::cat2("Failed to read config from ", path.as_str()),
            ),
            FileContent::Unparsable => Err(
                text::cat2("Failed to parse config from ", path.as_str()),
            ),
            FileContent::Config(config) => {
                let mut manager = DynamicConfigManager::new(config);
                manager.file_path = Some(path);
                manager.last_modified = modified;
                Ok(manager)
            },
        }
    }

    /// The current configuration.
    pub fn get_config(&self) -> (result: &ProxyConfig)
        ensures
            *result == self.config,
    {
        &self.config
    }

    /// Update a specific route.
    pub fn update_route(&mut self, route_name: &str, route_config: RouteConfig) -> (result:
        ConfigChange)
        requires
            old(self).wf(),
        ensures
            final(self).wf(),
            final(self).same_but_config(*old(self)),
            final(self).config == (ProxyConfig {
                routes: final(self).config.routes,
                ..old(self).config
            }),
            final(self).config.routes@ == old(self).config.routes@.insert(
                route_name@,
                route_config,
            ),
            result.event matches ConfigEvent::RouteUpdated(n, r) && n@ == route_name@ && r
                == route_config,
            result.save_to == old(self).file_path,
    {
        let copy = route_config.copy();
        let _ = self.config.routes.insert(route_name.to_string(), route_config);
        ConfigChange {
            event: ConfigEvent::RouteUpdated(route_name.to_string(), copy),
            save_to: copy_option(&self.file_path),
        }
    }

    /// Add a new route.
    pub fn add_route(&mut self, route_name: &str, route_config: RouteConfig) -> (result:
        std::result::Result<ConfigChange, String>)
        requires
            old(self).wf(),
        ensures
            final(self).wf(),
            final(self).same_but_config(*old(self)),
            if old(self).config.routes@.contains_key(route_name@) {
                &&& *final(self) == *old(self)
                &&& says(result, "Route '"@ + route_name@ + "' already exists"@)
            } else {
                &&& final(self).config == (ProxyConfig {
                    routes: final(self).config.routes,
                    ..old(self).config
                })
                &&& final(self).config.routes@ == old(self).config.routes@.insert(
                    route_name@,
                    route_config,
                )
                &&& result matches Ok(change)
                &&& change.save_to == old(self).file_path
                &&& change.event matches ConfigEvent::RouteAdded(n, r)
                &&& n@ == route_name@
                &&& r == route_config
            },
    {
        if self.config.routes.contains_key(route_name) {
            return Err(text::cat3("Route '", route_name, "' already exists"));
        }
        let copy = route_config.copy();
        let _ = self.config.routes.insert(route_name.to_string(), route_config);
        Ok(
            ConfigChange {
                event: ConfigEvent::RouteAdded(route_name.to_string(), copy),
                save_to: copy_option(&self.file_path),
            },
        )
    }

    /// Remove a route.
    pub fn remove_route(&mut self, route_name: &str) -> (result: std::result::Result<
        ConfigChange,
        String,
    >)
        requires
            old(self).wf(),
        ensures
            final(self).wf(),
            final(self).same_but_config(*old(self)),
            if !old(self).config.routes@.contains_key(route_name@) {
                &&& *final(self) == *old(self)
                &&& says(result, "Route '"@ + route_name@ + "' does not exist"@)
            } else {
                &&& final(self).config == (ProxyConfig {
                    routes: final(self).config.routes,
                    ..old(self).config
                })
                &&& final(self).config.routes@ == old(self).config.routes@.remove(route_name@)
                &&& result matches Ok(change)
                &&& change.save_to == old(self).file_path
                &&& change.event matches ConfigEvent::RouteRemoved(n)
                &&& n@ == route_name@
            },
    {
        if self.config.routes.remove(route_name).is_none() {
            return Err(text::cat3("Route '", route_name, "' does not exist"));
        }
        Ok(
            ConfigChange {
                event: ConfigEvent::RouteRemoved(route_name.to_string()),
                save_to: copy_option(&self.file_path),
            },
        )
    }

    /// Update TCP proxy configuration.
    pub fn update_tcp_config(&mut self, tcp_config: TcpProxyConfig) -> (result: ConfigChange)
        ensures
            final(self).same_but_config(*old(self)),
            final(self).config == (ProxyConfig { tcp_proxy: tcp_config, ..old(self).config }),
            result.event == ConfigEvent::TcpConfigUpdated(tcp_config),
            result.save_to == old(self).file_path,
    {
        let copy = tcp_config.copy();
        self.config.tcp_proxy = tcp_config;
        ConfigChange {
            event: ConfigEvent::TcpConfigUpdated(copy),
            save_to: copy_option(&self.file_path),
        }
    }

    /// Update global settings: those that are given; the others stay.
    pub fn update_global_settings(
        &mut self,
        listen_addr: Option<String>,
        global_timeout_ms: Option<u64>,
        max_connections: Option<usize>,
    ) -> (result: ConfigChange)
        ensures
            final(self).same_but_config(*old(self)),
            final(self).config == with_settings(
                old(self).config,
                listen_addr,
                global_timeout_ms,
                max_connections,
            ),
            result.event == (ConfigEvent::GlobalSettingsUpdated {
                listen_addr,
                global_timeout_ms,
                max_connections,
            }),
            result.save_to == old(self).file_path,
    {
        if let Some(addr) = &listen_addr {
            self.config.listen_addr = addr.clone();
        }
        if let Some(timeout) = global_timeout_ms {
            self.config.global_timeout_ms = timeout;
        }
        if let Some(connections) = max_connections {
            self.config.max_connections = connections;
        }
        ConfigChange {
            event: ConfigEvent::GlobalSettingsUpdated {
                listen_addr,
                global_timeout_ms,
                max_connections,
            },
            save_to: copy_option(&self.file_path),
        }
    }

    /// Replace the entire configuration.
    pub fn replace_config(&mut self, new_config: ProxyConfig) -> (result: ConfigChange)
        ensures
            final(self).same_but_config(*old(self)),
            final(self).config == new_config,
            result.event matches ConfigEvent::FullUpdate(c) && same_proxy_config(c, new_config),
            result.save_to == old(self).file_path,
    {
        let copy = new_config.copy();
        self.config = new_config;
        ConfigChange {
            event: ConfigEvent::FullUpdate(copy),
            save_to: copy_option(&self.file_path),
        }
    }

    /// The file to reload the configuration from.
    pub fn reload_path(&self) -> (result: std::result::Result<&String, String>)
        ensures
            match self.file_path {
                Some(p) => result == Ok::<&String, String>(&p),
                None => says(result, "No configuration file path set"@),
            },
    {
        match &self.file_path {
            Some(p) => Ok(p),
            None => Err("No configuration file path set".to_string()),
        }
    }

    /// Reload configuration from file, given what came of reading it.
    pub fn reload_from_file(&mut self, content: FileContent) -> (result: std::result::Result<
        ConfigChange,
        String,
    >)
        ensures
            final(self).same_but_config(*old(self)),
            match (old(self).file_path, content) {
                (None, _) => *final(self) == *old(self) && says(
                    result,
                    "No configuration file path set"@,
                ),
                (Some(p), FileContent::Unreadable) => *final(self) == *old(self) && says(
                    result,
                    unreadable(p@),
                ),
                (Some(p), FileContent::Unparsable) => *final(self) == *old(self) && says(
                    result,
                    unparsable(p@),
                ),
                (Some(p), FileContent::Config(config)) => {
                    &&& final(self).config == config
                    &&& result matches Ok(change)
                    &&& change.save_to == Some(p)
                    &&& change.event matches ConfigEvent::FullUpdate(c)
                    &&& same_proxy_config(c, config)
                },
            },
    {
        let path = match self.reload_path() {
            Ok(p) => p.clone(),
            Err(e) => {
                return Err(e);
            },
        };
        match content {
            FileContent::Unreadable => Err(
                text::cat2("Failed to read config from ", path.as_str()),
            ),
            FileContent::Unparsable => Err(
                text::cat2("Failed to parse config from ", path.as_str()),
            ),
            FileContent::Config(config) => Ok(self.replace_config(config)),
        }
    }

    /// The file was written or read, and was last changed at this time.
    pub fn file_seen(&mut self, modified: Option<SystemTime>)
        ensures
            final(self).config == old(self).config,
            final(self).file_path == old(self).file_path,
            final(self).last_modified == modified,
            final(self).active_watchers == old(self).active_watchers,
    {
        self.last_modified = modified;
    }

    /// Start file watching for automatic reloading. The result is the id of the watcher.
    pub fn start_file_watcher(&mut self) -> (result: std::result::Result<String, String>)
        ensures
            final(self).config == old(self).config,
            final(self).file_path == old(self).file_path,
            final(self).last_modified == old(self).last_modified,
            match old(self).file_path {
                None => *final(self) == *old(self) && says(
                    result,
                    "No configuration file path set for watching"@,
                ),
                Some(_) => result matches Ok(id) && final(self).watchers()
                    == old(self).watchers().insert(id@),
            },
    {
        if self.file_path.is_none() {
            return Err("No configuration file path set for watching".to_string());
        }
        let id = random_id();
        watchers_insert(&mut self.active_watchers, id.clone());
        Ok(id)
    }

    /// What a watcher does, given when the file was last changed, where that is known.
    pub fn watch(&self, watcher_id: &str, modified: Option<SystemTime>) -> (result: WatchStep)
        ensures
            result == (if !self.watchers().contains(watcher_id@) {
                WatchStep::Stop
            } else {
                match modified {
                    Some(m) => if later(
                        m,
                        match self.last_modified {
                            Some(t) => t,
                            None => SystemTime { secs: 0, nanos: 0 },
                        },
                    ) {
                        WatchStep::Reload
                    } else {
                        WatchStep::Wait
                    },
                    None => WatchStep::Wait,
                }
            }),
    {
        if !watchers_contain(&self.active_watchers, watcher_id) {
            return WatchStep::Stop;
        }
        match modified {
            Some(m) => {
                let last = match self.last_modified {
                    Some(t) => t,
                    None => SystemTime { secs: 0, nanos: 0 },
                };
                if m.secs > last.secs || m.secs == last.secs && m.nanos > last.nanos {
                    WatchStep::Reload
                } else {
                    WatchStep::Wait
                }
            },
            None => WatchStep::Wait,
        }
    }

    /// Stop all file watchers.
    pub fn stop_file_watchers(&mut self)
        ensures
            final(self).config == old(self).config,
            final(self).file_path == old(self).file_path,
            final(self).last_modified == old(self).last_modified,
            final(self).watchers() == Set::<Seq<char>>::empty(),
    {
        watchers_clear(&mut self.active_watchers);
    }
}

/// A configuration with the settings that are given.
pub open spec fn with_settings(
    config: ProxyConfig,
    listen_addr: Option<String>,
    global_timeout_ms: Option<u64>,
    max_connections: Option<usize>,
) -> ProxyConfig {
    ProxyConfig {
        listen_addr: match listen_addr {
            Some(a) => a,
            None => config.listen_addr,
        },
        global_timeout_ms: match global_timeout_ms {
            Some(t) => t,
            None => config.global_timeout_ms,
        },
        max_connections: match max_connections {
            Some(m) => m,
            None => config.max_connections,
        },
        routes: config.routes,
        tcp_proxy: config.tcp_proxy,
    }
}

/// A route that was not there is gone again once it is removed, and no other route has changed.
pub proof fn law_route_round_trip(
    routes: Map<Seq<char>, RouteConfig>,
    name: Seq<char>,
    route: RouteConfig,
)
    requires
        !routes.contains_key(name),
    ensures
        routes.insert(name, route).contains_key(name),
        routes.insert(name, route)[name] == route,
        routes.insert(name, route).remove(name) == routes,
{
    assert(routes.insert(name, route).remove(name) =~= routes);
}

/// A change of no setting changes nothing.
pub proof fn law_no_settings_no_change(config: ProxyConfig)
    ensures
        with_settings(config, None, None, None) == config,
{
}

/// Times are in the order of their nanoseconds since the start.
pub proof fn law_later_is_later(a: SystemTime, b: SystemTime)
    requires
        a.nanos < 1_000_000_000,
        b.nanos < 1_000_000_000,
    ensures
        later(a, b) <==> a.secs * 1_000_000_000 + a.nanos > b.secs * 1_000_000_000 + b.nanos,
{
}

/// A setting that is given takes the place of the one that was there; the others stay, and so do the
/// routes and the TCP settings.
pub proof fn law_settings_that_are_given_change(
    config: ProxyConfig,
    listen_addr: Option<String>,
    global_timeout_ms: Option<u64>,
    max_connections: Option<usize>,
)
    ensures
        ({
            let after = with_settings(config, listen_addr, global_timeout_ms, max_connections);
            &&& listen_addr is Some ==> Some(after.listen_addr) == listen_addr
            &&& listen_addr is None ==> after.listen_addr == config.listen_addr
            &&& global_timeout_ms is Some ==> Some(after.global_timeout_ms) == global_timeout_ms
            &&& global_timeout_ms is None ==> after.global_timeout_ms == config.global_timeout_ms
            &&& max_connections is Some ==> Some(after.max_connections) == max_connections
            &&& max_connections is None ==> after.max_connections == config.max_connections
            &&& after.routes == config.routes
            &&& after.tcp_proxy == config.tcp_proxy
        }),
{
}

} // verus!
