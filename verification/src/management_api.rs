//! The management interface: which request asks for what, and the answers.
use vstd::prelude::*;

use crate::config_api::{is_name, path_segments, segments, Routed};
use crate::error::{opt_str, opt_text};
use crate::name_map::NameMap;
use crate::plugin::manager::PluginManager;
use crate::plugin::{same_config, PluginConfig, PluginHealth, PluginInfo, PluginMetrics};
use crate::routing::Ratio;
use crate::startup::VERSION;
use crate::text;

verus! {

broadcast use vstd::string::group_string_axioms;

/// Configuration of the router as the management interface shows it.
#[derive(Debug)]
pub struct RouterConfig {
    pub domains: NameMap<DomainConfig>,
}

/// How requests for a domain are handled. Settings that are only passed on are JSON texts.
#[derive(Debug)]
pub struct DomainConfig {
    pub proxy_instance: String,
    pub backend_service: Option<String>,
    pub ssl_config: Option<String>,
    pub cors_config: Option<String>,
    pub cache_config: Option<String>,
    pub custom_headers: NameMap<String>,
    pub rewrite_rules: Vec<String>,
    pub access_control: Option<String>,
}

/// Who may use the management interface.
#[derive(Debug, Clone)]
pub struct ApiAuthentication {
    pub api_keys: Vec<String>,
    pub basic_auth: Option<BasicAuth>,
    pub jwt_secret: Option<String>,
}

/// A name and a password.
#[derive(Debug, Clone)]
pub struct BasicAuth {
    pub username: String,
    pub password: String,
}

/// An answer of the management interface.
#[derive(Debug)]
pub struct ApiResponse<T> {
    pub success: bool,
    pub message: String,
    pub data: Option<T>,
    pub error: Option<String>,
    pub timestamp: String,
}

/// `chrono::Utc::now` and `to_rfc3339`: the time of the clock as text. Nothing is said of the text,
/// which differs from call to call.
#[verifier::external_body]
fn now_text() -> (result: String) {
    chrono::Utc::now().to_rfc3339()
}

impl<T> ApiResponse<T> {
    /// Whether this answer says that something was done, in these words and with this data.
    pub open spec fn reports(self, message: Seq<char>, data: Option<T>) -> bool {
        self.success && self.message@ == message && self.data == data && self.error is None
    }

    /// Whether this answer says that something failed, in these words and for this reason.
    pub open spec fn refuses(self, message: Seq<char>, reason: Option<Seq<char>>) -> bool {
        !self.success && self.message@ == message && self.data is None && opt_text(self.error)
            == reason
    }

    pub fn success(message: &str, data: Option<T>) -> (result: Self)
        ensures
            result.reports(message@, data),
    {
        ApiResponse::success_at(message, data, now_text())
    }

    pub fn error(message: &str, error_detail: Option<String>) -> (result: Self)
        ensures
            result.refuses(message@, opt_text(error_detail)),
    {
        ApiResponse::error_at(message, error_detail, now_text())
    }

    /// The answer that something was done, given at this time.
    pub fn success_at(message: &str, data: Option<T>, timestamp: String) -> (result: Self)
        ensures
            result.reports(message@, data),
            result.timestamp == timestamp,
    {
        ApiResponse { success: true, message: message.to_string(), data, error: None, timestamp }
    }

    /// The answer that something failed, given at this time.
    pub fn error_at(message: &str, error_detail: Option<String>, timestamp: String) -> (result: Self)
        ensures
            result.refuses(message@, opt_text(error_detail)),
            result.timestamp == timestamp,
    {
        ApiResponse {
            success: false,
            message: message.to_string(),
            data: None,
            error: error_detail,
            timestamp,
        }
    }
}

/// Whether a plugin is to run.
#[derive(Debug, Clone, Copy, PartialEq, Eq, Structural)]
pub struct PluginStatusRequest {
    pub enabled: bool,
}

/// The new configuration of a plugin, as JSON text.
#[derive(Debug, Clone)]
pub struct PluginConfigUpdateRequest {
    pub config: String,
}

/// A route to be created for a domain.
#[derive(Debug)]
pub struct RouteCreateRequest {
    pub domain: String,
    pub proxy_instance: String,
    pub config: Option<DomainConfig>,
}

/// The state of the router.
#[derive(Debug)]
pub struct SystemStatus {
    pub uptime_seconds: u64,
    pub version: String,
    pub total_plugins: usize,
    pub running_plugins: usize,
    pub total_connections: u64,
    pub memory_usage_mb: Ratio,
    pub cpu_usage_percent: Ratio,
}

// ---------------------------------------------------------------------------------------------
// Requests
// ---------------------------------------------------------------------------------------------

/// What a request asks for.
#[derive(Debug)]
pub enum ManagementAction {
    SystemStatus,
    SystemShutdown,
    SystemVersion,
    ListPlugins,
    GetPlugin(String),
    ReloadPlugin(String),
    UpdatePluginConfig(String),
    PluginCommand(String),
    GetConfig,
    UpdateConfig,
    ReloadConfig,
    CreateRoute,
    DeleteRoute(String),
    OverallHealth,
    PluginHealth,
    GetMetrics,
    PrometheusMetrics,
}

/// A [`ManagementAction`] with its names taken as sequences of characters.
pub enum ActionView {
    SystemStatus,
    SystemShutdown,
    SystemVersion,
    ListPlugins,
    GetPlugin(Seq<char>),
    ReloadPlugin(Seq<char>),
    UpdatePluginConfig(Seq<char>),
    PluginCommand(Seq<char>),
    GetConfig,
    UpdateConfig,
    ReloadConfig,
    CreateRoute,
    DeleteRoute(Seq<char>),
    OverallHealth,
    PluginHealth,
    GetMetrics,
    PrometheusMetrics,
}

impl View for ManagementAction {
    type V = ActionView;

    open spec fn view(&self) -> ActionView {
        match *self {
            ManagementAction::SystemStatus => ActionView::SystemStatus,
            ManagementAction::SystemShutdown => ActionView::SystemShutdown,
            ManagementAction::SystemVersion => ActionView::SystemVersion,
            ManagementAction::ListPlugins => ActionView::ListPlugins,
            ManagementAction::GetPlugin(n) => ActionView::GetPlugin(n@),
            ManagementAction::ReloadPlugin(n) => ActionView::ReloadPlugin(n@),
            ManagementAction::UpdatePluginConfig(n) => ActionView::UpdatePluginConfig(n@),
            ManagementAction::PluginCommand(n) => ActionView::PluginCommand(n@),
            ManagementAction::GetConfig => ActionView::GetConfig,
            ManagementAction::UpdateConfig => ActionView::UpdateConfig,
            ManagementAction::ReloadConfig => ActionView::ReloadConfig,
            ManagementAction::CreateRoute => ActionView::CreateRoute,
            ManagementAction::DeleteRoute(n) => ActionView::DeleteRoute(n@),
            ManagementAction::OverallHealth => ActionView::OverallHealth,
            ManagementAction::PluginHealth => ActionView::PluginHealth,
            ManagementAction::GetMetrics => ActionView::GetMetrics,
            ManagementAction::PrometheusMetrics => ActionView::PrometheusMetrics,
        }
    }
}

/// Where a request leads, with names taken as sequences of characters.
pub open spec fn routed_view(routed: Routed<ManagementAction>) -> Routed<ActionView> {
    match routed {
        Routed::Action(a) => Routed::Action(a@),
        Routed::MethodNotAllowed => Routed::MethodNotAllowed,
        Routed::NotFound => Routed::NotFound,
    }
}

/// A known path leads to an action with one method only.
pub open spec fn only(method: Seq<char>, wanted: Seq<char>, action: ActionView) -> Routed<
    ActionView,
> {
    if method == wanted {
        Routed::Action(action)
    } else {
        Routed::MethodNotAllowed
    }
}

fn only_with(method: &str, wanted: &str, action: ManagementAction) -> (result: Routed<
    ManagementAction,
>)
    ensures
        routed_view(result) == only(method@, wanted@, action@),
{
    if text::eq(method, wanted) {
        Routed::Action(action)
    } else {
        Routed::MethodNotAllowed
    }
}

/// Whether a path begins with `api` and this name.
pub open spec fn under(names: Seq<Seq<char>>, group: Seq<char>) -> bool {
    names.len() >= 2 && names[0] == "api"@ && names[1] == group
}

fn is_under(names: &Vec<String>, group: &str) -> (result: bool)
    ensures
        result == under(text::views(names@), group@),
{
    names.len() >= 2 && is_name(names, 0, "api") && is_name(names, 1, group)
}

/// Where requests to the system lead.
pub open spec fn system_action(method: Seq<char>, names: Seq<Seq<char>>) -> Routed<ActionView> {
    if !under(names, "system"@) || names.len() != 3 {
        Routed::NotFound
    } else if names[2] == "status"@ {
        only(method, "GET"@, ActionView::SystemStatus)
    } else if names[2] == "shutdown"@ {
        only(method, "POST"@, ActionView::SystemShutdown)
    } else if names[2] == "version"@ {
        only(method, "GET"@, ActionView::SystemVersion)
    } else {
        Routed::NotFound
    }
}

/// Where requests about plugins lead.
pub open spec fn plugin_action(method: Seq<char>, names: Seq<Seq<char>>) -> Routed<ActionView> {
    if !under(names, "plugins"@) {
        Routed::NotFound
    } else if names.len() == 2 {
        only(method, "GET"@, ActionView::ListPlugins)
    } else if names[2].len() == 0 {
        Routed::NotFound
    } else if names.len() == 3 {
        only(method, "GET"@, ActionView::GetPlugin(names[2]))
    } else if names.len() == 4 && names[3] == "reload"@ {
        only(method, "POST"@, ActionView::ReloadPlugin(names[2]))
    } else if names.len() == 4 && names[3] == "config"@ {
        only(method, "PUT"@, ActionView::UpdatePluginConfig(names[2]))
    } else if names.len() == 4 && names[3] == "command"@ {
        only(method, "POST"@, ActionView::PluginCommand(names[2]))
    } else {
        Routed::NotFound
    }
}

/// Where requests about the configuration and its routes lead.
pub open spec fn config_action(method: Seq<char>, names: Seq<Seq<char>>) -> Routed<ActionView> {
    if under(names, "config"@) {
        if names.len() == 2 {
            if method == "PUT"@ {
                Routed::Action(ActionView::UpdateConfig)
            } else {
                only(method, "GET"@, ActionView::GetConfig)
            }
        } else if names.len() == 3 && names[2] == "reload"@ {
            only(method, "POST"@, ActionView::ReloadConfig)
        } else {
            Routed::NotFound
        }
    } else if under(names, "routes"@) {
        if names.len() == 2 {
            only(method, "POST"@, ActionView::CreateRoute)
        } else if names.len() == 3 && names[2].len() > 0 {
            only(method, "DELETE"@, ActionView::DeleteRoute(names[2]))
        } else {
            Routed::NotFound
        }
    } else {
        Routed::NotFound
    }
}

/// Where requests about health lead.
pub open spec fn health_action(method: Seq<char>, names: Seq<Seq<char>>) -> Routed<ActionView> {
    if !under(names, "health"@) {
        Routed::NotFound
    } else if names.len() == 2 {
        only(method, "GET"@, ActionView::OverallHealth)
    } else if names.len() == 3 && names[2] == "plugins"@ {
        only(method, "GET"@, ActionView::PluginHealth)
    } else {
        Routed::NotFound
    }
}

/// Where requests for metrics lead.
pub open spec fn metrics_action(method: Seq<char>, names: Seq<Seq<char>>) -> Routed<ActionView> {
    if !under(names, "metrics"@) {
        Routed::NotFound
    } else if names.len() == 2 {
        only(method, "GET"@, ActionView::GetMetrics)
    } else if names.len() == 3 && names[2] == "prometheus"@ {
        only(method, "GET"@, ActionView::PrometheusMetrics)
    } else {
        Routed::NotFound
    }
}

/// Where a request leads: what the first group says that knows its path.
pub open spec fn management_action(method: Seq<char>, names: Seq<Seq<char>>) -> Routed<ActionView> {
    if !(system_action(method, names) is NotFound) {
        system_action(method, names)
    } else if !(plugin_action(method, names) is NotFound) {
        plugin_action(method, names)
    } else if !(config_action(method, names) is NotFound) {
        config_action(method, names)
    } else if !(health_action(method, names) is NotFound) {
        health_action(method, names)
    } else {
        metrics_action(method, names)
    }
}

/// A path is known to no more than one group, so that the order of the groups does not matter.
pub proof fn law_groups_are_disjoint(method: Seq<char>, names: Seq<Seq<char>>)
    ensures
        !(system_action(method, names) is NotFound) ==> plugin_action(method, names) is NotFound
            && config_action(method, names) is NotFound && health_action(method, names) is NotFound
            && metrics_action(method, names) is NotFound,
        !(plugin_action(method, names) is NotFound) ==> config_action(method, names) is NotFound
            && health_action(method, names) is NotFound && metrics_action(method, names) is NotFound,
        !(config_action(method, names) is NotFound) ==> health_action(method, names) is NotFound
            && metrics_action(method, names) is NotFound,
        !(health_action(method, names) is NotFound) ==> metrics_action(method, names) is NotFound,
{
    reveal_strlit("system");
    reveal_strlit("plugins");
    reveal_strlit("config");
    reveal_strlit("routes");
    reveal_strlit("health");
    reveal_strlit("metrics");
    assert("system"@[0] == 's' && "system"@.len() == 6);
    assert("plugins"@[0] == 'p' && "plugins"@.len() == 7);
    assert("config"@[0] == 'c' && "config"@.len() == 6);
    assert("routes"@[0] == 'r' && "routes"@.len() == 6);
    assert("health"@[0] == 'h' && "health"@.len() == 6);
    assert("metrics"@[0] == 'm' && "metrics"@.len() == 7);
}

/// Management API server.
pub struct ManagementApi {
    pub port: u16,
    pub config: RouterConfig,
    pub serving: bool,
    pub authentication: Option<ApiAuthentication>,
}

impl ManagementApi {
    pub fn new(port: u16, config: RouterConfig) -> (result: Self)
        ensures
            result == (ManagementApi { port, config, serving: false, authentication: None }),
    {
        ManagementApi { port, config, serving: false, authentication: None }
    }

    pub fn with_authentication(self, auth: ApiAuthentication) -> (result: Self)
        ensures
            result == (ManagementApi { authentication: Some(auth), ..self }),
    {
        ManagementApi {
            port: self.port,
            config: self.config,
            serving: self.serving,
            authentication: Some(auth),
        }
    }

    /// The interface is served from now on, on every address. The result is the port.
    pub fn start(&mut self) -> (result: u16)
        ensures
            *final(self) == (ManagementApi { serving: true, ..*old(self) }),
            result == old(self).port,
    {
        self.serving = true;
        self.port
    }

    /// Whether those who serve the interface are to be told to stop.
    pub fn stop(&self) -> (result: bool)
        ensures
            result == self.serving,
    {
        self.serving
    }

    /// What a request with this method and path asks for.
    pub fn create_routes(&self, method: &str, path: &str) -> (result: Routed<ManagementAction>)
        ensures
            routed_view(result) == management_action(method@, segments(path@)),
    {
        let names = path_segments(path);
        let system = self.system_routes(method, &names);
        if !is_not_found(&system) {
            return system;
        }
        let plugins = self.plugin_routes(method, &names);
        if !is_not_found(&plugins) {
            return plugins;
        }
        let config = self.config_routes(method, &names);
        if !is_not_found(&config) {
            return config;
        }
        let health = self.health_routes(method, &names);
        if !is_not_found(&health) {
            return health;
        }
        self.metrics_routes(method, &names)
    }

    fn system_routes(&self, method: &str, names: &Vec<String>) -> (result: Routed<ManagementAction>)
        ensures
            routed_view(result) == system_action(method@, text::views(names@)),
    {
        if !is_under(names, "system") || names.len() != 3 {
            Routed::NotFound
        } else if is_name(names, 2, "status") {
            only_with(method, "GET", ManagementAction::SystemStatus)
        } else if is_name(names, 2, "shutdown") {
            only_with(method, "POST", ManagementAction::SystemShutdown)
        } else if is_name(names, 2, "version") {
            only_with(method, "GET", ManagementAction::SystemVersion)
        } else {
            Routed::NotFound
        }
    }

    fn plugin_routes(&self, method: &str, names: &Vec<String>) -> (result: Routed<ManagementAction>)
        ensures
            routed_view(result) == plugin_action(method@, text::views(names@)),
    {
        if !is_under(names, "plugins") {
            return Routed::NotFound;
        }
        let n: usize = names.len();
        if n == 2 {
            return only_with(method, "GET", ManagementAction::ListPlugins);
        }
        assert(text::views(names@)[2] == names@[2]@);
        let name = names[2].clone();
        if text::is_empty(name.as_str()) {
            Routed::NotFound
        } else if n == 3 {
            only_with(method, "GET", ManagementAction::GetPlugin(name))
        } else if n == 4 && is_name(names, 3, "reload") {
            only_with(method, "POST", ManagementAction::ReloadPlugin(name))
        } else if n == 4 && is_name(names, 3, "config") {
            only_with(method, "PUT", ManagementAction::UpdatePluginConfig(name))
        } else if n == 4 && is_name(names, 3, "command") {
            only_with(method, "POST", ManagementAction::PluginCommand(name))
        } else {
            Routed::NotFound
        }
    }

    fn config_routes(&self, method: &str, names: &Vec<String>) -> (result: Routed<ManagementAction>)
        ensures
            routed_view(result) == config_action(method@, text::views(names@)),
    {
        let n: usize = names.len();
        if is_under(names, "config") {
            if n == 2 {
                if text::eq(method, "PUT") {
                    Routed::Action(ManagementAction::UpdateConfig)
                } else {
                    only_with(method, "GET", ManagementAction::GetConfig)
                }
            } else if n == 3 && is_name(names, 2, "reload") {
                only_with(method, "POST", ManagementAction::ReloadConfig)
            } else {
                Routed::NotFound
            }
        } else if is_under(names, "routes") {
            if n == 2 {
                only_with(method, "POST", ManagementAction::CreateRoute)
            } else if n == 3 && !text::is_empty(names[2].as_str()) {
                assert(text::views(names@)[2] == names@[2]@);
                only_with(method, "DELETE", ManagementAction::DeleteRoute(names[2].clone()))
            } else {
                assert(n == 3 ==> text::views(names@)[2] == names@[2]@);
                Routed::NotFound
            }
        } else {
            Routed::NotFound
        }
    }

    fn health_routes(&self, method: &str, names: &Vec<String>) -> (result: Routed<ManagementAction>)
        ensures
            routed_view(result) == health_action(method@, text::views(names@)),
    {
        let n: usize = names.len();
        if !is_under(names, "health") {
            Routed::NotFound
        } else if n == 2 {
            only_with(method, "GET", ManagementAction::OverallHealth)
        } else if n == 3 && is_name(names, 2, "plugins") {
            only_with(method, "GET", ManagementAction::PluginHealth)
        } else {
            Routed::NotFound
        }
    }

    fn metrics_routes(&self, method: &str, names: &Vec<String>) -> (result: Routed<
        ManagementAction,
    >)
        ensures
            routed_view(result) == metrics_action(method@, text::views(names@)),
    {
        let n: usize = names.len();
        if !is_under(names, "metrics") {
            Routed::NotFound
        } else if n == 2 {
            only_with(method, "GET", ManagementAction::GetMetrics)
        } else if n == 3 && is_name(names, 2, "prometheus") {
            only_with(method, "GET", ManagementAction::PrometheusMetrics)
        } else {
            Routed::NotFound
        }
    }
}

fn is_not_found(routed: &Routed<ManagementAction>) -> (result: bool)
    ensures
        result == (routed is NotFound),
        result == (routed_view(*routed) is NotFound),
{
    match routed {
        Routed::NotFound => true,
        _ => false,
    }
}

// ---------------------------------------------------------------------------------------------
// Answers about the system
// ---------------------------------------------------------------------------------------------

/// The memory in use in megabytes, given the number of pages, where that is known.
pub open spec fn memory_usage(pages: Option<u64>) -> Ratio {
    match pages {
        Some(n) => Ratio { numerator: (n * 4096) as u128, denominator: 1_048_576 },
        None => Ratio { numerator: 0, denominator: 1 },
    }
}

/// The memory in use in megabytes, given the number of pages, where that is known.
pub fn get_memory_usage(pages: Option<u64>) -> (result: Ratio)
    ensures
        result == memory_usage(pages),
        result.denominator > 0,
{
    match pages {
        Some(n) => Ratio { numerator: n as u128 * 4096, denominator: 1_048_576 },
        None => Ratio { numerator: 0, denominator: 1 },
    }
}

/// Answers GET /api/system/status.
pub fn handle_get_system_status(plugin_manager: &PluginManager, pages: Option<u64>) -> (result:
    ApiResponse<SystemStatus>)
    requires
        plugin_manager.wf(),
    ensures
        result.reports("System status retrieved"@, result.data),
        result.data matches Some(s) && s.uptime_seconds == 0 && s.version@ == VERSION@
            && s.total_plugins == plugin_manager.registry@.plugins.dom().len() && s.running_plugins
            == s.total_plugins && s.total_connections == 0 && s.memory_usage_mb == memory_usage(
            pages,
        ) && s.cpu_usage_percent == (Ratio { numerator: 0, denominator: 1 }),
{
    let plugins = plugin_manager.registry.list_plugins();
    proof {
        let names = text::views(plugins@);
        names.unique_seq_to_set();
        assert(names.to_set() =~= plugin_manager.registry@.plugins.dom()) by {
            assert forall|n: Seq<char>| names.to_set().contains(n)
                <==> plugin_manager.registry@.plugins.dom().contains(n) by {
                assert(plugin_manager.registry@.plugins.contains_key(n) <==> names.contains(n));
            }
        }
    }
    let status = SystemStatus {
        uptime_seconds: 0,
        version: VERSION.to_string(),
        total_plugins: plugins.len(),
        running_plugins: plugins.len(),
        total_connections: 0,
        memory_usage_mb: get_memory_usage(pages),
        cpu_usage_percent: Ratio { numerator: 0, denominator: 1 },
    };
    ApiResponse::success("System status retrieved", Some(status))
}

/// Answers POST /api/system/shutdown.
pub fn handle_system_shutdown() -> (result: ApiResponse<()>)
    ensures
        result.reports("Shutdown initiated"@, None),
{
    ApiResponse::success("Shutdown initiated", None)
}

/// The version of the router, and of what and when it was built.
#[derive(Debug)]
pub struct VersionInfo {
    pub version: String,
    pub build_date: String,
    pub git_hash: String,
}

/// What is known, or else that it is not.
pub open spec fn or_unknown(known: Option<Seq<char>>) -> Seq<char> {
    match known {
        Some(k) => k,
        None => "unknown"@,
    }
}

fn known_or_unknown(known: Option<&str>) -> (result: String)
    ensures
        result@ == or_unknown(opt_str(known)),
{
    match known {
        Some(k) => k.to_string(),
        None => "unknown".to_string(),
    }
}

/// Answers GET /api/system/version, given what the build was told of itself.
pub fn handle_get_version(build_date: Option<&str>, git_hash: Option<&str>) -> (result: ApiResponse<
    VersionInfo,
>)
    ensures
        result.reports("Version information"@, result.data),
        result.data matches Some(v) && v.version@ == VERSION@ && v.build_date@ == or_unknown(
            opt_str(build_date),
        ) && v.git_hash@ == or_unknown(opt_str(git_hash)),
{
    let info = VersionInfo {
        version: VERSION.to_string(),
        build_date: known_or_unknown(build_date),
        git_hash: known_or_unknown(git_hash),
    };
    ApiResponse::success("Version information", Some(info))
}

// ---------------------------------------------------------------------------------------------
// Answers about plugins
// ---------------------------------------------------------------------------------------------

/// A plugin with all that is known of it.
#[derive(Debug)]
pub struct PluginDetails {
    pub info: PluginInfo,
    pub health: Option<PluginHealth>,
    pub metrics: Option<PluginMetrics>,
}

/// What was told, in order; what was not told is left out.
pub open spec fn told<T>(list: Seq<Option<T>>) -> Seq<T>
    decreases list.len(),
{
    if list.len() == 0 {
        Seq::empty()
    } else {
        match list.last() {
            Some(x) => told(list.drop_last()).push(x),
            None => told(list.drop_last()),
        }
    }
}

/// Answers GET /api/plugins, given what each plugin says about itself, where it does.
pub fn handle_list_plugins(infos: Vec<Option<PluginInfo>>) -> (result: ApiResponse<
    Vec<PluginInfo>,
>)
    ensures
        result.reports("Plugins listed successfully"@, result.data),
        result.data matches Some(list) && list@ == told(infos@),
{
    let mut list: Vec<PluginInfo> = Vec::new();
    let ghost all = infos@;
    assert(told(all.take(0)) =~= list@);
    for info in it: infos
        invariant
            it.seq() == all,
            list@ == told(all.take(it.index())),
    {
        proof {
            assert(all.take(it.index() + 1).drop_last() =~= all.take(it.index()));
            assert(all.take(it.index() + 1).last() == info);
        }
        if let Some(i) = info {
            list.push(i);
        }
    }
    assert(all.take(all.len() as int) =~= all);
    ApiResponse::success("Plugins listed successfully", Some(list))
}

/// Answers GET /api/plugins/{name}, given what is known of the plugin, where it is there.
pub fn handle_get_plugin(name: &str, details: Option<PluginDetails>) -> (result: ApiResponse<
    PluginDetails,
>)
    ensures
        match details {
            Some(d) => result.reports("Plugin '"@ + name@ + "' details"@, Some(d)),
            None => result.refuses("Plugin '"@ + name@ + "' not found"@, None),
        },
{
    match details {
        Some(d) => {
            let message = text::cat3("Plugin '", name, "' details");
            ApiResponse::success(message.as_str(), Some(d))
        },
        None => {
            let message = text::cat3("Plugin '", name, "' not found");
            ApiResponse::error(message.as_str(), None)
        },
    }
}

/// Answers POST /api/plugins/{name}/reload, given what came of reloading.
pub fn handle_reload_plugin(name: &str, outcome: std::result::Result<(), String>) -> (result:
    ApiResponse<()>)
    ensures
        match outcome {
            Ok(()) => result.reports("Plugin '"@ + name@ + "' reloaded successfully"@, None),
            Err(e) => result.refuses("Failed to reload plugin '"@ + name@ + "'"@, Some(e@)),
        },
{
    match outcome {
        Ok(()) => {
            let message = text::cat3("Plugin '", name, "' reloaded successfully");
            ApiResponse::success(message.as_str(), None)
        },
        Err(e) => {
            let message = text::cat3("Failed to reload plugin '", name, "'");
            ApiResponse::error(message.as_str(), Some(e))
        },
    }
}

/// The configuration that PUT /api/plugins/{name}/config asks for: the current one, with what is
/// specific to the plugin replaced. None where there is no such plugin.
pub fn updated_plugin_config(
    plugin_manager: &PluginManager,
    name: &str,
    req: PluginConfigUpdateRequest,
) -> (result: Option<PluginConfig>)
    requires
        plugin_manager.wf(),
    ensures
        match result {
            Some(c) => {
                let configs = plugin_manager.registry@.configs;
                &&& configs.contains_key(name@)
                &&& c.config == req.config
                &&& same_config(
                    c,
                    (PluginConfig { config: req.config, ..configs[name@] }),
                )
            },
            None => !plugin_manager.registry@.configs.contains_key(name@),
        },
{
    match plugin_manager.registry.get_plugin_config(name) {
        Some(current) => {
            let mut config = current.copy();
            config.config = req.config;
            Some(config)
        },
        None => None,
    }
}

/// Answers PUT /api/plugins/{name}/config, given what came of the update, where the plugin is there.
pub fn handle_update_plugin_config(
    name: &str,
    outcome: Option<std::result::Result<(), String>>,
) -> (result: ApiResponse<()>)
    ensures
        match outcome {
            Some(Ok(())) => result.reports("Plugin '"@ + name@ + "' configuration updated"@, None),
            Some(Err(e)) => result.refuses(
                "Failed to update plugin '"@ + name@ + "' configuration"@,
                Some(e@),
            ),
            None => result.refuses("Plugin '"@ + name@ + "' not found"@, None),
        },
{
    match outcome {
        Some(Ok(())) => {
            let message = text::cat3("Plugin '", name, "' configuration updated");
            ApiResponse::success(message.as_str(), None)
        },
        Some(Err(e)) => {
            let message = text::cat3("Failed to update plugin '", name, "' configuration");
            ApiResponse::error(message.as_str(), Some(e))
        },
        None => {
            let message = text::cat3("Plugin '", name, "' not found");
            ApiResponse::error(message.as_str(), None)
        },
    }
}

/// The command that a request names, or the one to ask for the status.
pub fn command_or_status(command: Option<&str>) -> (result: String)
    ensures
        result@ == (match command {
            Some(c) => c@,
            None => "status"@,
        }),
{
    match command {
        Some(c) => c.to_string(),
        None => "status".to_string(),
    }
}

/// Answers POST /api/plugins/{name}/command, given what came of the command, as JSON text.
pub fn handle_plugin_command(
    name: &str,
    command: &str,
    outcome: std::result::Result<String, String>,
) -> (result: ApiResponse<String>)
    ensures
        match outcome {
            Ok(r) => result.reports(
                "Command '"@ + command@ + "' executed on plugin '"@ + name@ + "'"@,
                Some(r),
            ),
            Err(e) => result.refuses(
                "Failed to execute command '"@ + command@ + "' on plugin '"@ + name@ + "'"@,
                Some(e@),
            ),
        },
{
    match outcome {
        Ok(r) => {
            let message = text::cat5("Command '", command, "' executed on plugin '", name, "'");
            ApiResponse::success(message.as_str(), Some(r))
        },
        Err(e) => {
            let message = text::cat5(
                "Failed to execute command '",
                command,
                "' on plugin '",
                name,
                "'",
            );
            ApiResponse::error(message.as_str(), Some(e))
        },
    }
}

// ---------------------------------------------------------------------------------------------
// Answers about the configuration
// ---------------------------------------------------------------------------------------------

impl ManagementApi {
    /// Answers GET /api/config; the data is the configuration itself.
    pub fn handle_get_config(&self) -> (result: ApiResponse<&RouterConfig>)
        ensures
            result.reports("Configuration retrieved"@, Some(&self.config)),
    {
        ApiResponse::success("Configuration retrieved", Some(&self.config))
    }

    /// Does what PUT /api/config asks for, and answers.
    pub fn handle_update_config(&mut self, new_config: RouterConfig) -> (result: ApiResponse<()>)
        ensures
            *final(self) == (ManagementApi { config: new_config, ..*old(self) }),
            result.reports("Configuration updated successfully"@, None),
    {
        self.config = new_config;
        ApiResponse::success("Configuration updated successfully", None)
    }

    /// Answers POST /api/config/reload, which changes nothing.
    pub fn handle_reload_config(&self) -> (result: ApiResponse<()>)
        ensures
            result.reports("Configuration reloaded successfully"@, None),
    {
        ApiResponse::success("Configuration reloaded successfully", None)
    }

    /// Does what POST /api/routes asks for, and answers.
    pub fn handle_create_route(&mut self, req: RouteCreateRequest) -> (result: ApiResponse<()>)
        requires
            old(self).config.domains.wf(),
        ensures
            final(self).config.domains.wf(),
            *final(self) == (ManagementApi { config: final(self).config, ..*old(self) }),
            result.reports("Route created for domain '"@ + req.domain@ + "'"@, None),
            final(self).config.domains@ == old(self).config.domains@.insert(
                req.domain@,
                final(self).config.domains@[req.domain@],
            ),
            match req.config {
                Some(c) => final(self).config.domains@[req.domain@] == c,
                None => is_plain_domain(
                    final(self).config.domains@[req.domain@],
                    req.proxy_instance,
                ),
            },
    {
        let message = text::cat3("Route created for domain '", req.domain.as_str(), "'");
        let config = match req.config {
            Some(c) => c,
            None => DomainConfig {
                proxy_instance: req.proxy_instance,
                backend_service: None,
                ssl_config: None,
                cors_config: None,
                cache_config: None,
                custom_headers: NameMap::new(),
                rewrite_rules: Vec::new(),
                access_control: None,
            },
        };
        let _ = self.config.domains.insert(req.domain, config);
        ApiResponse::success(message.as_str(), None)
    }

    /// Does what DELETE /api/routes/{domain} asks for, and answers.
    pub fn handle_delete_route(&mut self, domain: &str) -> (result: ApiResponse<()>)
        requires
            old(self).config.domains.wf(),
        ensures
            final(self).config.domains.wf(),
            *final(self) == (ManagementApi { config: final(self).config, ..*old(self) }),
            final(self).config.domains@ == old(self).config.domains@.remove(domain@),
            if old(self).config.domains@.contains_key(domain@) {
                result.reports("Route deleted for domain '"@ + domain@ + "'"@, None)
            } else {
                &&& result.refuses("Route not found for domain '"@ + domain@ + "'"@, None)
                &&& *final(self) == *old(self)
            },
    {
        match self.config.domains.remove(domain) {
            Some(_) => {
                let message = text::cat3("Route deleted for domain '", domain, "'");
                ApiResponse::success(message.as_str(), None)
            },
            None => {
                let message = text::cat3("Route not found for domain '", domain, "'");
                ApiResponse::error(message.as_str(), None)
            },
        }
    }
}

/// A domain of which nothing is known but the instance that serves it.
pub open spec fn is_plain_domain(config: DomainConfig, proxy_instance: String) -> bool {
    &&& config.proxy_instance == proxy_instance
    &&& config.backend_service is None
    &&& config.ssl_config is None
    &&& config.cors_config is None
    &&& config.cache_config is None
    &&& config.custom_headers.wf()
    &&& config.custom_headers@ == Map::<Seq<char>, String>::empty()
    &&& config.rewrite_rules@.len() == 0
    &&& config.access_control is None
}

/// A domain without a route that gets one and loses it again leaves the domains as they were.
pub proof fn law_domain_round_trip(
    domains: Map<Seq<char>, DomainConfig>,
    domain: Seq<char>,
    config: DomainConfig,
)
    requires
        !domains.contains_key(domain),
    ensures
        domains.insert(domain, config).remove(domain) == domains,
{
    assert(domains.insert(domain, config).remove(domain) =~= domains);
}

// ---------------------------------------------------------------------------------------------
// Answers about health and metrics
// ---------------------------------------------------------------------------------------------

/// Whether all plugins are healthy, and which are.
#[derive(Debug)]
pub struct OverallHealth {
    pub healthy: bool,
    pub plugins: NameMap<bool>,
}

/// The plugins that told their health, with whether they are healthy.
pub open spec fn health_told(reports: Seq<(String, Option<PluginHealth>)>) -> Map<Seq<char>, bool>
    decreases reports.len(),
{
    if reports.len() == 0 {
        Map::empty()
    } else {
        let before = health_told(reports.drop_last());
        match reports.last().1 {
            Some(h) => before.insert(reports.last().0@, h.healthy),
            None => before,
        }
    }
}

/// Whether no plugin told that it is not healthy.
pub open spec fn none_unhealthy(reports: Seq<(String, Option<PluginHealth>)>) -> bool {
    forall|i: int|
        0 <= i < reports.len() ==> ((#[trigger] reports[i]).1 matches Some(h) ==> h.healthy)
}

/// Answers GET /api/health, given the health that each plugin told, where it did.
pub fn handle_get_overall_health(reports: &Vec<(String, Option<PluginHealth>)>) -> (result:
    ApiResponse<OverallHealth>)
    ensures
        result.reports("Overall health status"@, result.data),
        result.data matches Some(o) && o.healthy == none_unhealthy(reports@) && o.plugins.wf()
            && o.plugins@ == health_told(reports@),
{
    let mut all_healthy = true;
    let mut plugins: NameMap<bool> = NameMap::new();
    let mut i: usize = 0;
    assert(reports@.take(0) =~= Seq::<(String, Option<PluginHealth>)>::empty());
    while i < reports.len()
        invariant
            i <= reports@.len(),
            plugins.wf(),
            plugins@ == health_told(reports@.take(i as int)),
            all_healthy == none_unhealthy(reports@.take(i as int)),
        decreases reports@.len() - i,
    {
        let ghost before = reports@.take(i as int);
        let ghost next = reports@.take(i + 1);
        proof {
            assert(next.drop_last() =~= before);
            assert(next.last() == reports@[i as int]);
        }
        let mut here = true;
        if let Some(h) = &reports[i].1 {
            let _ = plugins.insert(reports[i].0.clone(), h.healthy);
            here = h.healthy;
        }
        proof {
            if all_healthy && here {
                assert forall|j: int| 0 <= j < next.len() implies ((#[trigger] next[j]).1 matches Some(
                    h,
                ) ==> h.healthy) by {
                    if j < i {
                        assert(next[j] == before[j]);
                    }
                }
            } else if !here {
                assert(next[i as int].1 matches Some(h) && !h.healthy);
            } else {
                let j = choose|j: int|
                    0 <= j < before.len() && !((#[trigger] before[j]).1 matches Some(
                        h,
                    ) ==> h.healthy);
                assert(next[j] == before[j]);
            }
        }
        all_healthy = all_healthy && here;
        i += 1;
    }
    assert(reports@.take(i as int) =~= reports@);
    ApiResponse::success("Overall health status", Some(OverallHealth { healthy: all_healthy, plugins }))
}

/// The plugins that told their health, with all that they told.
pub open spec fn health_details(reports: Seq<(String, Option<PluginHealth>)>) -> Map<
    Seq<char>,
    PluginHealth,
>
    decreases reports.len(),
{
    if reports.len() == 0 {
        Map::empty()
    } else {
        let before = health_details(reports.drop_last());
        match reports.last().1 {
            Some(h) => before.insert(reports.last().0@, h),
            None => before,
        }
    }
}

/// Answers GET /api/health/plugins, given the health that each plugin told, where it did.
pub fn handle_get_plugin_health(reports: Vec<(String, Option<PluginHealth>)>) -> (result:
    ApiResponse<NameMap<PluginHealth>>)
    ensures
        result.reports("Plugin health status"@, result.data),
        result.data matches Some(m) && m.wf() && m@ == health_details(reports@),
{
    let mut health: NameMap<PluginHealth> = NameMap::new();
    let ghost all = reports@;
    assert(all.take(0) =~= Seq::<(String, Option<PluginHealth>)>::empty());
    for report in it: reports
        invariant
            it.seq() == all,
            health.wf(),
            health@ == health_details(all.take(it.index())),
    {
        proof {
            assert(all.take(it.index() + 1).drop_last() =~= all.take(it.index()));
            assert(all.take(it.index() + 1).last() == report);
        }
        let (name, told) = report;
        if let Some(h) = told {
            let _ = health.insert(name, h);
        }
    }
    assert(all.take(all.len() as int) =~= all);
    ApiResponse::success("Plugin health status", Some(health))
}

/// Answers GET /api/metrics.
pub fn handle_get_metrics(metrics: NameMap<PluginMetrics>) -> (result: ApiResponse<
    NameMap<PluginMetrics>,
>)
    ensures
        result.reports("Metrics retrieved"@, Some(metrics)),
{
    ApiResponse::success("Metrics retrieved", Some(metrics))
}

/// One measured value of a plugin, as a line for Prometheus.
pub open spec fn metric_line(metric: Seq<char>, plugin: Seq<char>, value: u64) -> Seq<char> {
    metric + "{plugin=\""@ + plugin + "\"} "@ + text::decimal(value as nat) + "\n"@
}

/// What Prometheus is told of a plugin.
pub open spec fn plugin_text(plugin: Seq<char>, m: PluginMetrics) -> Seq<char> {
    "# HELP router_plugin_connections_total Total connections for plugin\n# TYPE router_plugin_connections_total counter\n"@
        + metric_line("router_plugin_connections_total"@, plugin, m.connections_total) + metric_line(
        "router_plugin_connections_active"@,
        plugin,
        m.connections_active,
    ) + metric_line("router_plugin_bytes_sent_total"@, plugin, m.bytes_sent) + metric_line(
        "router_plugin_bytes_received_total"@,
        plugin,
        m.bytes_received,
    ) + metric_line("router_plugin_errors_total"@, plugin, m.errors_total)
}

/// What Prometheus is told of all plugins.
pub open spec fn prometheus_text(metrics: Seq<(String, PluginMetrics)>) -> Seq<char>
    decreases metrics.len(),
{
    if metrics.len() == 0 {
        Seq::empty()
    } else {
        prometheus_text(metrics.drop_last()) + plugin_text(metrics.last().0@, metrics.last().1)
    }
}

fn write_metric(metric: &str, plugin: &str, value: u64) -> (result: String)
    ensures
        result@ == metric_line(metric@, plugin@, value),
{
    let number = text::number(value);
    let line = text::cat5(metric, "{plugin=\"", plugin, "\"} ", number.as_str());
    text::cat2(line.as_str(), "\n")
}

fn write_plugin(plugin: &str, m: &PluginMetrics) -> (result: String)
    ensures
        result@ == plugin_text(plugin@, *m),
{
    let total = write_metric("router_plugin_connections_total", plugin, m.connections_total);
    let active = write_metric("router_plugin_connections_active", plugin, m.connections_active);
    let sent = write_metric("router_plugin_bytes_sent_total", plugin, m.bytes_sent);
    let received = write_metric("router_plugin_bytes_received_total", plugin, m.bytes_received);
    let errors = write_metric("router_plugin_errors_total", plugin, m.errors_total);
    let head = text::cat5(
        "# HELP router_plugin_connections_total Total connections for plugin\n# TYPE router_plugin_connections_total counter\n",
        total.as_str(),
        active.as_str(),
        sent.as_str(),
        received.as_str(),
    );
    text::cat2(head.as_str(), errors.as_str())
}

/// Answers GET /api/metrics/prometheus.
pub fn handle_get_prometheus_metrics(metrics: &NameMap<PluginMetrics>) -> (result: String)
    ensures
        result@ == prometheus_text(metrics.entries@),
{
    let mut output = String::new();
    let mut i: usize = 0;
    assert(output@ =~= Seq::<char>::empty());
    while i < metrics.entries.len()
        invariant
            i <= metrics.entries@.len(),
            output@ == prometheus_text(metrics.entries@.take(i as int)),
        decreases metrics.entries@.len() - i,
    {
        let part = write_plugin(metrics.entries[i].0.as_str(), &metrics.entries[i].1);
        output = text::cat2(output.as_str(), part.as_str());
        proof {
            let next = metrics.entries@.take(i + 1);
            assert(next.drop_last() =~= metrics.entries@.take(i as int));
            assert(next.last() == metrics.entries@[i as int]);
        }
        i += 1;
    }
    assert(metrics.entries@.take(i as int) =~= metrics.entries@);
    output
}

// ---------------------------------------------------------------------------------------------
// Requests that cannot be answered
// ---------------------------------------------------------------------------------------------

/// Why a request cannot be answered.
#[derive(Debug, Clone, Copy, PartialEq, Eq, Structural)]
pub struct RejectionReasons {
    /// Nothing is known under the path
    pub not_found: bool,
    /// The body is not what it should be
    pub invalid_body: bool,
    /// The path is known, but not with the method
    pub method_not_allowed: bool,
}

/// The status and the words for a request that cannot be answered.
pub open spec fn rejection(reasons: RejectionReasons) -> (u16, Seq<char>) {
    if reasons.not_found {
        (404, "Not Found"@)
    } else if reasons.invalid_body {
        (400, "Invalid JSON body"@)
    } else if reasons.method_not_allowed {
        (405, "Method Not Allowed"@)
    } else {
        (500, "Internal Server Error"@)
    }
}

/// The status and the answer for a request that cannot be answered.
pub fn handle_rejection(reasons: RejectionReasons) -> (result: (u16, ApiResponse<()>))
    ensures
        result.0 == rejection(reasons).0,
        result.1.refuses(rejection(reasons).1, None),
{
    if reasons.not_found {
        (404, ApiResponse::error("Not Found", None))
    } else if reasons.invalid_body {
        (400, ApiResponse::error("Invalid JSON body", None))
    } else if reasons.method_not_allowed {
        (405, ApiResponse::error("Method Not Allowed", None))
    } else {
        (500, ApiResponse::error("Internal Server Error", None))
    }
}

/// Each path leads to its own action with its own method, and a known path with another method is
/// refused for that.
pub proof fn law_management_requests(method: Seq<char>, name: Seq<char>)
    requires
        name.len() > 0,
    ensures
        management_action(method, seq!["api"@, "system"@, "status"@]) == (if method == "GET"@ {
            Routed::Action(ActionView::SystemStatus)
        } else {
            Routed::MethodNotAllowed
        }),
        management_action(method, seq!["api"@, "system"@, "shutdown"@]) == (if method == "POST"@ {
            Routed::Action(ActionView::SystemShutdown)
        } else {
            Routed::MethodNotAllowed
        }),
        management_action(method, seq!["api"@, "system"@, "version"@]) == (if method == "GET"@ {
            Routed::Action(ActionView::SystemVersion)
        } else {
            Routed::MethodNotAllowed
        }),
        management_action(method, seq!["api"@, "plugins"@]) == (if method == "GET"@ {
            Routed::Action(ActionView::ListPlugins)
        } else {
            Routed::MethodNotAllowed
        }),
        management_action(method, seq!["api"@, "plugins"@, name]) == (if method == "GET"@ {
            Routed::Action(ActionView::GetPlugin(name))
        } else {
            Routed::MethodNotAllowed
        }),
        management_action(method, seq!["api"@, "plugins"@, name, "reload"@]) == (if method == "POST"@ {
            Routed::Action(ActionView::ReloadPlugin(name))
        } else {
            Routed::MethodNotAllowed
        }),
        management_action(method, seq!["api"@, "plugins"@, name, "config"@]) == (if method == "PUT"@ {
            Routed::Action(ActionView::UpdatePluginConfig(name))
        } else {
            Routed::MethodNotAllowed
        }),
        management_action(method, seq!["api"@, "plugins"@, name, "command"@]) == (if method == "POST"@ {
            Routed::Action(ActionView::PluginCommand(name))
        } else {
            Routed::MethodNotAllowed
        }),
        management_action(method, seq!["api"@, "config"@, "reload"@]) == (if method == "POST"@ {
            Routed::Action(ActionView::ReloadConfig)
        } else {
            Routed::MethodNotAllowed
        }),
        management_action(method, seq!["api"@, "routes"@]) == (if method == "POST"@ {
            Routed::Action(ActionView::CreateRoute)
        } else {
            Routed::MethodNotAllowed
        }),
        management_action(method, seq!["api"@, "routes"@, name]) == (if method == "DELETE"@ {
            Routed::Action(ActionView::DeleteRoute(name))
        } else {
            Routed::MethodNotAllowed
        }),
        management_action(method, seq!["api"@, "health"@]) == (if method == "GET"@ {
            Routed::Action(ActionView::OverallHealth)
        } else {
            Routed::MethodNotAllowed
        }),
        management_action(method, seq!["api"@, "health"@, "plugins"@]) == (if method == "GET"@ {
            Routed::Action(ActionView::PluginHealth)
        } else {
            Routed::MethodNotAllowed
        }),
        management_action(method, seq!["api"@, "metrics"@]) == (if method == "GET"@ {
            Routed::Action(ActionView::GetMetrics)
        } else {
            Routed::MethodNotAllowed
        }),
        management_action(method, seq!["api"@, "metrics"@, "prometheus"@]) == (if method == "GET"@ {
            Routed::Action(ActionView::PrometheusMetrics)
        } else {
            Routed::MethodNotAllowed
        }),
        management_action(method, seq!["api"@, "config"@]) == (if method == "GET"@ {
            Routed::Action(ActionView::GetConfig)
        } else if method == "PUT"@ {
            Routed::Action(ActionView::UpdateConfig)
        } else {
            Routed::MethodNotAllowed
        }),
{
    lemma_management_words();
    reveal_strlit("GET");
    reveal_strlit("PUT");
    assert("GET"@[0] == 'G' && "PUT"@[0] == 'P');
}

/// Nothing is found under a name that is not known.
pub proof fn law_unknown_management_paths(method: Seq<char>, name: Seq<char>, other: Seq<char>)
    requires
        name.len() > 0,
    ensures
        other != "status"@ && other != "shutdown"@ && other != "version"@ ==> management_action(
            method,
            seq!["api"@, "system"@, other],
        ) is NotFound,
        other != "reload"@ && other != "config"@ && other != "command"@ ==> management_action(
            method,
            seq!["api"@, "plugins"@, name, other],
        ) is NotFound,
        other != "reload"@ ==> management_action(
            method,
            seq!["api"@, "config"@, other],
        ) is NotFound,
        other != "plugins"@ ==> management_action(
            method,
            seq!["api"@, "health"@, other],
        ) is NotFound,
        other != "prometheus"@ ==> management_action(
            method,
            seq!["api"@, "metrics"@, other],
        ) is NotFound,
        management_action(method, seq!["api"@, "routes"@, name, other]) is NotFound,
        management_action(method, seq!["api"@, "system"@]) is NotFound,
        management_action(method, seq!["api"@]) is NotFound,
        name != "api"@ ==> management_action(method, seq![name, other]) is NotFound,
        other != "system"@ && other != "plugins"@ && other != "config"@ && other != "routes"@
            && other != "health"@ && other != "metrics"@ ==> management_action(
            method,
            seq!["api"@, other],
        ) is NotFound,
{
    lemma_management_words();
}

proof fn lemma_management_words()
    ensures
        "system"@ != "plugins"@,
        "system"@ != "config"@,
        "system"@ != "routes"@,
        "system"@ != "health"@,
        "system"@ != "metrics"@,
        "plugins"@ != "config"@,
        "plugins"@ != "routes"@,
        "plugins"@ != "health"@,
        "plugins"@ != "metrics"@,
        "config"@ != "routes"@,
        "config"@ != "health"@,
        "config"@ != "metrics"@,
        "routes"@ != "health"@,
        "routes"@ != "metrics"@,
        "health"@ != "metrics"@,
        "status"@ != "shutdown"@,
        "status"@ != "version"@,
        "shutdown"@ != "version"@,
        "reload"@ != "config"@,
        "reload"@ != "command"@,
        "config"@ != "command"@,
{
    reveal_strlit("system");
    reveal_strlit("plugins");
    reveal_strlit("config");
    reveal_strlit("routes");
    reveal_strlit("health");
    reveal_strlit("metrics");
    reveal_strlit("status");
    reveal_strlit("shutdown");
    reveal_strlit("version");
    reveal_strlit("reload");
    reveal_strlit("command");
    assert("system"@[0] == 's' && "plugins"@[0] == 'p' && "config"@[0] == 'c' && "routes"@[0] == 'r'
        && "health"@[0] == 'h' && "metrics"@[0] == 'm');
    assert("status"@[1] == 't' && "shutdown"@[1] == 'h' && "version"@[1] == 'e');
    assert("reload"@[0] == 'r' && "command"@[2] == 'm' && "config"@[2] == 'n' && "command"@[0]
        == 'c');
}

/// What was told is in the list, once for each time and in order.
pub proof fn law_told_in_order<T>(a: Seq<Option<T>>, b: Seq<Option<T>>, x: T)
    ensures
        told(a + b) == told(a) + told(b),
        told(seq![Some(x)]) == seq![x],
        told(seq![None::<T>]).len() == 0,
    decreases b.len(),
{
    assert(seq![Some(x)].drop_last() =~= Seq::<Option<T>>::empty());
    assert(seq![None::<T>].drop_last() =~= Seq::<Option<T>>::empty());
    assert(seq![Some(x)].last() == Some(x));
    assert(seq![None::<T>].last() == None::<T>);
    assert(told(Seq::<Option<T>>::empty()) =~= Seq::<T>::empty());
    assert(Seq::<T>::empty().push(x) =~= seq![x]);
    if b.len() == 0 {
        assert(a + b =~= a);
        assert(told(a) + told(b) =~= told(a));
    } else {
        law_told_in_order(a, b.drop_last(), x);
        assert((a + b).drop_last() =~= a + b.drop_last());
        assert((a + b).last() == b.last());
        assert(told(a + b) =~= told(a) + told(b));
    }
}

/// Memory is told in megabytes: 256 pages make one.
pub proof fn law_pages_make_megabytes(pages: u64)
    ensures
        memory_usage(Some(pages)).numerator * 256 == pages * memory_usage(Some(pages)).denominator,
        memory_usage(Some(pages)).denominator > 0,
        memory_usage(None).numerator == 0,
        memory_usage(None).denominator > 0,
{
    let used = memory_usage(Some(pages));
    assert(used.numerator * 256 == pages * used.denominator) by (nonlinear_arith)
        requires
            used.numerator == pages * 4096,
            used.denominator == 1_048_576,
    ;
}

/// A plugin is as healthy as it told last; one that told nothing is left out. All are well where none
/// told that it is not.
pub proof fn law_last_told_health_counts(
    reports: Seq<(String, Option<PluginHealth>)>,
    name: Seq<char>,
    k: int,
)
    requires
        -1 <= k < reports.len(),
        k >= 0 ==> reports[k].0@ == name && reports[k].1 is Some,
        forall|j: int|
            k < j < reports.len() ==> (#[trigger] reports[j]).0@ != name || reports[j].1 is None,
    ensures
        k >= 0 ==> health_details(reports).contains_key(name) && Some(health_details(reports)[name])
            == reports[k].1,
        k >= 0 ==> health_told(reports).contains_key(name) && health_told(reports)[name]
            == reports[k].1->0.healthy,
        k == -1 ==> !health_details(reports).contains_key(name) && !health_told(
            reports,
        ).contains_key(name),
        k >= 0 && !reports[k].1->0.healthy ==> !none_unhealthy(reports),
    decreases reports.len(),
{
    if k >= 0 {
        assert(reports[k].1 is Some);
    }
    if reports.len() > 0 && k < reports.len() - 1 {
        let rest = reports.drop_last();
        assert(reports[reports.len() - 1].0@ != name || reports[reports.len() - 1].1 is None);
        assert forall|j: int| k < j < rest.len() implies (#[trigger] rest[j]).0@ != name
            || rest[j].1 is None by {
            assert(reports[j].0@ != name || reports[j].1 is None);
        }
        law_last_told_health_counts(rest, name, k);
    }
}

/// The lines of a text that five lines make up behind something else.
proof fn lemma_five_lines(
    before: Seq<char>,
    l1: Seq<char>,
    l2: Seq<char>,
    l3: Seq<char>,
    l4: Seq<char>,
    l5: Seq<char>,
)
    ensures
        ({
            let nl = "\n"@;
            let t = before + (l1 + nl) + (l2 + nl) + (l3 + nl) + (l4 + nl) + (l5 + nl);
            &&& crate::metrics::has_line(t, l1)
            &&& crate::metrics::has_line(t, l2)
            &&& crate::metrics::has_line(t, l3)
            &&& crate::metrics::has_line(t, l4)
            &&& crate::metrics::has_line(t, l5)
        }),
{
    let nl = "\n"@;
    let none = Seq::<char>::empty();
    let (a, b, c, d, e) = (l1 + nl, l2 + nl, l3 + nl, l4 + nl, l5 + nl);
    let t = before + a + b + c + d + e;
    crate::metrics::lemma_line(before, l1, b + c + d + e);
    crate::metrics::lemma_line(before + a, l2, c + d + e);
    crate::metrics::lemma_line(before + a + b, l3, d + e);
    crate::metrics::lemma_line(before + a + b + c, l4, e);
    crate::metrics::lemma_line(before + a + b + c + d, l5, none);
    assert(t =~= before + a + (b + c + d + e));
    assert(t =~= before + a + b + (c + d + e));
    assert(t =~= before + a + b + c + (d + e));
    assert(t =~= before + a + b + c + d + e + none);
}

/// Prometheus is told each of a plugin's counters in a line with the plugin's name.
pub proof fn law_plugin_counters_are_told(plugin: Seq<char>, m: PluginMetrics)
    ensures
        ({
            let t = plugin_text(plugin, m);
            let of = "{plugin=\""@ + plugin + "\"} "@;
            &&& crate::metrics::has_line(
                t,
                "router_plugin_connections_total"@ + of + text::decimal(m.connections_total as nat),
            )
            &&& crate::metrics::has_line(
                t,
                "router_plugin_connections_active"@ + of + text::decimal(
                    m.connections_active as nat,
                ),
            )
            &&& crate::metrics::has_line(
                t,
                "router_plugin_bytes_sent_total"@ + of + text::decimal(m.bytes_sent as nat),
            )
            &&& crate::metrics::has_line(
                t,
                "router_plugin_bytes_received_total"@ + of + text::decimal(m.bytes_received as nat),
            )
            &&& crate::metrics::has_line(
                t,
                "router_plugin_errors_total"@ + of + text::decimal(m.errors_total as nat),
            )
        }),
{
    let of = "{plugin=\""@ + plugin + "\"} "@;
    let nl = "\n"@;
    let l1 = "router_plugin_connections_total"@ + of + text::decimal(m.connections_total as nat);
    let l2 = "router_plugin_connections_active"@ + of + text::decimal(m.connections_active as nat);
    let l3 = "router_plugin_bytes_sent_total"@ + of + text::decimal(m.bytes_sent as nat);
    let l4 = "router_plugin_bytes_received_total"@ + of + text::decimal(m.bytes_received as nat);
    let l5 = "router_plugin_errors_total"@ + of + text::decimal(m.errors_total as nat);
    let head =
        "# HELP router_plugin_connections_total Total connections for plugin\n# TYPE router_plugin_connections_total counter\n"@;
    lemma_metric_line("router_plugin_connections_total"@, plugin, m.connections_total);
    lemma_metric_line("router_plugin_connections_active"@, plugin, m.connections_active);
    lemma_metric_line("router_plugin_bytes_sent_total"@, plugin, m.bytes_sent);
    lemma_metric_line("router_plugin_bytes_received_total"@, plugin, m.bytes_received);
    lemma_metric_line("router_plugin_errors_total"@, plugin, m.errors_total);
    lemma_five_lines(head, l1, l2, l3, l4, l5);
}

proof fn lemma_metric_line(metric: Seq<char>, plugin: Seq<char>, value: u64)
    ensures
        metric_line(metric, plugin, value) == metric + ("{plugin=\""@ + plugin + "\"} "@)
            + text::decimal(value as nat) + "\n"@,
{
    assert(metric_line(metric, plugin, value) =~= metric + ("{plugin=\""@ + plugin + "\"} "@)
        + text::decimal(value as nat) + "\n"@);
}

/// Prometheus is told the lines of every plugin.
pub proof fn law_every_plugin_is_told(
    metrics: Seq<(String, PluginMetrics)>,
    k: int,
    line: Seq<char>,
)
    requires
        0 <= k < metrics.len(),
        crate::metrics::has_line(plugin_text(metrics[k].0@, metrics[k].1), line),
    ensures
        crate::metrics::has_line(prometheus_text(metrics), line),
    decreases metrics.len(),
{
    let none = Seq::<char>::empty();
    let rest = metrics.drop_last();
    let last = plugin_text(metrics.last().0@, metrics.last().1);
    if k < rest.len() {
        law_every_plugin_is_told(rest, k, line);
        crate::metrics::lemma_line_of_part(none, prometheus_text(rest), last, line);
        assert(none + prometheus_text(rest) + last =~= prometheus_text(rest) + last);
    } else {
        crate::metrics::lemma_line_of_part(prometheus_text(rest), last, none, line);
        assert(prometheus_text(rest) + last + none =~= prometheus_text(rest) + last);
    }
}

/// A request that leads nowhere is not found, whatever else is wrong with it; a body that cannot be
/// read comes before a wrong method; and the rest is an error of the server.
pub proof fn law_rejections_in_order(reasons: RejectionReasons)
    ensures
        rejection(reasons).0 == 404 <==> reasons.not_found,
        rejection(reasons).0 == 400 <==> !reasons.not_found && reasons.invalid_body,
        rejection(reasons).0 == 405 <==> !reasons.not_found && !reasons.invalid_body
            && reasons.method_not_allowed,
        rejection(reasons).0 == 500 <==> !reasons.not_found && !reasons.invalid_body
            && !reasons.method_not_allowed,
{
}

} // verus!
