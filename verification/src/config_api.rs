//! The interface to read and change the configuration: which request asks for what, and the answers.
use vstd::prelude::*;

use crate::dynamic_config::api::{
    requested_route, requested_tcp, GlobalSettingsUpdateRequest, RouteUpdateRequest,
    TcpConfigUpdateRequest,
};
use crate::dynamic_config::{
    copy_routes, same_proxy_config, with_settings, ConfigChange, ConfigEvent, DynamicConfigManager,
    ProxyConfig, RouteConfig,
};
use crate::name_map::NameMap;
use crate::text;

verus! {

broadcast use vstd::string::group_string_axioms;

/// API response wrapper.
#[derive(Debug)]
pub struct ApiResponse<T> {
    pub success: bool,
    pub message: String,
    pub data: Option<T>,
}

impl<T> ApiResponse<T> {
    pub fn success(message: &str, data: Option<T>) -> (result: Self)
        ensures
            result.success,
            result.message@ == message@,
            result.data == data,
    {
        ApiResponse { success: true, message: message.to_string(), data }
    }

    pub fn error(message: &str) -> (result: Self)
        ensures
            result.refuses(message@),
    {
        ApiResponse { success: false, message: message.to_string(), data: None }
    }

    /// Whether this answer says that something failed, in these words.
    pub open spec fn refuses(self, message: Seq<char>) -> bool {
        !self.success && self.message@ == message && self.data is None
    }

    /// Whether this answer says that something was done, in these words and no more.
    pub open spec fn confirms(self, message: Seq<char>) -> bool {
        self.success && self.message@ == message && self.data is None
    }
}

// ---------------------------------------------------------------------------------------------
// Requests
// ---------------------------------------------------------------------------------------------

/// What a request asks for.
#[derive(Debug)]
pub enum ConfigAction {
    GetConfig,
    ReloadConfig,
    ListRoutes,
    GetRoute(String),
    UpdateRoute(String),
    DeleteRoute(String),
    UpdateTcpConfig,
    UpdateGlobalSettings,
}

/// Where a request leads.
#[derive(Debug)]
pub enum Routed<A> {
    Action(A),
    /// The path is known, but not with this method
    MethodNotAllowed,
    NotFound,
}

/// A text without a leading slash.
pub open spec fn without_slash(path: Seq<char>) -> Seq<char> {
    if path.len() > 0 && path[0] == '/' {
        path.skip(1)
    } else {
        path
    }
}

/// The names in a path, between the slashes. A slash in front and one at the end stand for nothing.
pub open spec fn segments(path: Seq<char>) -> Seq<Seq<char>> {
    let names = text::split(without_slash(path), '/');
    if names.len() > 1 && names.last().len() == 0 {
        names.drop_last()
    } else {
        names
    }
}

/// The names in a path.
pub fn path_segments(path: &str) -> (result: Vec<String>)
    ensures
        text::views(result@) == segments(path@),
{
    let cs = text::chars(path);
    let rest = if cs.len() > 0 && cs[0] == '/' {
        text::from_range(&cs, 1, cs.len())
    } else {
        path.to_string()
    };
    assert(rest@ =~= without_slash(path@));
    let mut names = text::split_char(rest.as_str(), '/');
    let n: usize = names.len();
    if n > 1 && text::is_empty(names[n - 1].as_str()) {
        let ghost all = names@;
        let _ = names.pop();
        assert(text::views(names@) =~= text::views(all).drop_last());
    }
    names
}

/// Whether the name at a place is this one.
pub fn is_name(names: &Vec<String>, i: usize, name: &str) -> (result: bool)
    requires
        i < names@.len(),
    ensures
        result == (text::views(names@)[i as int] == name@),
{
    text::eq(names[i].as_str(), name)
}

/// What the parts of a path stand for in the configuration interface.
#[derive(Debug, Clone, Copy, PartialEq, Eq, Structural)]
pub enum ConfigResource {
    Config,
    Reload,
    Routes,
    /// The route whose name is the fourth part
    Route,
    Tcp,
    Global,
}

/// The resource of a path.
pub open spec fn config_resource(names: Seq<Seq<char>>) -> Option<ConfigResource> {
    if names.len() < 2 || names[0] != "api"@ || names[1] != "config"@ {
        None
    } else if names.len() == 2 {
        Some(ConfigResource::Config)
    } else if names.len() == 3 {
        if names[2] == "reload"@ {
            Some(ConfigResource::Reload)
        } else if names[2] == "routes"@ {
            Some(ConfigResource::Routes)
        } else if names[2] == "tcp"@ {
            Some(ConfigResource::Tcp)
        } else if names[2] == "global"@ {
            Some(ConfigResource::Global)
        } else {
            None
        }
    } else if names.len() == 4 && names[2] == "routes"@ && names[3].len() > 0 {
        Some(ConfigResource::Route)
    } else {
        None
    }
}

/// Whether a request leads here.
pub open spec fn is_routed(
    result: Routed<ConfigAction>,
    method: Seq<char>,
    names: Seq<Seq<char>>,
) -> bool {
    match config_resource(names) {
        None => result is NotFound,
        Some(ConfigResource::Config) => if method == "GET"@ {
            result matches Routed::Action(ConfigAction::GetConfig)
        } else {
            result is MethodNotAllowed
        },
        Some(ConfigResource::Reload) => if method == "POST"@ {
            result matches Routed::Action(ConfigAction::ReloadConfig)
        } else {
            result is MethodNotAllowed
        },
        Some(ConfigResource::Routes) => if method == "GET"@ {
            result matches Routed::Action(ConfigAction::ListRoutes)
        } else {
            result is MethodNotAllowed
        },
        Some(ConfigResource::Tcp) => if method == "PUT"@ {
            result matches Routed::Action(ConfigAction::UpdateTcpConfig)
        } else {
            result is MethodNotAllowed
        },
        Some(ConfigResource::Global) => if method == "PUT"@ {
            result matches Routed::Action(ConfigAction::UpdateGlobalSettings)
        } else {
            result is MethodNotAllowed
        },
        Some(ConfigResource::Route) => if method == "GET"@ {
            result matches Routed::Action(ConfigAction::GetRoute(n)) && n@ == names[3]
        } else if method == "PUT"@ {
            result matches Routed::Action(ConfigAction::UpdateRoute(n)) && n@ == names[3]
        } else if method == "DELETE"@ {
            result matches Routed::Action(ConfigAction::DeleteRoute(n)) && n@ == names[3]
        } else {
            result is MethodNotAllowed
        },
    }
}

fn resource_of(names: &Vec<String>) -> (result: Option<ConfigResource>)
    ensures
        result == config_resource(text::views(names@)),
{
    let n: usize = names.len();
    if n < 2 || !is_name(names, 0, "api") || !is_name(names, 1, "config") {
        return None;
    }
    if n == 2 {
        return Some(ConfigResource::Config);
    }
    if n == 3 {
        if is_name(names, 2, "reload") {
            return Some(ConfigResource::Reload);
        }
        if is_name(names, 2, "routes") {
            return Some(ConfigResource::Routes);
        }
        if is_name(names, 2, "tcp") {
            return Some(ConfigResource::Tcp);
        }
        if is_name(names, 2, "global") {
            return Some(ConfigResource::Global);
        }
        return None;
    }
    if n == 4 && is_name(names, 2, "routes") && !text::is_empty(names[3].as_str()) {
        return Some(ConfigResource::Route);
    }
    None
}

/// What a request with this method and path asks for.
pub fn config_api_routes(method: &str, path: &str) -> (result: Routed<ConfigAction>)
    ensures
        is_routed(result, method@, segments(path@)),
{
    let names = path_segments(path);
    let action = match resource_of(&names) {
        None => {
            return Routed::NotFound;
        },
        Some(ConfigResource::Config) => if text::eq(method, "GET") {
            Some(ConfigAction::GetConfig)
        } else {
            None
        },
        Some(ConfigResource::Reload) => if text::eq(method, "POST") {
            Some(ConfigAction::ReloadConfig)
        } else {
            None
        },
        Some(ConfigResource::Routes) => if text::eq(method, "GET") {
            Some(ConfigAction::ListRoutes)
        } else {
            None
        },
        Some(ConfigResource::Tcp) => if text::eq(method, "PUT") {
            Some(ConfigAction::UpdateTcpConfig)
        } else {
            None
        },
        Some(ConfigResource::Global) => if text::eq(method, "PUT") {
            Some(ConfigAction::UpdateGlobalSettings)
        } else {
            None
        },
        Some(ConfigResource::Route) => {
            assert(text::views(names@)[3] == names@[3]@);
            let name = names[3].clone();
            if text::eq(method, "GET") {
                Some(ConfigAction::GetRoute(name))
            } else if text::eq(method, "PUT") {
                Some(ConfigAction::UpdateRoute(name))
            } else if text::eq(method, "DELETE") {
                Some(ConfigAction::DeleteRoute(name))
            } else {
                None
            }
        },
    };
    match action {
        Some(a) => Routed::Action(a),
        None => Routed::MethodNotAllowed,
    }
}

// ---------------------------------------------------------------------------------------------
// Answers
// ---------------------------------------------------------------------------------------------

/// Answers GET /api/config.
pub fn handle_get_config(config_manager: &DynamicConfigManager) -> (result: ApiResponse<
    ProxyConfig,
>)
    ensures
        result.success,
        result.message@ == "Current configuration retrieved"@,
        result.data matches Some(c) && same_proxy_config(c, config_manager.config),
{
    ApiResponse::success(
        "Current configuration retrieved",
        Some(config_manager.get_config().copy()),
    )
}

/// Answers POST /api/config/reload, given what came of reloading and saving.
pub fn handle_reload_config(outcome: std::result::Result<(), String>) -> (result: ApiResponse<()>)
    ensures
        match outcome {
            Ok(()) => result.confirms("Configuration reloaded successfully"@),
            Err(e) => result.refuses("Failed to reload configuration: "@ + e@),
        },
{
    match outcome {
        Ok(()) => ApiResponse::success("Configuration reloaded successfully", None),
        Err(e) => {
            let message = text::cat2("Failed to reload configuration: ", e.as_str());
            ApiResponse::error(message.as_str())
        },
    }
}

/// Answers GET /api/config/routes.
pub fn handle_list_routes(config_manager: &DynamicConfigManager) -> (result: ApiResponse<
    NameMap<RouteConfig>,
>)
    ensures
        result.success,
        result.message@ == "Routes retrieved successfully"@,
        result.data matches Some(r) && r.entries@ == config_manager.config.routes.entries@,
{
    ApiResponse::success(
        "Routes retrieved successfully",
        Some(copy_routes(&config_manager.get_config().routes)),
    )
}

/// Answers GET /api/config/routes/{name}.
pub fn handle_get_route(name: &str, config_manager: &DynamicConfigManager) -> (result: ApiResponse<
    RouteConfig,
>)
    requires
        config_manager.wf(),
    ensures
        if config_manager.config.routes@.contains_key(name@) {
            &&& result.success
            &&& result.message@ == "Route '"@ + name@ + "' retrieved successfully"@
            &&& result.data == Some(config_manager.config.routes@[name@])
        } else {
            result.refuses("Route '"@ + name@ + "' not found"@)
        },
{
    match config_manager.get_config().routes.get(name) {
        Some(route) => {
            let message = text::cat3("Route '", name, "' retrieved successfully");
            ApiResponse::success(message.as_str(), Some(route.copy()))
        },
        None => {
            let message = text::cat3("Route '", name, "' not found");
            ApiResponse::error(message.as_str())
        },
    }
}

/// Does what PUT /api/config/routes/{name} asks for: updates the route where it is there, and adds
/// it otherwise. The result tells what the change asks for, and whether the route was there.
pub fn handle_update_route(
    name: &str,
    route_req: RouteUpdateRequest,
    config_manager: &mut DynamicConfigManager,
) -> (result: std::result::Result<(ConfigChange, bool), String>)
    requires
        old(config_manager).wf(),
    ensures
        final(config_manager).wf(),
        final(config_manager).same_but_config(*old(config_manager)),
        final(config_manager).config.routes@ == old(config_manager).config.routes@.insert(
            name@,
            requested_route(route_req),
        ),
        final(config_manager).config == (ProxyConfig {
            routes: final(config_manager).config.routes,
            ..old(config_manager).config
        }),
        result is Ok,
        result->Ok_0.1 == old(config_manager).config.routes@.contains_key(name@),
        result->Ok_0.0.save_to == old(config_manager).file_path,
        if result->Ok_0.1 {
            result->Ok_0.0.event matches ConfigEvent::RouteUpdated(n, r) && n@ == name@ && r
                == requested_route(route_req)
        } else {
            result->Ok_0.0.event matches ConfigEvent::RouteAdded(n, r) && n@ == name@ && r
                == requested_route(route_req)
        },
{
    let route_config = RouteConfig::from(route_req);
    let exists = config_manager.get_config().routes.contains_key(name);
    if exists {
        Ok((config_manager.update_route(name, route_config), exists))
    } else {
        match config_manager.add_route(name, route_config) {
            Ok(change) => Ok((change, exists)),
            Err(e) => Err(e),
        }
    }
}

/// Answers PUT /api/config/routes/{name}, given whether the route was there before, and what came of
/// the change.
pub fn route_updated(
    name: &str,
    existed: bool,
    outcome: std::result::Result<(), String>,
) -> (result: ApiResponse<()>)
    ensures
        match outcome {
            Ok(()) => result.confirms(
                "Route '"@ + name@ + (if existed {
                    "' updated successfully"@
                } else {
                    "' created successfully"@
                }),
            ),
            Err(e) => result.refuses("Failed to update route: "@ + e@),
        },
{
    match outcome {
        Ok(()) => {
            let message = if existed {
                text::cat3("Route '", name, "' updated successfully")
            } else {
                text::cat3("Route '", name, "' created successfully")
            };
            ApiResponse::success(message.as_str(), None)
        },
        Err(e) => {
            let message = text::cat2("Failed to update route: ", e.as_str());
            ApiResponse::error(message.as_str())
        },
    }
}

/// Answers DELETE /api/config/routes/{name}, given what came of removing the route and saving.
pub fn handle_delete_route(name: &str, outcome: std::result::Result<(), String>) -> (result:
    ApiResponse<()>)
    ensures
        match outcome {
            Ok(()) => result.confirms("Route '"@ + name@ + "' deleted successfully"@),
            Err(e) => result.refuses("Failed to delete route: "@ + e@),
        },
{
    match outcome {
        Ok(()) => {
            let message = text::cat3("Route '", name, "' deleted successfully");
            ApiResponse::success(message.as_str(), None)
        },
        Err(e) => {
            let message = text::cat2("Failed to delete route: ", e.as_str());
            ApiResponse::error(message.as_str())
        },
    }
}

/// Does what PUT /api/config/tcp asks for.
pub fn handle_update_tcp_config(
    tcp_config_req: &TcpConfigUpdateRequest,
    config_manager: &mut DynamicConfigManager,
) -> (result: ConfigChange)
    ensures
        final(config_manager).same_but_config(*old(config_manager)),
        final(config_manager).config == (ProxyConfig {
            tcp_proxy: requested_tcp(*tcp_config_req, old(config_manager).config.tcp_proxy),
            ..old(config_manager).config
        }),
        result.event == ConfigEvent::TcpConfigUpdated(
            requested_tcp(*tcp_config_req, old(config_manager).config.tcp_proxy),
        ),
        result.save_to == old(config_manager).file_path,
{
    let mut tcp_config = config_manager.get_config().tcp_proxy.copy();
    tcp_config_req.apply_to(&mut tcp_config);
    config_manager.update_tcp_config(tcp_config)
}

/// Answers PUT /api/config/tcp, given what came of saving.
pub fn tcp_config_updated(outcome: std::result::Result<(), String>) -> (result: ApiResponse<()>)
    ensures
        match outcome {
            Ok(()) => result.confirms("TCP configuration updated successfully"@),
            Err(e) => result.refuses("Failed to update TCP configuration: "@ + e@),
        },
{
    match outcome {
        Ok(()) => ApiResponse::success("TCP configuration updated successfully", None),
        Err(e) => {
            let message = text::cat2("Failed to update TCP configuration: ", e.as_str());
            ApiResponse::error(message.as_str())
        },
    }
}

/// Does what PUT /api/config/global asks for.
pub fn handle_update_global_settings(
    settings: GlobalSettingsUpdateRequest,
    config_manager: &mut DynamicConfigManager,
) -> (result: ConfigChange)
    ensures
        final(config_manager).same_but_config(*old(config_manager)),
        final(config_manager).config == with_settings(
            old(config_manager).config,
            settings.listen_addr,
            settings.global_timeout_ms,
            settings.max_connections,
        ),
        result.event == (ConfigEvent::GlobalSettingsUpdated {
            listen_addr: settings.listen_addr,
            global_timeout_ms: settings.global_timeout_ms,
            max_connections: settings.max_connections,
        }),
        result.save_to == old(config_manager).file_path,
{
    config_manager.update_global_settings(
        settings.listen_addr,
        settings.global_timeout_ms,
        settings.max_connections,
    )
}

/// Answers PUT /api/config/global, given what came of saving.
pub fn global_settings_updated(outcome: std::result::Result<(), String>) -> (result: ApiResponse<
    (),
>)
    ensures
        match outcome {
            Ok(()) => result.confirms("Global settings updated successfully"@),
            Err(e) => result.refuses("Failed to update global settings: "@ + e@),
        },
{
    match outcome {
        Ok(()) => ApiResponse::success("Global settings updated successfully", None),
        Err(e) => {
            let message = text::cat2("Failed to update global settings: ", e.as_str());
            ApiResponse::error(message.as_str())
        },
    }
}

/// The names in a path are those that it was put together from, with or without a slash in front and
/// at the end.
pub proof fn law_segments_are_the_names(names: Seq<Seq<char>>)
    requires
        names.len() > 0,
        forall|i: int|
            0 <= i < names.len() ==> (#[trigger] names[i]).len() > 0 && !names[i].contains('/'),
    ensures
        segments(seq!['/'] + text::joined(names, '/')) == names,
        segments(text::joined(names, '/')) == names,
        segments(seq!['/'] + text::joined(names, '/') + seq!['/']) == names,
{
    let j = text::joined(names, '/');
    text::law_join_is_undone(names, '/');
    lemma_joined_first(names);
    assert((seq!['/'] + j).skip(1) =~= j);
    assert(names.last().len() > 0);
    let longer = names.push(Seq::empty());
    assert forall|i: int| 0 <= i < longer.len() implies !(#[trigger] longer[i]).contains('/') by {
        if i < names.len() {
            assert(!names[i].contains('/'));
        }
    }
    text::law_join_is_undone(longer, '/');
    lemma_joined_push(names);
    assert((seq!['/'] + j + seq!['/']).skip(1) =~= j + seq!['/']);
    assert(longer.drop_last() =~= names);
}

proof fn lemma_joined_first(names: Seq<Seq<char>>)
    requires
        names.len() > 0,
        names[0].len() > 0,
        !names[0].contains('/'),
    ensures
        text::joined(names, '/').len() > 0,
        text::joined(names, '/')[0] != '/',
{
    assert(names[0][0] != '/');
}

proof fn lemma_joined_push(names: Seq<Seq<char>>)
    requires
        names.len() > 0,
    ensures
        text::joined(names.push(Seq::empty()), '/') == text::joined(names, '/') + seq!['/'],
    decreases names.len(),
{
    let longer = names.push(Seq::empty());
    let rest = names.drop_first();
    assert(longer.drop_first() =~= rest.push(Seq::empty()));
    if names.len() == 1 {
        assert(longer.drop_first()[0] =~= Seq::<char>::empty());
        assert(text::joined(longer.drop_first(), '/') =~= Seq::<char>::empty());
        assert(text::joined(longer, '/') =~= names[0] + seq!['/']);
    } else {
        lemma_joined_push(rest);
        assert(text::joined(longer, '/') =~= text::joined(names, '/') + seq!['/']);
    }
}

/// A route is read, changed and deleted under its name by the three methods for that, and by no other.
pub proof fn law_route_requests(result: Routed<ConfigAction>, method: Seq<char>, name: Seq<char>)
    requires
        name.len() > 0,
        is_routed(result, method, seq!["api"@, "config"@, "routes"@, name]),
    ensures
        (result matches Routed::Action(ConfigAction::GetRoute(n)) && n@ == name) <==> method
            == "GET"@,
        (result matches Routed::Action(ConfigAction::UpdateRoute(n)) && n@ == name) <==> method
            == "PUT"@,
        (result matches Routed::Action(ConfigAction::DeleteRoute(n)) && n@ == name) <==> method
            == "DELETE"@,
        result is MethodNotAllowed <==> method != "GET"@ && method != "PUT"@ && method
            != "DELETE"@,
{
    lemma_methods_differ();
    lemma_routes_word();
}

proof fn lemma_methods_differ()
    ensures
        "GET"@ != "PUT"@,
        "GET"@ != "POST"@,
        "GET"@ != "DELETE"@,
        "PUT"@ != "POST"@,
        "PUT"@ != "DELETE"@,
        "POST"@ != "DELETE"@,
{
    reveal_strlit("GET");
    reveal_strlit("PUT");
    reveal_strlit("POST");
    reveal_strlit("DELETE");
    assert("GET"@[0] == 'G' && "PUT"@[0] == 'P' && "DELETE"@[0] == 'D' && "POST"@[0] == 'P');
    assert("PUT"@[1] == 'U' && "POST"@[1] == 'O');
}

proof fn lemma_routes_word()
    ensures
        "reload"@ != "routes"@,
        "reload"@ != "tcp"@,
        "reload"@ != "global"@,
        "routes"@ != "tcp"@,
        "routes"@ != "global"@,
        "tcp"@ != "global"@,
{
    reveal_strlit("reload");
    reveal_strlit("routes");
    reveal_strlit("tcp");
    reveal_strlit("global");
    assert("reload"@[1] == 'e' && "routes"@[1] == 'o' && "tcp"@[0] == 't' && "global"@[0] == 'g');
    assert("reload"@[0] == 'r' && "routes"@[0] == 'r');
}

/// The configuration and the list of routes are read, a reload is asked for, and settings are
/// changed, each under its own path and by its own method alone.
pub proof fn law_config_requests(result: Routed<ConfigAction>, method: Seq<char>, name: Seq<char>)
    ensures
        is_routed(result, method, seq!["api"@, "config"@]) ==> (result matches Routed::Action(
            ConfigAction::GetConfig,
        ) <==> method == "GET"@) && (result is MethodNotAllowed <==> method != "GET"@),
        is_routed(result, method, seq!["api"@, "config"@, "reload"@]) ==> (
        result matches Routed::Action(ConfigAction::ReloadConfig) <==> method == "POST"@) && (
        result is MethodNotAllowed <==> method != "POST"@),
        is_routed(result, method, seq!["api"@, "config"@, "routes"@]) ==> (
        result matches Routed::Action(ConfigAction::ListRoutes) <==> method == "GET"@) && (
        result is MethodNotAllowed <==> method != "GET"@),
        is_routed(result, method, seq!["api"@, "config"@, "tcp"@]) ==> (
        result matches Routed::Action(ConfigAction::UpdateTcpConfig) <==> method == "PUT"@) && (
        result is MethodNotAllowed <==> method != "PUT"@),
        is_routed(result, method, seq!["api"@, "config"@, "global"@]) ==> (
        result matches Routed::Action(ConfigAction::UpdateGlobalSettings) <==> method == "PUT"@) && (
        result is MethodNotAllowed <==> method != "PUT"@),
        name != "reload"@ && name != "routes"@ && name != "tcp"@ && name != "global"@ && is_routed(
            result,
            method,
            seq!["api"@, "config"@, name],
        ) ==> result is NotFound,
        name != "routes"@ && is_routed(
            result,
            method,
            seq!["api"@, "config"@, name, method],
        ) ==> result is NotFound,
        is_routed(result, method, seq!["api"@, "config"@, "routes"@, Seq::empty()])
            ==> result is NotFound,
        is_routed(result, method, seq!["api"@]) ==> result is NotFound,
        name != "config"@ && is_routed(result, method, seq!["api"@, name]) ==> result is NotFound,
        name != "api"@ && is_routed(result, method, seq![name, "config"@]) ==> result is NotFound,
{
    lemma_methods_differ();
    lemma_routes_word();
}

} // verus!
