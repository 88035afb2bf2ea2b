//! Client for the configuration interface: where its requests go, and what the answers mean.
use vstd::prelude::*;

use crate::config_api::{config_resource, segments, without_slash, ApiResponse, ConfigResource};
use crate::dynamic_config::api::{
    requested_route, requested_tcp, GlobalSettingsUpdateRequest, RouteUpdateRequest,
    TcpConfigUpdateRequest,
};
use crate::dynamic_config::{ProxyConfig, RouteConfig, TcpProxyConfig};
use crate::name_map::NameMap;
use crate::proxies::says;
use crate::text;

verus! {

broadcast use vstd::string::group_string_axioms;

/// Client for interacting with the router's configuration API.
pub struct ConfigClient {
    pub base_url: String,
}

/// What an answer with data means.
pub open spec fn is_data<T>(
    result: std::result::Result<T, String>,
    response: ApiResponse<T>,
    missing: Seq<char>,
    failed: Seq<char>,
) -> bool {
    if response.success {
        match response.data {
            Some(d) => result == Ok::<T, String>(d),
            None => says(result, missing),
        }
    } else {
        says(result, failed + response.message@)
    }
}

fn take_data<T>(response: ApiResponse<T>, missing: &str, failed: &str) -> (result:
    std::result::Result<T, String>)
    ensures
        is_data(result, response, missing@, failed@),
{
    if response.success {
        match response.data {
            Some(d) => Ok(d),
            None => Err(missing.to_string()),
        }
    } else {
        Err(text::cat2(failed, response.message.as_str()))
    }
}

/// What an answer without data means.
pub open spec fn is_done(
    result: std::result::Result<(), String>,
    response: ApiResponse<()>,
    failed: Seq<char>,
) -> bool {
    if response.success {
        result is Ok
    } else {
        says(result, failed + response.message@)
    }
}

fn take_done(response: ApiResponse<()>, failed: &str) -> (result: std::result::Result<(), String>)
    ensures
        is_done(result, response, failed@),
{
    if response.success {
        Ok(())
    } else {
        Err(text::cat2(failed, response.message.as_str()))
    }
}

/// The path of a route.
pub open spec fn route_path(name: Seq<char>) -> Seq<char> {
    "/api/config/routes/"@ + name
}

/// A route as it is sent.
pub open spec fn sent_route(route: RouteConfig) -> RouteUpdateRequest {
    RouteUpdateRequest {
        upstream: route.upstream,
        timeout_ms: route.timeout_ms,
        retry_count: route.retry_count,
        priority: route.priority,
        preserve_host_header: route.preserve_host_header,
        is_tcp: Some(route.is_tcp),
        tcp_listen_port: route.tcp_listen_port,
        is_udp: route.is_udp,
        udp_listen_port: route.udp_listen_port,
        db_type: route.db_type,
    }
}

/// TCP settings as they are sent: all of them.
pub open spec fn sent_tcp(config: TcpProxyConfig) -> TcpConfigUpdateRequest {
    TcpConfigUpdateRequest {
        enabled: Some(config.enabled),
        listen_addr: Some(config.listen_addr),
        connection_pooling: Some(config.connection_pooling),
        max_idle_time_secs: Some(config.max_idle_time_secs),
        udp_enabled: Some(config.udp_enabled),
        udp_listen_addr: Some(config.udp_listen_addr),
    }
}

impl ConfigClient {
    /// Create a new client pointing to the given API endpoint.
    pub fn new(base_url: &str) -> (result: Self)
        ensures
            result.base_url@ == text::trim_end(base_url@, '/'),
    {
        ConfigClient { base_url: text::trim_end_char(base_url, '/') }
    }

    /// Where the configuration is.
    pub fn config_url(&self) -> (result: String)
        ensures
            result@ == self.base_url@ + "/api/config"@,
    {
        text::cat2(self.base_url.as_str(), "/api/config")
    }

    /// Where to ask for the configuration to be reloaded.
    pub fn reload_url(&self) -> (result: String)
        ensures
            result@ == self.base_url@ + "/api/config/reload"@,
    {
        text::cat2(self.base_url.as_str(), "/api/config/reload")
    }

    /// Where the routes are.
    pub fn routes_url(&self) -> (result: String)
        ensures
            result@ == self.base_url@ + "/api/config/routes"@,
    {
        text::cat2(self.base_url.as_str(), "/api/config/routes")
    }

    /// Where a route is.
    pub fn route_url(&self, name: &str) -> (result: String)
        ensures
            result@ == self.base_url@ + route_path(name@),
    {
        let result = text::cat3(self.base_url.as_str(), "/api/config/routes/", name);
        assert(result@ =~= self.base_url@ + route_path(name@));
        result
    }

    /// Where the TCP settings are.
    pub fn tcp_url(&self) -> (result: String)
        ensures
            result@ == self.base_url@ + "/api/config/tcp"@,
    {
        text::cat2(self.base_url.as_str(), "/api/config/tcp")
    }

    /// Where the global settings are.
    pub fn global_url(&self) -> (result: String)
        ensures
            result@ == self.base_url@ + "/api/config/global"@,
    {
        text::cat2(self.base_url.as_str(), "/api/config/global")
    }

    /// The current configuration, from the answer to the request for it.
    pub fn get_config(&self, response: ApiResponse<ProxyConfig>) -> (result: std::result::Result<
        ProxyConfig,
        String,
    >)
        ensures
            is_data(
                result,
                response,
                "No configuration data returned"@,
                "Failed to get configuration: "@,
            ),
    {
        take_data(response, "No configuration data returned", "Failed to get configuration: ")
    }

    /// What came of reloading the configuration.
    pub fn reload_config(&self, response: ApiResponse<()>) -> (result: std::result::Result<
        (),
        String,
    >)
        ensures
            is_done(result, response, "Failed to reload configuration: "@),
    {
        take_done(response, "Failed to reload configuration: ")
    }

    /// All routes, from the answer to the request for them.
    pub fn get_routes(&self, response: ApiResponse<NameMap<RouteConfig>>) -> (result:
        std::result::Result<NameMap<RouteConfig>, String>)
        ensures
            is_data(result, response, "No routes data returned"@, "Failed to get routes: "@),
    {
        take_data(response, "No routes data returned", "Failed to get routes: ")
    }

    /// A route, from the answer to the request for it.
    pub fn get_route(&self, response: ApiResponse<RouteConfig>) -> (result: std::result::Result<
        RouteConfig,
        String,
    >)
        ensures
            is_data(result, response, "No route data returned"@, "Failed to get route: "@),
    {
        take_data(response, "No route data returned", "Failed to get route: ")
    }

    /// What is sent to update or create a route.
    pub fn route_request(route: RouteConfig) -> (result: RouteUpdateRequest)
        ensures
            result == sent_route(route),
    {
        RouteUpdateRequest {
            upstream: route.upstream,
            timeout_ms: route.timeout_ms,
            retry_count: route.retry_count,
            priority: route.priority,
            preserve_host_header: route.preserve_host_header,
            is_tcp: Some(route.is_tcp),
            tcp_listen_port: route.tcp_listen_port,
            is_udp: route.is_udp,
            udp_listen_port: route.udp_listen_port,
            db_type: route.db_type,
        }
    }

    /// What came of updating or creating a route.
    pub fn update_route(&self, response: ApiResponse<()>) -> (result: std::result::Result<
        (),
        String,
    >)
        ensures
            is_done(result, response, "Failed to update route: "@),
    {
        take_done(response, "Failed to update route: ")
    }

    /// What came of deleting a route.
    pub fn delete_route(&self, response: ApiResponse<()>) -> (result: std::result::Result<
        (),
        String,
    >)
        ensures
            is_done(result, response, "Failed to delete route: "@),
    {
        take_done(response, "Failed to delete route: ")
    }

    /// What is sent to update the TCP settings.
    pub fn tcp_request(tcp_config: &TcpProxyConfig) -> (result: TcpConfigUpdateRequest)
        ensures
            result == sent_tcp(*tcp_config),
    {
        TcpConfigUpdateRequest {
            enabled: Some(tcp_config.enabled),
            listen_addr: Some(tcp_config.listen_addr.clone()),
            connection_pooling: Some(tcp_config.connection_pooling),
            max_idle_time_secs: Some(tcp_config.max_idle_time_secs),
            udp_enabled: Some(tcp_config.udp_enabled),
            udp_listen_addr: Some(tcp_config.udp_listen_addr.clone()),
        }
    }

    /// What came of updating the TCP settings.
    pub fn update_tcp_config(&self, response: ApiResponse<()>) -> (result: std::result::Result<
        (),
        String,
    >)
        ensures
            is_done(result, response, "Failed to update TCP configuration: "@),
    {
        take_done(response, "Failed to update TCP configuration: ")
    }

    /// What is sent to update the global settings.
    pub fn global_request(
        listen_addr: Option<String>,
        global_timeout_ms: Option<u64>,
        max_connections: Option<usize>,
    ) -> (result: GlobalSettingsUpdateRequest)
        ensures
            result == (GlobalSettingsUpdateRequest {
                listen_addr,
                global_timeout_ms,
                max_connections,
            }),
    {
        GlobalSettingsUpdateRequest { listen_addr, global_timeout_ms, max_connections }
    }

    /// What came of updating the global settings.
    pub fn update_global_settings(&self, response: ApiResponse<()>) -> (result: std::result::Result<
        (),
        String,
    >)
        ensures
            is_done(result, response, "Failed to update global settings: "@),
    {
        take_done(response, "Failed to update global settings: ")
    }
}

/// A route arrives as it was sent.
pub proof fn law_routes_arrive_unchanged(route: RouteConfig)
    ensures
        requested_route(sent_route(route)) == route,
{
}

/// TCP settings arrive as they were sent, whatever they were before.
pub proof fn law_tcp_settings_arrive_unchanged(sent: TcpProxyConfig, before: TcpProxyConfig)
    ensures
        requested_tcp(sent_tcp(sent), before) == sent,
{
}

/// Where the client looks for a route, the interface has that route, for every name that can stand
/// between slashes.
pub proof fn law_route_is_found_at_its_path(name: Seq<char>)
    requires
        name.len() > 0,
        !name.contains('/'),
    ensures
        config_resource(segments(route_path(name))) == Some(ConfigResource::Route),
        segments(route_path(name))[3] == name,
{
    reveal_strlit("/api/config/routes/");
    reveal_strlit("api");
    reveal_strlit("config");
    reveal_strlit("routes");
    let c = '/';
    let tail3 = name;
    let tail2 = "routes"@ + seq![c] + tail3;
    let tail1 = "config"@ + seq![c] + tail2;
    let tail0 = "api"@ + seq![c] + tail1;
    assert("/api/config/routes/"@ =~= seq![c] + "api"@ + seq![c] + "config"@ + seq![c] + "routes"@
        + seq![c]);
    assert(without_slash(route_path(name)) =~= tail0);
    text::lemma_split_first("api"@, tail1, c);
    text::lemma_split_first("config"@, tail2, c);
    text::lemma_split_first("routes"@, tail3, c);
    text::lemma_split_none(name, c);
    let names = text::split(tail0, c);
    assert(names =~= seq!["api"@, "config"@, "routes"@, name]);
    assert(names.last() == name);
}

/// Data is handed on exactly where the answer is a success with data; an answer without success fails
/// with its own message.
pub proof fn law_answers_are_believed<T>(
    result: std::result::Result<T, String>,
    response: ApiResponse<T>,
    missing: Seq<char>,
    failed: Seq<char>,
)
    requires
        is_data(result, response, missing, failed),
    ensures
        result is Ok <==> response.success && response.data is Some,
        result matches Ok(d) ==> response.data == Some(d),
        !response.success ==> (result matches Err(e) && response.message@.is_suffix_of(e@)),
{
    if !response.success {
        let e = result->Err_0@;
        assert(e.subrange(e.len() - response.message@.len(), e.len() as int)
            =~= response.message@);
    }
}

/// A change is done exactly where the answer is a success; otherwise it fails with its own message.
pub proof fn law_changes_are_confirmed(
    result: std::result::Result<(), String>,
    response: ApiResponse<()>,
    failed: Seq<char>,
)
    requires
        is_done(result, response, failed),
    ensures
        result is Ok <==> response.success,
        !response.success ==> (result matches Err(e) && response.message@.is_suffix_of(e@)),
{
    if !response.success {
        let e = result->Err_0@;
        assert(e.subrange(e.len() - response.message@.len(), e.len() as int)
            =~= response.message@);
    }
}

} // verus!
