//! The health check endpoint.
use vstd::prelude::*;

use crate::config::HealthCheckConfig;
use crate::error::{internal_error, Error, Result};
use crate::metrics::SystemHealth;
use crate::routing::HealthState;
use crate::text;

verus! {

broadcast use vstd::string::group_string_axioms;

/// Health check server for system health monitoring.
#[derive(Debug)]
pub struct HealthServer {
    pub config: HealthCheckConfig,
    /// Whether the server was told to stop
    pub stopping: bool,
}

impl HealthServer {
    /// Create a new health server.
    pub fn new(config: HealthCheckConfig) -> (result: Self)
        ensures
            result.config == config,
            !result.stopping,
    {
        HealthServer { config, stopping: false }
    }

    /// Whether the server is to run.
    pub fn enabled(&self) -> (result: bool)
        ensures
            result == self.config.enabled,
    {
        self.config.enabled
    }

    /// What a request for this path is answered with: the health under the configured path, and
    /// nothing under any other.
    pub fn handle_request(&self, path: &str, timestamp: u64) -> (result: Option<SystemHealth>)
        ensures
            result is Some <==> path@ == self.config.path@,
            result matches Some(h) ==> {
                &&& h.status == HealthState::Healthy
                &&& h.uptime_seconds == 0
                &&& h.healthy_proxies == 0
                &&& h.unhealthy_proxies == 0
                &&& h.healthy_upstreams == 0
                &&& h.unhealthy_upstreams == 0
                &&& h.timestamp == timestamp
                &&& h.message@ == "Health check endpoint operational"@
            },
    {
        if text::eq(path, self.config.path.as_str()) {
            Some(
                SystemHealth {
                    status: HealthState::Healthy,
                    uptime_seconds: 0,
                    healthy_proxies: 0,
                    unhealthy_proxies: 0,
                    healthy_upstreams: 0,
                    unhealthy_upstreams: 0,
                    timestamp,
                    message: "Health check endpoint operational".to_string(),
                },
            )
        } else {
            None
        }
    }

    /// The error for a server that broke down.
    pub fn failure(description: &str) -> (result: Error)
        ensures
            result@ == internal_error("Health server error: "@ + description@),
    {
        let message = text::cat2("Health server error: ", description);
        Error::internal(message.as_str())
    }

    /// Shutdown the health server.
    pub fn shutdown(&mut self) -> (result: Result<()>)
        ensures
            result is Ok,
            *final(self) == (HealthServer { stopping: true, ..*old(self) }),
    {
        self.stopping = true;
        Ok(())
    }
}

} // verus!
