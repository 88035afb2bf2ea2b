//! Error types and result handling.
use vstd::prelude::*;

use crate::text;

verus! {

broadcast use vstd::string::group_string_axioms;

/// Main error type for router operations.
#[derive(Debug, Clone)]
pub enum Error {
    /// Configuration related errors
    Config { message: String, source: Option<String> },
    /// Network related errors
    Network { message: String, kind: NetworkErrorKind },
    /// Proxy operation errors
    Proxy { message: String, proxy_type: String, instance_name: String },
    /// Resource management errors
    Resource { message: String, resource_type: String },
    /// Internal system errors
    Internal { message: String, context: Option<String> },
}

/// Network error categories
#[derive(Debug, Clone, Copy, PartialEq, Eq, Structural)]
pub enum NetworkErrorKind {
    /// Connection failed
    ConnectionFailed,
    /// Timeout occurred
    Timeout,
    /// DNS resolution failed
    DnsResolution,
    /// Certificate/TLS error
    Tls,
    /// Protocol error
    Protocol,
}

/// The kinds of input/output failure that are told apart when one becomes an [`Error`].
#[derive(Debug, Clone, Copy, PartialEq, Eq, Structural)]
pub enum IoErrorKind {
    TimedOut,
    ConnectionRefused,
    ConnectionAborted,
    ConnectionReset,
    /// Every other kind
    Other,
}

/// An [`Error`] with its texts taken as sequences of characters.
pub enum ErrorView {
    Config { message: Seq<char>, source: Option<Seq<char>> },
    Network { message: Seq<char>, kind: NetworkErrorKind },
    Proxy { message: Seq<char>, proxy_type: Seq<char>, instance_name: Seq<char> },
    Resource { message: Seq<char>, resource_type: Seq<char> },
    Internal { message: Seq<char>, context: Option<Seq<char>> },
}

/// The text of an optional slice.
pub open spec fn opt_str(s: Option<&str>) -> Option<Seq<char>> {
    match s {
        Some(t) => Some(t@),
        None => None,
    }
}

/// The text of an optional string.
pub open spec fn opt_text(s: Option<String>) -> Option<Seq<char>> {
    match s {
        Some(t) => Some(t@),
        None => None,
    }
}

impl View for Error {
    type V = ErrorView;

    open spec fn view(&self) -> ErrorView {
        match *self {
            Error::Config { message, source } => ErrorView::Config {
                message: message@,
                source: opt_text(source),
            },
            Error::Network { message, kind } => ErrorView::Network { message: message@, kind },
            Error::Proxy { message, proxy_type, instance_name } => ErrorView::Proxy {
                message: message@,
                proxy_type: proxy_type@,
                instance_name: instance_name@,
            },
            Error::Resource { message, resource_type } => ErrorView::Resource {
                message: message@,
                resource_type: resource_type@,
            },
            Error::Internal { message, context } => ErrorView::Internal {
                message: message@,
                context: opt_text(context),
            },
        }
    }
}

/// A configuration error with this message and no source.
pub open spec fn config_error(message: Seq<char>) -> ErrorView {
    ErrorView::Config { message, source: None }
}

/// An internal error with this message and no context.
pub open spec fn internal_error(message: Seq<char>) -> ErrorView {
    ErrorView::Internal { message, context: None }
}

/// Whether a result is a failure with this error.
pub open spec fn fails<T>(result: std::result::Result<T, Error>, e: ErrorView) -> bool {
    result matches Err(x) && x@ == e
}

/// Whether a result is a failure with the fault, where there is one, and a success otherwise.
pub open spec fn fails_by<T>(result: std::result::Result<T, Error>, fault: Option<ErrorView>) -> bool {
    match fault {
        Some(f) => fails(result, f),
        None => result is Ok,
    }
}

/// How a category of network error is written.
pub open spec fn kind_text(kind: NetworkErrorKind) -> Seq<char> {
    match kind {
        NetworkErrorKind::ConnectionFailed => "connection failed"@,
        NetworkErrorKind::Timeout => "timeout"@,
        NetworkErrorKind::DnsResolution => "DNS resolution"@,
        NetworkErrorKind::Tls => "TLS/certificate"@,
        NetworkErrorKind::Protocol => "protocol"@,
    }
}

/// How an error is written.
pub open spec fn error_text(e: ErrorView) -> Seq<char> {
    match e {
        ErrorView::Config { message, source } => {
            let head = "Configuration error: "@ + message;
            match source {
                Some(s) => head + (" (source: "@ + s + ")"@),
                None => head,
            }
        },
        ErrorView::Network { message, kind } => "Network error ("@ + kind_text(kind) + "): "@
            + message,
        ErrorView::Proxy { message, proxy_type, instance_name } => "Proxy error in "@ + proxy_type
            + " instance '"@ + instance_name + ("': "@ + message),
        ErrorView::Resource { message, resource_type } => "Resource error ("@ + resource_type
            + "): "@ + message,
        ErrorView::Internal { message, context } => {
            let head = "Internal error: "@ + message;
            match context {
                Some(c) => head + (" (context: "@ + c + ")"@),
                None => head,
            }
        },
    }
}

impl NetworkErrorKind {
    /// How this category is written in messages.
    pub fn text(&self) -> (result: String)
        ensures
            result@ == kind_text(*self),
    {
        match self {
            NetworkErrorKind::ConnectionFailed => "connection failed".to_string(),
            NetworkErrorKind::Timeout => "timeout".to_string(),
            NetworkErrorKind::DnsResolution => "DNS resolution".to_string(),
            NetworkErrorKind::Tls => "TLS/certificate".to_string(),
            NetworkErrorKind::Protocol => "protocol".to_string(),
        }
    }
}

impl Error {
    /// Create a configuration error
    pub fn config(message: &str) -> (result: Self)
        ensures
            result@ == config_error(message@),
    {
        Error::Config { message: message.to_string(), source: None }
    }

    /// Create a configuration error with source
    pub fn config_with_source(message: &str, source: &str) -> (result: Self)
        ensures
            result@ == (ErrorView::Config { message: message@, source: Some(source@) }),
    {
        Error::Config { message: message.to_string(), source: Some(source.to_string()) }
    }

    /// Create a network error
    pub fn network(message: &str, kind: NetworkErrorKind) -> (result: Self)
        ensures
            result@ == (ErrorView::Network { message: message@, kind }),
    {
        Error::Network { message: message.to_string(), kind }
    }

    /// Create a proxy error
    pub fn proxy(message: &str, proxy_type: &str, instance_name: &str) -> (result: Self)
        ensures
            result@ == (ErrorView::Proxy {
                message: message@,
                proxy_type: proxy_type@,
                instance_name: instance_name@,
            }),
    {
        Error::Proxy {
            message: message.to_string(),
            proxy_type: proxy_type.to_string(),
            instance_name: instance_name.to_string(),
        }
    }

    /// Create a resource error
    pub fn resource(message: &str, resource_type: &str) -> (result: Self)
        ensures
            result@ == (ErrorView::Resource { message: message@, resource_type: resource_type@ }),
    {
        Error::Resource { message: message.to_string(), resource_type: resource_type.to_string() }
    }

    /// Create an internal error
    pub fn internal(message: &str) -> (result: Self)
        ensures
            result@ == internal_error(message@),
    {
        Error::Internal { message: message.to_string(), context: None }
    }

    /// Create an internal error with context
    pub fn internal_with_context(message: &str, context: &str) -> (result: Self)
        ensures
            result@ == (ErrorView::Internal { message: message@, context: Some(context@) }),
    {
        Error::Internal { message: message.to_string(), context: Some(context.to_string()) }
    }

    /// Check if this is a configuration error
    pub fn is_config(&self) -> (result: bool)
        ensures
            result == (self is Config),
    {
        matches!(self, Error::Config { .. })
    }

    /// Check if this is a network error
    pub fn is_network(&self) -> (result: bool)
        ensures
            result == (self is Network),
    {
        matches!(self, Error::Network { .. })
    }

    /// Check if this is a proxy error
    pub fn is_proxy(&self) -> (result: bool)
        ensures
            result == (self is Proxy),
    {
        matches!(self, Error::Proxy { .. })
    }

    /// Check if this is a resource error
    pub fn is_resource(&self) -> (result: bool)
        ensures
            result == (self is Resource),
    {
        matches!(self, Error::Resource { .. })
    }

    /// Check if this is an internal error
    pub fn is_internal(&self) -> (result: bool)
        ensures
            result == (self is Internal),
    {
        matches!(self, Error::Internal { .. })
    }

    /// How this error is written for people to read.
    pub fn text(&self) -> (result: String)
        ensures
            result@ == error_text(self@),
    {
        match self {
            Error::Config { message, source } => {
                let mut s = text::cat2("Configuration error: ", message.as_str());
                if let Some(source) = source {
                    let tail = text::cat3(" (source: ", source.as_str(), ")");
                    s.append(tail.as_str());
                }
                s
            },
            Error::Network { message, kind } => {
                let head = text::cat3("Network error (", kind.text().as_str(), "): ");
                text::cat2(head.as_str(), message.as_str())
            },
            Error::Proxy { message, proxy_type, instance_name } => {
                let tail = text::cat2("': ", message.as_str());
                text::cat5(
                    "Proxy error in ",
                    proxy_type.as_str(),
                    " instance '",
                    instance_name.as_str(),
                    tail.as_str(),
                )
            },
            Error::Resource { message, resource_type } => {
                let head = text::cat3("Resource error (", resource_type.as_str(), "): ");
                text::cat2(head.as_str(), message.as_str())
            },
            Error::Internal { message, context } => {
                let mut s = text::cat2("Internal error: ", message.as_str());
                if let Some(context) = context {
                    let tail = text::cat3(" (context: ", context.as_str(), ")");
                    s.append(tail.as_str());
                }
                s
            },
        }
    }

    /// The error that an input/output failure of this kind, with this description, becomes.
    pub fn from_io(kind: IoErrorKind, description: &str) -> (result: Self)
        ensures
            result@ == io_error(kind, description@),
    {
        match kind {
            IoErrorKind::TimedOut => Error::network(description, NetworkErrorKind::Timeout),
            IoErrorKind::ConnectionRefused
            | IoErrorKind::ConnectionAborted
            | IoErrorKind::ConnectionReset => Error::network(
                description,
                NetworkErrorKind::ConnectionFailed,
            ),
            IoErrorKind::Other => Error::internal(description),
        }
    }

    /// The error for a YAML text that could not be parsed.
    pub fn from_yaml(description: &str) -> (result: Self)
        ensures
            result@ == (ErrorView::Config {
                message: "YAML parsing failed"@,
                source: Some(description@),
            }),
    {
        Error::config_with_source("YAML parsing failed", description)
    }

    /// The error for a JSON text that could not be parsed.
    pub fn from_json(description: &str) -> (result: Self)
        ensures
            result@ == (ErrorView::Config {
                message: "JSON parsing failed"@,
                source: Some(description@),
            }),
    {
        Error::config_with_source("JSON parsing failed", description)
    }

    /// The error for a TOML text that could not be parsed.
    pub fn from_toml(description: &str) -> (result: Self)
        ensures
            result@ == (ErrorView::Config {
                message: "TOML parsing failed"@,
                source: Some(description@),
            }),
    {
        Error::config_with_source("TOML parsing failed", description)
    }

    /// The error for a network address that could not be parsed.
    pub fn from_address(description: &str) -> (result: Self)
        ensures
            result@ == (ErrorView::Config {
                message: "Invalid address format"@,
                source: Some(description@),
            }),
    {
        Error::config_with_source("Invalid address format", description)
    }
}

/// What an input/output failure becomes: a time-out and the three ways in which a peer can drop a
/// connection are network errors, the rest is internal.
pub open spec fn io_error(kind: IoErrorKind, description: Seq<char>) -> ErrorView {
    match kind {
        IoErrorKind::TimedOut => ErrorView::Network {
            message: description,
            kind: NetworkErrorKind::Timeout,
        },
        IoErrorKind::ConnectionRefused
        | IoErrorKind::ConnectionAborted
        | IoErrorKind::ConnectionReset => ErrorView::Network {
            message: description,
            kind: NetworkErrorKind::ConnectionFailed,
        },
        IoErrorKind::Other => internal_error(description),
    }
}

/// Result type for router operations.
pub type Result<T> = std::result::Result<T, Error>;

/// Errors of the built-in plugins.
#[derive(Debug, Clone)]
pub enum RouterError {
    /// A plugin cannot do what is asked
    PluginError { plugin: String, message: String },
    /// A plugin could not be initialized
    PluginInitError { plugin: String, reason: String },
    /// An address cannot be listened on
    BindError { address: String, reason: String },
    /// No backend can be chosen
    LoadBalancingError { message: String },
    /// A configuration cannot be used
    ConfigError { message: String },
    /// A request to the management interface is not complete
    InvalidApiRequest { reason: String },
    /// There is no such operation
    NotSupported { operation: String },
    /// A backend cannot be reached
    BackendConnectionError { backend: String },
    /// An operation took too long
    NetworkTimeout { operation: String },
    /// A service is given time to recover
    CircuitBreakerOpen { service: String },
    /// An upstream failed
    UpstreamError { message: String },
    /// A request cannot be passed on
    RequestError { message: String },
}

/// A [`RouterError`] with its texts taken as sequences of characters.
pub enum RouterErrorView {
    PluginError { plugin: Seq<char>, message: Seq<char> },
    PluginInitError { plugin: Seq<char>, reason: Seq<char> },
    BindError { address: Seq<char>, reason: Seq<char> },
    LoadBalancingError { message: Seq<char> },
    ConfigError { message: Seq<char> },
    InvalidApiRequest { reason: Seq<char> },
    NotSupported { operation: Seq<char> },
    BackendConnectionError { backend: Seq<char> },
    NetworkTimeout { operation: Seq<char> },
    CircuitBreakerOpen { service: Seq<char> },
    UpstreamError { message: Seq<char> },
    RequestError { message: Seq<char> },
}

impl View for RouterError {
    type V = RouterErrorView;

    open spec fn view(&self) -> RouterErrorView {
        match *self {
            RouterError::PluginError { plugin, message } => RouterErrorView::PluginError {
                plugin: plugin@,
                message: message@,
            },
            RouterError::PluginInitError { plugin, reason } => RouterErrorView::PluginInitError {
                plugin: plugin@,
                reason: reason@,
            },
            RouterError::BindError { address, reason } => RouterErrorView::BindError {
                address: address@,
                reason: reason@,
            },
            RouterError::LoadBalancingError { message } => RouterErrorView::LoadBalancingError {
                message: message@,
            },
            RouterError::ConfigError { message } => RouterErrorView::ConfigError {
                message: message@,
            },
            RouterError::InvalidApiRequest { reason } => RouterErrorView::InvalidApiRequest {
                reason: reason@,
            },
            RouterError::NotSupported { operation } => RouterErrorView::NotSupported {
                operation: operation@,
            },
            RouterError::BackendConnectionError { backend } => RouterErrorView::BackendConnectionError {
                backend: backend@,
            },
            RouterError::NetworkTimeout { operation } => RouterErrorView::NetworkTimeout {
                operation: operation@,
            },
            RouterError::CircuitBreakerOpen { service } => RouterErrorView::CircuitBreakerOpen {
                service: service@,
            },
            RouterError::UpstreamError { message } => RouterErrorView::UpstreamError {
                message: message@,
            },
            RouterError::RequestError { message } => RouterErrorView::RequestError {
                message: message@,
            },
        }
    }
}

/// Whether a result is a failure with this error.
pub open spec fn router_fails<T>(
    result: std::result::Result<T, RouterError>,
    e: RouterErrorView,
) -> bool {
    result matches Err(x) && x@ == e
}

/// The message that an error carries.
pub open spec fn message_of(e: ErrorView) -> Seq<char> {
    match e {
        ErrorView::Config { message, .. } => message,
        ErrorView::Network { message, .. } => message,
        ErrorView::Proxy { message, .. } => message,
        ErrorView::Resource { message, .. } => message,
        ErrorView::Internal { message, .. } => message,
    }
}

/// An error is written with its message in full.
pub proof fn law_errors_tell_their_message(e: ErrorView)
    ensures
        exists|i: int| #[trigger] crate::text::occurs_at(error_text(e), message_of(e), i),
{
    let t = error_text(e);
    let m = message_of(e);
    let (before, after) = match e {
        ErrorView::Config { message, source } => (
            "Configuration error: "@,
            match source {
                Some(s) => " (source: "@ + s + ")"@,
                None => Seq::empty(),
            },
        ),
        ErrorView::Network { message, kind } => (
            "Network error ("@ + kind_text(kind) + "): "@,
            Seq::empty(),
        ),
        ErrorView::Proxy { message, proxy_type, instance_name } => (
            "Proxy error in "@ + proxy_type + " instance '"@ + instance_name + "': "@,
            Seq::empty(),
        ),
        ErrorView::Resource { message, resource_type } => (
            "Resource error ("@ + resource_type + "): "@,
            Seq::empty(),
        ),
        ErrorView::Internal { message, context } => (
            "Internal error: "@,
            match context {
                Some(c) => " (context: "@ + c + ")"@,
                None => Seq::empty(),
            },
        ),
    };
    assert(t =~= before + m + after);
    let n = before.len() as int;
    assert(t.subrange(n, n + m.len()) =~= m);
    assert(crate::text::occurs_at(t, m, n));
}

/// An input/output failure keeps its description. It is a timeout exactly where the time ran out, a
/// failed connection where the peer dropped it, and internal otherwise.
pub proof fn law_io_failures_are_told_apart(kind: IoErrorKind, description: Seq<char>)
    ensures
        message_of(io_error(kind, description)) == description,
        (io_error(kind, description) matches ErrorView::Network { kind: k, .. } && k
            == NetworkErrorKind::Timeout) <==> kind == IoErrorKind::TimedOut,
        io_error(kind, description) is Internal <==> kind == IoErrorKind::Other,
        (io_error(kind, description) matches ErrorView::Network { kind: k, .. } && k
            == NetworkErrorKind::ConnectionFailed) <==> kind == IoErrorKind::ConnectionRefused
            || kind == IoErrorKind::ConnectionAborted || kind == IoErrorKind::ConnectionReset,
{
}

} // verus!
