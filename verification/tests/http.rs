use harbr_router::config::{HttpProxyConfig, UpstreamConfig};
use harbr_router::headers::{check_name, check_value, flatten, unset, visible_text, HeaderFault};
use harbr_router::name_map::NameMap;
use harbr_router::proxy::http::{
    build_upstream_uri, create_error_response, extract_session_key, join_uri, transform_request, transform_response,
    HttpProxy, UpstreamReply,
};
use harbr_router::routing::{LoadBalancingStrategy, Router, UpstreamInfo};
use harbr_router::time::{Duration, Instant};
use hyper::header::HeaderValue;
use hyper::HeaderMap;

fn upstream_at(address: &str) -> UpstreamConfig {
    UpstreamConfig {
        name: "u".to_string(),
        address: address.to_string(),
        weight: 1,
        priority: 0,
        timeout_ms: 2500,
        retry: Default::default(),
        health_check: None,
        tls: None,
    }
}

fn start() -> Instant {
    Instant { nanos: 0 }
}

fn with_header(name: &'static str, value: &'static str) -> HeaderMap<HeaderValue> {
    let mut fields = HeaderMap::new();
    fields.insert(name, HeaderValue::from_static(value));
    fields
}

#[test]
fn headers_are_set_and_unset() {
    let mut fields: HeaderMap<HeaderValue> = HeaderMap::new();
    assert!(harbr_router::headers::set(&mut fields, "X-Proxy", "router").is_ok());
    assert_eq!(fields.get("x-proxy").unwrap(), "router");
    assert!(matches!(harbr_router::headers::set(&mut fields, "bad name", "v"), Err(HeaderFault::Name(_))));
    assert!(matches!(harbr_router::headers::set(&mut fields, "x-ok", "a\nb"), Err(HeaderFault::Value(_))));
    assert_eq!(fields.len(), 1);
    assert!(unset(&mut fields, "X-PROXY").is_ok());
    assert!(fields.is_empty());
    assert!(matches!(unset(&mut fields, ""), Err(HeaderFault::Name(_))));
}

#[test]
fn names_and_values_are_checked() {
    assert!(check_name("Content-Type").is_ok());
    assert_eq!(check_name("a b").unwrap_err(), "invalid HTTP header name");
    assert!(check_value("text/plain"));
    assert!(!check_value("a\rb"));
    assert_eq!(visible_text(&b"plain".to_vec()).unwrap(), "plain");
    assert_eq!(visible_text(&vec![200]), None);
}

#[test]
fn the_last_value_of_a_header_is_kept() {
    let mut fields: HeaderMap<HeaderValue> = HeaderMap::new();
    fields.append("x-a", HeaderValue::from_static("1"));
    fields.append("x-a", HeaderValue::from_static("2"));
    let flat = flatten(&fields).unwrap();
    assert_eq!(flat.get_all("x-a").iter().count(), 1);
    assert_eq!(flat.get("x-a").unwrap(), "2");
}

#[test]
fn requests_are_transformed() {
    let mut add_headers = NameMap::new();
    add_headers.insert("X-Added".to_string(), "yes".to_string());
    let config = HttpProxyConfig {
        add_headers,
        remove_headers: vec!["X-Secret".to_string()],
        ..Default::default()
    };
    let mut fields = with_header("x-secret", "1");
    assert!(transform_request(&mut fields, &config).is_ok());
    assert_eq!(fields.get("x-added").unwrap(), "yes");
    assert!(fields.get("x-secret").is_none());
}

#[test]
fn removal_wins_over_adding() {
    let mut add_headers = NameMap::new();
    add_headers.insert("X-Both".to_string(), "yes".to_string());
    let config = HttpProxyConfig {
        add_headers,
        remove_headers: vec!["x-both".to_string()],
        ..Default::default()
    };
    let mut fields: HeaderMap<HeaderValue> = HeaderMap::new();
    assert!(transform_request(&mut fields, &config).is_ok());
    assert!(fields.get("x-both").is_none());
}

#[test]
fn bad_configured_headers_are_refused() {
    let mut add_headers = NameMap::new();
    add_headers.insert("bad name".to_string(), "yes".to_string());
    let config = HttpProxyConfig { add_headers, ..Default::default() };
    let mut fields: HeaderMap<HeaderValue> = HeaderMap::new();
    assert!(transform_request(&mut fields, &config).unwrap_err().is_config());
}

#[test]
fn responses_are_marked() {
    let mut fields: HeaderMap<HeaderValue> = HeaderMap::new();
    assert!(transform_response(&mut fields).is_ok());
    assert!(!fields.is_empty());
}

#[test]
fn uris_are_built_for_the_upstream() {
    let with_scheme = UpstreamInfo::new(upstream_at("https://host:8443"), start());
    assert_eq!(build_upstream_uri(&with_scheme, Some("/a?b=c")).unwrap(), "https://host:8443/a?b=c");
    let plain = UpstreamInfo::new(upstream_at("host:8080"), start());
    assert_eq!(build_upstream_uri(&plain, Some("/a")).unwrap(), "http://host:8080/a");
    assert_eq!(join_uri(Some("http"), Some("h:1"), "ignored", Some("/x")), "http://h:1/x");
}

#[test]
fn sessions_are_recognized() {
    assert_eq!(extract_session_key(&HeaderMap::new()), None);
    assert_eq!(
        extract_session_key(&with_header("cookie", "a=1; session_id=abc; b=2")),
        Some("abc".to_string())
    );
}

#[test]
fn requests_are_prepared_settled_and_counted() {
    let mut proxy = HttpProxy::new();
    let mut router = Router::new(LoadBalancingStrategy::RoundRobin);
    router.update_upstreams(vec![upstream_at("host:8080")], start()).unwrap();
    let config = HttpProxyConfig::default();
    let mut fields: HeaderMap<HeaderValue> = HeaderMap::new();

    proxy.begin_request();
    assert_eq!(proxy.metrics.requests_total, 1);
    assert_eq!(proxy.metrics.connections_active, 1);
    let info = &router.get_upstreams()[0];
    let prepared =
        HttpProxy::prepare_request(Some((0, info)), Some("/p"), &mut fields, &config).unwrap();
    assert_eq!(prepared.uri, "http://host:8080/p");
    assert_eq!(prepared.timeout, Duration::from_millis(2500));
    assert!(HttpProxy::prepare_request(None, Some("/p"), &mut fields, &config).is_err());

    let elapsed = Duration::from_millis(3);
    assert!(HttpProxy::settle_request(&mut router, 0, UpstreamReply::Answered, elapsed, start()).is_ok());
    assert_eq!(router.get_upstreams()[0].stats.responses_received, 1);
    let failed = UpstreamReply::Failed("reset".to_string());
    assert!(HttpProxy::settle_request(&mut router, 0, failed, elapsed, start()).is_err());
    assert_eq!(router.get_upstreams()[0].stats.failures, 1);
    assert!(HttpProxy::settle_request(&mut router, 0, UpstreamReply::TimedOut, elapsed, start()).is_err());

    assert!(proxy.finish_request(elapsed, Some(200)).is_none());
    assert_eq!(proxy.metrics.connections_active, 0);
    proxy.begin_request();
    let error = proxy.finish_request(elapsed, None).unwrap();
    assert_eq!(error.status, 502);
    assert_eq!(proxy.metrics.status_codes.count_from(500), 1);
}

#[test]
fn error_responses_are_plain_text() {
    let response = create_error_response(503, "down");
    assert_eq!(response.status, 503);
    assert_eq!(response.body, "down");
    assert_eq!(response.content_type, "text/plain");
}
