use harbr_router::config::UpstreamConfig;
use harbr_router::routing::{
    draw, rank, HealthCandidate, HealthState, LoadBalancingStrategy, Router, Selection,
    UpstreamInfo,
};
use harbr_router::time::{Duration, Instant};

fn create_test_upstream(name: &str, weight: u32) -> UpstreamConfig {
    UpstreamConfig {
        name: name.to_string(),
        address: "127.0.0.1:8080".to_string(),
        weight,
        priority: 0,
        timeout_ms: 5000,
        retry: Default::default(),
        health_check: None,
        tls: None,
    }
}

fn at(nanos: u64) -> Instant {
    Instant { nanos }
}

fn score_of(candidate: &HealthCandidate) -> f64 {
    let score = candidate.score;
    let base = score.base_tenths as f64 / 10.0;
    let success = score.success.numerator as f64 / score.success.denominator as f64;
    let latency = score.latency_tenths as f64 / 10.0;
    base * success * latency * candidate.weight as f64
}

/// Chooses among candidates as the scores say.
fn choose_by_health(router: &mut Router, candidates: &Vec<HealthCandidate>) -> Option<usize> {
    let scores: Vec<(usize, u64)> = candidates
        .iter()
        .map(|c| (c.index, score_of(c).to_bits()))
        .collect();
    let ranking = rank(&scores);
    if ranking.is_empty() {
        return None;
    }
    let total: f64 = ranking.iter().map(|r| f64::from_bits(r.1)).sum();
    let mut value = (router.take_ticket() as f64 / u64::MAX as f64) * total;
    let used_up: Vec<bool> = ranking
        .iter()
        .map(|r| {
            value -= f64::from_bits(r.1);
            value <= 0.0
        })
        .collect();
    draw(&ranking, &used_up)
}

fn select_name(router: &mut Router, key: Option<&str>) -> Option<String> {
    let index = match router.select_upstream(key) {
        Selection::Nothing => None,
        Selection::Upstream(i) => Some(i),
        Selection::ByHealth(candidates) => choose_by_health(router, &candidates),
    };
    index.map(|i| router.get_upstreams()[i].config.name.clone())
}

#[test]
fn test_round_robin_selection() {
    let mut router = Router::new(LoadBalancingStrategy::RoundRobin);

    let configs = vec![
        create_test_upstream("upstream1", 1),
        create_test_upstream("upstream2", 1),
        create_test_upstream("upstream3", 1),
    ];

    router.update_upstreams(configs, at(0)).unwrap();

    // Mark all upstreams as healthy
    router.update_upstream_health("upstream1", HealthState::Healthy, at(1));
    router.update_upstream_health("upstream2", HealthState::Healthy, at(1));
    router.update_upstream_health("upstream3", HealthState::Healthy, at(1));

    // Test round-robin behavior
    let selections: Vec<String> = (0..6).map(|_| select_name(&mut router, None).unwrap()).collect();

    // Should cycle through upstreams in order
    assert_eq!(selections[0], "upstream1");
    assert_eq!(selections[1], "upstream2");
    assert_eq!(selections[2], "upstream3");
    assert_eq!(selections[3], "upstream1");
    assert_eq!(selections[4], "upstream2");
    assert_eq!(selections[5], "upstream3");
}

#[test]
fn test_health_aware_selection() {
    let mut router = Router::new(LoadBalancingStrategy::HealthAware);

    let configs = vec![
        create_test_upstream("healthy", 1),
        create_test_upstream("unhealthy", 1),
    ];

    router.update_upstreams(configs, at(0)).unwrap();

    // Mark one healthy and one unhealthy
    router.update_upstream_health("healthy", HealthState::Healthy, at(1));
    router.update_upstream_health("unhealthy", HealthState::Unhealthy, at(1));

    // Should always select the healthy upstream
    for _ in 0..10 {
        let selected = select_name(&mut router, None).unwrap();
        assert_eq!(selected, "healthy");
    }
}

#[test]
fn test_upstream_stats() {
    let config = create_test_upstream("test", 1);
    let mut upstream = UpstreamInfo::new(config, at(0));

    // Test success recording
    upstream.stats.record_success(Duration::from_millis(100), at(1));
    assert_eq!(upstream.stats.requests_sent, 1);
    assert_eq!(upstream.stats.responses_received, 1);
    let rate = upstream.stats.success_rate();
    assert_eq!(rate.numerator as f64 / rate.denominator as f64, 1.0);

    // Test failure recording
    upstream.stats.record_failure(at(2));
    assert_eq!(upstream.stats.requests_sent, 2);
    assert_eq!(upstream.stats.responses_received, 1);
    let rate = upstream.stats.success_rate();
    assert_eq!(rate.numerator as f64 / rate.denominator as f64, 0.5);
}

#[test]
fn averages_move_by_an_eighth() {
    let mut upstream = UpstreamInfo::new(create_test_upstream("a", 1), at(0));
    upstream.stats.record_success(Duration::from_nanos(800), at(1));
    assert_eq!(upstream.stats.avg_response_time_ns, 800);
    upstream.stats.record_success(Duration::from_nanos(1600), at(2));
    assert_eq!(upstream.stats.avg_response_time_ns, 900);
}

#[test]
fn nothing_is_selected_from_nothing() {
    let mut router = Router::new(LoadBalancingStrategy::RoundRobin);
    assert_eq!(select_name(&mut router, None), None);
    router.update_upstreams(vec![create_test_upstream("only", 1)], at(0)).unwrap();
    router.update_upstream_health("only", HealthState::Unhealthy, at(1));
    assert_eq!(select_name(&mut router, None), None);
}

#[test]
fn weights_count_in_a_weighted_round() {
    let mut router = Router::new(LoadBalancingStrategy::WeightedRoundRobin);
    router
        .update_upstreams(vec![create_test_upstream("a", 3), create_test_upstream("b", 1)], at(0))
        .unwrap();
    let names: Vec<String> = (0..8).map(|_| select_name(&mut router, None).unwrap()).collect();
    assert_eq!(names.iter().filter(|n| n.as_str() == "a").count(), 6);
    assert_eq!(names.iter().filter(|n| n.as_str() == "b").count(), 2);
}

#[test]
fn fewest_connections_win() {
    let mut router = Router::new(LoadBalancingStrategy::LeastConnections);
    router
        .update_upstreams(vec![create_test_upstream("a", 1), create_test_upstream("b", 1)], at(0))
        .unwrap();
    let a = router.find_upstream("a").unwrap();
    router.stats_mut(a).increment_connections();
    assert_eq!(select_name(&mut router, None).unwrap(), "b");
}

#[test]
fn a_session_stays_with_its_upstream() {
    let mut router = Router::new(LoadBalancingStrategy::ConsistentHashing);
    router
        .update_upstreams(
            vec![
                create_test_upstream("a", 1),
                create_test_upstream("b", 1),
                create_test_upstream("c", 1),
            ],
            at(0),
        )
        .unwrap();
    let first = select_name(&mut router, Some("session-42"));
    assert!(first.is_some());
    for _ in 0..20 {
        assert_eq!(select_name(&mut router, Some("session-42")), first);
    }
}

#[test]
fn rankings_put_the_best_first() {
    let scores = vec![(0, 3), (1, 9), (2, 0), (3, 9)];
    assert_eq!(rank(&scores), vec![(1, 9), (3, 9), (0, 3)]);
    assert_eq!(draw(&vec![(1, 9), (3, 9), (0, 3)], &vec![false, true, true]), Some(3));
    assert_eq!(draw(&vec![(1, 9), (3, 9)], &vec![false, false]), Some(1));
    assert_eq!(draw(&vec![], &vec![]), None);
}
