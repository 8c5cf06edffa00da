use musicfs::router::{HealthSnapshot, LatencyStats, Router};
use musicfs::types::OriginId;

fn mock_health(healthy: &[&str], degraded: &[&str]) -> HealthSnapshot {
    HealthSnapshot {
        healthy: healthy.iter().map(|s| OriginId::from(*s)).collect(),
        degraded: degraded.iter().map(|s| OriginId::from(*s)).collect(),
        unhealthy: Vec::new(),
        failure_counts: Vec::new(),
    }
}

#[test]
fn test_select_by_priority() {
    let mut router = Router::new();
    router.set_priority(OriginId::from("high"), 1);
    router.set_priority(OriginId::from("low"), 2);

    let candidates = vec![OriginId::from("low"), OriginId::from("high")];
    let health = mock_health(&["high", "low"], &[]);

    let selected = router.select(&candidates, &health);
    assert_eq!(selected, Some(OriginId::from("high")));
}

#[test]
fn test_select_skips_unhealthy() {
    let mut router = Router::new();
    router.set_priority(OriginId::from("high"), 1);
    router.set_priority(OriginId::from("low"), 2);

    let candidates = vec![OriginId::from("high"), OriginId::from("low")];
    let health = mock_health(&["low"], &[]);

    let selected = router.select(&candidates, &health);
    assert_eq!(selected, Some(OriginId::from("low")));
}

#[test]
fn test_latency_affects_tiebreak() {
    let mut router = Router::new();
    router.set_priority(OriginId::from("a"), 1);
    router.set_priority(OriginId::from("b"), 1);

    router.record_latency(&OriginId::from("a"), 100);
    router.record_latency(&OriginId::from("b"), 10);

    let candidates = vec![OriginId::from("a"), OriginId::from("b")];
    let health = mock_health(&["a", "b"], &[]);

    let selected = router.select(&candidates, &health);
    assert_eq!(selected, Some(OriginId::from("b")));
}

#[test]
fn test_fallback_to_degraded() {
    let mut router = Router::new();
    router.set_priority(OriginId::from("a"), 1);
    router.set_priority(OriginId::from("b"), 2);

    let candidates = vec![OriginId::from("a"), OriginId::from("b")];
    let health = mock_health(&[], &["b"]);

    let selected = router.select_with_fallback(&candidates, &health);
    assert_eq!(selected, Some(OriginId::from("b")));
}

#[test]
fn test_fallback_least_bad() {
    let mut router = Router::new();
    router.set_priority(OriginId::from("a"), 1);
    router.set_priority(OriginId::from("b"), 2);

    let candidates = vec![OriginId::from("a"), OriginId::from("b")];
    let failure_counts = vec![(OriginId::from("a"), 5), (OriginId::from("b"), 2)];

    let health = HealthSnapshot {
        healthy: Vec::new(),
        degraded: Vec::new(),
        unhealthy: vec![OriginId::from("a"), OriginId::from("b")],
        failure_counts,
    };

    let selected = router.select_with_fallback(&candidates, &health);
    assert_eq!(selected, Some(OriginId::from("b")));
}

// Own tests.

#[test]
fn router_default_priority_is_lowest() {
    let router = Router::new();
    assert_eq!(router.get_priority(&OriginId::from("x")), 100);
    assert_eq!(router.median_latency(&OriginId::from("x")), 0);
}

#[test]
fn router_remove_priority_restores_default() {
    let mut router = Router::new();
    router.set_priority(OriginId::from("x"), 3);
    assert_eq!(router.get_priority(&OriginId::from("x")), 3);
    router.remove_priority(&OriginId::from("x"));
    assert_eq!(router.get_priority(&OriginId::from("x")), 100);
}

#[test]
fn router_select_none_when_no_candidate_healthy() {
    let router = Router::new();
    let candidates = vec![OriginId::from("a")];
    let health = mock_health(&[], &["a"]);
    assert_eq!(router.select(&candidates, &health), None);
    assert!(!router.all_unhealthy(&candidates, &health));
    assert_eq!(router.select(&[], &health), None);
    let none_ok = mock_health(&[], &[]);
    assert!(router.all_unhealthy(&candidates, &none_ok));
}

#[test]
fn latency_stats_median_and_p99() {
    let mut stats = LatencyStats::default();
    for v in [30u64, 10, 20] {
        stats.record(v);
    }
    assert_eq!(stats.samples, vec![30, 10, 20]);
    assert_eq!(stats.p50_ms, 20);
    assert_eq!(stats.p99_ms, 30);
}

#[test]
fn latency_stats_keeps_last_hundred() {
    let mut stats = LatencyStats::default();
    for v in 0u64..150 {
        stats.record(v);
    }
    assert_eq!(stats.samples.len(), 100);
    assert_eq!(stats.samples[0], 50);
    assert_eq!(stats.p50_ms, 100);
}

#[test]
fn health_snapshot_queries() {
    let health = HealthSnapshot {
        healthy: vec![OriginId::from("h")],
        degraded: vec![OriginId::from("d")],
        unhealthy: vec![OriginId::from("u")],
        failure_counts: vec![(OriginId::from("u"), 4)],
    };
    assert!(health.is_healthy(&OriginId::from("h")));
    assert!(!health.is_healthy(&OriginId::from("d")));
    assert!(health.is_degraded(&OriginId::from("d")));
    assert_eq!(health.failure_count(&OriginId::from("u")), Some(4));
    assert_eq!(health.failure_count(&OriginId::from("h")), None);
}

#[test]
fn router_fallback_event_when_all_unhealthy() {
    let router = Router::new();
    let ids = vec![OriginId::from("a"), OriginId::from("b")];
    let none = mock_health(&[], &[]);
    match router.fallback_event(&ids, &none) {
        Some(musicfs::events::Event::AllOriginsUnhealthy { candidate_count }) => assert_eq!(candidate_count, 2),
        other => panic!("unexpected: {:?}", other),
    }
    assert!(router.fallback_event(&ids, &mock_health(&["a"], &[])).is_none());
    assert!(router.fallback_event(&ids, &mock_health(&[], &["b"])).is_none());
}

#[test]
fn router_failure_count_of_each_origin() {
    let health = HealthSnapshot {
        healthy: Vec::new(),
        degraded: Vec::new(),
        unhealthy: Vec::new(),
        failure_counts: vec![(OriginId::from("a"), 4), (OriginId::from("b"), 1)],
    };
    assert_eq!(health.failure_count(&OriginId::from("a")), Some(4));
    assert_eq!(health.failure_count(&OriginId::from("b")), Some(1));
    assert_eq!(health.failure_count(&OriginId::from("c")), None);
}
