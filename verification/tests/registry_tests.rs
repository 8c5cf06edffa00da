use musicfs::registry::OriginRegistry;
use musicfs::router::HealthSnapshot;
use musicfs::types::{OriginId, RealPath};
use std::path::PathBuf;

fn health(healthy: &[&str], degraded: &[&str], unhealthy: &[&str]) -> HealthSnapshot {
    HealthSnapshot {
        healthy: healthy.iter().map(|s| OriginId::from(*s)).collect(),
        degraded: degraded.iter().map(|s| OriginId::from(*s)).collect(),
        unhealthy: unhealthy.iter().map(|s| OriginId::from(*s)).collect(),
        failure_counts: Vec::new(),
    }
}

fn path_in(origin: &str) -> RealPath {
    RealPath { origin_id: OriginId::from(origin), path: PathBuf::from("/test.flac") }
}

#[test]
fn test_register_and_get() {
    let mut registry = OriginRegistry::new();
    registry.register(OriginId::from("test"), 1);

    let retrieved = registry.get(&OriginId::from("test"));
    assert!(retrieved.is_some());
}

#[test]
fn test_unregister() {
    let mut registry = OriginRegistry::new();
    registry.register(OriginId::from("test"), 1);
    registry.unregister(&OriginId::from("test"));

    assert!(registry.get(&OriginId::from("test")).is_none());
}

#[test]
fn test_list_origins() {
    let mut registry = OriginRegistry::new();
    registry.register(OriginId::from("a"), 1);
    registry.register(OriginId::from("b"), 2);

    let list = registry.list();
    assert_eq!(list.len(), 2);
}

#[test]
fn register_twice_keeps_one_entry() {
    let mut registry = OriginRegistry::new();
    registry.register(OriginId::from("a"), 1);
    registry.register(OriginId::from("a"), 5);
    assert_eq!(registry.list().len(), 1);
}

#[test]
fn route_by_path_origin() {
    let mut registry = OriginRegistry::new();
    registry.register(OriginId::from("primary"), 1);
    registry.register(OriginId::from("backup"), 2);
    let h = health(&["primary", "backup"], &[], &[]);

    let routed = registry.route(&path_in("primary"), &h);
    assert_eq!(routed, Some(OriginId::from("primary")));
    assert_eq!(registry.route(&path_in("missing"), &h), None);
}

#[test]
fn route_needs_healthy_origin_but_fallback_does_not() {
    let mut registry = OriginRegistry::new();
    registry.register(OriginId::from("nas"), 1);
    let h = health(&[], &[], &["nas"]);

    assert_eq!(registry.route(&path_in("nas"), &h), None);
    assert_eq!(registry.route_with_fallback(&path_in("nas"), &h), Some(OriginId::from("nas")));
    assert!(registry.route_all(&path_in("nas"), &h).is_empty());

    let degraded = health(&[], &["nas"], &[]);
    assert_eq!(registry.route_with_fallback(&path_in("nas"), &degraded), Some(OriginId::from("nas")));
    assert_eq!(registry.route_with_fallback(&path_in("other"), &degraded), None);

    let ok = health(&["nas"], &[], &[]);
    assert_eq!(registry.route_all(&path_in("nas"), &ok), vec![OriginId::from("nas")]);
}

#[test]
fn unregister_drops_watch_handles() {
    let mut registry = OriginRegistry::new();
    registry.register(OriginId::from("a"), 1);
    registry.register_watch(&OriginId::from("a"));
    registry.register_watch(&OriginId::from("a"));
    registry.register_watch(&OriginId::from("b"));
    assert_eq!(registry.unregister(&OriginId::from("a")), 2);
    assert_eq!(registry.unregister(&OriginId::from("a")), 0);
    assert_eq!(registry.unregister(&OriginId::from("b")), 1);
}
