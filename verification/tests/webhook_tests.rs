use musicfs::events::Event;
use musicfs::types::{FileId, OriginId, VirtualPath};
use musicfs::webhook::{
    default_retry_count, default_timeout_ms, event_type_name, matches_filter, retry_step, sign_body,
    RetryStep, WebhookConfig,
};

#[test]
fn test_webhook_config_defaults() {
    assert_eq!(default_retry_count(), 3);
    assert_eq!(default_timeout_ms(), 5000);
}

#[test]
fn test_event_type_name() {
    let event = Event::SyncStarted {
        origin_id: OriginId::from("test"),
    };
    assert_eq!(event_type_name(&event), "sync_started");
}

#[test]
fn test_matches_filter_empty() {
    let config = WebhookConfig {
        url: "http://example.com".to_string(),
        secret: None,
        events: vec![],
        retry_count: 3,
        timeout_ms: 5000,
    };

    let event = Event::SyncStarted {
        origin_id: OriginId::from("test"),
    };
    assert!(matches_filter(&event, &config));
}

#[test]
fn test_matches_filter_specific() {
    let config = WebhookConfig {
        url: "http://example.com".to_string(),
        secret: None,
        events: vec!["sync_started".to_string()],
        retry_count: 3,
        timeout_ms: 5000,
    };

    let event = Event::SyncStarted {
        origin_id: OriginId::from("test"),
    };
    assert!(matches_filter(&event, &config));

    let event2 = Event::SyncCompleted {
        origin_id: OriginId::from("test"),
        files_changed: 0,
    };
    assert!(!matches_filter(&event2, &config));
}

// Own tests.

#[test]
fn webhook_event_names() {
    let o = || OriginId::from("o");
    let p = || VirtualPath::new("/a");
    let cases = vec![
        (Event::FileAccessed { file_id: FileId(1), origin_id: o(), path: p(), offset: 0, size: 1 }, "file_accessed"),
        (Event::FileAdded { path: p(), origin_id: o() }, "file_added"),
        (Event::FileRemoved { path: p(), file_id: None }, "file_removed"),
        (Event::FileModified { path: p() }, "file_modified"),
        (Event::OriginHealthChanged { origin_id: o(), healthy: true }, "origin_health_changed"),
        (Event::CacheEviction { bytes_freed: 9 }, "cache_eviction"),
        (Event::OriginConnected { origin_id: o() }, "origin_connected"),
        (Event::OriginDisconnected { origin_id: o() }, "origin_disconnected"),
        (Event::AllOriginsUnhealthy { candidate_count: 2 }, "all_origins_unhealthy"),
    ];
    for (e, name) in cases {
        assert_eq!(event_type_name(&e), name);
    }
}

#[test]
fn webhook_sign_without_secret_is_empty() {
    assert_eq!(sign_body("{}", &None), "");
}

#[test]
fn webhook_sign_known_vector() {
    let sig = sign_body(
        "The quick brown fox jumps over the lazy dog",
        &Some("key".to_string()),
    );
    assert_eq!(
        sig,
        "sha256=f7bc83f430538424b13298e6aa6fb143ef4d59a14946175997479dbc2d1a3cd8"
    );
}

#[test]
fn webhook_retry_schedule() {
    assert_eq!(retry_step(0, 3), RetryStep::RetryAfterMs(200));
    assert_eq!(retry_step(1, 3), RetryStep::RetryAfterMs(400));
    assert_eq!(retry_step(2, 3), RetryStep::RetryAfterMs(800));
    assert_eq!(retry_step(3, 3), RetryStep::GiveUp);
    assert_eq!(retry_step(0, 0), RetryStep::GiveUp);
}

#[test]
fn webhook_retry_step_at_largest_attempt() {
    assert_eq!(retry_step(56, 60), RetryStep::RetryAfterMs(100 * (1u64 << 57)));
    assert_eq!(retry_step(60, 60), RetryStep::GiveUp);
}

#[test]
fn webhook_debug_text_redacts_secret() {
    let config = musicfs::webhook::WebhookConfig {
        url: "https://example.com/hook".to_string(),
        secret: Some("s3cr3t".to_string()),
        events: vec!["file_added".to_string(), "say \"hi\"".to_string()],
        retry_count: 3,
        timeout_ms: 5000,
    };
    let text = config.debug_text();
    assert_eq!(
        text,
        "WebhookConfig { url: \"https://example.com/hook\", secret: Some(\"[REDACTED]\"), events: [\"file_added\", \"say \\\"hi\\\"\"], retry_count: 3, timeout_ms: 5000 }"
    );
    assert!(!text.contains("s3cr3t"));
    let open = musicfs::webhook::WebhookConfig { secret: None, events: Vec::new(), ..config };
    assert_eq!(
        open.debug_text(),
        "WebhookConfig { url: \"https://example.com/hook\", secret: None, events: [], retry_count: 3, timeout_ms: 5000 }"
    );
}
