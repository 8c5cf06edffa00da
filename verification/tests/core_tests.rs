use musicfs::config::{find_origin_id, origin_plan, OriginEntry, CacheConfig, ConfigError, HealthConfig, OriginType};
use musicfs::types::{AudioFormat, AudioMeta, HealthStatus, OriginId, VirtualPath};

#[test]
fn test_default_health_thresholds() {
    let health = HealthConfig::default();
    assert_eq!(health.threshold_for(OriginType::Local), 1);
    assert_eq!(health.threshold_for(OriginType::Sftp), 3);
}

#[test]
fn test_cache_defaults() {
    let cache = CacheConfig::default();
    assert_eq!(cache.metadata_cache_mb, 100);
    assert_eq!(cache.content_cache_gb, 10);
}

#[test]
fn test_audio_format_from_extension() {
    assert_eq!(AudioFormat::from_extension("flac"), AudioFormat::Flac);
    assert_eq!(AudioFormat::from_extension("MP3"), AudioFormat::Mp3);
    assert_eq!(AudioFormat::from_extension("unknown"), AudioFormat::Unknown);
}

#[test]
fn test_virtual_path() {
    let path = VirtualPath::new("/Artist/Album/Track.flac");
    assert_eq!(path.as_str(), "/Artist/Album/Track.flac");
}

// Own tests.

#[test]
fn core_threshold_falls_back_to_general() {
    let health = HealthConfig {
        check_interval_secs: 30,
        timeout_ms: 5000,
        unhealthy_threshold: 7,
        per_origin_thresholds: vec![(OriginType::Local, 1)],
    };
    assert_eq!(health.threshold_for(OriginType::Nfs), 7);
    assert_eq!(health.threshold_for(OriginType::Local), 1);
}

#[test]
fn core_health_defaults() {
    let health = HealthConfig::default();
    assert_eq!(health.check_interval_secs, 30);
    assert_eq!(health.timeout_ms, 5000);
    assert_eq!(health.unhealthy_threshold, 3);
}

#[test]
fn core_all_extensions() {
    for (ext, f) in [
        ("Opus", AudioFormat::Opus),
        ("ogg", AudioFormat::Vorbis),
        ("m4a", AudioFormat::Aac),
        ("aac", AudioFormat::Aac),
        ("alac", AudioFormat::Unknown),
        ("wav", AudioFormat::Wav),
        ("", AudioFormat::Unknown),
    ] {
        assert_eq!(AudioFormat::from_extension(ext), f);
    }
}

#[test]
fn core_defaults() {
    assert_eq!(AudioFormat::default(), AudioFormat::Unknown);
    assert_eq!(HealthStatus::default(), HealthStatus::Unknown);
    let m = AudioMeta::default();
    assert_eq!(m.title, None);
    assert_eq!(m.format, AudioFormat::Unknown);
}

#[test]
fn core_find_origin_id() {
    let ids = vec!["local".to_string(), "nas".to_string()];
    assert_eq!(find_origin_id(&ids, "nas"), Some(OriginId::from("nas")));
    assert_eq!(find_origin_id(&ids, "s3"), None);
}

#[test]
fn core_config_error_messages() {
    assert_eq!(ConfigError::Read("x".to_string()).message(), "Failed to read config: x");
    assert_eq!(ConfigError::Parse("y".to_string()).message(), "Failed to parse config: y");
}

#[test]
fn config_origin_plan_keeps_enabled_served_origins() {
    let entry = |id: &str, t: OriginType, enabled: bool, path: Option<&str>| OriginEntry {
        id: id.to_string(),
        origin_type: t,
        enabled,
        path: path.map(|p| p.to_string()),
    };
    let plan = origin_plan(&[
        entry("a", OriginType::Local, true, Some("/music")),
        entry("b", OriginType::Nfs, true, Some("/mnt/nas/music")),
        entry("c", OriginType::Smb, false, None),
        entry("d", OriginType::S3, true, None),
        entry("e", OriginType::Smb, true, Some("/mnt/smb/music")),
    ])
    .unwrap();
    assert_eq!(plan.len(), 3);
    assert_eq!(plan[0].0, OriginId::from("a"));
    assert_eq!(plan[0].1, OriginType::Local);
    assert_eq!(plan[0].2, "/music");
    assert_eq!(plan[1].0, OriginId::from("b"));
    assert_eq!(plan[1].1, OriginType::Nfs);
    assert_eq!(plan[1].2, "/mnt/nas/music");
    assert_eq!(plan[2].0, OriginId::from("e"));
    assert_eq!(plan[2].1, OriginType::Smb);
    let err = origin_plan(&[entry("a", OriginType::Local, true, None)]).unwrap_err();
    assert_eq!(err, "path required for local origin");
    let err = origin_plan(&[entry("n", OriginType::Nfs, true, None)]).unwrap_err();
    assert_eq!(err, "path required for nfs origin");
    assert!(origin_plan(&[]).unwrap().is_empty());
}

#[test]
fn config_default_thresholds_name_each_type_once() {
    let health = HealthConfig::default();
    let types: Vec<OriginType> = health.per_origin_thresholds.iter().map(|p| p.0).collect();
    for (i, a) in types.iter().enumerate() {
        for b in &types[i + 1..] {
            assert_ne!(a, b);
        }
    }
}
