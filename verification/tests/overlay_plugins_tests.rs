use musicfs::overlay::{estimated_virtual_size, handler_id, plan_read, splice};
use musicfs::plugins::{check_api_version, is_plugin_library, NativePluginHost, PluginError, PluginId, PluginIdCounter};
use musicfs::types::AudioFormat;

fn virtual_read(header: &[u8], origin: &[u8], audio_start: u64, audio_end: u64, offset: u64, size: u32) -> Vec<u8> {
    let plan = plan_read(header.len() as u64, audio_start, audio_end, offset, size);
    let audio: Vec<u8> = match plan.audio {
        Some((at, n)) => origin[at as usize..at as usize + n as usize].to_vec(),
        None => Vec::new(),
    };
    splice(header, &plan, &audio)
}

#[test]
fn test_read_header_region() {
    let header = vec![1u8; 10];
    let origin: Vec<u8> = (0..100u8).collect();
    assert_eq!(virtual_read(&header, &origin, 42, 100, 2, 5), vec![1u8; 5]);
}

#[test]
fn test_read_audio_region() {
    let header = vec![1u8; 10];
    let origin: Vec<u8> = (0..100u8).collect();
    assert_eq!(virtual_read(&header, &origin, 42, 100, 10, 3), vec![42, 43, 44]);
}

#[test]
fn test_read_boundary() {
    let header = vec![1u8; 10];
    let origin: Vec<u8> = (0..100u8).collect();
    assert_eq!(virtual_read(&header, &origin, 42, 100, 8, 4), vec![1, 1, 42, 43]);
}

#[test]
fn test_read_eof() {
    let header = vec![1u8; 10];
    let origin: Vec<u8> = (0..100u8).collect();
    // virtual size is 10 + 58 = 68
    assert!(virtual_read(&header, &origin, 42, 100, 68, 4).is_empty());
    assert_eq!(virtual_read(&header, &origin, 42, 100, 66, 10), vec![98, 99]);
}

#[test]
fn test_estimate_virtual_size() {
    assert_eq!(estimated_virtual_size(8192, 42, 42 + 100 * 1024), 8192 + 100 * 1024);
    assert_eq!(handler_id(AudioFormat::Flac), "flac");
    assert_eq!(handler_id(AudioFormat::Mp3), "mp3");
}

#[test]
fn overlay_read_matches_whole_virtual_file() {
    let header: Vec<u8> = vec![9, 8, 7];
    let origin: Vec<u8> = (0..20u8).collect();
    let mut virtual_file = header.clone();
    virtual_file.extend_from_slice(&origin[5..15]);
    for offset in 0..15u64 {
        for size in 0..15u32 {
            let got = virtual_read(&header, &origin, 5, 15, offset, size);
            let start = (offset as usize).min(virtual_file.len());
            let end = ((offset + size as u64) as usize).min(virtual_file.len());
            assert_eq!(got, virtual_file[start..end.max(start)].to_vec(), "offset {} size {}", offset, size);
        }
    }
}

#[test]
fn test_is_plugin_library() {
    assert!(is_plugin_library("plugin.so"));
    assert!(is_plugin_library("plugin.dylib"));
    assert!(is_plugin_library("plugin.dll"));
    assert!(!is_plugin_library("plugin.txt"));
    assert!(!is_plugin_library("plugin"));
}

#[test]
fn test_native_host_creation() {
    let host = NativePluginHost::new();
    assert!(host.search_paths().is_empty());
}

#[test]
fn test_add_search_path() {
    let mut host = NativePluginHost::new();
    host.add_search_path("/usr/lib/musicfs/plugins");
    host.add_search_path("/usr/lib/musicfs/plugins");
    assert_eq!(host.search_paths().len(), 1);
}

#[test]
fn plugins_ids_and_loading() {
    let mut ids = PluginIdCounter::new();
    assert_eq!(ids.next_plugin_id(), PluginId(1));
    assert_eq!(ids.next_plugin_id(), PluginId(2));
    let mut host = NativePluginHost::new();
    host.record_loaded(PluginId(1), "/p/a.so");
    assert!(matches!(host.check_not_loaded("/p/a.so"), Err(PluginError::AlreadyLoaded(_))));
    assert!(host.check_not_loaded("/p/b.so").is_ok());
    assert_eq!(host.unload(PluginId(1)).unwrap(), "/p/a.so");
    match host.unload(PluginId(1)) {
        Err(PluginError::NotFound(m)) => assert_eq!(m, "Plugin PluginId(1)"),
        other => panic!("unexpected {:?}", other),
    }
}

#[test]
fn plugins_api_version() {
    assert!(check_api_version("1.2.3", "1.0.0", 1).is_ok());
    assert!(matches!(
        check_api_version("2.0.0", "1.0.0", 1),
        Err(PluginError::VersionMismatch { .. })
    ));
    assert!(check_api_version("not a version", "1.0.0", 1).is_err());
}
