use media_pipeline::platform::Platform;
use media_pipeline::resolver::{
    check_tool_available, get_tool_path_internal, merge_tool_program, resolve_tool_path,
    tool_missing_error, validate_tool_path, ToolPathCache,
};

#[test]
fn dev_path_built_and_cached() {
    let mut cache = ToolPathCache::new();
    let p = get_tool_path_internal(&mut cache, "/home/app/client", "N_m3u8DL-RE", Platform::Other);
    assert_eq!(p, "/home/app/client/bin/N_m3u8DL-RE");
    // A second resolution is served from the cache.
    let q = get_tool_path_internal(&mut cache, "/other/base", "N_m3u8DL-RE", Platform::Other);
    assert_eq!(q, p);
    assert_eq!(cache.lookup("N_m3u8DL-RE"), Some(p));
}

#[test]
fn windows_appends_exe_once() {
    let mut cache = ToolPathCache::new();
    let p = get_tool_path_internal(&mut cache, "C:\\app", "ffmpeg", Platform::Windows);
    assert_eq!(p, "C:\\app\\bin\\ffmpeg.exe");
    let mut cache2 = ToolPathCache::new();
    let q = get_tool_path_internal(&mut cache2, "C:\\app", "ffmpeg.exe", Platform::Windows);
    assert_eq!(q, "C:\\app\\bin\\ffmpeg.exe");
}

#[test]
fn tool_path_validation_needs_bin_parent() {
    assert!(validate_tool_path("/a/bin/tool", true, true, Platform::Other));
    assert!(!validate_tool_path("/a/lib/tool", true, true, Platform::Other));
    assert!(!validate_tool_path("/a/bin/tool", false, true, Platform::Other));
    assert!(!validate_tool_path("/a/bin/tool", true, false, Platform::Other));
    assert!(!validate_tool_path("tool", true, true, Platform::Other));
    assert!(validate_tool_path("bin/tool", true, true, Platform::Other));
    assert!(validate_tool_path("C:\\x\\bin\\t.exe", true, true, Platform::Windows));
}

#[test]
fn resource_candidate_preferred_when_valid() {
    let mut cache = ToolPathCache::new();
    let p = resolve_tool_path(
        &mut cache,
        Some(("/pkg/bin/tool", true, true)),
        "/dev/base",
        "tool",
        Platform::Other,
    );
    assert_eq!(p, "/pkg/bin/tool");
    // Nothing was cached for the resource hit.
    assert_eq!(cache.lookup("tool"), None);
}

#[test]
fn invalid_resource_candidate_falls_back_to_dev_path() {
    let mut cache = ToolPathCache::new();
    let p = resolve_tool_path(
        &mut cache,
        Some(("/pkg/other/tool", true, true)),
        "/dev/base",
        "tool",
        Platform::Other,
    );
    assert_eq!(p, "/dev/base/bin/tool");
    let p2 = resolve_tool_path(&mut cache, None, "/dev/base", "tool", Platform::Other);
    assert_eq!(p2, "/dev/base/bin/tool");
}

#[test]
fn merge_program_falls_back_to_bare_name() {
    assert_eq!(merge_tool_program("/a/bin/ffmpeg", true), "/a/bin/ffmpeg");
    assert_eq!(merge_tool_program("/a/bin/ffmpeg", false), "ffmpeg");
}

#[test]
fn missing_tool_error_names_the_path() {
    assert_eq!(tool_missing_error("/a/bin/tool"), "工具不存在: /a/bin/tool");
}

#[test]
fn availability_prefers_local_then_os_search() {
    assert_eq!(check_tool_available(true, None, ""), Ok(true));
    assert_eq!(check_tool_available(false, Some(true), ""), Ok(true));
    assert_eq!(check_tool_available(false, Some(false), ""), Ok(false));
    let e = check_tool_available(false, None, "spawn failed").unwrap_err();
    assert_eq!(e, "检查工具失败: spawn failed");
}
