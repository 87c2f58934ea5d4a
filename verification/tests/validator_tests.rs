use media_pipeline::platform::Platform;
use media_pipeline::validator::{ensure_args_present, validate_n_m3u8dl_args, validate_path_safety};

fn args(list: &[&str]) -> Vec<String> {
    list.iter().map(|s| s.to_string()).collect()
}

#[test]
fn allowed_flags_pass() {
    let a = args(&[
        "https://example.com/stream.m3u8",
        "--save-dir",
        "downloads",
        "--save-name",
        "movie",
        "--thread-count",
        "8",
        "--auto-select",
    ]);
    assert_eq!(validate_n_m3u8dl_args(&a, Platform::Other), Ok(()));
}

#[test]
fn disallowed_flag_rejected() {
    let a = args(&["https://example.com/a.m3u8", "--exec-command"]);
    let e = validate_n_m3u8dl_args(&a, Platform::Other).unwrap_err();
    assert_eq!(e, "不允许的参数: --exec-command");
}

#[test]
fn short_disallowed_flag_rejected() {
    let a = args(&["-x"]);
    let e = validate_n_m3u8dl_args(&a, Platform::Other).unwrap_err();
    assert_eq!(e, "不允许的参数: -x");
}

#[test]
fn leading_url_is_exempt() {
    // The URL in position 0 is not treated as a flag even though it is
    // checked nowhere else.
    let a = args(&["http://host/path"]);
    assert_eq!(validate_n_m3u8dl_args(&a, Platform::Other), Ok(()));
}

#[test]
fn url_not_in_first_position_is_checked() {
    let a = args(&["--auto-select", "https://host/x"]);
    assert_eq!(validate_n_m3u8dl_args(&a, Platform::Other), Ok(()));
}

#[test]
fn equals_form_extracts_flag_name() {
    let a = args(&["--thread-count=4"]);
    assert_eq!(validate_n_m3u8dl_args(&a, Platform::Other), Ok(()));
    let b = args(&["--bad-flag=4"]);
    assert_eq!(
        validate_n_m3u8dl_args(&b, Platform::Other).unwrap_err(),
        "不允许的参数: --bad-flag"
    );
}

#[test]
fn save_dir_with_parent_reference_rejected() {
    let a = args(&["--save-dir", "../../etc"]);
    let e = validate_n_m3u8dl_args(&a, Platform::Other).unwrap_err();
    assert_eq!(e, "路径包含不安全的父目录引用");
}

#[test]
fn save_name_and_tmp_dir_values_checked() {
    let a = args(&["--save-name", "a..b"]);
    assert!(validate_n_m3u8dl_args(&a, Platform::Other).is_err());
    let b = args(&["--tmp-dir", "tmp/.."]);
    assert!(validate_n_m3u8dl_args(&b, Platform::Other).is_err());
}

#[test]
fn key_without_colon_or_hex_prefix_rejected() {
    let a = args(&["--key", "plainvalue"]);
    let e = validate_n_m3u8dl_args(&a, Platform::Other).unwrap_err();
    assert_eq!(e, "密钥格式不正确，应为 KID:KEY 或 0x 开头的十六进制");
}

#[test]
fn key_with_colon_passes() {
    let a = args(&["--key", "abcd:1234"]);
    assert_eq!(validate_n_m3u8dl_args(&a, Platform::Other), Ok(()));
}

#[test]
fn key_with_hex_prefix_passes() {
    let a = args(&["--key", "0xFF00"]);
    assert_eq!(validate_n_m3u8dl_args(&a, Platform::Other), Ok(()));
}

#[test]
fn empty_argument_list_rejected() {
    assert_eq!(ensure_args_present(&vec![]).unwrap_err(), "参数不能为空");
    assert_eq!(ensure_args_present(&args(&["https://x"])), Ok(()));
}

#[test]
fn path_safety_rejects_parent_reference() {
    assert!(validate_path_safety("a/../b", Platform::Other).is_err());
    assert!(validate_path_safety("plain/dir", Platform::Other).is_ok());
}

#[test]
fn path_safety_windows_rejects_foreign_separator() {
    assert_eq!(
        validate_path_safety("a/b", Platform::Windows).unwrap_err(),
        "路径包含不安全的分隔符"
    );
    assert!(validate_path_safety("a\\b", Platform::Windows).is_ok());
    // URL-looking values are exempt from the separator rule.
    assert!(validate_path_safety("http://host/x", Platform::Windows).is_ok());
    // Other platforms accept forward slashes.
    assert!(validate_path_safety("a/b", Platform::Other).is_ok());
}
