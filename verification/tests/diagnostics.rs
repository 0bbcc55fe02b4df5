use aura::diagnostics::{build_crash_paths, build_debug_log_path, is_debug_requested};
use std::path::Path;

#[test]
fn detects_debug_flag_in_args() {
    assert!(is_debug_requested(&vec!["--no-tray".to_string(), "--debug".to_string()]));
    assert!(!is_debug_requested(&vec!["--version".to_string()]));
}

#[test]
fn builds_log_path_under_aura_dir() {
    let root = "C:\\Users\\user\\AppData\\Local";
    let path = build_debug_log_path(root, '\\');
    assert_eq!(path, "C:\\Users\\user\\AppData\\Local\\aura\\aura-debug.log");
}

#[test]
fn resolves_expected_crash_file_names() {
    let root = "C:\\Users\\user\\AppData\\Local";
    let (dump, text) = build_crash_paths(root, '\\');
    assert_eq!(dump, "C:\\Users\\user\\AppData\\Local\\aura\\aura-crash.dmp");
    assert_eq!(text, "C:\\Users\\user\\AppData\\Local\\aura\\aura-crash.txt");
    let (dump, text) = build_crash_paths("/home/user/.local/share", '/');
    assert_eq!(Path::new(&dump).file_name().unwrap(), "aura-crash.dmp");
    assert_eq!(Path::new(&text).file_name().unwrap(), "aura-crash.txt");
}
