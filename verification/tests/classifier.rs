//! Tests of the sensitivity classifier, path normalisation and the text
//! helpers.

use nodenuke::scanner::{is_sensitive_dir, normalize_path};
use nodenuke::ui::{format_age, truncate_left};

#[test]
fn classification_is_deterministic() {
    let path = "/home/alice/projects/foo/node_modules";
    let first = is_sensitive_dir(path, "/home/alice", "/");
    let second = is_sensitive_dir(path, "/home/alice", "/");
    assert_eq!(first, second);
}

#[test]
fn plain_project_under_home_is_safe() {
    assert!(!is_sensitive_dir(
        "/home/alice/projects/foo/node_modules",
        "/home/alice",
        "/"
    ));
}

#[test]
fn npm_cache_is_whitelisted() {
    assert!(!is_sensitive_dir("/home/alice/.npm/_cacache", "/home/alice", "/"));
}

#[test]
fn pnpm_cache_is_whitelisted() {
    assert!(!is_sensitive_dir("/home/alice/.pnpm/store", "/home/alice", "/"));
}

#[test]
fn config_dir_is_sensitive() {
    assert!(is_sensitive_dir(
        "/home/alice/.config/app/node_modules",
        "/home/alice",
        "/"
    ));
}

#[test]
fn xdg_data_and_cache_are_sensitive() {
    assert!(is_sensitive_dir("/home/alice/.local/share/x", "/home/alice", "/"));
    assert!(is_sensitive_dir("/home/alice/.cache/x", "/home/alice", "/"));
}

#[test]
fn unknown_dotted_top_level_is_sensitive() {
    assert!(is_sensitive_dir("/home/alice/.secret/node_modules", "/home/alice", "/"));
}

#[test]
fn relative_path_is_resolved_against_cwd() {
    assert!(!is_sensitive_dir("proj/node_modules", "/home/alice", "/home/alice/work"));
    assert!(is_sensitive_dir(".config/app/node_modules", "/home/alice", "/home/alice"));
}

#[test]
fn application_bundle_is_sensitive() {
    assert!(is_sensitive_dir(
        "/Applications/Foo.app/Contents/Resources/node_modules",
        "",
        "/"
    ));
}

#[test]
fn bundle_name_with_separator_is_not_a_bundle() {
    assert!(!is_sensitive_dir("/Applications/Sub/Foo.app/node_modules", "", "/"));
}

#[test]
fn network_path_with_hidden_segment_is_sensitive() {
    assert!(is_sensitive_dir(
        "\\\\server\\share\\x\\.hidden\\node_modules",
        "",
        "/"
    ));
    assert!(!is_sensitive_dir("\\\\server\\share\\x\\y\\node_modules", "", "/"));
}

#[test]
fn roaming_appdata_is_sensitive() {
    assert!(is_sensitive_dir(
        "C:\\Users\\bob\\AppData\\Roaming\\npm\\node_modules",
        "",
        "/"
    ));
}

#[test]
fn local_appdata_is_sensitive_unless_whitelisted() {
    assert!(is_sensitive_dir(
        "C:\\Users\\bob\\AppData\\Local\\Temp\\node_modules",
        "",
        "/"
    ));
    assert!(!is_sensitive_dir("C:\\Users\\bob\\AppData\\Local\\.npm\\x", "", "/"));
}

#[test]
fn normalize_unifies_separators_case_and_drive() {
    assert_eq!(normalize_path("C:\\Foo\\Bar"), "/foo/bar");
    assert_eq!(normalize_path("/Home/Alice"), "/home/alice");
    assert_eq!(normalize_path("relative\\Path"), "relative/path");
}

#[test]
fn truncate_left_keeps_the_tail() {
    assert_eq!(truncate_left("abcdef", 4), "…def");
    assert_eq!(truncate_left("abc", 10), "abc");
    assert_eq!(truncate_left("abcd", 4), "abcd");
}

#[test]
fn format_age_uses_the_largest_whole_unit() {
    assert_eq!(format_age(30), "just now");
    assert_eq!(format_age(120), "2m ago");
    assert_eq!(format_age(5 * 3600), "5h ago");
    assert_eq!(format_age(2 * 86400), "2d ago");
    assert_eq!(format_age(8 * 86400), "1w ago");
    assert_eq!(format_age(40 * 86400), "1mo ago");
    assert_eq!(format_age(800 * 86400), "2y ago");
}
