use rust_navigator::database::file::{classify_entry, is_rs_file, should_skip_dir, WalkAction};
use rust_navigator::text_util::{str_eq, stem_len, with_rs_extension};

#[test]
fn str_eq_compares_contents() {
    assert!(str_eq("lib.rs", "lib.rs"));
    assert!(!str_eq("lib.rs", "lib.r"));
    assert!(!str_eq("lib.rs", "main.rs"));
    assert!(str_eq("", ""));
}

#[test]
fn stems_follow_the_standard_splitting() {
    assert_eq!(stem_len("foo.rs"), 3);
    assert_eq!(stem_len("foo"), 3);
    assert_eq!(stem_len(".hidden"), 7);
    assert_eq!(stem_len("a.tar.gz"), 5);
    assert_eq!(with_rs_extension("src"), "src.rs");
    assert_eq!(with_rs_extension("foo.bar"), "foo.rs");
    assert_eq!(with_rs_extension(".git"), ".git.rs");
}

#[test]
fn rs_extension_detection() {
    assert!(is_rs_file("main.rs"));
    assert!(is_rs_file("a.b.rs"));
    assert!(!is_rs_file("main.r"));
    assert!(!is_rs_file("main"));
    assert!(!is_rs_file(".rs"));
    assert!(!is_rs_file("rs"));
}

#[test]
fn walk_classification() {
    assert_eq!(classify_entry(".git", true, false, false), WalkAction::Ignore);
    assert_eq!(classify_entry("src", true, false, false), WalkAction::Recurse);
    assert_eq!(classify_entry("lib.rs", false, true, false), WalkAction::LoadFile);
    assert_eq!(classify_entry("README.md", false, true, false), WalkAction::Ignore);
    assert_eq!(classify_entry("link.rs", false, false, true), WalkAction::ReportSymlink);
}

#[test]
fn cache_marker_skips_the_directory() {
    let names = vec!["a.rs".to_string(), "CACHEDIR.TAG".to_string()];
    assert!(should_skip_dir(&names));
    let clean = vec!["a.rs".to_string(), "b.rs".to_string()];
    assert!(!should_skip_dir(&clean));
    assert!(!should_skip_dir(&Vec::new()));
}
