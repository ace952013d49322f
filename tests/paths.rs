use glue_gun::path::{file_stem, LocalPath};
use glue_gun::pipeline::{classify_variant, Harness, Profile};

fn parts(p: &LocalPath) -> Vec<&str> {
    p.parts.iter().map(|s| s.as_str()).collect()
}

#[test]
fn parse_skips_empty_and_dot_components() {
    let p = LocalPath::parse("/work/./target//debug/");
    assert!(p.absolute);
    assert_eq!(parts(&p), vec!["work", "target", "debug"]);
    assert_eq!(p.to_text(), "/work/target/debug");
}

#[test]
fn parse_relative_path() {
    let p = LocalPath::parse("target/debug/kernel");
    assert!(!p.absolute);
    assert_eq!(parts(&p), vec!["target", "debug", "kernel"]);
    assert_eq!(LocalPath::parse("").to_text(), "");
}

#[test]
fn join_keeps_absolute_right_side() {
    let base = LocalPath::parse("/work/kernel");
    assert_eq!(base.join(&LocalPath::parse("target/kernel")).to_text(), "/work/kernel/target/kernel");
    assert_eq!(base.join(&LocalPath::parse("/abs/kernel")).to_text(), "/abs/kernel");
}

#[test]
fn parent_and_file_name() {
    let p = LocalPath::parse("/a/b/kernel");
    assert_eq!(p.parent().unwrap().to_text(), "/a/b");
    assert_eq!(p.file_name().unwrap(), "kernel");
    let root = LocalPath::parse("/");
    assert!(root.parent().is_none());
    assert!(root.file_name().is_none());
}

#[test]
fn starts_with_compares_components() {
    let p = LocalPath::parse("/w/target/debug/kernel");
    assert!(p.starts_with(&LocalPath::parse("/w/target")));
    assert!(!p.starts_with(&LocalPath::parse("/w/targ")));
    assert!(!p.starts_with(&LocalPath::parse("w/target")));
    assert!(p.same_as(&LocalPath::parse("/w//target/./debug/kernel")));
}

#[test]
fn file_stem_drops_last_extension() {
    assert_eq!(file_stem("kernel"), "kernel");
    assert_eq!(file_stem("kernel.elf"), "kernel");
    assert_eq!(file_stem("a.b.c"), "a.b");
    assert_eq!(file_stem(".hidden"), ".hidden");
}

#[test]
fn variant_release_dir() {
    let v = classify_variant(&LocalPath::parse("/w/target/x86_64-os/release"));
    assert_eq!(v.profile, Profile::Release);
    assert_eq!(v.harness, Harness::Normal);
    assert!(v.is_release());
    assert!(!v.is_test());
}

#[test]
fn variant_debug_dir() {
    let v = classify_variant(&LocalPath::parse("/w/target/x86_64-os/debug"));
    assert_eq!(v.profile, Profile::Debug);
    assert_eq!(v.harness, Harness::Normal);
}

#[test]
fn variant_deps_dir_is_test_harness() {
    let v = classify_variant(&LocalPath::parse("/w/target/x86_64-os/debug/deps"));
    assert_eq!(v.harness, Harness::TestHarness);
    assert_eq!(v.profile, Profile::Debug);
    assert!(v.is_test());
}

#[test]
fn variant_doctest_dir_is_test_harness() {
    let v = classify_variant(&LocalPath::parse("/tmp/rustdoctestXYZ"));
    assert_eq!(v.harness, Harness::TestHarness);
    let v = classify_variant(&LocalPath::parse("/tmp/rustdoc"));
    assert_eq!(v.harness, Harness::Normal);
}
