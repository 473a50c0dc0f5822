use fswatch::filter::{build_filter, FsMessageFilter, FsMessageFilterMode};

fn strings(v: &[&str]) -> Vec<String> {
    v.iter().map(|s| s.to_string()).collect()
}

#[test]
fn empty_filter_matches_every_path() {
    let f = FsMessageFilter::empty();
    assert!(f.is_match("/root/a.txt"));
    assert!(f.is_match("/root/b.tmp"));
    assert!(f.is_match(""));
}

#[test]
fn default_filter_matches_every_path() {
    let f = FsMessageFilter::default();
    assert!(f.is_match("/root/x/y/z"));
}

#[test]
fn opt_out_excludes_matching_paths() {
    let f = FsMessageFilter::create(FsMessageFilterMode::OptOut, strings(&["*.tmp"])).unwrap();
    assert!(!f.is_match("/root/b.tmp"));
    assert!(f.is_match("/root/a.txt"));
}

#[test]
fn opt_in_includes_only_matching_paths() {
    let f = FsMessageFilter::create(FsMessageFilterMode::OptIn, strings(&["*.rs", "**/docs/**"])).unwrap();
    assert!(f.is_match("/src/lib.rs"));
    assert!(f.is_match("/root/docs/readme.md"));
    assert!(!f.is_match("/root/readme.md"));
}

#[test]
fn opt_in_without_patterns_matches_nothing() {
    let f = FsMessageFilter::create(FsMessageFilterMode::OptIn, Vec::new()).unwrap();
    assert!(!f.is_match("/root/a.txt"));
}

#[test]
fn glob_semantics_question_mark_class_and_alternation() {
    let f = FsMessageFilter::create(FsMessageFilterMode::OptIn, strings(&["/d/file?.[ch]", "/e/*.{md,txt}"])).unwrap();
    assert!(f.is_match("/d/file1.c"));
    assert!(f.is_match("/d/file2.h"));
    assert!(!f.is_match("/d/file10.c"));
    assert!(f.is_match("/e/a.txt"));
    assert!(!f.is_match("/e/a.rs"));
}

#[test]
fn invalid_pattern_is_rejected() {
    assert!(FsMessageFilter::create(FsMessageFilterMode::OptOut, strings(&["ok*", "a[b"])).is_err());
    assert!(FsMessageFilter::create(FsMessageFilterMode::OptIn, strings(&["{a,b"])).is_err());
}

#[test]
fn build_filter_without_options_gives_none() {
    assert!(build_filter(None, None).unwrap().is_none());
}

#[test]
fn build_filter_prefers_opt_out() {
    let f = build_filter(Some(strings(&["*.tmp"])), Some(strings(&["*.tmp"]))).unwrap().unwrap();
    assert!(!f.is_match("/x.tmp"));
    assert!(f.is_match("/x.txt"));
}

#[test]
fn build_filter_opt_in() {
    let f = build_filter(None, Some(strings(&["*.tmp"]))).unwrap().unwrap();
    assert!(f.is_match("/x.tmp"));
    assert!(!f.is_match("/x.txt"));
}

#[test]
fn build_filter_reports_invalid_pattern() {
    assert!(build_filter(Some(strings(&["[z"])), None).is_err());
    assert!(build_filter(None, Some(strings(&["[z"]))).is_err());
}
