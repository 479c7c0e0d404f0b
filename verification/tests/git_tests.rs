use loco_pilot::gitstatus::{parse_status_output, needs_commit_sha, apply_detached, get_current_git_branch, GitStatus};
use loco_pilot::branches::{parse_branch_list, interpret_branch_output, select_branch};
use loco_pilot::cache::TimedCache;

#[test]
fn test_parse_branch_and_counts() {
    // counts appear in (behind, ahead) order in the probe's output
    let out = "# branch.oid 0123abc\n# branch.head main\n# branch.ab -2 +5\n";
    let st = parse_status_output(out);
    assert_eq!(st.branch, "main");
    assert_eq!(st.behind, 2);
    assert_eq!(st.ahead, 5);
    assert_eq!(st.dirty, false);
}

#[test]
fn test_parse_counts_not_swapped() {
    let out = "# branch.head dev\n# branch.ab -7 +0\n";
    let st = parse_status_output(out);
    assert_eq!(st.behind, 7);
    assert_eq!(st.ahead, 0);
}

#[test]
fn test_dirty_only_headers_is_clean() {
    let out = "# branch.oid 0123abc\n# branch.head main\n# branch.upstream origin/main\n";
    let st = parse_status_output(out);
    assert_eq!(st.dirty, false);
}

#[test]
fn test_dirty_content_line_marks_dirty() {
    let out = "# branch.head main\n1 .M N... 100644 100644 100644 abc def src/lib.rs\n";
    let st = parse_status_output(out);
    assert_eq!(st.dirty, true);
}

#[test]
fn test_dirty_untracked_line_marks_dirty() {
    let out = "# branch.head main\n? notes.txt\n";
    let st = parse_status_output(out);
    assert_eq!(st.dirty, true);
}

#[test]
fn test_unparseable_lines_are_skipped() {
    let out = "# branch.head main\n# branch.ab not numbers here\n";
    let st = parse_status_output(out);
    assert_eq!(st.branch, "main");
    assert_eq!(st.ahead, 0);
    assert_eq!(st.behind, 0);
}

#[test]
fn test_no_branch_line_gives_unknown() {
    let st = parse_status_output("");
    assert_eq!(st.branch, "unknown");
    assert_eq!(st.dirty, false);
}

#[test]
fn test_detached_head_rewrite() {
    let st = parse_status_output("# branch.head HEAD\n");
    assert!(needs_commit_sha(&st));
    let st = apply_detached(st, Some("abc1234\n"));
    assert_eq!(st.branch, "detached@abc1234");
}

#[test]
fn test_detached_without_hash_stays() {
    let st = parse_status_output("# branch.head HEAD\n");
    let st = apply_detached(st, None);
    assert_eq!(st.branch, "HEAD");
}

#[test]
fn test_normal_branch_not_rewritten() {
    let st = parse_status_output("# branch.head main\n");
    assert!(!needs_commit_sha(&st));
    let st = apply_detached(st, Some("abc1234"));
    assert_eq!(st.branch, "main");
}

#[test]
fn test_current_branch_from_probe() {
    let st = parse_status_output("# branch.head main\n");
    assert_eq!(get_current_git_branch(Some(st)), Some("main".to_string()));
    assert_eq!(get_current_git_branch(None), None);
}

#[test]
fn test_cache_freshness_two_probes_within_ttl() {
    let mut cache: TimedCache<GitStatus> = TimedCache::new(2000);
    let first = parse_status_output("# branch.head main\n");
    cache.store(first, 1000);
    // the repository mutates here; no probe runs while the slot is fresh
    let a = cache.lookup(1500).expect("fresh lookup");
    assert_eq!(a.branch, "main");
    let b = cache.lookup(2900).expect("still fresh");
    assert_eq!(b.branch, "main");
    assert!(cache.lookup(3000).is_none());
}

#[test]
fn test_cache_miss_before_store_and_on_skew() {
    let mut cache: TimedCache<u64> = TimedCache::new(5000);
    assert!(cache.lookup(100).is_none());
    cache.store(7, 1000);
    assert!(cache.lookup(999).is_none());
    assert_eq!(cache.lookup(1000), Some(&7));
}

#[test]
fn test_parse_branch_list_trims_and_drops_empty() {
    let out = "main\n  dev  \n\nfeature/x\n";
    let branches = parse_branch_list(out);
    assert_eq!(branches, vec!["main".to_string(), "dev".to_string(), "feature/x".to_string()]);
}

#[test]
fn test_interpret_branch_output_failure_carries_stderr() {
    let r = interpret_branch_output(false, "", "fatal: not a git repository");
    assert_eq!(r, Err("Git command failed: fatal: not a git repository".to_string()));
}

#[test]
fn test_interpret_branch_output_success() {
    let r = interpret_branch_output(true, "main\ndev\n", "");
    assert_eq!(r, Ok(vec!["main".to_string(), "dev".to_string()]));
}

#[test]
fn test_select_branch_valid_and_invalid() {
    let branches = vec!["main".to_string(), "dev".to_string(), "feature".to_string()];
    assert_eq!(select_branch(&branches, "2\n"), Some("dev".to_string()));
    assert_eq!(select_branch(&branches, " 1 "), Some("main".to_string()));
    assert_eq!(select_branch(&branches, "+3"), Some("feature".to_string()));
    assert_eq!(select_branch(&branches, "0"), None);
    assert_eq!(select_branch(&branches, "4"), None);
    assert_eq!(select_branch(&branches, "abc"), None);
    assert_eq!(select_branch(&branches, ""), None);
    assert_eq!(select_branch(&branches, "99999999999999999999999999"), None);
}
