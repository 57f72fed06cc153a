use git_tools::conflict::{
    collect_conflict_paths, conflict_check_needs_status, conflict_state, detect_operation_flags, has_conflicts_in, is_unmerged_status,
    parse_merge_branch_from_msg, parse_status_path, OperationFlags, OperationMarkers,
    OperationProbe, ProbeRequest,
};

fn chars(s: &str) -> Vec<char> {
    s.chars().collect()
}

fn no_markers() -> OperationMarkers {
    OperationMarkers {
        merge_head: false,
        rebase_head: false,
        rebase_merge_dir: false,
        rebase_apply_dir: false,
        cherry_pick_head: false,
        revert_head: false,
    }
}

#[test]
fn both_modified_path_is_a_conflict() {
    let paths = collect_conflict_paths("UU file.txt\n");
    assert_eq!(paths, vec!["file.txt".to_string()]);
    assert!(has_conflicts_in("UU file.txt\n"));
}

#[test]
fn conflict_paths_are_unique_ordered_and_unquoted() {
    let status = " M clean.rs\nAA b.txt\nDU \"with space.txt\"\nAA b.txt\n?? new\nUD a.txt\n";
    assert_eq!(
        collect_conflict_paths(status),
        vec!["b.txt".to_string(), "with space.txt".to_string(), "a.txt".to_string()]
    );
    assert!(!has_conflicts_in(" M clean.rs\n"));
}

#[test]
fn unmerged_codes() {
    for code in ["DD", "AU", "UD", "UA", "DU", "AA", "UU"] {
        assert!(is_unmerged_status(&chars(code)));
    }
    for code in ["MM", "A ", "??", "U", "UUU"] {
        assert!(!is_unmerged_status(&chars(code)));
    }
    assert_eq!(parse_status_path(&chars("UU")), None);
    assert_eq!(parse_status_path(&chars("UU    ")), None);
    assert_eq!(parse_status_path(&chars("UU  x ")), Some("x".to_string()));
}

#[test]
fn idle_repository_needs_no_command() {
    let flags = detect_operation_flags(no_markers());
    let (_, request) = OperationProbe::start(flags);
    match request {
        ProbeRequest::Finished(state) => {
            assert!(!state.is_merging && !state.is_rebasing);
            assert!(!state.is_cherry_picking && !state.is_reverting);
            assert!(!state.has_conflicts);
            assert!(state.conflict_paths.is_empty());
            assert_eq!(state.ours_commit, None);
            assert_eq!(state.theirs_branch, None);
        }
        other => panic!("unexpected request {:?}", other),
    }
}

#[test]
fn rebase_markers_set_the_rebasing_flag() {
    let mut m = no_markers();
    m.rebase_apply_dir = true;
    assert_eq!(
        detect_operation_flags(m),
        OperationFlags { is_merging: false, is_rebasing: true, is_cherry_picking: false, is_reverting: false }
    );
}

fn run_git(args: &[&str]) -> ProbeRequest {
    ProbeRequest::RunGit(args.iter().map(|s| s.to_string()).collect())
}

#[test]
fn merge_probe_walks_through_its_requests() {
    let mut m = no_markers();
    m.merge_head = true;
    let (p, r) = OperationProbe::start(detect_operation_flags(m));
    assert_eq!(r, run_git(&["status", "--porcelain"]));
    let (p, r) = p.advance(Ok("UU a.txt\n M b.txt\n".to_string()));
    assert_eq!(r, run_git(&["rev-parse", "--short", "HEAD"]));
    let (p, r) = p.advance(Ok("abc123\n".to_string()));
    assert_eq!(r, run_git(&["rev-parse", "--abbrev-ref", "HEAD"]));
    let (p, r) = p.advance(Ok("main\n".to_string()));
    assert_eq!(r, ProbeRequest::ReadFile("MERGE_HEAD".to_string()));
    let (p, r) = p.advance(Ok("  def4567890\n".to_string()));
    assert_eq!(r, run_git(&["rev-parse", "--short", "def4567890"]));
    let (p, r) = p.advance(Err("failed".to_string()));
    assert_eq!(r, ProbeRequest::ReadFile("MERGE_MSG".to_string()));
    let (_, r) = p.advance(Ok("Merge branch 'feature/x' into main\n".to_string()));
    match r {
        ProbeRequest::Finished(s) => {
            assert!(s.is_merging && s.has_conflicts);
            assert_eq!(s.conflict_paths, vec!["a.txt".to_string()]);
            assert_eq!(s.ours_commit, Some("abc123".to_string()));
            assert_eq!(s.ours_branch, Some("main".to_string()));
            assert_eq!(s.theirs_commit, None);
            assert_eq!(s.theirs_branch, Some("feature/x".to_string()));
        }
        other => panic!("unexpected request {:?}", other),
    }
}

#[test]
fn status_failure_ends_the_probe() {
    let mut m = no_markers();
    m.revert_head = true;
    let (p, _) = OperationProbe::start(detect_operation_flags(m));
    let (_, r) = p.advance(Err("fatal: boom".to_string()));
    assert_eq!(r, ProbeRequest::Failed("fatal: boom".to_string()));
}

#[test]
fn detached_head_is_no_branch_and_rebase_branch_is_local() {
    let mut m = no_markers();
    m.rebase_merge_dir = true;
    let (p, _) = OperationProbe::start(detect_operation_flags(m));
    let (p, _) = p.advance(Ok(String::new()));
    let (p, _) = p.advance(Ok("1234567".to_string()));
    let (p, r) = p.advance(Ok("HEAD\n".to_string()));
    assert_eq!(r, ProbeRequest::ReadFile("REBASE_HEAD".to_string()));
    let (p, r) = p.advance(Ok("   \n".to_string()));
    assert_eq!(r, ProbeRequest::ReadFile("rebase-merge/head-name".to_string()));
    let (_, r) = p.advance(Ok("refs/heads/topic\n".to_string()));
    match r {
        ProbeRequest::Finished(s) => {
            assert_eq!(s.ours_branch, None);
            assert!(!s.has_conflicts);
            assert_eq!(s.theirs_branch, Some("topic".to_string()));
        }
        other => panic!("unexpected request {:?}", other),
    }
}

#[test]
fn merge_messages() {
    assert_eq!(parse_merge_branch_from_msg("Merge branch 'dev'"), Some("dev".to_string()));
    assert_eq!(
        parse_merge_branch_from_msg("Merge remote-tracking branch 'origin/main' into x"),
        Some("origin/main".to_string())
    );
    assert_eq!(parse_merge_branch_from_msg("Merge branch 'open"), None);
    assert_eq!(parse_merge_branch_from_msg("Revert \"x\""), None);
}

#[test]
fn conflict_check_needs_an_operation() {
    let idle = detect_operation_flags(no_markers());
    assert!(!conflict_check_needs_status(idle));
    assert!(!conflict_state(idle, "UU file.txt\n"));
    let mut m = no_markers();
    m.cherry_pick_head = true;
    let picking = detect_operation_flags(m);
    assert!(conflict_check_needs_status(picking));
    assert!(conflict_state(picking, " M a\nUU file.txt\n"));
    assert!(!conflict_state(picking, " M a\n"));
}
