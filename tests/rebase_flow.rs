use git_tools::rebase::{
    continue_env, full_rebase_status, map_git_result, parse_rebase_plan, porcelain_has_unmerged,
    rebase_command_result, rebase_interactive_args, rebase_plan_args, rebase_start_args,
    sequence_editor_env, sequence_editor_script, serialize_rebase_plan, stopped_commit,
    RebaseFiles,
};
use git_tools::types::{GitCommandType, GitError, GitResponse, RebaseStatus, RebaseTodoItem};

fn files() -> RebaseFiles {
    RebaseFiles {
        rebase_head: false,
        merge_dir: false,
        apply_dir: false,
        msg_num: None,
        end: None,
        stopped_sha: None,
        onto: None,
        head_name: None,
        next: None,
        last: None,
    }
}

fn strings(v: &[&str]) -> Vec<String> {
    v.iter().map(|s| s.to_string()).collect()
}

#[test]
fn plan_lists_picks_in_order() {
    let items = parse_rebase_plan("a1b2c3\tfirst commit\nd4e5f6\tsecond\twith tab\nno tab line\n");
    assert_eq!(
        items,
        vec![
            RebaseTodoItem { action: "pick".into(), hash: "a1b2c3".into(), message: "first commit".into() },
            RebaseTodoItem { action: "pick".into(), hash: "d4e5f6".into(), message: "second\twith tab".into() },
        ]
    );
    assert_eq!(rebase_plan_args("main"), strings(&["log", "main..HEAD", "--reverse", "--format=%h\t%s"]));
}

#[test]
fn plan_serializes_one_line_per_item() {
    let items = vec![
        RebaseTodoItem { action: "reword".into(), hash: "abc".into(), message: "Fix it".into() },
        RebaseTodoItem { action: "drop".into(), hash: "def".into(), message: "".into() },
    ];
    assert_eq!(serialize_rebase_plan(&items), "reword abc Fix it\ndrop def \n");
    assert_eq!(serialize_rebase_plan(&Vec::new()), "");
}

#[test]
fn editor_script_and_environment() {
    assert_eq!(sequence_editor_script("/tmp/plan", false), "cp \"/tmp/plan\" \"$1\"");
    assert_eq!(
        sequence_editor_script("C:/Temp/plan", true),
        "copy /y \"C:\\Temp\\plan\" \"%1\""
    );
    assert_eq!(
        sequence_editor_env("/tmp/ed"),
        vec![("GIT_SEQUENCE_EDITOR".to_string(), "/tmp/ed".to_string())]
    );
    assert_eq!(
        continue_env(),
        vec![
            ("GIT_EDITOR".to_string(), "true".to_string()),
            ("GIT_SEQUENCE_EDITOR".to_string(), "true".to_string())
        ]
    );
    assert_eq!(rebase_start_args("main"), strings(&["rebase", "main"]));
    assert_eq!(rebase_interactive_args("abc"), strings(&["rebase", "-i", "abc"]));
}

#[test]
fn conflict_during_rebase_is_a_result_not_an_error() {
    let r = rebase_command_result(Err(GitError::MergeConflict)).unwrap();
    assert!(!r.success);
    assert_eq!(r.exit_code, 1);
    assert_eq!(r.stderr, "CONFLICT: merge conflicts detected during rebase");
    assert_eq!(r.command_type, GitCommandType::Rebase);
    let r = rebase_command_result(Err(GitError::CommandError("paused".into()))).unwrap();
    assert_eq!((r.success, r.stderr.as_str(), r.stdout.as_str()), (false, "paused", ""));
    assert_eq!(
        rebase_command_result(Err(GitError::Timeout(30))),
        Err("Command timed out after 30 seconds".to_string())
    );
    let ok = GitResponse { stdout: "done".into(), stderr: String::new(), exit_code: 0, duration_ms: 3 };
    let r = rebase_command_result(Ok(ok.clone())).unwrap();
    assert!(r.success && r.stdout == "done");
    assert_eq!(map_git_result(ok, GitCommandType::Pull).command_type, GitCommandType::Pull);
}

#[test]
fn idle_without_rebase_markers() {
    let s = full_rebase_status(&files(), true, None);
    assert_eq!(s.status, RebaseStatus::Idle);
    assert!(s.step.is_none() && s.onto_branch.is_none() && s.upstream_branch.is_none());
}

#[test]
fn interactive_rebase_status_from_metadata() {
    let mut f = files();
    f.merge_dir = true;
    f.msg_num = Some("2\n".into());
    f.end = Some("5\n".into());
    f.stopped_sha = Some("abc1234\n".into());
    f.onto = Some("0123abcd\n".into());
    f.head_name = Some("refs/heads/feature\n".into());
    assert_eq!(stopped_commit(&f), Some("abc1234".to_string()));
    let s = full_rebase_status(&f, true, Some("Add parser\n".into()));
    assert_eq!(s.status, RebaseStatus::Conflicted);
    let step = s.step.unwrap();
    assert_eq!((step.current, step.total), (2, 5));
    assert_eq!(step.commit_hash, "abc1234");
    assert_eq!(step.commit_message, "Add parser");
    assert_eq!(s.onto_branch, Some("0123abcd".to_string()));
    assert_eq!(s.upstream_branch, Some("feature".to_string()));
}

#[test]
fn apply_rebase_status_has_counters_only() {
    let mut f = files();
    f.apply_dir = true;
    f.next = Some("x".into());
    f.last = Some("+3".into());
    let s = full_rebase_status(&f, false, None);
    assert_eq!(s.status, RebaseStatus::InProgress);
    let step = s.step.unwrap();
    assert_eq!((step.current, step.total), (0, 3));
    assert!(step.commit_hash.is_empty());
    assert_eq!(stopped_commit(&f), None);
}

#[test]
fn unmerged_line_detection() {
    assert!(porcelain_has_unmerged(" M a\nAA b\n"));
    assert!(porcelain_has_unmerged("UU"));
    assert!(!porcelain_has_unmerged(" M a\n?? b\n"));
}
