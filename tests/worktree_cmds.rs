use git_tools::history::{commit_show_args, parent_args, parent_hash, file_history_args, parse_branch_refs, parse_file_history, search_repo_files, switch_target};
use git_tools::types::{FileCommit, FileStatus};
use git_tools::worktree::{add_path_args, add_all_args, ahead_count, discard_commands, push_args, stash_file_args, unpushed_count};

fn strings(v: &[&str]) -> Vec<String> {
    v.iter().map(|s| s.to_string()).collect()
}

fn fs(path: &str, status: &str) -> FileStatus {
    FileStatus { path: path.into(), status: status.into(), staged: false }
}

#[test]
fn discard_splits_restore_and_clean() {
    let files = vec![
        fs(" a.rs ", "M"),
        fs("new.txt", "??"),
        fs("old.rs -> moved.rs", "R"),
        fs("a.rs", "M"),
        fs("debug.log", "M"),
        fs("  ", "M"),
    ];
    assert_eq!(
        discard_commands(&files, &strings(&["*.log"])),
        vec![
            strings(&["restore", "--source=HEAD", "--staged", "--worktree", "--", "a.rs", "old.rs", "moved.rs"]),
            strings(&["clean", "-fd", "--", "new.txt"]),
        ]
    );
    assert!(discard_commands(&vec![fs("x.log", "M")], &strings(&["*.log"])).is_empty());
}

#[test]
fn stash_arguments() {
    assert_eq!(
        stash_file_args(&fs("a -> b", "R"), &[]),
        Ok(strings(&["stash", "push", "-m", "stash b", "--", "b"]))
    );
    assert_eq!(
        stash_file_args(&fs("n.txt", " ?? "), &[]),
        Ok(strings(&["stash", "push", "-m", "stash n.txt", "-u", "--", "n.txt"]))
    );
    assert_eq!(stash_file_args(&fs(" ", "M"), &[]), Err("No file path provided".to_string()));
    assert_eq!(
        stash_file_args(&fs("x.log", "M"), &strings(&["*.log"])),
        Err("File x.log is excluded from git operations".to_string())
    );
}

#[test]
fn add_push_and_counts() {
    assert_eq!(add_all_args(&strings(&["*.log", " ", "tmp/"])), strings(&["add", ".", ":!*.log", ":!tmp/"]));
    assert_eq!(push_args(true, "main\n"), strings(&["push"]));
    assert_eq!(push_args(false, " feature/x\n"), strings(&["push", "-u", "origin", "feature/x"]));
    assert_eq!(ahead_count("3\n"), 3);
    assert_eq!(ahead_count("x"), 0);
    assert_eq!(unpushed_count(None), 1);
    assert_eq!(unpushed_count(Some("0\n".into())), 1);
    assert_eq!(unpushed_count(Some("5".into())), 5);
}

#[test]
fn history_and_branches() {
    assert_eq!(
        parse_file_history("abc|Ann|2024-01-02|fix: a|b\nbad|line\n"),
        vec![FileCommit { hash: "abc".into(), author: "Ann".into(), date: "2024-01-02".into(), message: "fix: a|b".into() }]
    );
    assert_eq!(
        file_history_args("f.rs", None),
        strings(&["log", "--follow", "--format=%H|%an|%ad|%s", "--date=short", "-n100", "--", "f.rs"])
    );
    assert_eq!(file_history_args("f.rs", Some(7))[4], "-n7");
    assert_eq!(
        parse_branch_refs("refs/heads/main\n  refs/remotes/origin/dev \nHEAD\n\nrefs/tags/v1\n"),
        strings(&["main", "remotes/origin/dev"])
    );
    assert_eq!(switch_target("remotes/origin/feature/x"), "feature/x");
    assert_eq!(switch_target("remotes/remotes/solo"), "solo");
    assert_eq!(switch_target("remotes/"), "");
    assert_eq!(switch_target("main"), "main");
}

#[test]
fn file_search_is_case_insensitive_and_capped() {
    let listing = "src/Main.rs\nREADME.md\n\nsrc/lib.rs\n";
    assert_eq!(search_repo_files(listing, Some("MAIN".into())), strings(&["src/Main.rs"]));
    assert_eq!(search_repo_files(listing, None), strings(&["src/Main.rs", "README.md", "src/lib.rs"]));
    let many: String = (0..150).map(|i| format!("f{}.txt\n", i)).collect();
    assert_eq!(search_repo_files(&many, None).len(), 100);
}

#[test]
fn add_path_and_commit_diff_arguments() {
    assert_eq!(add_path_args("src/a.rs", &strings(&["*.log"])), Ok(strings(&["add", "src/a.rs"])));
    assert_eq!(
        add_path_args("x.log", &strings(&["*.log"])),
        Err("File x.log is excluded from git operations".to_string())
    );
    assert_eq!(
        commit_show_args("abc", Some("f.rs")),
        strings(&["show", "--format=", "--first-parent", "--patch", "abc", "--", "f.rs"])
    );
    assert_eq!(commit_show_args("abc", None).len(), 5);
    assert_eq!(parent_args("abc"), strings(&["rev-parse", "abc^"]));
    assert_eq!(parent_hash(Some("def\n".into())), Some("def".to_string()));
    assert_eq!(parent_hash(None), None);
}
