use git_tools::history::parse_commit_changed_files;
use git_tools::service::{classify_service_outcome, GitCommandError, GitCommandService};
use git_tools::staging::parse_status_files;
use git_tools::types::{CommitChangedFile, FileStatus, GitParsedOutput};

fn strings(v: &[&str]) -> Vec<String> {
    v.iter().map(|s| s.to_string()).collect()
}

fn fs(path: &str, status: &str, staged: bool) -> FileStatus {
    FileStatus { path: path.into(), status: status.into(), staged }
}

#[test]
fn status_entries_per_column() {
    let out = parse_status_files("MM both.rs\nA  added.rs\n?? new.txt\n D \"sp ace.rs\"\n?? \n!! x\nM  skip.log\n", &strings(&["*.log"]));
    assert_eq!(
        out,
        vec![
            fs("both.rs", "M", true),
            fs("both.rs", "M", false),
            fs("added.rs", "A", true),
            fs("new.txt", "?", false),
            fs("sp ace.rs", "D", false),
            fs("", "??", false),
            fs("x", "!", true),
            fs("x", "!", false),
        ]
    );
}

#[test]
fn changed_files_merge_parent_rows() {
    let out = parse_commit_changed_files("M\ta.txt\nR100\told.txt\tnew.txt\n\nD\ta.txt\nM\tnew.txt\nX\tz\nbad line\n");
    assert_eq!(
        out,
        vec![
            CommitChangedFile { path: "a.txt".into(), status: "D".into() },
            CommitChangedFile { path: "new.txt".into(), status: "R".into() },
            CommitChangedFile { path: "z".into(), status: "M".into() },
        ]
    );
}

#[test]
fn service_summarizes_status_and_classifies_failures() {
    assert_eq!(
        GitCommandService::parse_stdout(&strings(&["status"]), "nothing to commit, working tree clean"),
        Some(GitParsedOutput::Status { is_clean: true })
    );
    assert_eq!(
        GitCommandService::parse_stdout(&strings(&["status"]), "Changes not staged"),
        Some(GitParsedOutput::Status { is_clean: false })
    );
    assert_eq!(GitCommandService::parse_stdout(&strings(&["log"]), "x"), None);
    assert_eq!(GitCommandService::new().binary_path(), "git");
    assert_eq!(
        classify_service_outcome("/r", &strings(&["log"]), String::new(), "FATAL: Not A Git Repository".into(), Some(128), false),
        Err(GitCommandError::NotRepository("/r".into()))
    );
    assert_eq!(
        classify_service_outcome("/r", &strings(&["merge"]), String::new(), "CONFLICT here".into(), Some(1), false),
        Err(GitCommandError::MergeConflict)
    );
    assert_eq!(
        classify_service_outcome("/r", &strings(&["merge", "dev"]), "CONFLICT (content): a.txt".into(), "Automatic merge failed".into(), Some(1), false),
        Err(GitCommandError::MergeConflict)
    );
    assert_eq!(
        classify_service_outcome("/r", &strings(&["x"]), String::new(), "oops".into(), None, false),
        Err(GitCommandError::CommandFailed { code: None, stderr: "oops".into() })
    );
    let ok = classify_service_outcome("/r", &strings(&["status"]), "working tree clean".into(), String::new(), Some(0), true).unwrap();
    assert_eq!(ok.parsed, Some(GitParsedOutput::Status { is_clean: true }));
}
