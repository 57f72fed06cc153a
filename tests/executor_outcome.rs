use git_tools::executor::{
    bare_outcome, check_repo_dir, classify_outcome, join_args, sanitized_env, spawn_failure,
    timeout_failure, GitExecutor, TIMEOUT_LOCAL, TIMEOUT_NETWORK, TIMEOUT_QUICK,
};
use git_tools::types::{GitError, GitResponse};

fn args(v: &[&str]) -> Vec<String> {
    v.iter().map(|s| s.to_string()).collect()
}

#[test]
fn success_is_a_response() {
    let r = classify_outcome("/r", &args(&["status"]), "out".into(), "warn".into(), 0, 7);
    assert_eq!(
        r,
        Ok(GitResponse { stdout: "out".into(), stderr: "warn".into(), exit_code: 0, duration_ms: 7 })
    );
}

#[test]
fn failures_are_classified_by_text() {
    let a = args(&["merge", "dev"]);
    assert_eq!(
        classify_outcome("/r", &a, String::new(), "fatal: not a git repository (or any)".into(), 128, 1),
        Err(GitError::NotARepo("/r".into()))
    );
    assert_eq!(
        classify_outcome("/r", &a, "CONFLICT (content): x".into(), String::new(), 1, 1),
        Err(GitError::MergeConflict)
    );
    assert_eq!(
        classify_outcome("/r", &a, String::new(), "error: bad\n".into(), -1, 1),
        Err(GitError::CommandError("git merge dev failed (exit -1): error: bad\n".into()))
    );
}

#[test]
fn error_messages() {
    assert_eq!(GitError::Timeout(15).message(), "Command timed out after 15 seconds");
    assert_eq!(GitError::MergeConflict.message(), "Merge conflict detected");
    assert_eq!(GitError::NotARepo("/x".into()).message(), "Not a git repository: /x");
    assert_eq!(GitError::InvalidRepoPath("q".into()).message(), "Invalid repository path: q");
    assert_eq!(spawn_failure("denied"), GitError::IoError("Failed to spawn git: denied".into()));
    assert_eq!(timeout_failure(TIMEOUT_NETWORK), GitError::Timeout(120));
    assert_eq!(check_repo_dir(false, "/nope"), Err(GitError::InvalidRepoPath("/nope".into())));
    assert_eq!(check_repo_dir(true, "/yes"), Ok(()));
}

#[test]
fn environment_and_arguments() {
    let env = sanitized_env();
    assert_eq!(env.len(), 5);
    assert!(env.contains(&("LC_ALL".to_string(), "C".to_string())));
    assert!(env.contains(&("GIT_TERMINAL_PROMPT".to_string(), "0".to_string())));
    assert_eq!(join_args(&args(&["log", "-1", "--format=%s"])), "log -1 --format=%s");
    assert_eq!(join_args(&[]), "");
    assert_eq!((TIMEOUT_LOCAL, TIMEOUT_QUICK), (30, 15));
    let e = GitExecutor::new("/usr/bin/git".into());
    assert_eq!(e.binary_path(), "/usr/bin/git");
    assert_eq!(bare_outcome("v".into(), "".into(), 3, 0).exit_code, 3);
}
