//! The process executor's decisions: the environment each `git` child gets,
//! and how a finished child is classified into a response or an error. The
//! spawning and waiting themselves belong to the caller.

use vstd::prelude::*;
use crate::numeric::{decimal, push_decimal, push_signed_decimal, signed_decimal};
use crate::text::{chars_of, contains_seq, contains_str};
use crate::types::{GitError, GitResponse};

verus! {

/// Seconds allowed to a command that only touches the local repository.
pub const TIMEOUT_LOCAL: u64 = 30;

/// Seconds allowed to a command that talks to a remote.
pub const TIMEOUT_NETWORK: u64 = 120;

/// Seconds allowed to a short read-only probe.
pub const TIMEOUT_QUICK: u64 = 15;

/// The resolved `git` binary, fixed once at startup.
#[derive(Debug, Clone, PartialEq, Eq)]
pub struct GitExecutor {
    git_binary: String,
}

impl GitExecutor {
    pub closed spec fn binary(&self) -> Seq<char> {
        self.git_binary@
    }

    pub fn new(git_binary: String) -> (r: Self)
        ensures
            r.binary() == git_binary@,
    {
        GitExecutor { git_binary }
    }

    pub fn binary_path(&self) -> (r: &str)
        ensures
            r@ == self.binary(),
    {
        self.git_binary.as_str()
    }
}

/// The variables every repository command runs with: no credential or
/// terminal prompts, no pager, no optional locks, and the C locale so that
/// output text does not depend on the user's language.
pub open spec fn sanitized_env_spec() -> Seq<(Seq<char>, Seq<char>)> {
    seq![
        ("GIT_TERMINAL_PROMPT"@, "0"@),
        ("GCM_INTERACTIVE"@, "never"@),
        ("LC_ALL"@, "C"@),
        ("GIT_OPTIONAL_LOCKS"@, "0"@),
        ("GIT_PAGER"@, ""@),
    ]
}

pub open spec fn pair_views(v: Seq<(String, String)>) -> Seq<(Seq<char>, Seq<char>)> {
    v.map_values(|p: (String, String)| (p.0@, p.1@))
}

pub fn sanitized_env() -> (r: Vec<(String, String)>)
    ensures
        pair_views(r@) == sanitized_env_spec(),
{
    let mut r: Vec<(String, String)> = Vec::new();
    r.push(("GIT_TERMINAL_PROMPT".to_string(), "0".to_string()));
    r.push(("GCM_INTERACTIVE".to_string(), "never".to_string()));
    r.push(("LC_ALL".to_string(), "C".to_string()));
    r.push(("GIT_OPTIONAL_LOCKS".to_string(), "0".to_string()));
    r.push(("GIT_PAGER".to_string(), "".to_string()));
    proof {
        assert(pair_views(r@) =~= sanitized_env_spec());
    }
    r
}

/// Strings joined with `sep` between them, as `join` does.
pub open spec fn joined(ss: Seq<Seq<char>>, sep: Seq<char>) -> Seq<char>
    decreases ss.len(),
{
    if ss.len() == 0 {
        Seq::empty()
    } else if ss.len() == 1 {
        ss[0]
    } else {
        joined(ss.drop_last(), sep) + sep + ss.last()
    }
}

pub open spec fn arg_views(v: Seq<String>) -> Seq<Seq<char>> {
    v.map_values(|s: String| s@)
}

/// The strings joined with `sep` between them.
pub fn join_strings(items: &[String], sep: &str) -> (r: String)
    ensures
        r@ == joined(arg_views(items@), sep@),
{
    let mut r = String::new();
    let mut i: usize = 0;
    while i < items.len()
        invariant
            i <= items@.len(),
            r@ == joined(arg_views(items@).take(i as int), sep@),
        decreases items@.len() - i,
    {
        if i > 0 {
            r.append(sep);
        }
        r.append(items[i].as_str());
        proof {
            let v = arg_views(items@);
            assert(v.take(i + 1).drop_last() =~= v.take(i as int));
            assert(v.take(i + 1).last() == items@[i as int]@);
            if i == 0 {
                assert(v.take(1)[0] == items@[0]@);
                assert(r@ =~= joined(v.take(1), sep@));
            } else {
                assert(r@ =~= joined(v.take(i + 1), sep@));
            }
        }
        i = i + 1;
    }
    proof {
        assert(arg_views(items@).take(items@.len() as int) =~= arg_views(items@));
    }
    r
}

/// The arguments separated by single spaces.
pub fn join_args(args: &[String]) -> (r: String)
    ensures
        r@ == joined(arg_views(args@), " "@),
{
    join_strings(args, " ")
}

/// The text of an error, as shown to the user.
pub open spec fn error_message(e: GitError) -> Seq<char> {
    match e {
        GitError::NotARepo(s) => "Not a git repository: "@ + s@,
        GitError::CommandError(s) => "Git command failed: "@ + s@,
        GitError::MergeConflict => "Merge conflict detected"@,
        GitError::IoError(s) => "IO error: "@ + s@,
        GitError::GitNotFound(s) => "Git binary not found: "@ + s@,
        GitError::Timeout(n) => "Command timed out after "@ + decimal(n as nat) + " seconds"@,
        GitError::InvalidRepoPath(s) => "Invalid repository path: "@ + s@,
        GitError::Unknown(s) => "Unknown error: "@ + s@,
    }
}

impl GitError {
    pub fn message(&self) -> (r: String)
        ensures
            r@ == error_message(*self),
    {
        let mut r = String::new();
        match self {
            GitError::NotARepo(s) => {
                r.append("Not a git repository: ");
                r.append(s.as_str());
            },
            GitError::CommandError(s) => {
                r.append("Git command failed: ");
                r.append(s.as_str());
            },
            GitError::MergeConflict => {
                r.append("Merge conflict detected");
            },
            GitError::IoError(s) => {
                r.append("IO error: ");
                r.append(s.as_str());
            },
            GitError::GitNotFound(s) => {
                r.append("Git binary not found: ");
                r.append(s.as_str());
            },
            GitError::Timeout(n) => {
                r.append("Command timed out after ");
                push_decimal(&mut r, *n);
                r.append(" seconds");
            },
            GitError::InvalidRepoPath(s) => {
                r.append("Invalid repository path: ");
                r.append(s.as_str());
            },
            GitError::Unknown(s) => {
                r.append("Unknown error: ");
                r.append(s.as_str());
            },
        }
        r
    }
}

/// Before anything is spawned: the working directory must exist and be a
/// directory.
pub fn check_repo_dir(is_dir: bool, repo_display: &str) -> (r: Result<(), GitError>)
    ensures
        is_dir ==> r is Ok,
        !is_dir ==> (r matches Err(GitError::InvalidRepoPath(p)) && p@ == repo_display@),
{
    if is_dir {
        Ok(())
    } else {
        Err(GitError::InvalidRepoPath(repo_display.to_string()))
    }
}

/// The error for a child that could not be started.
pub fn spawn_failure(reason: &str) -> (r: GitError)
    ensures
        r matches GitError::IoError(m) && m@ == "Failed to spawn git: "@ + reason@,
{
    let mut m = String::new();
    m.append("Failed to spawn git: ");
    m.append(reason);
    GitError::IoError(m)
}

/// The error for a child that outlived its timeout (and was killed).
pub fn timeout_failure(timeout_secs: u64) -> (r: GitError)
    ensures
        r == GitError::Timeout(timeout_secs),
{
    GitError::Timeout(timeout_secs)
}

pub open spec fn failure_text(args: Seq<Seq<char>>, exit_code: i32, stderr: Seq<char>) -> Seq<char> {
    "git "@ + joined(args, " "@) + " failed (exit "@ + signed_decimal(exit_code as int) + "): "@ + stderr
}

/// Classifies a finished repository command: exit code 0 is a response;
/// otherwise "not a git repository" in stderr, then "CONFLICT" in stderr or
/// stdout, then a failure carrying the raw stderr.
pub fn classify_outcome(
    repo_display: &str,
    args: &[String],
    stdout: String,
    stderr: String,
    exit_code: i32,
    duration_ms: u64,
) -> (r: Result<GitResponse, GitError>)
    ensures
        exit_code == 0 ==> r == Ok::<GitResponse, GitError>(
            GitResponse { stdout, stderr, exit_code, duration_ms },
        ),
        exit_code != 0 && contains_seq(stderr@, "not a git repository"@) ==> (r matches Err(
            GitError::NotARepo(p),
        ) && p@ == repo_display@),
        exit_code != 0 && !contains_seq(stderr@, "not a git repository"@) && (contains_seq(
            stderr@,
            "CONFLICT"@,
        ) || contains_seq(stdout@, "CONFLICT"@)) ==> r == Err::<GitResponse, GitError>(
            GitError::MergeConflict,
        ),
        exit_code != 0 && !contains_seq(stderr@, "not a git repository"@) && !contains_seq(
            stderr@,
            "CONFLICT"@,
        ) && !contains_seq(stdout@, "CONFLICT"@) ==> (r matches Err(GitError::CommandError(m))
            && m@ == failure_text(arg_views(args@), exit_code, stderr@)),
{
    if exit_code == 0 {
        return Ok(GitResponse { stdout, stderr, exit_code, duration_ms });
    }
    let err_chars = chars_of(stderr.as_str());
    if contains_str(err_chars.as_slice(), "not a git repository") {
        return Err(GitError::NotARepo(repo_display.to_string()));
    }
    let out_chars = chars_of(stdout.as_str());
    if contains_str(err_chars.as_slice(), "CONFLICT") || contains_str(out_chars.as_slice(), "CONFLICT") {
        return Err(GitError::MergeConflict);
    }
    let mut m = String::new();
    m.append("git ");
    let j = join_args(args);
    m.append(j.as_str());
    m.append(" failed (exit ");
    push_signed_decimal(&mut m, exit_code as i64);
    m.append("): ");
    m.append(stderr.as_str());
    Err(GitError::CommandError(m))
}

/// A finished command run outside any repository (a version probe): its
/// output is the response whatever the exit code.
pub fn bare_outcome(stdout: String, stderr: String, exit_code: i32, duration_ms: u64) -> (r: GitResponse)
    ensures
        r == (GitResponse { stdout, stderr, exit_code, duration_ms }),
{
    GitResponse { stdout, stderr, exit_code, duration_ms }
}

} // verus!
