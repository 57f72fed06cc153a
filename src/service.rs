//! The plain command service: one `git` invocation per request, its
//! failure classified and its `status` output summarized.

use vstd::prelude::*;
use crate::conflict::string_seq_views;
use crate::text::{chars_of, contains_seq, contains_str};
use crate::types::{GitCommandOutput, GitParsedOutput};

verus! {

/// How a plain command failed.
#[derive(Debug, Clone, PartialEq, Eq)]
pub enum GitCommandError {
    InvalidRepoPath(String),
    NotRepository(String),
    MergeConflict,
    CommandFailed { code: Option<i32>, stderr: String },
    Io(String),
}

/// Runs requests with the `git` found on the search path.
#[derive(Debug, Clone, PartialEq, Eq)]
pub struct GitCommandService {
    git_binary: String,
}

/// The lowercase form of `s` under Unicode case mapping.
pub uninterp spec fn lower_of(s: Seq<char>) -> Seq<char>;

/// Relies on `str::to_lowercase`: the result depends on the characters alone.
#[verifier::external_body]
pub(crate) fn lowercase(s: &str) -> (r: String)
    ensures
        r@ == lower_of(s@),
{
    s.to_lowercase()
}

/// A status summary: clean when git says there is nothing to commit or the
/// working tree is clean.
pub open spec fn parsed_output(subcommand: Seq<Seq<char>>, stdout: Seq<char>) -> Option<GitParsedOutput> {
    if subcommand.len() > 0 && subcommand[0] == "status"@ {
        Some(
            GitParsedOutput::Status {
                is_clean: contains_seq(stdout, "nothing to commit"@) || contains_seq(
                    stdout,
                    "working tree clean"@,
                ),
            },
        )
    } else {
        None
    }
}

impl GitCommandService {
    pub closed spec fn binary(&self) -> Seq<char> {
        self.git_binary@
    }

    pub fn new() -> (r: Self)
        ensures
            r.binary() == "git"@,
    {
        GitCommandService { git_binary: "git".to_string() }
    }

    pub fn binary_path(&self) -> (r: &str)
        ensures
            r@ == self.binary(),
    {
        self.git_binary.as_str()
    }

    pub fn parse_stdout(subcommand: &[String], stdout: &str) -> (r: Option<GitParsedOutput>)
        ensures
            r == parsed_output(string_seq_views(subcommand@), stdout@),
    {
        if subcommand.len() > 0 {
            let status = "status".to_string();
            proof {
                assert(string_seq_views(subcommand@)[0] == subcommand@[0]@);
            }
            if subcommand[0] == status {
                let cs = chars_of(stdout);
                let is_clean = contains_str(cs.as_slice(), "nothing to commit") || contains_str(
                    cs.as_slice(),
                    "working tree clean",
                );
                return Some(GitParsedOutput::Status { is_clean });
            }
        }
        None
    }
}

/// A failed plain command, given its stderr already lowercased: "not a git
/// repository" there, then "CONFLICT" in stderr or stdout, then a failure
/// with the exit code and stderr.
pub fn classify_service_failure(
    lowered_stderr: &str,
    repo_path: &str,
    code: Option<i32>,
    stdout: &str,
    stderr: String,
) -> (r: GitCommandError)
    ensures
        contains_seq(lowered_stderr@, "not a git repository"@) ==> (r matches GitCommandError::NotRepository(
            p,
        ) && p@ == repo_path@),
        !contains_seq(lowered_stderr@, "not a git repository"@) && (contains_seq(stderr@, "CONFLICT"@)
            || contains_seq(stdout@, "CONFLICT"@)) ==> r == GitCommandError::MergeConflict,
        !contains_seq(lowered_stderr@, "not a git repository"@) && !contains_seq(stderr@, "CONFLICT"@)
            && !contains_seq(stdout@, "CONFLICT"@) ==> r == (GitCommandError::CommandFailed { code, stderr }),
{
    let low = chars_of(lowered_stderr);
    if contains_str(low.as_slice(), "not a git repository") {
        return GitCommandError::NotRepository(repo_path.to_string());
    }
    let err = chars_of(stderr.as_str());
    let out = chars_of(stdout);
    if contains_str(err.as_slice(), "CONFLICT") || contains_str(out.as_slice(), "CONFLICT") {
        return GitCommandError::MergeConflict;
    }
    GitCommandError::CommandFailed { code, stderr }
}

/// A finished plain command: its output, with a status summary where it ran
/// `status`; or its failure, classified as `classify_service_failure` does.
pub fn classify_service_outcome(
    repo_path: &str,
    subcommand: &[String],
    stdout: String,
    stderr: String,
    code: Option<i32>,
    success: bool,
) -> (r: Result<GitCommandOutput, GitCommandError>)
    ensures
        success ==> (r matches Ok(o) && o.stdout == stdout && o.stderr == stderr && o.exit_code == code
            && o.parsed == parsed_output(string_seq_views(subcommand@), stdout@)),
        !success ==> (r matches Err(e) && {
            &&& contains_seq(lower_of(stderr@), "not a git repository"@) ==> (e matches GitCommandError::NotRepository(
                p,
            ) && p@ == repo_path@)
            &&& !contains_seq(lower_of(stderr@), "not a git repository"@) && (contains_seq(
                stderr@,
                "CONFLICT"@,
            ) || contains_seq(stdout@, "CONFLICT"@)) ==> e == GitCommandError::MergeConflict
            &&& !contains_seq(lower_of(stderr@), "not a git repository"@) && !contains_seq(
                stderr@,
                "CONFLICT"@,
            ) && !contains_seq(stdout@, "CONFLICT"@) ==> e == (GitCommandError::CommandFailed { code, stderr })
        }),
{
    if !success {
        let lowered = lowercase(stderr.as_str());
        return Err(classify_service_failure(lowered.as_str(), repo_path, code, stdout.as_str(), stderr));
    }
    let parsed = GitCommandService::parse_stdout(subcommand, stdout.as_str());
    Ok(GitCommandOutput { stdout, stderr, exit_code: code, parsed })
}

} // verus!
