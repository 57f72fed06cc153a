//! The plain values that travel between the engine and its callers.

use vstd::prelude::*;

verus! {

// ---------------------------------------------------------------------------
// Process outcomes
// ---------------------------------------------------------------------------

/// What one finished `git` process produced.
#[derive(Debug, Clone, PartialEq, Eq)]
pub struct GitResponse {
    pub stdout: String,
    pub stderr: String,
    pub exit_code: i32,
    pub duration_ms: u64,
}

/// The one kind of failure attached to a failed invocation.
#[derive(Debug, Clone, PartialEq, Eq)]
pub enum GitError {
    NotARepo(String),
    CommandError(String),
    MergeConflict,
    IoError(String),
    GitNotFound(String),
    Timeout(u64),
    InvalidRepoPath(String),
    Unknown(String),
}

/// The three index stages of one conflicted path; an absent stage is empty.
#[derive(Debug, Clone, PartialEq, Eq)]
pub struct ConflictFile {
    pub base: String,
    pub ours: String,
    pub theirs: String,
}

#[derive(Debug, Clone, PartialEq, Eq)]
pub struct DiagnosticInfo {
    pub git_version: Option<String>,
    pub git_path: String,
    pub path_env: String,
    pub platform: String,
}

#[derive(Debug, Clone, Copy, PartialEq, Eq, Structural)]
pub enum GitCommandType {
    Checkout,
    Merge,
    Commit,
    Pull,
    Push,
    Fetch,
    Branch,
    Rebase,
    Other,
}

/// A command's outcome handed to the front end as data, success or not.
#[derive(Debug, Clone, PartialEq, Eq)]
pub struct GitCommandResult {
    pub success: bool,
    pub stdout: String,
    pub stderr: String,
    pub exit_code: i32,
    pub command_type: GitCommandType,
}

// ---------------------------------------------------------------------------
// Requests and outputs of the plain command service
// ---------------------------------------------------------------------------

#[derive(Debug, Clone, PartialEq, Eq)]
pub struct GitCommandRequest {
    pub repo_path: String,
    pub subcommand: Vec<String>,
}

#[derive(Debug, Clone, Copy, PartialEq, Eq, Structural)]
pub enum GitParsedOutput {
    Status { is_clean: bool },
}

#[derive(Debug, Clone, PartialEq, Eq)]
pub struct GitCommandOutput {
    pub stdout: String,
    pub stderr: String,
    pub exit_code: Option<i32>,
    pub parsed: Option<GitParsedOutput>,
}

#[derive(Debug, Clone, PartialEq, Eq)]
pub enum GitCommandErrorPayload {
    InvalidRepoPath { path: String },
    NotRepository { path: String },
    MergeConflict,
    CommandFailed { code: Option<i32>, stderr: String },
    Io { message: String },
}

// ---------------------------------------------------------------------------
// History and diffs
// ---------------------------------------------------------------------------

/// One commit in a file's history.
#[derive(Debug, Clone, PartialEq, Eq)]
pub struct FileCommit {
    pub hash: String,
    pub author: String,
    pub date: String,
    pub message: String,
}

#[derive(Debug, Clone, Copy, PartialEq, Eq, Structural)]
pub enum DiffLineType {
    Context,
    Add,
    Remove,
}

/// One line of a hunk. Add lines carry only a new line number, Remove lines
/// only an old one, Context lines both.
#[derive(Debug, Clone, PartialEq, Eq)]
pub struct DiffLine {
    pub type_: DiffLineType,
    pub content: String,
    pub old_line_number: Option<u32>,
    pub new_line_number: Option<u32>,
}

#[derive(Debug, Clone, PartialEq, Eq)]
pub struct DiffHunk {
    pub id: String,
    pub old_start: u32,
    pub new_start: u32,
    pub lines: Vec<DiffLine>,
}

/// One file of a diff; `status` is "M", "A", "D" or "R".
#[derive(Debug, Clone, PartialEq, Eq)]
pub struct DiffFile {
    pub path: String,
    pub status: String,
    pub hunks: Vec<DiffHunk>,
}

#[derive(Debug, Clone, PartialEq, Eq)]
pub struct CommitDiff {
    pub commit_hash: String,
    pub parent_hash: Option<String>,
    pub files: Vec<DiffFile>,
}

/// One entry of the working-tree status: X (staged) or Y (unstaged) column.
#[derive(Debug, Clone, PartialEq, Eq)]
pub struct FileStatus {
    pub path: String,
    pub status: String,
    pub staged: bool,
}

#[derive(Debug, Clone, PartialEq, Eq)]
pub struct CommitChangedFile {
    pub path: String,
    pub status: String,
}

// ---------------------------------------------------------------------------
// Settings consumed by the engine
// ---------------------------------------------------------------------------

#[derive(Debug, Clone, PartialEq, Eq)]
pub struct RepoEntry {
    pub id: String,
    pub name: String,
    pub path: String,
}

/// The application settings the engine reads. The two tables map a key to
/// a value; they keep their entries in order, each key once (see
/// `AppSettings::well_formed`), and the first matching glob wins.
#[derive(Debug, Clone, PartialEq, Eq)]
pub struct AppSettings {
    pub repos: Vec<RepoEntry>,
    pub active_repo_id: Option<String>,
    pub open_repo_ids: Vec<String>,
    pub excluded_files: Vec<String>,
    pub repo_filters: Vec<(String, String)>,
    pub file_encodings: Vec<(String, String)>,
    pub gemini_api_token: Option<String>,
    pub gemini_model: Option<String>,
}

// ---------------------------------------------------------------------------
// Rebase
// ---------------------------------------------------------------------------

#[derive(Debug, Clone, Copy, PartialEq, Eq, Structural)]
pub enum RebaseStatus {
    Idle,
    InProgress,
    Conflicted,
}

#[derive(Debug, Clone, PartialEq, Eq)]
pub struct RebaseStepInfo {
    pub current: usize,
    pub total: usize,
    pub commit_hash: String,
    pub commit_message: String,
}

/// One line of a rebase plan: an action (normally "pick"), a commit, its subject.
#[derive(Debug, Clone, PartialEq, Eq)]
pub struct RebaseTodoItem {
    pub action: String,
    pub hash: String,
    pub message: String,
}

#[derive(Debug, Clone, PartialEq, Eq)]
pub struct FullRebaseStatus {
    pub status: RebaseStatus,
    pub step: Option<RebaseStepInfo>,
    pub onto_branch: Option<String>,
    pub upstream_branch: Option<String>,
}

} // verus!
