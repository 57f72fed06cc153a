//! Rebase orchestration: the plan read from `git log`, the plan written back
//! for `rebase -i` through a substituted sequence editor, the treatment of a
//! rebase step's outcome, and the status read from the rebase metadata.

use vstd::prelude::*;
use crate::conflict::{local_branch, opt_view, string_seq_views, unmerged_code};
use crate::executor::{error_message, pair_views};
use crate::numeric::parse_usize;
use crate::numeric::parse_unsigned;
use crate::text::{
    chars_of, find_char, index_of, lines_of, seq_views,
    slice_vec, split_lines, starts_with, string_of, trim, trim_chars,
};
use crate::types::{
    FullRebaseStatus, GitCommandResult, GitCommandType, GitError, GitResponse, RebaseStatus,
    RebaseStepInfo, RebaseTodoItem,
};

verus! {

// ---------------------------------------------------------------------------
// Outcomes
// ---------------------------------------------------------------------------

/// A finished command as a result for the front end.
pub fn map_git_result(resp: GitResponse, command_type: GitCommandType) -> (r: GitCommandResult)
    ensures
        r == (GitCommandResult {
            success: resp.exit_code == 0,
            stdout: resp.stdout,
            stderr: resp.stderr,
            exit_code: resp.exit_code,
            command_type,
        }),
{
    GitCommandResult {
        success: resp.exit_code == 0,
        stdout: resp.stdout,
        stderr: resp.stderr,
        exit_code: resp.exit_code,
        command_type,
    }
}

/// A rebase step's outcome. A merge conflict, or any other non-zero exit,
/// is a result that did not succeed (the rebase may be paused, waiting for
/// the user); only a failure to run the command at all is an error.
pub fn rebase_command_result(outcome: Result<GitResponse, GitError>) -> (r: Result<GitCommandResult, String>)
    ensures
        match outcome {
            Ok(resp) => r == Ok::<GitCommandResult, String>(
                GitCommandResult {
                    success: resp.exit_code == 0,
                    stdout: resp.stdout,
                    stderr: resp.stderr,
                    exit_code: resp.exit_code,
                    command_type: GitCommandType::Rebase,
                },
            ),
            Err(GitError::MergeConflict) => r matches Ok(c) && !c.success && c.stdout@ == Seq::<
                char,
            >::empty() && c.stderr@ == "CONFLICT: merge conflicts detected during rebase"@
                && c.exit_code == 1 && c.command_type == GitCommandType::Rebase,
            Err(GitError::CommandError(msg)) => r matches Ok(c) && !c.success && c.stdout@ == Seq::<
                char,
            >::empty() && c.stderr@ == msg@ && c.exit_code == 1 && c.command_type
                == GitCommandType::Rebase,
            Err(e) => r matches Err(m) && m@ == error_message(e),
        },
{
    match outcome {
        Ok(resp) => Ok(map_git_result(resp, GitCommandType::Rebase)),
        Err(GitError::MergeConflict) => Ok(
            GitCommandResult {
                success: false,
                stdout: String::new(),
                stderr: "CONFLICT: merge conflicts detected during rebase".to_string(),
                exit_code: 1,
                command_type: GitCommandType::Rebase,
            },
        ),
        Err(GitError::CommandError(msg)) => Ok(
            GitCommandResult {
                success: false,
                stdout: String::new(),
                stderr: msg,
                exit_code: 1,
                command_type: GitCommandType::Rebase,
            },
        ),
        Err(e) => Err(e.message()),
    }
}

// ---------------------------------------------------------------------------
// The plan
// ---------------------------------------------------------------------------

pub struct TodoView {
    pub action: Seq<char>,
    pub hash: Seq<char>,
    pub message: Seq<char>,
}

impl View for RebaseTodoItem {
    type V = TodoView;

    open spec fn view(&self) -> TodoView {
        TodoView { action: self.action@, hash: self.hash@, message: self.message@ }
    }
}

pub open spec fn todo_views(v: Seq<RebaseTodoItem>) -> Seq<TodoView> {
    v.map_values(|t: RebaseTodoItem| t@)
}

/// The arguments that list the commits after `base`, oldest first, as
/// "<short hash>\t<subject>" lines.
pub fn rebase_plan_args(base_commit: &str) -> (r: Vec<String>)
    ensures
        string_seq_views(r@) == seq!["log"@, base_commit@ + "..HEAD"@, "--reverse"@, "--format=%h\t%s"@],
{
    let mut range = base_commit.to_string();
    range.append("..HEAD");
    let r = vec!["log".to_string(), range, "--reverse".to_string(), "--format=%h\t%s".to_string()];
    proof {
        assert(string_seq_views(r@) =~= seq!["log"@, base_commit@ + "..HEAD"@, "--reverse"@, "--format=%h\t%s"@]);
    }
    r
}

/// One listed commit: a line with a tab becomes a "pick" of the hash before
/// the first tab, with the rest as its message.
pub open spec fn todo_step(acc: Seq<TodoView>, l: Seq<char>) -> Seq<TodoView> {
    let i = index_of(l, '\t');
    if i < l.len() {
        acc.push(TodoView { action: "pick"@, hash: l.take(i), message: l.skip(i + 1) })
    } else {
        acc
    }
}

pub open spec fn todo_fold(lines: Seq<Seq<char>>, n: int) -> Seq<TodoView>
    decreases n,
{
    if n <= 0 {
        Seq::empty()
    } else {
        todo_step(todo_fold(lines, n - 1), lines[n - 1])
    }
}

pub open spec fn rebase_plan_of(s: Seq<char>) -> Seq<TodoView> {
    todo_fold(lines_of(s), lines_of(s).len() as int)
}

/// The plan that the listing describes, every action "pick".
pub fn parse_rebase_plan(log_output: &str) -> (r: Vec<RebaseTodoItem>)
    ensures
        todo_views(r@) == rebase_plan_of(log_output@),
{
    let cs = chars_of(log_output);
    let lines = split_lines(cs.as_slice());
    let ghost ls = lines_of(log_output@);
    let mut items: Vec<RebaseTodoItem> = Vec::new();
    proof {
        assert(todo_views(items@) =~= Seq::empty());
    }
    let mut i: usize = 0;
    while i < lines.len()
        invariant
            i <= lines@.len(),
            seq_views(lines@) == ls,
            todo_views(items@) == todo_fold(ls, i as int),
        decreases lines@.len() - i,
    {
        let line = lines[i].as_slice();
        proof {
            assert(ls[i as int] == line@);
            crate::text::lemma_index_of_from_bounds(line@, '\t', 0);
        }
        let k = find_char(line, '\t');
        if k < line.len() {
            let hash = slice_vec(line, 0, k);
            let message = slice_vec(line, k + 1, line.len());
            let item = RebaseTodoItem {
                action: "pick".to_string(),
                hash: string_of(hash.as_slice()),
                message: string_of(message.as_slice()),
            };
            proof {
                assert(hash@ =~= line@.take(k as int));
                assert(message@ =~= line@.skip(k + 1));
                assert(todo_views(items@.push(item)) =~= todo_views(items@).push(item@));
            }
            items.push(item);
        }
        i = i + 1;
    }
    items
}

/// The plan as `git rebase -i` reads it: "<action> <hash> <message>" lines.
pub open spec fn plan_text(items: Seq<TodoView>) -> Seq<char>
    decreases items.len(),
{
    if items.len() == 0 {
        Seq::empty()
    } else {
        let t = items.last();
        plan_text(items.drop_last()) + t.action + seq![' '] + t.hash + seq![' '] + t.message + seq!['\n']
    }
}

pub fn serialize_rebase_plan(items: &Vec<RebaseTodoItem>) -> (r: String)
    ensures
        r@ == plan_text(todo_views(items@)),
{
    let mut r = String::new();
    let mut i: usize = 0;
    while i < items.len()
        invariant
            i <= items@.len(),
            r@ == plan_text(todo_views(items@).take(i as int)),
        decreases items@.len() - i,
    {
        let t = &items[i];
        r.append(t.action.as_str());
        crate::text::push_char(&mut r, ' ');
        r.append(t.hash.as_str());
        crate::text::push_char(&mut r, ' ');
        r.append(t.message.as_str());
        crate::text::push_char(&mut r, '\n');
        proof {
            let v = todo_views(items@);
            assert(v.take(i + 1).drop_last() =~= v.take(i as int));
            assert(v.take(i + 1).last() == t@);
            assert(r@ =~= plan_text(v.take(i + 1)));
        }
        i = i + 1;
    }
    proof {
        assert(todo_views(items@).take(items@.len() as int) =~= todo_views(items@));
    }
    r
}

/// `s` with every `/` turned into `\`.
pub open spec fn backslashed(s: Seq<char>) -> Seq<char> {
    Seq::new(s.len(), |i: int| if s[i] == '/' { '\\' } else { s[i] })
}

/// The substitute sequence editor: a one-line script that copies the
/// prepared plan over the file `git` hands it (`%1` / `$1`).
pub open spec fn editor_script_text(todo_path: Seq<char>, windows: bool) -> Seq<char> {
    if windows {
        "copy /y \""@ + backslashed(todo_path) + "\" \"%1\""@
    } else {
        "cp \""@ + todo_path + "\" \"$1\""@
    }
}

pub fn sequence_editor_script(todo_path: &str, windows: bool) -> (r: String)
    ensures
        r@ == editor_script_text(todo_path@, windows),
{
    let mut r = String::new();
    if windows {
        r.append("copy /y \"");
        let cs = chars_of(todo_path);
        let mut i: usize = 0;
        let ghost start = r@;
        while i < cs.len()
            invariant
                i <= cs@.len(),
                cs@ == todo_path@,
                r@ == start + backslashed(cs@).take(i as int),
            decreases cs@.len() - i,
        {
            let c = if cs[i] == '/' {
                '\\'
            } else {
                cs[i]
            };
            crate::text::push_char(&mut r, c);
            proof {
                assert(backslashed(cs@).take(i + 1) =~= backslashed(cs@).take(i as int).push(c));
            }
            i = i + 1;
        }
        proof {
            assert(backslashed(cs@).take(cs@.len() as int) =~= backslashed(cs@));
        }
        r.append("\" \"%1\"");
    } else {
        r.append("cp \"");
        r.append(todo_path);
        r.append("\" \"$1\"");
    }
    r
}

/// The environment that makes `rebase -i` run the substitute editor.
pub fn sequence_editor_env(script_path: &str) -> (r: Vec<(String, String)>)
    ensures
        pair_views(r@) == seq![("GIT_SEQUENCE_EDITOR"@, script_path@)],
{
    let r = vec![("GIT_SEQUENCE_EDITOR".to_string(), script_path.to_string())];
    proof {
        assert(pair_views(r@) =~= seq![("GIT_SEQUENCE_EDITOR"@, script_path@)]);
    }
    r
}

/// The environment for `rebase --continue`: both editors are `true`, so no
/// commit-message or plan editor blocks the step.
pub fn continue_env() -> (r: Vec<(String, String)>)
    ensures
        pair_views(r@) == seq![("GIT_EDITOR"@, "true"@), ("GIT_SEQUENCE_EDITOR"@, "true"@)],
{
    let r = vec![
        ("GIT_EDITOR".to_string(), "true".to_string()),
        ("GIT_SEQUENCE_EDITOR".to_string(), "true".to_string()),
    ];
    proof {
        assert(pair_views(r@) =~= seq![("GIT_EDITOR"@, "true"@), ("GIT_SEQUENCE_EDITOR"@, "true"@)]);
    }
    r
}

/// `rebase <base>`.
pub fn rebase_start_args(base: &str) -> (r: Vec<String>)
    ensures
        string_seq_views(r@) == seq!["rebase"@, base@],
{
    let r = vec!["rebase".to_string(), base.to_string()];
    proof {
        assert(string_seq_views(r@) =~= seq!["rebase"@, base@]);
    }
    r
}

/// `rebase -i <base>`.
pub fn rebase_interactive_args(base: &str) -> (r: Vec<String>)
    ensures
        string_seq_views(r@) == seq!["rebase"@, "-i"@, base@],
{
    let r = vec!["rebase".to_string(), "-i".to_string(), base.to_string()];
    proof {
        assert(string_seq_views(r@) =~= seq!["rebase"@, "-i"@, base@]);
    }
    r
}

/// `rebase --continue`, `--abort` or `--skip`, by `step`.
pub fn rebase_step_args(step: &str) -> (r: Vec<String>)
    ensures
        string_seq_views(r@) == seq!["rebase"@, step@],
{
    rebase_start_args(step)
}

} // verus!

verus! {

// ---------------------------------------------------------------------------
// Status
// ---------------------------------------------------------------------------

/// What the rebase metadata in `.git` holds: which markers exist, and the
/// raw content of each file (none where it could not be read).
#[derive(Debug, Clone, PartialEq, Eq)]
pub struct RebaseFiles {
    pub rebase_head: bool,
    pub merge_dir: bool,
    pub apply_dir: bool,
    pub msg_num: Option<String>,
    pub end: Option<String>,
    pub stopped_sha: Option<String>,
    pub onto: Option<String>,
    pub head_name: Option<String>,
    pub next: Option<String>,
    pub last: Option<String>,
}

/// A metadata file's value: its content trimmed, where anything is left.
pub open spec fn file_value(c: Option<String>) -> Option<Seq<char>> {
    match c {
        Some(s) => if trim(s@).len() > 0 {
            Some(trim(s@))
        } else {
            None
        },
        None => None,
    }
}

/// A step counter from a metadata file; 0 where it is missing or no number.
pub open spec fn counter_value(c: Option<String>) -> nat {
    match file_value(c) {
        Some(v) => match parse_unsigned(v, usize::MAX as nat) {
            Some(n) => n,
            None => 0,
        },
        None => 0,
    }
}

pub open spec fn rebase_in_progress(f: RebaseFiles) -> bool {
    f.rebase_head || f.merge_dir || f.apply_dir
}

/// Some porcelain line starts with an unmerged code.
pub open spec fn has_unmerged_line(s: Seq<char>) -> bool {
    exists|i: int|
        0 <= i < lines_of(s).len() && (#[trigger] lines_of(s)[i]).len() >= 2 && unmerged_code(
            lines_of(s)[i].take(2),
        )
}

pub fn is_rebase_in_progress(f: &RebaseFiles) -> (r: bool)
    ensures
        r == rebase_in_progress(*f),
{
    f.rebase_head || f.merge_dir || f.apply_dir
}

pub fn porcelain_has_unmerged(porcelain_status: &str) -> (r: bool)
    ensures
        r == has_unmerged_line(porcelain_status@),
{
    let cs = chars_of(porcelain_status);
    let lines = split_lines(cs.as_slice());
    let ghost ls = lines_of(porcelain_status@);
    let mut i: usize = 0;
    while i < lines.len()
        invariant
            i <= lines@.len(),
            seq_views(lines@) == ls,
            ls == lines_of(porcelain_status@),
            forall|j: int|
                0 <= j < i ==> !((#[trigger] ls[j]).len() >= 2 && unmerged_code(ls[j].take(2))),
        decreases lines@.len() - i,
    {
        let line = lines[i].as_slice();
        proof {
            assert(ls[i as int] == line@);
        }
        if line.len() >= 2 {
            let code = slice_vec(line, 0, 2);
            proof {
                assert(code@ =~= line@.take(2));
            }
            if crate::conflict::is_unmerged_status(code.as_slice()) {
                proof {
                    assert(ls[i as int].len() >= 2 && unmerged_code(ls[i as int].take(2)));
                }
                return true;
            }
        }
        i = i + 1;
    }
    false
}

fn file_value_exec(c: &Option<String>) -> (r: Option<String>)
    ensures
        opt_view(r) == file_value(*c),
{
    match c {
        Some(s) => {
            let cs = chars_of(s.as_str());
            let t = trim_chars(cs.as_slice());
            if t.len() > 0 {
                Some(string_of(t.as_slice()))
            } else {
                None
            }
        },
        None => None,
    }
}

fn counter_value_exec(c: &Option<String>) -> (r: usize)
    ensures
        r as nat == counter_value(*c),
{
    match file_value_exec(c) {
        Some(v) => {
            let cs = chars_of(v.as_str());
            match parse_usize(cs.as_slice()) {
                Some(n) => n,
                None => 0,
            }
        },
        None => 0,
    }
}

/// The commit a stopped interactive rebase halted on, whose subject the
/// status shows.
pub fn stopped_commit(f: &RebaseFiles) -> (r: Option<String>)
    ensures
        f.merge_dir ==> opt_view(r) == file_value(f.stopped_sha),
        !f.merge_dir ==> r is None,
{
    if f.merge_dir {
        file_value_exec(&f.stopped_sha)
    } else {
        None
    }
}

/// The idle status: no rebase.
pub fn idle_rebase_status() -> (r: FullRebaseStatus)
    ensures
        r.status == RebaseStatus::Idle,
        r.step is None && r.onto_branch is None && r.upstream_branch is None,
{
    FullRebaseStatus { status: RebaseStatus::Idle, step: None, onto_branch: None, upstream_branch: None }
}

/// The status of a rebase: idle without markers; otherwise conflicted or in
/// progress, with the step counters, stopped commit and branches that the
/// metadata of the merge form gives (counters only for the apply form).
/// `subject` is the stopped commit's subject line, where it could be read.
pub fn full_rebase_status(f: &RebaseFiles, conflicted: bool, subject: Option<String>) -> (r: FullRebaseStatus)
    ensures
        !rebase_in_progress(*f) ==> r.status == RebaseStatus::Idle && r.step is None
            && r.onto_branch is None && r.upstream_branch is None,
        rebase_in_progress(*f) ==> r.status == (if conflicted {
            RebaseStatus::Conflicted
        } else {
            RebaseStatus::InProgress
        }),
        rebase_in_progress(*f) && f.merge_dir ==> (r.step matches Some(st) && {
            &&& st.current as nat == counter_value(f.msg_num)
            &&& st.total as nat == counter_value(f.end)
            &&& st.commit_hash@ == (match file_value(f.stopped_sha) {
                Some(h) => h,
                None => Seq::empty(),
            })
            &&& st.commit_message@ == (match (file_value(f.stopped_sha), subject) {
                (Some(_), Some(s)) => trim(s@),
                _ => Seq::empty(),
            })
            &&& opt_view(r.onto_branch) == file_value(f.onto)
            &&& opt_view(r.upstream_branch) == match file_value(f.head_name) {
                Some(v) => local_branch(v),
                None => None,
            }
        }),
        rebase_in_progress(*f) && !f.merge_dir && f.apply_dir ==> (r.step matches Some(st) && {
            &&& st.current as nat == counter_value(f.next)
            &&& st.total as nat == counter_value(f.last)
            &&& st.commit_hash@.len() == 0 && st.commit_message@.len() == 0
            &&& r.onto_branch is None && r.upstream_branch is None
        }),
        rebase_in_progress(*f) && !f.merge_dir && !f.apply_dir ==> r.step is None
            && r.onto_branch is None && r.upstream_branch is None,
{
    if !is_rebase_in_progress(f) {
        return idle_rebase_status();
    }
    let status = if conflicted {
        RebaseStatus::Conflicted
    } else {
        RebaseStatus::InProgress
    };
    if f.merge_dir {
        let current = counter_value_exec(&f.msg_num);
        let total = counter_value_exec(&f.end);
        let hash = file_value_exec(&f.stopped_sha);
        let (commit_hash, commit_message) = match hash {
            Some(h) => {
                let m = match subject {
                    Some(s) => {
                        let cs = chars_of(s.as_str());
                        let t = trim_chars(cs.as_slice());
                        string_of(t.as_slice())
                    },
                    None => String::new(),
                };
                (h, m)
            },
            None => (String::new(), String::new()),
        };
        let onto_branch = file_value_exec(&f.onto);
        let upstream_branch = match file_value_exec(&f.head_name) {
            Some(v) => {
                let cs = chars_of(v.as_str());
                if starts_with(cs.as_slice(), "refs/heads/") {
                    let n = chars_of("refs/heads/").len();
                    let rest = slice_vec(cs.as_slice(), n, cs.len());
                    proof {
                        assert(rest@ =~= v@.skip("refs/heads/"@.len() as int));
                    }
                    Some(string_of(rest.as_slice()))
                } else {
                    None
                }
            },
            None => None,
        };
        FullRebaseStatus {
            status,
            step: Some(RebaseStepInfo { current, total, commit_hash, commit_message }),
            onto_branch,
            upstream_branch,
        }
    } else if f.apply_dir {
        let current = counter_value_exec(&f.next);
        let total = counter_value_exec(&f.last);
        FullRebaseStatus {
            status,
            step: Some(
                RebaseStepInfo { current, total, commit_hash: String::new(), commit_message: String::new() },
            ),
            onto_branch: None,
            upstream_branch: None,
        }
    } else {
        FullRebaseStatus { status, step: None, onto_branch: None, upstream_branch: None }
    }
}

} // verus!
