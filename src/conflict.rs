//! Conflict detection: which paths porcelain status reports as unmerged,
//! which operation the repository metadata markers say is in progress, and
//! the probe that gathers the operation's details one command at a time.

use vstd::prelude::*;
use crate::text::{
    is_ws, skip_ws_from, trim_end_at, chars_of, has_prefix, lines_of, seq_views, slice_vec, split_lines, starts_with,
    string_of, trim, trim_chars,
};

verus! {

// ---------------------------------------------------------------------------
// Porcelain status
// ---------------------------------------------------------------------------

/// The two-letter porcelain codes of an unmerged path.
pub open spec fn unmerged_code(c: Seq<char>) -> bool {
    ||| c == seq!['D', 'D']
    ||| c == seq!['A', 'U']
    ||| c == seq!['U', 'D']
    ||| c == seq!['U', 'A']
    ||| c == seq!['D', 'U']
    ||| c == seq!['A', 'A']
    ||| c == seq!['U', 'U']
}

pub fn is_unmerged_status(status: &[char]) -> (r: bool)
    ensures
        r == unmerged_code(status@),
{
    if status.len() != 2 {
        proof {
            assert(status@.len() != 2);
        }
        return false;
    }
    let (a, b) = (status[0], status[1]);
    let r = (a == 'D' && b == 'D') || (a == 'A' && b == 'U') || (a == 'U' && b == 'D') || (a == 'U'
        && b == 'A') || (a == 'D' && b == 'U') || (a == 'A' && b == 'A') || (a == 'U' && b == 'U');
    proof {
        assert(status@ =~= seq![a, b]);
    }
    r
}

/// A path with one pair of surrounding double quotes taken off.
pub open spec fn unquote(p: Seq<char>) -> Seq<char> {
    if p.len() >= 2 && p[0] == '"' && p.last() == '"' {
        p.subrange(1, p.len() - 1)
    } else {
        p
    }
}

/// The path of a porcelain line: what follows the code and its space,
/// trimmed and unquoted; none for a short line or an empty path.
pub open spec fn status_path(line: Seq<char>) -> Option<Seq<char>> {
    if line.len() < 4 {
        None
    } else {
        let p = unquote(trim(line.subrange(3, line.len() as int)));
        if p.len() == 0 {
            None
        } else {
            Some(p)
        }
    }
}

pub fn unquote_chars(p: Vec<char>) -> (r: Vec<char>)
    ensures
        r@ == unquote(p@),
{
    if p.len() >= 2 && p[0] == '"' && p[p.len() - 1] == '"' {
        slice_vec(p.as_slice(), 1, p.len() - 1)
    } else {
        p
    }
}

pub fn parse_status_path(line: &[char]) -> (r: Option<String>)
    ensures
        r is None <==> status_path(line@) is None,
        r is Some ==> r.unwrap()@ == status_path(line@).unwrap(),
{
    if line.len() < 4 {
        return None;
    }
    let rest = slice_vec(line, 3, line.len());
    let t = trim_chars(rest.as_slice());
    let p = unquote_chars(t);
    if p.len() == 0 {
        None
    } else {
        Some(string_of(p.as_slice()))
    }
}

/// One porcelain line: an unmerged path not seen before is added.
pub open spec fn conflict_step(acc: Seq<Seq<char>>, l: Seq<char>) -> Seq<Seq<char>> {
    if l.len() >= 2 && unmerged_code(l.take(2)) {
        match status_path(l) {
            Some(p) => if acc.contains(p) {
                acc
            } else {
                acc.push(p)
            },
            None => acc,
        }
    } else {
        acc
    }
}

pub open spec fn conflict_fold(lines: Seq<Seq<char>>, n: int) -> Seq<Seq<char>>
    decreases n,
{
    if n <= 0 {
        Seq::empty()
    } else {
        conflict_step(conflict_fold(lines, n - 1), lines[n - 1])
    }
}

/// The unmerged paths of a porcelain status, each once, in order of first mention.
pub open spec fn conflict_paths_of(s: Seq<char>) -> Seq<Seq<char>> {
    conflict_fold(lines_of(s), lines_of(s).len() as int)
}

pub open spec fn string_seq_views(v: Seq<String>) -> Seq<Seq<char>> {
    v.map_values(|s: String| s@)
}

fn contains_string(v: &Vec<String>, s: &String) -> (r: bool)
    ensures
        r == string_seq_views(v@).contains(s@),
{
    let mut i: usize = 0;
    while i < v.len()
        invariant
            i <= v@.len(),
            forall|j: int| 0 <= j < i ==> string_seq_views(v@)[j] != s@,
        decreases v@.len() - i,
    {
        if v[i] == *s {
            proof {
                assert(string_seq_views(v@)[i as int] == s@);
            }
            return true;
        }
        i = i + 1;
    }
    false
}

/// The unmerged paths that porcelain status output reports, each once, in
/// order of first mention.
pub fn collect_conflict_paths(porcelain_status: &str) -> (r: Vec<String>)
    ensures
        string_seq_views(r@) == conflict_paths_of(porcelain_status@),
{
    let cs = chars_of(porcelain_status);
    let lines = split_lines(cs.as_slice());
    let ghost ls = lines_of(porcelain_status@);
    let mut paths: Vec<String> = Vec::new();
    let mut i: usize = 0;
    proof {
        assert(string_seq_views(paths@) =~= Seq::empty());
    }
    while i < lines.len()
        invariant
            i <= lines@.len(),
            seq_views(lines@) == ls,
            string_seq_views(paths@) == conflict_fold(ls, i as int),
        decreases lines@.len() - i,
    {
        let line = lines[i].as_slice();
        proof {
            assert(ls[i as int] == line@);
        }
        if line.len() >= 2 {
            let code = slice_vec(line, 0, 2);
            proof {
                assert(code@ =~= line@.take(2));
            }
            if is_unmerged_status(code.as_slice()) {
                match parse_status_path(line) {
                    Some(p) => {
                        if !contains_string(&paths, &p) {
                            proof {
                                assert(string_seq_views(paths@.push(p)) =~= string_seq_views(paths@).push(p@));
                            }
                            paths.push(p);
                        }
                    },
                    None => {},
                }
            }
        }
        i = i + 1;
    }
    paths
}

// ---------------------------------------------------------------------------
// Operation markers
// ---------------------------------------------------------------------------

/// Which metadata markers exist in the repository's `.git` directory.
#[derive(Debug, Clone, Copy, PartialEq, Eq, Structural)]
pub struct OperationMarkers {
    pub merge_head: bool,
    pub rebase_head: bool,
    pub rebase_merge_dir: bool,
    pub rebase_apply_dir: bool,
    pub cherry_pick_head: bool,
    pub revert_head: bool,
}

/// The operations in progress.
#[derive(Debug, Clone, Copy, PartialEq, Eq, Structural)]
pub struct OperationFlags {
    pub is_merging: bool,
    pub is_rebasing: bool,
    pub is_cherry_picking: bool,
    pub is_reverting: bool,
}

/// The marker paths, relative to the `.git` directory, that the flags are
/// read from.
pub const MERGE_HEAD_MARKER: &'static str = "MERGE_HEAD";
pub const REBASE_HEAD_MARKER: &'static str = "REBASE_HEAD";
pub const REBASE_MERGE_MARKER: &'static str = "rebase-merge";
pub const REBASE_APPLY_MARKER: &'static str = "rebase-apply";
pub const CHERRY_PICK_HEAD_MARKER: &'static str = "CHERRY_PICK_HEAD";
pub const REVERT_HEAD_MARKER: &'static str = "REVERT_HEAD";

/// A merge is in progress when `MERGE_HEAD` exists; a rebase when
/// `REBASE_HEAD`, `rebase-merge` or `rebase-apply` does; a cherry-pick and a
/// revert when their head files do.
pub fn detect_operation_flags(m: OperationMarkers) -> (r: OperationFlags)
    ensures
        r.is_merging == m.merge_head,
        r.is_rebasing == (m.rebase_head || m.rebase_merge_dir || m.rebase_apply_dir),
        r.is_cherry_picking == m.cherry_pick_head,
        r.is_reverting == m.revert_head,
{
    OperationFlags {
        is_merging: m.merge_head,
        is_rebasing: m.rebase_head || m.rebase_merge_dir || m.rebase_apply_dir,
        is_cherry_picking: m.cherry_pick_head,
        is_reverting: m.revert_head,
    }
}

pub open spec fn any_operation(f: OperationFlags) -> bool {
    f.is_merging || f.is_rebasing || f.is_cherry_picking || f.is_reverting
}

} // verus!

verus! {

// ---------------------------------------------------------------------------
// The operation probe
// ---------------------------------------------------------------------------

/// The state of an in-progress operation as reported to the front end.
#[derive(Debug, Clone, PartialEq, Eq)]
pub struct GitOperationState {
    pub is_merging: bool,
    pub is_rebasing: bool,
    pub is_cherry_picking: bool,
    pub is_reverting: bool,
    pub has_conflicts: bool,
    pub conflict_paths: Vec<String>,
    pub ours_commit: Option<String>,
    pub ours_branch: Option<String>,
    pub theirs_commit: Option<String>,
    pub theirs_branch: Option<String>,
}

#[derive(Debug, Clone, Copy, PartialEq, Eq, Structural)]
pub enum ProbePhase {
    AwaitStatus,
    AwaitOursCommit,
    AwaitOursBranch,
    AwaitTheirsHead,
    AwaitTheirsCommit,
    AwaitBranchFile,
    Done,
}

/// What the probe asks its driver to do next. `RunGit` is run in the
/// repository and answered with its stdout (or the failure text);
/// `ReadFile` names a file under `.git` and is answered with its content
/// (or a failure).
#[derive(Debug, Clone, PartialEq, Eq)]
pub enum ProbeRequest {
    RunGit(Vec<String>),
    ReadFile(String),
    Finished(GitOperationState),
    Failed(String),
}

/// Gathers an operation's state: status first, then the "ours" commit and
/// branch, then the "theirs" commit and branch from the operation's files.
#[derive(Debug, Clone, PartialEq, Eq)]
pub struct OperationProbe {
    pub flags: OperationFlags,
    pub phase: ProbePhase,
    pub conflict_paths: Vec<String>,
    pub ours_commit: Option<String>,
    pub ours_branch: Option<String>,
    pub theirs_commit: Option<String>,
    pub theirs_branch: Option<String>,
}

pub struct StateView {
    pub flags: OperationFlags,
    pub has_conflicts: bool,
    pub conflict_paths: Seq<Seq<char>>,
    pub ours_commit: Option<Seq<char>>,
    pub ours_branch: Option<Seq<char>>,
    pub theirs_commit: Option<Seq<char>>,
    pub theirs_branch: Option<Seq<char>>,
}

pub struct ProbeView {
    pub flags: OperationFlags,
    pub phase: ProbePhase,
    pub paths: Seq<Seq<char>>,
    pub ours_commit: Option<Seq<char>>,
    pub ours_branch: Option<Seq<char>>,
    pub theirs_commit: Option<Seq<char>>,
    pub theirs_branch: Option<Seq<char>>,
}

pub enum RequestView {
    RunGit(Seq<Seq<char>>),
    ReadFile(Seq<char>),
    Finished(StateView),
    Failed(Seq<char>),
}

pub open spec fn opt_view(o: Option<String>) -> Option<Seq<char>> {
    match o {
        Some(s) => Some(s@),
        None => None,
    }
}

impl View for GitOperationState {
    type V = StateView;

    open spec fn view(&self) -> StateView {
        StateView {
            flags: OperationFlags {
                is_merging: self.is_merging,
                is_rebasing: self.is_rebasing,
                is_cherry_picking: self.is_cherry_picking,
                is_reverting: self.is_reverting,
            },
            has_conflicts: self.has_conflicts,
            conflict_paths: string_seq_views(self.conflict_paths@),
            ours_commit: opt_view(self.ours_commit),
            ours_branch: opt_view(self.ours_branch),
            theirs_commit: opt_view(self.theirs_commit),
            theirs_branch: opt_view(self.theirs_branch),
        }
    }
}

impl View for OperationProbe {
    type V = ProbeView;

    open spec fn view(&self) -> ProbeView {
        ProbeView {
            flags: self.flags,
            phase: self.phase,
            paths: string_seq_views(self.conflict_paths@),
            ours_commit: opt_view(self.ours_commit),
            ours_branch: opt_view(self.ours_branch),
            theirs_commit: opt_view(self.theirs_commit),
            theirs_branch: opt_view(self.theirs_branch),
        }
    }
}

impl View for ProbeRequest {
    type V = RequestView;

    open spec fn view(&self) -> RequestView {
        match self {
            ProbeRequest::RunGit(args) => RequestView::RunGit(string_seq_views(args@)),
            ProbeRequest::ReadFile(name) => RequestView::ReadFile(name@),
            ProbeRequest::Finished(s) => RequestView::Finished(s@),
            ProbeRequest::Failed(e) => RequestView::Failed(e@),
        }
    }
}

pub open spec fn reply_view(r: Result<String, String>) -> Result<Seq<char>, Seq<char>> {
    match r {
        Ok(s) => Ok(s@),
        Err(e) => Err(e@),
    }
}

/// A successful reply trimmed, where anything is left.
pub open spec fn reply_value(r: Result<Seq<char>, Seq<char>>) -> Option<Seq<char>> {
    match r {
        Ok(s) => if trim(s).len() > 0 {
            Some(trim(s))
        } else {
            None
        },
        Err(_) => None,
    }
}

/// A branch name: as `reply_value`, but a detached "HEAD" is no branch.
pub open spec fn branch_value(r: Result<Seq<char>, Seq<char>>) -> Option<Seq<char>> {
    match reply_value(r) {
        Some(b) => if b == "HEAD"@ {
            None
        } else {
            Some(b)
        },
        None => None,
    }
}

/// The file holding the commit being applied, by operation.
pub open spec fn theirs_head_file(f: OperationFlags) -> Option<Seq<char>> {
    if f.is_merging {
        Some("MERGE_HEAD"@)
    } else if f.is_rebasing {
        Some("REBASE_HEAD"@)
    } else if f.is_cherry_picking {
        Some("CHERRY_PICK_HEAD"@)
    } else if f.is_reverting {
        Some("REVERT_HEAD"@)
    } else {
        None
    }
}

/// The file naming the incoming branch: the merge message, or the branch a
/// rebase works on.
pub open spec fn branch_file(f: OperationFlags) -> Option<Seq<char>> {
    if f.is_merging {
        Some("MERGE_MSG"@)
    } else if f.is_rebasing {
        Some("rebase-merge/head-name"@)
    } else {
        None
    }
}

/// The branch quoted in "Merge branch '<b>'..." or "Merge remote-tracking
/// branch '<b>'...".
pub open spec fn merge_branch_from_msg(msg: Seq<char>) -> Option<Seq<char>> {
    let a = "Merge branch '"@;
    let b = "Merge remote-tracking branch '"@;
    if has_prefix(msg, a) && crate::text::index_of(msg.skip(a.len() as int), '\'') < msg.len() - a.len() {
        Some(msg.skip(a.len() as int).take(crate::text::index_of(msg.skip(a.len() as int), '\'')))
    } else if has_prefix(msg, b) && crate::text::index_of(msg.skip(b.len() as int), '\'') < msg.len()
        - b.len() {
        Some(msg.skip(b.len() as int).take(crate::text::index_of(msg.skip(b.len() as int), '\'')))
    } else {
        None
    }
}

/// The branch of a `refs/heads/<b>` reference.
pub open spec fn local_branch(r: Seq<char>) -> Option<Seq<char>> {
    if has_prefix(r, "refs/heads/"@) {
        Some(r.skip("refs/heads/"@.len() as int))
    } else {
        None
    }
}

pub open spec fn finished_state(p: ProbeView) -> StateView {
    StateView {
        flags: p.flags,
        has_conflicts: p.paths.len() > 0,
        conflict_paths: p.paths,
        ours_commit: p.ours_commit,
        ours_branch: p.ours_branch,
        theirs_commit: p.theirs_commit,
        theirs_branch: p.theirs_branch,
    }
}

pub open spec fn finish_probe(p: ProbeView) -> (ProbeView, RequestView) {
    let q = ProbeView { phase: ProbePhase::Done, ..p };
    (q, RequestView::Finished(finished_state(q)))
}

pub open spec fn after_ours_branch(p: ProbeView) -> (ProbeView, RequestView) {
    match theirs_head_file(p.flags) {
        Some(name) => (ProbeView { phase: ProbePhase::AwaitTheirsHead, ..p }, RequestView::ReadFile(name)),
        None => finish_probe(p),
    }
}

pub open spec fn after_theirs_commit(p: ProbeView) -> (ProbeView, RequestView) {
    match branch_file(p.flags) {
        Some(name) => (ProbeView { phase: ProbePhase::AwaitBranchFile, ..p }, RequestView::ReadFile(name)),
        None => finish_probe(p),
    }
}

pub open spec fn probe_initial(flags: OperationFlags) -> ProbeView {
    ProbeView {
        flags,
        phase: ProbePhase::AwaitStatus,
        paths: Seq::empty(),
        ours_commit: None,
        ours_branch: None,
        theirs_commit: None,
        theirs_branch: None,
    }
}

/// With no operation in progress the probe is done at once; otherwise it
/// first asks for porcelain status.
pub open spec fn probe_start(flags: OperationFlags) -> (ProbeView, RequestView) {
    if !any_operation(flags) {
        finish_probe(probe_initial(flags))
    } else {
        (probe_initial(flags), RequestView::RunGit(seq!["status"@, "--porcelain"@]))
    }
}

/// One reply handled. A failed status ends the probe with that failure; a
/// failed metadata command or file only leaves its field empty.
pub open spec fn probe_advance(p: ProbeView, reply: Result<Seq<char>, Seq<char>>) -> (ProbeView, RequestView) {
    match p.phase {
        ProbePhase::AwaitStatus => match reply {
            Err(e) => (ProbeView { phase: ProbePhase::Done, ..p }, RequestView::Failed(e)),
            Ok(out) => (
                ProbeView { phase: ProbePhase::AwaitOursCommit, paths: conflict_paths_of(out), ..p },
                RequestView::RunGit(seq!["rev-parse"@, "--short"@, "HEAD"@]),
            ),
        },
        ProbePhase::AwaitOursCommit => (
            ProbeView { phase: ProbePhase::AwaitOursBranch, ours_commit: reply_value(reply), ..p },
            RequestView::RunGit(seq!["rev-parse"@, "--abbrev-ref"@, "HEAD"@]),
        ),
        ProbePhase::AwaitOursBranch => after_ours_branch(ProbeView { ours_branch: branch_value(reply), ..p }),
        ProbePhase::AwaitTheirsHead => match reply_value(reply) {
            Some(h) => (
                ProbeView { phase: ProbePhase::AwaitTheirsCommit, ..p },
                RequestView::RunGit(seq!["rev-parse"@, "--short"@, h]),
            ),
            None => after_theirs_commit(p),
        },
        ProbePhase::AwaitTheirsCommit => after_theirs_commit(
            ProbeView { theirs_commit: reply_value(reply), ..p },
        ),
        ProbePhase::AwaitBranchFile => {
            let b = match reply_value(reply) {
                Some(v) => if p.flags.is_merging {
                    merge_branch_from_msg(v)
                } else {
                    local_branch(v)
                },
                None => None,
            };
            finish_probe(ProbeView { theirs_branch: b, ..p })
        },
        ProbePhase::Done => finish_probe(p),
    }
}

/// With no merge, rebase, cherry-pick or revert marker present, the probe
/// reports the idle state (no operation, no conflicts, no commits or
/// branches) and asks for no command at all.
pub proof fn lemma_idle_without_markers(m: OperationMarkers, f: OperationFlags)
    requires
        !m.merge_head && !m.rebase_head && !m.rebase_merge_dir && !m.rebase_apply_dir
            && !m.cherry_pick_head && !m.revert_head,
        f.is_merging == m.merge_head,
        f.is_rebasing == (m.rebase_head || m.rebase_merge_dir || m.rebase_apply_dir),
        f.is_cherry_picking == m.cherry_pick_head,
        f.is_reverting == m.revert_head,
    ensures
        probe_start(f).1 matches RequestView::Finished(s) && {
            &&& !s.flags.is_merging && !s.flags.is_rebasing && !s.flags.is_cherry_picking
                && !s.flags.is_reverting
            &&& !s.has_conflicts && s.conflict_paths.len() == 0
            &&& s.ours_commit is None && s.ours_branch is None
            &&& s.theirs_commit is None && s.theirs_branch is None
        },
{
}

} // verus!

verus! {

fn clone_strings(v: &Vec<String>) -> (r: Vec<String>)
    ensures
        string_seq_views(r@) == string_seq_views(v@),
{
    let mut r: Vec<String> = Vec::new();
    let mut i: usize = 0;
    while i < v.len()
        invariant
            i <= v@.len(),
            string_seq_views(r@) == string_seq_views(v@).take(i as int),
        decreases v@.len() - i,
    {
        let s = v[i].clone();
        proof {
            assert(s@ == string_seq_views(v@)[i as int]);
            assert(string_seq_views(r@.push(s)) =~= string_seq_views(r@).push(s@));
            assert(string_seq_views(v@).take(i + 1) =~= string_seq_views(v@).take(i as int).push(s@));
        }
        r.push(s);
        i = i + 1;
    }
    proof {
        assert(string_seq_views(v@).take(v@.len() as int) =~= string_seq_views(v@));
    }
    r
}

fn clone_opt(o: &Option<String>) -> (r: Option<String>)
    ensures
        opt_view(r) == opt_view(*o),
{
    match o {
        Some(s) => Some(s.clone()),
        None => None,
    }
}

fn strings2(a: &str, b: &str) -> (r: Vec<String>)
    ensures
        string_seq_views(r@) == seq![a@, b@],
{
    let r = vec![a.to_string(), b.to_string()];
    proof {
        assert(string_seq_views(r@) =~= seq![a@, b@]);
    }
    r
}

fn strings3(a: &str, b: &str, c: &str) -> (r: Vec<String>)
    ensures
        string_seq_views(r@) == seq![a@, b@, c@],
{
    let r = vec![a.to_string(), b.to_string(), c.to_string()];
    proof {
        assert(string_seq_views(r@) =~= seq![a@, b@, c@]);
    }
    r
}

fn reply_value_exec(reply: &Result<String, String>) -> (r: Option<String>)
    ensures
        opt_view(r) == reply_value(reply_view(*reply)),
{
    match reply {
        Ok(s) => {
            let cs = chars_of(s.as_str());
            let t = trim_chars(cs.as_slice());
            if t.len() > 0 {
                Some(string_of(t.as_slice()))
            } else {
                None
            }
        },
        Err(_) => None,
    }
}

fn branch_value_exec(reply: &Result<String, String>) -> (r: Option<String>)
    ensures
        opt_view(r) == branch_value(reply_view(*reply)),
{
    match reply_value_exec(reply) {
        Some(b) => {
            let head = "HEAD".to_string();
            if b == head {
                None
            } else {
                Some(b)
            }
        },
        None => None,
    }
}

fn text_after_prefix(cs: &[char], prefix: &str) -> (r: Option<Vec<char>>)
    ensures
        r is Some <==> has_prefix(cs@, prefix@),
        r is Some ==> r.unwrap()@ == cs@.skip(prefix@.len() as int),
{
    if starts_with(cs, prefix) {
        let n = chars_of(prefix).len();
        let rest = slice_vec(cs, n, cs.len());
        proof {
            assert(rest@ =~= cs@.skip(prefix@.len() as int));
        }
        Some(rest)
    } else {
        None
    }
}

fn quoted_prefix(rest: &[char]) -> (r: Option<String>)
    ensures
        r is Some <==> crate::text::index_of(rest@, '\'') < rest@.len(),
        r is Some ==> r.unwrap()@ == rest@.take(crate::text::index_of(rest@, '\'')),
{
    let end = crate::text::find_char(rest, '\'');
    if end < rest.len() {
        let head = slice_vec(rest, 0, end);
        proof {
            assert(head@ =~= rest@.take(end as int));
        }
        Some(string_of(head.as_slice()))
    } else {
        None
    }
}

/// The branch a merge message names (see `merge_branch_from_msg`).
pub fn parse_merge_branch_from_msg(msg: &str) -> (r: Option<String>)
    ensures
        opt_view(r) == merge_branch_from_msg(msg@),
{
    let cs = chars_of(msg);
    match text_after_prefix(cs.as_slice(), "Merge branch '") {
        Some(rest) => {
            let r = quoted_prefix(rest.as_slice());
            if r.is_some() {
                return r;
            }
        },
        None => {},
    }
    match text_after_prefix(cs.as_slice(), "Merge remote-tracking branch '") {
        Some(rest) => {
            proof {
                assert(!has_prefix(msg@, "Merge branch '"@) || crate::text::index_of(
                    msg@.skip("Merge branch '"@.len() as int),
                    '\'',
                ) >= msg@.len() - "Merge branch '"@.len());
            }
            quoted_prefix(rest.as_slice())
        },
        None => None,
    }
}

fn local_branch_exec(r: &String) -> (b: Option<String>)
    ensures
        opt_view(b) == local_branch(r@),
{
    let cs = chars_of(r.as_str());
    match text_after_prefix(cs.as_slice(), "refs/heads/") {
        Some(rest) => Some(string_of(rest.as_slice())),
        None => None,
    }
}

fn theirs_head_file_exec(f: OperationFlags) -> (r: Option<String>)
    ensures
        opt_view(r) == theirs_head_file(f),
{
    if f.is_merging {
        Some("MERGE_HEAD".to_string())
    } else if f.is_rebasing {
        Some("REBASE_HEAD".to_string())
    } else if f.is_cherry_picking {
        Some("CHERRY_PICK_HEAD".to_string())
    } else if f.is_reverting {
        Some("REVERT_HEAD".to_string())
    } else {
        None
    }
}

fn branch_file_exec(f: OperationFlags) -> (r: Option<String>)
    ensures
        opt_view(r) == branch_file(f),
{
    if f.is_merging {
        Some("MERGE_MSG".to_string())
    } else if f.is_rebasing {
        Some("rebase-merge/head-name".to_string())
    } else {
        None
    }
}

impl OperationProbe {
    fn finish(self) -> (r: (OperationProbe, ProbeRequest))
        ensures
            (r.0@, r.1@) == finish_probe(self@),
    {
        let state = GitOperationState {
            is_merging: self.flags.is_merging,
            is_rebasing: self.flags.is_rebasing,
            is_cherry_picking: self.flags.is_cherry_picking,
            is_reverting: self.flags.is_reverting,
            has_conflicts: self.conflict_paths.len() > 0,
            conflict_paths: clone_strings(&self.conflict_paths),
            ours_commit: clone_opt(&self.ours_commit),
            ours_branch: clone_opt(&self.ours_branch),
            theirs_commit: clone_opt(&self.theirs_commit),
            theirs_branch: clone_opt(&self.theirs_branch),
        };
        (OperationProbe { phase: ProbePhase::Done, ..self }, ProbeRequest::Finished(state))
    }

    fn after_ours_branch(self) -> (r: (OperationProbe, ProbeRequest))
        ensures
            (r.0@, r.1@) == after_ours_branch(self@),
    {
        match theirs_head_file_exec(self.flags) {
            Some(name) => (OperationProbe { phase: ProbePhase::AwaitTheirsHead, ..self }, ProbeRequest::ReadFile(name)),
            None => self.finish(),
        }
    }

    fn after_theirs_commit(self) -> (r: (OperationProbe, ProbeRequest))
        ensures
            (r.0@, r.1@) == after_theirs_commit(self@),
    {
        match branch_file_exec(self.flags) {
            Some(name) => (OperationProbe { phase: ProbePhase::AwaitBranchFile, ..self }, ProbeRequest::ReadFile(name)),
            None => self.finish(),
        }
    }

    /// Starts a probe for the operations that the markers show.
    pub fn start(flags: OperationFlags) -> (r: (OperationProbe, ProbeRequest))
        ensures
            (r.0@, r.1@) == probe_start(flags),
    {
        let p = OperationProbe {
            flags,
            phase: ProbePhase::AwaitStatus,
            conflict_paths: Vec::new(),
            ours_commit: None,
            ours_branch: None,
            theirs_commit: None,
            theirs_branch: None,
        };
        proof {
            assert(string_seq_views(p.conflict_paths@) =~= Seq::empty());
        }
        if !(flags.is_merging || flags.is_rebasing || flags.is_cherry_picking || flags.is_reverting) {
            return p.finish();
        }
        (p, ProbeRequest::RunGit(strings2("status", "--porcelain")))
    }

    fn on_status(self, reply: Result<String, String>) -> (r: (OperationProbe, ProbeRequest))
        requires
            self.phase == ProbePhase::AwaitStatus,
        ensures
            (r.0@, r.1@) == probe_advance(self@, reply_view(reply)),
    {
        match reply {
            Err(e) => (OperationProbe { phase: ProbePhase::Done, ..self }, ProbeRequest::Failed(e)),
            Ok(out) => {
                let paths = collect_conflict_paths(out.as_str());
                (
                    OperationProbe { phase: ProbePhase::AwaitOursCommit, conflict_paths: paths, ..self },
                    ProbeRequest::RunGit(strings3("rev-parse", "--short", "HEAD")),
                )
            },
        }
    }

    fn on_theirs_head(self, reply: Result<String, String>) -> (r: (OperationProbe, ProbeRequest))
        requires
            self.phase == ProbePhase::AwaitTheirsHead,
        ensures
            (r.0@, r.1@) == probe_advance(self@, reply_view(reply)),
    {
        match reply_value_exec(&reply) {
            Some(h) => {
                let mut args = strings2("rev-parse", "--short");
                let ghost before = args@;
                args.push(h);
                proof {
                    assert(string_seq_views(args@) =~= string_seq_views(before).push(h@));
                    assert(string_seq_views(args@) =~= seq!["rev-parse"@, "--short"@, h@]);
                }
                (OperationProbe { phase: ProbePhase::AwaitTheirsCommit, ..self }, ProbeRequest::RunGit(args))
            },
            None => self.after_theirs_commit(),
        }
    }

    fn on_branch_file(self, reply: Result<String, String>) -> (r: (OperationProbe, ProbeRequest))
        requires
            self.phase == ProbePhase::AwaitBranchFile,
        ensures
            (r.0@, r.1@) == probe_advance(self@, reply_view(reply)),
    {
        let b = match reply_value_exec(&reply) {
            Some(v) => if self.flags.is_merging {
                parse_merge_branch_from_msg(v.as_str())
            } else {
                local_branch_exec(&v)
            },
            None => None,
        };
        OperationProbe { theirs_branch: b, ..self }.finish()
    }

    /// Hands the probe the reply to its last request and gets the next one.
    pub fn advance(self, reply: Result<String, String>) -> (r: (OperationProbe, ProbeRequest))
        ensures
            (r.0@, r.1@) == probe_advance(self@, reply_view(reply)),
    {
        let phase = self.phase;
        if phase == ProbePhase::AwaitStatus {
            self.on_status(reply)
        } else if phase == ProbePhase::AwaitOursCommit {
            let v = reply_value_exec(&reply);
            (
                OperationProbe { phase: ProbePhase::AwaitOursBranch, ours_commit: v, ..self },
                ProbeRequest::RunGit(strings3("rev-parse", "--abbrev-ref", "HEAD")),
            )
        } else if phase == ProbePhase::AwaitOursBranch {
            let b = branch_value_exec(&reply);
            OperationProbe { ours_branch: b, ..self }.after_ours_branch()
        } else if phase == ProbePhase::AwaitTheirsHead {
            self.on_theirs_head(reply)
        } else if phase == ProbePhase::AwaitTheirsCommit {
            let v = reply_value_exec(&reply);
            OperationProbe { theirs_commit: v, ..self }.after_theirs_commit()
        } else if phase == ProbePhase::AwaitBranchFile {
            self.on_branch_file(reply)
        } else {
            self.finish()
        }
    }
}

/// Whether porcelain status reports any unmerged path.
pub fn has_conflicts_in(porcelain_status: &str) -> (r: bool)
    ensures
        r == (conflict_paths_of(porcelain_status@).len() > 0),
{
    collect_conflict_paths(porcelain_status).len() > 0
}

} // verus!

verus! {

// ---------------------------------------------------------------------------
// The stages of one conflicted path
// ---------------------------------------------------------------------------

/// The stage numbers that `ls-files -u -- <path>` lists: the third field of
/// each `<mode> <object> <stage>\t<path>` line that has one.
pub open spec fn stage_fold(ls: Seq<Seq<char>>, n: int) -> Seq<Seq<char>>
    decreases n,
{
    if n <= 0 {
        Seq::empty()
    } else {
        let w = crate::text::words_of(ls[n - 1]);
        if w.len() >= 3 {
            stage_fold(ls, n - 1).push(w[2])
        } else {
            stage_fold(ls, n - 1)
        }
    }
}

/// Which of the three merge stages the index holds for a path.
#[derive(Debug, Clone, Copy, PartialEq, Eq, Structural)]
pub struct ConflictStages {
    pub base: bool,
    pub ours: bool,
    pub theirs: bool,
}

pub fn conflict_stages(ls_files_output: &str) -> (r: ConflictStages)
    ensures
        ({
            let s = stage_fold(lines_of(ls_files_output@), lines_of(ls_files_output@).len() as int);
            &&& r.base == s.contains(seq!['1'])
            &&& r.ours == s.contains(seq!['2'])
            &&& r.theirs == s.contains(seq!['3'])
        }),
{
    let cs = chars_of(ls_files_output);
    let lines = split_lines(cs.as_slice());
    let ghost ls = lines_of(ls_files_output@);
    let mut r = ConflictStages { base: false, ours: false, theirs: false };
    let mut i: usize = 0;
    while i < lines.len()
        invariant
            i <= lines@.len(),
            seq_views(lines@) == ls,
            r.base == stage_fold(ls, i as int).contains(seq!['1']),
            r.ours == stage_fold(ls, i as int).contains(seq!['2']),
            r.theirs == stage_fold(ls, i as int).contains(seq!['3']),
        decreases lines@.len() - i,
    {
        proof {
            assert(ls[i as int] == lines@[i as int]@);
        }
        let w = crate::text::split_words(lines[i].as_slice());
        if w.len() >= 3 {
            let st = w[2].as_slice();
            let ghost prev = stage_fold(ls, i as int);
            proof {
                assert(seq_views(w@)[2] == w@[2]@);
                assert(stage_fold(ls, i + 1) == prev.push(st@));
                if st@.len() == 1 {
                    assert(st@ =~= seq![st@[0]]);
                }
                assert forall|x: Seq<char>| prev.push(st@).contains(x) <==> (prev.contains(x) || x == st@) by {
                    if prev.push(st@).contains(x) {
                        let j = choose|j: int| 0 <= j < prev.push(st@).len() && prev.push(st@)[j] == x;
                        if j < prev.len() {
                            assert(prev[j] == x);
                        }
                    }
                    if prev.contains(x) {
                        let j = choose|j: int| 0 <= j < prev.len() && prev[j] == x;
                        assert(prev.push(st@)[j] == x);
                    }
                    if x == st@ {
                        assert(prev.push(st@)[prev.len() as int] == x);
                    }
                }
            }
            let one = st.len() == 1;
            if one && st[0] == '1' {
                r.base = true;
            }
            if one && st[0] == '2' {
                r.ours = true;
            }
            if one && st[0] == '3' {
                r.theirs = true;
            }
        }
        i = i + 1;
    }
    r
}

/// The argument that shows stage `stage` of `file`: `:<stage>:<file>`.
pub fn stage_object(stage: u8, file: &str) -> (r: String)
    requires
        stage <= 3,
    ensures
        r@ == seq![':'] + crate::numeric::decimal(stage as nat) + seq![':'] + file@,
{
    let mut r = String::new();
    crate::text::push_char(&mut r, ':');
    crate::numeric::push_decimal(&mut r, stage as u64);
    crate::text::push_char(&mut r, ':');
    r.append(file);
    proof {
        assert(r@ =~= seq![':'] + crate::numeric::decimal(stage as nat) + seq![':'] + file@);
    }
    r
}

/// The three versions of a conflicted file; a stage the index lacks is
/// empty content.
pub fn conflict_file(base: Option<String>, ours: Option<String>, theirs: Option<String>) -> (r: crate::types::ConflictFile)
    ensures
        r.base@ == (match base {
            Some(s) => s@,
            None => Seq::<char>::empty(),
        }),
        r.ours@ == (match ours {
            Some(s) => s@,
            None => Seq::<char>::empty(),
        }),
        r.theirs@ == (match theirs {
            Some(s) => s@,
            None => Seq::<char>::empty(),
        }),
{
    crate::types::ConflictFile {
        base: match base {
            Some(s) => s,
            None => String::new(),
        },
        ours: match ours {
            Some(s) => s,
            None => String::new(),
        },
        theirs: match theirs {
            Some(s) => s,
            None => String::new(),
        },
    }
}

} // verus!

verus! {

pub open spec fn no_repeats(s: Seq<Seq<char>>) -> bool {
    forall|i: int, j: int| 0 <= i < j < s.len() ==> s[i] != s[j]
}

proof fn lemma_fold_no_repeats(ls: Seq<Seq<char>>, n: int)
    ensures
        no_repeats(conflict_fold(ls, n)),
    decreases n,
{
    if n > 0 {
        lemma_fold_no_repeats(ls, n - 1);
        let acc = conflict_fold(ls, n - 1);
        let l = ls[n - 1];
        if l.len() >= 2 && unmerged_code(l.take(2)) {
            if let Some(p) = status_path(l) {
                if !acc.contains(p) {
                    assert forall|i: int, j: int| 0 <= i < j < acc.push(p).len() implies acc.push(p)[i]
                        != acc.push(p)[j] by {
                        if j == acc.len() {
                            assert(acc.push(p)[j] == p);
                            assert(acc.push(p)[i] == acc[i]);
                        } else {
                            assert(acc.push(p)[i] == acc[i] && acc.push(p)[j] == acc[j]);
                        }
                    }
                }
            }
        }
    }
}

/// The conflict set lists each path once: a path already reported is not
/// added again, whatever the status says.
pub proof fn lemma_conflict_paths_unique(s: Seq<char>)
    ensures
        no_repeats(conflict_paths_of(s)),
{
    lemma_fold_no_repeats(lines_of(s), lines_of(s).len() as int);
}

} // verus!

verus! {

// ---------------------------------------------------------------------------
// Unmerged lines are always reported
// ---------------------------------------------------------------------------

proof fn lemma_fold_keeps(ls: Seq<Seq<char>>, m: int, n: int, x: Seq<char>)
    requires
        0 <= m <= n <= ls.len(),
        conflict_fold(ls, m).contains(x),
    ensures
        conflict_fold(ls, n).contains(x),
    decreases n - m,
{
    if n > m {
        lemma_fold_keeps(ls, m, n - 1, x);
        let acc = conflict_fold(ls, n - 1);
        let j = choose|j: int| 0 <= j < acc.len() && acc[j] == x;
        let l = ls[n - 1];
        if l.len() >= 2 && unmerged_code(l.take(2)) {
            if let Some(p) = status_path(l) {
                if !acc.contains(p) {
                    assert(acc.push(p)[j] == x);
                }
            }
        }
    }
}

/// Every porcelain line with an unmerged code and a path puts that path in
/// the conflict set, so the set is not empty.
pub proof fn lemma_unmerged_line_reported(s: Seq<char>, i: int)
    requires
        0 <= i < lines_of(s).len(),
        lines_of(s)[i].len() >= 2,
        unmerged_code(lines_of(s)[i].take(2)),
        status_path(lines_of(s)[i]) is Some,
    ensures
        conflict_paths_of(s).contains(status_path(lines_of(s)[i]).unwrap()),
        conflict_paths_of(s).len() > 0,
{
    let ls = lines_of(s);
    let p = status_path(ls[i]).unwrap();
    let acc = conflict_fold(ls, i);
    if acc.contains(p) {
    } else {
        assert(acc.push(p)[acc.len() as int] == p);
    }
    assert(conflict_fold(ls, i + 1).contains(p));
    lemma_fold_keeps(ls, i + 1, ls.len() as int, p);
}

/// A status holding the line "UU file.txt" reports `file.txt` as conflicted.
pub proof fn lemma_both_modified_reported(s: Seq<char>, i: int)
    requires
        0 <= i < lines_of(s).len(),
        lines_of(s)[i] == "UU file.txt"@,
    ensures
        conflict_paths_of(s).contains("file.txt"@),
        conflict_paths_of(s).len() > 0,
{
    reveal_strlit("UU file.txt");
    reveal_strlit("file.txt");
    let l = lines_of(s)[i];
    assert(l.take(2) =~= seq!['U', 'U']);
    let t = l.subrange(3, l.len() as int);
    assert(t =~= "file.txt"@);
    assert(!is_ws(t[0]));
    assert(skip_ws_from(t, 0) == 0);
    assert(!is_ws(t[7]));
    assert(trim_end_at(t, 8) == 8);
    assert(trim(t) =~= t);
    assert(status_path(l) == Some("file.txt"@));
    lemma_unmerged_line_reported(s, i);
}

/// After the status reply, the probe never changes its conflict paths, and
/// the finished state reports them, conflicted exactly when there are some.
pub proof fn lemma_probe_keeps_paths(p: ProbeView, reply: Result<Seq<char>, Seq<char>>)
    requires
        p.phase != ProbePhase::AwaitStatus,
    ensures
        probe_advance(p, reply).0.paths == p.paths,
        probe_advance(p, reply).1 matches RequestView::Finished(st) ==> st.conflict_paths == p.paths
            && st.has_conflicts == (p.paths.len() > 0),
{
}

/// The status reply sets the probe's conflict paths to those of the status.
pub proof fn lemma_probe_status_paths(p: ProbeView, out: Seq<char>)
    requires
        p.phase == ProbePhase::AwaitStatus,
    ensures
        probe_advance(p, Ok(out)).0.paths == conflict_paths_of(out),
        probe_advance(p, Ok(out)).0.phase == ProbePhase::AwaitOursCommit,
{
}

// ---------------------------------------------------------------------------
// The conflict check
// ---------------------------------------------------------------------------

/// The conflict check asks for porcelain status only while an operation is
/// in progress.
pub fn conflict_check_needs_status(flags: OperationFlags) -> (r: bool)
    ensures
        r == any_operation(flags),
{
    flags.is_merging || flags.is_rebasing || flags.is_cherry_picking || flags.is_reverting
}

/// An operation is in progress and the status reports an unmerged path.
pub fn conflict_state(flags: OperationFlags, porcelain_status: &str) -> (r: bool)
    ensures
        r == (any_operation(flags) && conflict_paths_of(porcelain_status@).len() > 0),
{
    conflict_check_needs_status(flags) && has_conflicts_in(porcelain_status)
}

/// During an operation, a status holding the line "UU file.txt" makes the
/// conflict check report a conflict.
pub proof fn lemma_conflict_check_both_modified(flags: OperationFlags, s: Seq<char>, i: int)
    requires
        any_operation(flags),
        0 <= i < lines_of(s).len(),
        lines_of(s)[i] == "UU file.txt"@,
    ensures
        any_operation(flags) && conflict_paths_of(s).len() > 0,
{
    lemma_both_modified_reported(s, i);
}

} // verus!

verus! {

/// The probe after handing it `replies` one by one, from state `p` and its
/// last request `req`.
pub open spec fn probe_run(p: ProbeView, req: RequestView, replies: Seq<Result<Seq<char>, Seq<char>>>) -> (
    ProbeView,
    RequestView,
)
    decreases replies.len(),
{
    if replies.len() == 0 {
        (p, req)
    } else {
        let (q, r) = probe_advance(p, replies[0]);
        probe_run(q, r, replies.drop_first())
    }
}

proof fn lemma_run_keeps_paths(
    p: ProbeView,
    req: RequestView,
    replies: Seq<Result<Seq<char>, Seq<char>>>,
    paths: Seq<Seq<char>>,
)
    requires
        p.phase != ProbePhase::AwaitStatus,
        p.paths == paths,
        req matches RequestView::Finished(st) ==> st.conflict_paths == paths && st.has_conflicts == (
        paths.len() > 0),
    ensures
        probe_run(p, req, replies).0.paths == paths,
        probe_run(p, req, replies).1 matches RequestView::Finished(st) ==> st.conflict_paths == paths
            && st.has_conflicts == (paths.len() > 0),
    decreases replies.len(),
{
    if replies.len() > 0 {
        lemma_probe_keeps_paths(p, replies[0]);
        let (q, r) = probe_advance(p, replies[0]);
        assert(q.phase != ProbePhase::AwaitStatus);
        lemma_run_keeps_paths(q, r, replies.drop_first(), paths);
    }
}

/// During a merge, rebase, cherry-pick or revert, a status holding the line
/// "UU file.txt" makes the operation state report `file.txt` as conflicted:
/// whatever the later replies, the probe keeps that path, and the state it
/// finishes with has conflicts and lists it.
pub proof fn lemma_operation_state_reports_both_modified(
    flags: OperationFlags,
    out: Seq<char>,
    i: int,
    replies: Seq<Result<Seq<char>, Seq<char>>>,
)
    requires
        any_operation(flags),
        0 <= i < lines_of(out).len(),
        lines_of(out)[i] == "UU file.txt"@,
    ensures
        ({
            let (p0, r0) = probe_start(flags);
            let (p1, r1) = probe_advance(p0, Ok(out));
            let (pn, rn) = probe_run(p1, r1, replies);
            &&& r0 == RequestView::RunGit(seq!["status"@, "--porcelain"@])
            &&& pn.paths.contains("file.txt"@)
            &&& (rn matches RequestView::Finished(st) ==> st.has_conflicts && st.conflict_paths.contains(
                "file.txt"@,
            ))
        }),
{
    lemma_both_modified_reported(out, i);
    let (p0, r0) = probe_start(flags);
    lemma_probe_status_paths(p0, out);
    let (p1, r1) = probe_advance(p0, Ok(out));
    lemma_run_keeps_paths(p1, r1, replies, conflict_paths_of(out));
}

} // verus!
