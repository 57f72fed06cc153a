//! Files changed by a commit, from `git diff-tree --name-status -r -m
//! --root`: one entry per path, in order of first mention, with the most
//! significant status any parent diff gave it.

use vstd::prelude::*;
use crate::text::{
    after_char, before_char, chars_of, lines_of, seq_views, split_lines, split_once_char,
    string_of, trim, trim_chars,
};
use crate::types::CommitChangedFile;

verus! {

/// A raw status column, normalized to one letter (or "??").
pub open spec fn diff_tree_status(raw: Seq<char>) -> Seq<char> {
    let s = trim(raw);
    if s == seq!['?', '?'] {
        s
    } else if s.len() > 0 && (s[0] == 'A' || s[0] == 'M' || s[0] == 'D' || s[0] == 'R' || s[0] == 'C'
        || s[0] == 'T' || s[0] == 'U') {
        seq![s[0]]
    } else {
        seq!['M']
    }
}

/// How much a status says: unmerged over deleted over added over renamed
/// over copied over modified over type change over untracked.
pub open spec fn status_rank(s: Seq<char>) -> int {
    if s == seq!['U'] {
        70
    } else if s == seq!['D'] {
        60
    } else if s == seq!['A'] {
        50
    } else if s == seq!['R'] {
        40
    } else if s == seq!['C'] {
        35
    } else if s == seq!['M'] {
        30
    } else if s == seq!['T'] {
        20
    } else if s == seq!['?', '?'] {
        10
    } else {
        0
    }
}

/// The (path, status) of one output line: tab-separated, the path the third
/// field where there is one (a rename or copy's new path), else the second.
pub open spec fn changed_entry(l: Seq<char>) -> Option<(Seq<char>, Seq<char>)> {
    let t = trim(l);
    if t.len() == 0 {
        None
    } else {
        match after_char(t, '\t') {
            None => None,
            Some(r1) => {
                let status = diff_tree_status(before_char(t, '\t'));
                let path = match after_char(r1, '\t') {
                    Some(r2) => trim(before_char(r2, '\t')),
                    None => trim(before_char(r1, '\t')),
                };
                if path.len() == 0 {
                    None
                } else {
                    Some((path, status))
                }
            },
        }
    }
}

/// The first position at or after `from` holding `path`; `acc.len()` if none.
pub open spec fn path_index_from(acc: Seq<(Seq<char>, Seq<char>)>, path: Seq<char>, from: int) -> int
    decreases acc.len() - from,
{
    if from < 0 || from >= acc.len() {
        acc.len() as int
    } else if acc[from].0 == path {
        from
    } else {
        path_index_from(acc, path, from + 1)
    }
}

pub open spec fn merge_changed(acc: Seq<(Seq<char>, Seq<char>)>, l: Seq<char>) -> Seq<(Seq<char>, Seq<char>)> {
    match changed_entry(l) {
        None => acc,
        Some((path, status)) => {
            let i = path_index_from(acc, path, 0);
            if i < acc.len() {
                if status_rank(status) > status_rank(acc[i].1) {
                    acc.update(i, (path, status))
                } else {
                    acc
                }
            } else {
                acc.push((path, status))
            }
        },
    }
}

pub open spec fn changed_fold(lines: Seq<Seq<char>>, n: int) -> Seq<(Seq<char>, Seq<char>)>
    decreases n,
{
    if n <= 0 {
        Seq::empty()
    } else {
        merge_changed(changed_fold(lines, n - 1), lines[n - 1])
    }
}

pub open spec fn changed_files_of(s: Seq<char>) -> Seq<(Seq<char>, Seq<char>)> {
    changed_fold(lines_of(s), lines_of(s).len() as int)
}

pub open spec fn changed_views(v: Seq<CommitChangedFile>) -> Seq<(Seq<char>, Seq<char>)> {
    v.map_values(|f: CommitChangedFile| (f.path@, f.status@))
}

fn diff_tree_status_exec(raw: &[char]) -> (r: Vec<char>)
    ensures
        r@ == diff_tree_status(raw@),
{
    let s = trim_chars(raw);
    if s.len() == 2 && s[0] == '?' && s[1] == '?' {
        proof {
            assert(s@ =~= seq!['?', '?']);
        }
        return s;
    }
    proof {
        if s@ == seq!['?', '?'] {
            assert(s@.len() == 2 && s@[0] == '?' && s@[1] == '?');
        }
    }
    if s.len() > 0 && (s[0] == 'A' || s[0] == 'M' || s[0] == 'D' || s[0] == 'R' || s[0] == 'C' || s[0]
        == 'T' || s[0] == 'U') {
        let mut r: Vec<char> = Vec::new();
        r.push(s[0]);
        proof {
            assert(r@ =~= seq![s@[0]]);
        }
        r
    } else {
        let mut r: Vec<char> = Vec::new();
        r.push('M');
        proof {
            assert(r@ =~= seq!['M']);
        }
        r
    }
}

fn status_rank_exec(s: &String) -> (r: u8)
    ensures
        r as int == status_rank(s@),
{
    let cs = chars_of(s.as_str());
    let one = cs.len() == 1;
    proof {
        if one {
            assert(cs@ =~= seq![cs@[0]]);
        }
        if cs@.len() == 2 {
            assert(cs@ =~= seq![cs@[0], cs@[1]]);
        }
    }
    if one && cs[0] == 'U' {
        70
    } else if one && cs[0] == 'D' {
        60
    } else if one && cs[0] == 'A' {
        50
    } else if one && cs[0] == 'R' {
        40
    } else if one && cs[0] == 'C' {
        35
    } else if one && cs[0] == 'M' {
        30
    } else if one && cs[0] == 'T' {
        20
    } else if cs.len() == 2 && cs[0] == '?' && cs[1] == '?' {
        10
    } else {
        0
    }
}

fn changed_entry_exec(l: &[char]) -> (r: Option<(String, String)>)
    ensures
        r is None <==> changed_entry(l@) is None,
        r matches Some((p, s)) ==> changed_entry(l@) == Some((p@, s@)),
{
    let t = trim_chars(l);
    if t.len() == 0 {
        return None;
    }
    let (head, rest) = split_once_char(t.as_slice(), '\t');
    match rest {
        None => None,
        Some(r1) => {
            let status = diff_tree_status_exec(head.as_slice());
            let (second, rest2) = split_once_char(r1.as_slice(), '\t');
            let raw_path = match rest2 {
                Some(r2) => {
                    let (third, _) = split_once_char(r2.as_slice(), '\t');
                    third
                },
                None => second,
            };
            let path = trim_chars(raw_path.as_slice());
            if path.len() == 0 {
                None
            } else {
                Some((string_of(path.as_slice()), string_of(status.as_slice())))
            }
        },
    }
}

fn find_path(files: &Vec<CommitChangedFile>, path: &String) -> (r: usize)
    ensures
        r == path_index_from(changed_views(files@), path@, 0),
        r <= files@.len(),
{
    let ghost acc = changed_views(files@);
    let mut k: usize = 0;
    while k < files.len()
        invariant
            k <= files@.len(),
            acc == changed_views(files@),
            path_index_from(acc, path@, k as int) == path_index_from(acc, path@, 0),
        decreases files@.len() - k,
    {
        if files[k].path == *path {
            proof {
                assert(acc[k as int].0 == path@);
            }
            return k;
        }
        k = k + 1;
    }
    k
}

/// The files a commit changed, one entry per path in order of first
/// mention, each with the highest-ranked status its rows gave.
pub fn parse_commit_changed_files(stdout: &str) -> (r: Vec<CommitChangedFile>)
    ensures
        changed_views(r@) == changed_files_of(stdout@),
{
    let cs = chars_of(stdout);
    let lines = split_lines(cs.as_slice());
    let ghost ls = lines_of(stdout@);
    let mut files: Vec<CommitChangedFile> = Vec::new();
    proof {
        assert(changed_views(files@) =~= Seq::empty());
    }
    let mut i: usize = 0;
    while i < lines.len()
        invariant
            i <= lines@.len(),
            seq_views(lines@) == ls,
            changed_views(files@) == changed_fold(ls, i as int),
        decreases lines@.len() - i,
    {
        let line = lines[i].as_slice();
        proof {
            assert(ls[i as int] == line@);
        }
        match changed_entry_exec(line) {
            None => {},
            Some((path, status)) => {
                let ghost acc = changed_views(files@);
                let k = find_path(&files, &path);
                if k < files.len() {
                    let new_rank = status_rank_exec(&status);
                    let old_rank = status_rank_exec(&files[k].status);
                    if new_rank > old_rank {
                        let entry = CommitChangedFile { path, status };
                        proof {
                            assert(changed_views(files@.update(k as int, entry)) =~= acc.update(
                                k as int,
                                (entry.path@, entry.status@),
                            ));
                        }
                        files.set(k, entry);
                    }
                } else {
                    let entry = CommitChangedFile { path, status };
                    proof {
                        assert(changed_views(files@.push(entry)) =~= acc.push((entry.path@, entry.status@)));
                    }
                    files.push(entry);
                }
            },
        }
        i = i + 1;
    }
    files
}

} // verus!

verus! {

// ---------------------------------------------------------------------------
// File history, branches, file search
// ---------------------------------------------------------------------------

pub struct CommitView {
    pub hash: Seq<char>,
    pub author: Seq<char>,
    pub date: Seq<char>,
    pub message: Seq<char>,
}

impl View for crate::types::FileCommit {
    type V = CommitView;

    open spec fn view(&self) -> CommitView {
        CommitView { hash: self.hash@, author: self.author@, date: self.date@, message: self.message@ }
    }
}

pub open spec fn commit_views(v: Seq<crate::types::FileCommit>) -> Seq<CommitView> {
    v.map_values(|c: crate::types::FileCommit| c@)
}

/// A `%H|%an|%ad|%s` line with at least four fields: the message is all
/// that follows the third `|`.
pub open spec fn history_entry(l: Seq<char>) -> Option<CommitView> {
    match after_char(l, '|') {
        None => None,
        Some(r1) => match after_char(r1, '|') {
            None => None,
            Some(r2) => match after_char(r2, '|') {
                None => None,
                Some(r3) => Some(
                    CommitView {
                        hash: before_char(l, '|'),
                        author: before_char(r1, '|'),
                        date: before_char(r2, '|'),
                        message: r3,
                    },
                ),
            },
        },
    }
}

pub open spec fn history_fold(ls: Seq<Seq<char>>, n: int) -> Seq<CommitView>
    decreases n,
{
    if n <= 0 {
        Seq::empty()
    } else {
        match history_entry(ls[n - 1]) {
            Some(c) => history_fold(ls, n - 1).push(c),
            None => history_fold(ls, n - 1),
        }
    }
}

/// `log --follow --format=%H|%an|%ad|%s --date=short -n<limit> -- <path>`.
pub fn file_history_args(file_path: &str, limit: Option<u32>) -> (r: Vec<String>)
    ensures
        crate::conflict::string_seq_views(r@) == seq![
            "log"@,
            "--follow"@,
            "--format=%H|%an|%ad|%s"@,
            "--date=short"@,
            "-n"@ + crate::numeric::decimal(
                (match limit {
                    Some(n) => n,
                    None => 100u32,
                }) as nat,
            ),
            "--"@,
            file_path@,
        ],
{
    let n: u32 = match limit {
        Some(n) => n,
        None => 100,
    };
    let mut count = "-n".to_string();
    crate::numeric::push_decimal(&mut count, n as u64);
    let r = vec![
        "log".to_string(),
        "--follow".to_string(),
        "--format=%H|%an|%ad|%s".to_string(),
        "--date=short".to_string(),
        count,
        "--".to_string(),
        file_path.to_string(),
    ];
    proof {
        assert(crate::conflict::string_seq_views(r@) =~= seq![
            "log"@,
            "--follow"@,
            "--format=%H|%an|%ad|%s"@,
            "--date=short"@,
            "-n"@ + crate::numeric::decimal(n as nat),
            "--"@,
            file_path@,
        ]);
    }
    r
}

pub fn parse_file_history(stdout: &str) -> (r: Vec<crate::types::FileCommit>)
    ensures
        commit_views(r@) == history_fold(lines_of(stdout@), lines_of(stdout@).len() as int),
{
    let cs = chars_of(stdout);
    let lines = split_lines(cs.as_slice());
    let ghost ls = lines_of(stdout@);
    let mut out: Vec<crate::types::FileCommit> = Vec::new();
    proof {
        assert(commit_views(out@) =~= Seq::empty());
    }
    let mut i: usize = 0;
    while i < lines.len()
        invariant
            i <= lines@.len(),
            seq_views(lines@) == ls,
            commit_views(out@) == history_fold(ls, i as int),
        decreases lines@.len() - i,
    {
        let l = lines[i].as_slice();
        proof {
            assert(ls[i as int] == l@);
        }
        let (hash, r1) = split_once_char(l, '|');
        if let Some(r1) = r1 {
            let (author, r2) = split_once_char(r1.as_slice(), '|');
            if let Some(r2) = r2 {
                let (date, r3) = split_once_char(r2.as_slice(), '|');
                if let Some(r3) = r3 {
                    let c = crate::types::FileCommit {
                        hash: string_of(hash.as_slice()),
                        author: string_of(author.as_slice()),
                        date: string_of(date.as_slice()),
                        message: string_of(r3.as_slice()),
                    };
                    proof {
                        assert(commit_views(out@.push(c)) =~= commit_views(out@).push(c@));
                    }
                    out.push(c);
                }
            }
        }
        i = i + 1;
    }
    out
}

/// A `%(refname)` line as a branch name: local branches lose "refs/heads/",
/// remote ones show as "remotes/..."; other references are left out.
pub open spec fn branch_entry(l: Seq<char>) -> Option<Seq<char>> {
    let t = trim(l);
    if t.len() == 0 {
        None
    } else if crate::text::has_prefix(t, "refs/heads/"@) {
        Some(crate::text::replace_from(t, "refs/heads/"@, ""@, 0))
    } else if crate::text::has_prefix(t, "refs/remotes/"@) {
        Some(crate::text::replace_from(t, "refs/remotes/"@, "remotes/"@, 0))
    } else {
        None
    }
}

pub open spec fn branch_fold(ls: Seq<Seq<char>>, n: int) -> Seq<Seq<char>>
    decreases n,
{
    if n <= 0 {
        Seq::empty()
    } else {
        match branch_entry(ls[n - 1]) {
            Some(b) => branch_fold(ls, n - 1).push(b),
            None => branch_fold(ls, n - 1),
        }
    }
}

proof fn lemma_ref_prefix_lens()
    ensures
        "refs/heads/"@.len() > 0,
        "refs/remotes/"@.len() > 0,
        "remotes/"@.len() > 0,
{
    reveal_strlit("refs/heads/");
    reveal_strlit("refs/remotes/");
    reveal_strlit("remotes/");
}

pub fn parse_branch_refs(stdout: &str) -> (r: Vec<String>)
    ensures
        crate::conflict::string_seq_views(r@) == branch_fold(lines_of(stdout@), lines_of(stdout@).len() as int),
{
    let cs = chars_of(stdout);
    let lines = split_lines(cs.as_slice());
    let ghost ls = lines_of(stdout@);
    let mut out: Vec<String> = Vec::new();
    proof {
        lemma_ref_prefix_lens();
        assert(crate::conflict::string_seq_views(out@) =~= Seq::empty());
    }
    let mut i: usize = 0;
    while i < lines.len()
        invariant
            i <= lines@.len(),
            seq_views(lines@) == ls,
            "refs/heads/"@.len() > 0,
            "refs/remotes/"@.len() > 0,
            crate::conflict::string_seq_views(out@) == branch_fold(ls, i as int),
        decreases lines@.len() - i,
    {
        proof {
            assert(ls[i as int] == lines@[i as int]@);
        }
        let t = trim_chars(lines[i].as_slice());
        let entry = if t.len() == 0 {
            None
        } else if crate::text::starts_with(t.as_slice(), "refs/heads/") {
            Some(crate::text::replace_all(t.as_slice(), "refs/heads/", ""))
        } else if crate::text::starts_with(t.as_slice(), "refs/remotes/") {
            Some(crate::text::replace_all(t.as_slice(), "refs/remotes/", "remotes/"))
        } else {
            None
        };
        if let Some(b) = entry {
            proof {
                assert(crate::conflict::string_seq_views(out@.push(b)) =~= crate::conflict::string_seq_views(
                    out@,
                ).push(b@));
            }
            out.push(b);
        }
        i = i + 1;
    }
    out
}

/// The local name to switch to: a "remotes/<remote>/<b>" name becomes <b>.
pub open spec fn switch_target_spec(name: Seq<char>) -> Seq<char> {
    if crate::text::has_prefix(name, "remotes/"@) {
        let w = crate::text::trim_start_from(name, "remotes/"@, 0);
        match after_char(w, '/') {
            Some(rest) => rest,
            None => w,
        }
    } else {
        name
    }
}

pub fn switch_target(branch_name: &str) -> (r: String)
    ensures
        r@ == switch_target_spec(branch_name@),
{
    let cs = chars_of(branch_name);
    if !crate::text::starts_with(cs.as_slice(), "remotes/") {
        return branch_name.to_string();
    }
    proof {
        lemma_ref_prefix_lens();
    }
    let w = crate::text::trim_start_matches(cs.as_slice(), "remotes/");
    let (_, rest) = split_once_char(w.as_slice(), '/');
    match rest {
        Some(r) => string_of(r.as_slice()),
        None => string_of(w.as_slice()),
    }
}

/// The search hits among the first `n` lines: non-blank lines whose
/// lowercase form holds the lowercase pattern, at most a hundred.
pub open spec fn search_fold(ls: Seq<Seq<char>>, n: int, pattern: Option<Seq<char>>) -> Seq<Seq<char>>
    decreases n,
{
    if n <= 0 {
        Seq::empty()
    } else {
        let acc = search_fold(ls, n - 1, pattern);
        let l = ls[n - 1];
        let keep = trim(l).len() > 0 && match pattern {
            Some(p) => crate::text::contains_seq(
                crate::service::lower_of(l),
                crate::service::lower_of(p),
            ),
            None => true,
        };
        if keep && acc.len() < 100 {
            acc.push(l)
        } else {
            acc
        }
    }
}

/// The first hundred non-blank `ls-files` lines whose lowercase form holds
/// the lowercase pattern (every non-blank line without a pattern).
pub fn search_repo_files(ls_files_output: &str, pattern: Option<String>) -> (r: Vec<String>)
    ensures
        crate::conflict::string_seq_views(r@) == search_fold(
            lines_of(ls_files_output@),
            lines_of(ls_files_output@).len() as int,
            crate::conflict::opt_view(pattern),
        ),
{
    let cs = chars_of(ls_files_output);
    let lines = split_lines(cs.as_slice());
    let ghost ls = lines_of(ls_files_output@);
    let pattern_lower = match &pattern {
        Some(p) => Some(crate::service::lowercase(p.as_str())),
        None => None,
    };
    let mut out: Vec<String> = Vec::new();
    proof {
        assert(crate::conflict::string_seq_views(out@) =~= Seq::empty());
    }
    let mut i: usize = 0;
    while i < lines.len()
        invariant
            i <= lines@.len(),
            seq_views(lines@) == ls,
            match pattern {
                Some(p) => pattern_lower matches Some(pl) && pl@ == crate::service::lower_of(p@),
                None => pattern_lower is None,
            },
            crate::conflict::string_seq_views(out@) == search_fold(ls, i as int, crate::conflict::opt_view(pattern)),
            out@.len() <= 100,
        decreases lines@.len() - i,
    {
        let l = lines[i].as_slice();
        proof {
            assert(ls[i as int] == l@);
        }
        let t = trim_chars(l);
        let line = string_of(l);
        let keep = t.len() > 0 && match &pattern_lower {
            Some(pl) => {
                let low = crate::service::lowercase(line.as_str());
                let lc = chars_of(low.as_str());
                crate::text::contains_str(lc.as_slice(), pl.as_str())
            },
            None => true,
        };
        if keep && out.len() < 100 {
            proof {
                assert(crate::conflict::string_seq_views(out@.push(line)) =~= crate::conflict::string_seq_views(
                    out@,
                ).push(line@));
            }
            out.push(line);
        }
        i = i + 1;
    }
    out
}

} // verus!

verus! {

/// `show --format= --first-parent --patch <commit> [-- <path>]`: the
/// commit's patch against its first parent, for one path or all.
pub fn commit_show_args(commit_hash: &str, file_path: Option<&str>) -> (r: Vec<String>)
    ensures
        crate::conflict::string_seq_views(r@) == seq![
            "show"@,
            "--format="@,
            "--first-parent"@,
            "--patch"@,
            commit_hash@,
        ] + match file_path {
            Some(p) => seq!["--"@, p@],
            None => Seq::empty(),
        },
{
    let mut args = vec![
        "show".to_string(),
        "--format=".to_string(),
        "--first-parent".to_string(),
        "--patch".to_string(),
        commit_hash.to_string(),
    ];
    let ghost head = crate::conflict::string_seq_views(args@);
    match file_path {
        Some(p) => {
            args.push("--".to_string());
            args.push(p.to_string());
        },
        None => {},
    }
    proof {
        assert(crate::conflict::string_seq_views(args@) =~= seq![
            "show"@,
            "--format="@,
            "--first-parent"@,
            "--patch"@,
            commit_hash@,
        ] + match file_path {
            Some(p) => seq!["--"@, p@],
            None => Seq::empty(),
        });
    }
    args
}

/// `rev-parse <commit>^`: the commit's first parent.
pub fn parent_args(commit_hash: &str) -> (r: Vec<String>)
    ensures
        crate::conflict::string_seq_views(r@) == seq!["rev-parse"@, commit_hash@ + "^"@],
{
    let mut p = commit_hash.to_string();
    p.append("^");
    let r = vec!["rev-parse".to_string(), p];
    proof {
        assert(crate::conflict::string_seq_views(r@) =~= seq!["rev-parse"@, commit_hash@ + "^"@]);
    }
    r
}

/// The parent hash from `rev-parse`'s output, trimmed; none where it failed
/// (a root commit has no parent).
pub fn parent_hash(rev_parse_output: Option<String>) -> (r: Option<String>)
    ensures
        rev_parse_output is None ==> r is None,
        rev_parse_output matches Some(s) ==> (r matches Some(h) && h@ == trim(s@)),
{
    match rev_parse_output {
        None => None,
        Some(s) => {
            let cs = chars_of(s.as_str());
            let t = trim_chars(cs.as_slice());
            Some(string_of(t.as_slice()))
        },
    }
}

} // verus!
