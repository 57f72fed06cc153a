//! Working-tree paths and line staging: which paths the exclusion globs
//! hide, how porcelain status becomes per-column entries, and how a
//! selected line becomes the patch that `git apply` stages or unstages.

use vstd::prelude::*;
use crate::conflict::{string_seq_views, unquote};
use crate::patch::{
    build_stage_line_patch, parse_patch, parse_unstaged_zero_context_diff, stage_hunk,
    stage_patch_text, StageLineSelection,
};
use crate::text::{
    chars_of, contains_seq, contains_str, find_seq, find_str, has_prefix, lemma_find_from_found,
    lines_of, occurs_at, seq_views, slice_vec, split_lines, starts_with, string_of, trim,
    trim_chars,
};
use crate::types::FileStatus;

verus! {

// ---------------------------------------------------------------------------
// Exclusions
// ---------------------------------------------------------------------------

/// Whether the glob `pattern` compiles and matches the whole of `path`, as
/// `glob::Pattern` decides it (an invalid pattern matches nothing).
pub uninterp spec fn glob_accepts(pattern: Seq<char>, path: Seq<char>) -> bool;

/// Relies on `glob::Pattern::new` and `glob::Pattern::matches`: the answer
/// depends on the two strings alone.
#[verifier::external_body]
pub(crate) fn glob_matches(pattern: &str, path: &str) -> (r: bool)
    ensures
        r == glob_accepts(pattern@, path@),
{
    match glob::Pattern::new(pattern) {
        Ok(p) => p.matches(path),
        Err(_) => false,
    }
}

/// `p` with every `\` turned into `/`.
pub open spec fn slashed(p: Seq<char>) -> Seq<char> {
    Seq::new(p.len(), |i: int| if p[i] == '\\' { '/' } else { p[i] })
}

/// Some non-blank pattern, trimmed, matches the path written with `/`.
pub open spec fn excluded(path: Seq<char>, patterns: Seq<Seq<char>>) -> bool {
    exists|i: int|
        0 <= i < patterns.len() && trim(#[trigger] patterns[i]).len() > 0 && glob_accepts(
            trim(patterns[i]),
            slashed(path),
        )
}

/// `path` written with `/` for `\`.
pub fn slashed_string(path: &str) -> (r: String)
    ensures
        r@ == slashed(path@),
{
    let pc = chars_of(path);
    slashed_exec(pc.as_slice())
}

fn slashed_exec(p: &[char]) -> (r: String)
    ensures
        r@ == slashed(p@),
{
    let mut r = String::new();
    let mut i: usize = 0;
    while i < p.len()
        invariant
            i <= p@.len(),
            r@ == slashed(p@).take(i as int),
        decreases p@.len() - i,
    {
        let c = if p[i] == '\\' {
            '/'
        } else {
            p[i]
        };
        crate::text::push_char(&mut r, c);
        proof {
            assert(slashed(p@).take(i + 1) =~= slashed(p@).take(i as int).push(c));
        }
        i = i + 1;
    }
    proof {
        assert(slashed(p@).take(p@.len() as int) =~= slashed(p@));
    }
    r
}

/// Whether the exclusion globs hide `path`.
pub fn is_excluded(path: &str, exclusions: &[String]) -> (r: bool)
    ensures
        r == excluded(path@, string_seq_views(exclusions@)),
{
    let ghost pats = string_seq_views(exclusions@);
    if exclusions.len() == 0 {
        return false;
    }
    let pc = chars_of(path);
    let normalized = slashed_exec(pc.as_slice());
    let mut i: usize = 0;
    while i < exclusions.len()
        invariant
            i <= exclusions@.len(),
            pats == string_seq_views(exclusions@),
            normalized@ == slashed(path@),
            forall|j: int|
                0 <= j < i ==> !(trim(#[trigger] pats[j]).len() > 0 && glob_accepts(
                    trim(pats[j]),
                    slashed(path@),
                )),
        decreases exclusions@.len() - i,
    {
        let cs = chars_of(exclusions[i].as_str());
        let t = trim_chars(cs.as_slice());
        proof {
            assert(pats[i as int] == exclusions@[i as int]@);
        }
        if t.len() > 0 {
            let pattern = string_of(t.as_slice());
            if glob_matches(pattern.as_str(), normalized.as_str()) {
                return true;
            }
        }
        i = i + 1;
    }
    false
}

// ---------------------------------------------------------------------------
// Rename paths
// ---------------------------------------------------------------------------

/// A status path of the form "old -> new": both sides trimmed, neither empty.
pub open spec fn rename_parts(p: Seq<char>) -> Option<(Seq<char>, Seq<char>)> {
    let i = find_seq(p, " -> "@);
    if i < 0 {
        None
    } else {
        let old = trim(p.take(i));
        let new = trim(p.skip(i + 4));
        if old.len() == 0 || new.len() == 0 {
            None
        } else {
            Some((old, new))
        }
    }
}

pub fn split_rename_path(path: &str) -> (r: Option<(String, String)>)
    ensures
        r is None <==> rename_parts(path@) is None,
        r matches Some((o, n)) ==> rename_parts(path@) == Some((o@, n@)),
{
    let cs = chars_of(path);
    let clen = cs.len();
    match find_str(cs.as_slice(), " -> ") {
        None => None,
        Some(i) => {
            proof {
                reveal_strlit(" -> ");
                assert(" -> "@.len() == 4);
                lemma_find_from_found(path@, " -> "@, 0);
                assert(occurs_at(path@, " -> "@, i as int));
            }
            let a = slice_vec(cs.as_slice(), 0, i);
            let b = slice_vec(cs.as_slice(), i + 4, clen);
            proof {
                assert(a@ =~= path@.take(i as int));
                assert(b@ =~= path@.skip(i + 4));
            }
            let old = trim_chars(a.as_slice());
            let new = trim_chars(b.as_slice());
            if old.len() == 0 || new.len() == 0 {
                None
            } else {
                Some((string_of(old.as_slice()), string_of(new.as_slice())))
            }
        },
    }
}

// ---------------------------------------------------------------------------
// Line staging
// ---------------------------------------------------------------------------

/// The zero-context diff that line staging reads: of the working tree
/// against the index (to stage), or of the index against HEAD (to unstage).
pub fn line_diff_args(path: &str, staged: bool) -> (r: Vec<String>)
    ensures
        !staged ==> string_seq_views(r@) == seq![
            "diff"@,
            "--no-color"@,
            "--no-ext-diff"@,
            "--unified=0"@,
            "--"@,
            path@,
        ],
        staged ==> string_seq_views(r@) == seq![
            "diff"@,
            "--cached"@,
            "--no-color"@,
            "--no-ext-diff"@,
            "--unified=0"@,
            "--"@,
            path@,
        ],
{
    let mut r: Vec<String> = Vec::new();
    r.push("diff".to_string());
    if staged {
        r.push("--cached".to_string());
    }
    r.push("--no-color".to_string());
    r.push("--no-ext-diff".to_string());
    r.push("--unified=0".to_string());
    r.push("--".to_string());
    r.push(path.to_string());
    proof {
        if staged {
            assert(string_seq_views(r@) =~= seq![
                "diff"@,
                "--cached"@,
                "--no-color"@,
                "--no-ext-diff"@,
                "--unified=0"@,
                "--"@,
                path@,
            ]);
        } else {
            assert(string_seq_views(r@) =~= seq![
                "diff"@,
                "--no-color"@,
                "--no-ext-diff"@,
                "--unified=0"@,
                "--"@,
                path@,
            ]);
        }
    }
    r
}

/// Applies the patch file to the index only; in reverse to unstage.
pub fn line_apply_args(patch_file: &str, reverse: bool) -> (r: Vec<String>)
    ensures
        !reverse ==> string_seq_views(r@) == seq![
            "apply"@,
            "--cached"@,
            "--unidiff-zero"@,
            "--whitespace=nowarn"@,
            patch_file@,
        ],
        reverse ==> string_seq_views(r@) == seq![
            "apply"@,
            "--cached"@,
            "--reverse"@,
            "--unidiff-zero"@,
            "--whitespace=nowarn"@,
            patch_file@,
        ],
{
    let mut r: Vec<String> = Vec::new();
    r.push("apply".to_string());
    r.push("--cached".to_string());
    if reverse {
        r.push("--reverse".to_string());
    }
    r.push("--unidiff-zero".to_string());
    r.push("--whitespace=nowarn".to_string());
    r.push(patch_file.to_string());
    proof {
        if reverse {
            assert(string_seq_views(r@) =~= seq![
                "apply"@,
                "--cached"@,
                "--reverse"@,
                "--unidiff-zero"@,
                "--whitespace=nowarn"@,
                patch_file@,
            ]);
        } else {
            assert(string_seq_views(r@) =~= seq![
                "apply"@,
                "--cached"@,
                "--unidiff-zero"@,
                "--whitespace=nowarn"@,
                patch_file@,
            ]);
        }
    }
    r
}

/// Why a path cannot have single lines staged (`staged` false) or unstaged
/// (`staged` true): it is excluded, or it names a rename.
pub open spec fn line_target_error(path: Seq<char>, exclusions: Seq<Seq<char>>, staged: bool) -> Option<Seq<char>> {
    if excluded(path, exclusions) {
        Some("File "@ + path + " is excluded from git operations"@)
    } else if contains_seq(path, " -> "@) {
        if staged {
            Some("Unstage-line is not supported for rename paths"@)
        } else {
            Some("Stage-line is not supported for rename paths"@)
        }
    } else {
        None
    }
}

pub fn check_line_target(path: &str, exclusions: &[String], staged: bool) -> (r: Result<(), String>)
    ensures
        match r {
            Ok(_) => line_target_error(path@, string_seq_views(exclusions@), staged) is None,
            Err(e) => line_target_error(path@, string_seq_views(exclusions@), staged) == Some(e@),
        },
{
    if is_excluded(path, exclusions) {
        let mut m = String::new();
        m.append("File ");
        m.append(path);
        m.append(" is excluded from git operations");
        return Err(m);
    }
    let cs = chars_of(path);
    if contains_str(cs.as_slice(), " -> ") {
        if staged {
            return Err("Unstage-line is not supported for rename paths".to_string());
        } else {
            return Err("Stage-line is not supported for rename paths".to_string());
        }
    }
    Ok(())
}

/// The patch for one selected line, from the zero-context diff that
/// `line_diff_args` produced: an empty diff is an error; otherwise the diff
/// is read and the one-line hunk synthesized.
pub fn line_patch_from_diff(diff_output: &str, selection: &StageLineSelection, staged: bool) -> (r: Result<
    String,
    String,
>)
    ensures
        trim(diff_output@).len() == 0 ==> (r matches Err(e) && e@ == (if staged {
            "No staged diff available for selected file"@
        } else {
            "No unstaged diff available for selected file"@
        })),
        trim(diff_output@).len() > 0 ==> match parse_patch(diff_output@) {
            Err(pe) => r matches Err(e) && e@ == pe,
            Ok(p) => match r {
                Ok(t) => stage_hunk(p, *selection) matches Ok(h) && t@ == stage_patch_text(p, h),
                Err(e) => stage_hunk(p, *selection) == Err::<crate::patch::StageHunk, Seq<char>>(e@),
            },
        },
{
    let cs = chars_of(diff_output);
    let t = trim_chars(cs.as_slice());
    if t.len() == 0 {
        if staged {
            return Err("No staged diff available for selected file".to_string());
        } else {
            return Err("No unstaged diff available for selected file".to_string());
        }
    }
    let parsed = match parse_unstaged_zero_context_diff(diff_output) {
        Ok(p) => p,
        Err(e) => {
            return Err(e);
        },
    };
    build_stage_line_patch(&parsed, selection)
}

} // verus!

verus! {

// ---------------------------------------------------------------------------
// Working-tree status
// ---------------------------------------------------------------------------

pub struct FileStatusView {
    pub path: Seq<char>,
    pub status: Seq<char>,
    pub staged: bool,
}

impl View for FileStatus {
    type V = FileStatusView;

    open spec fn view(&self) -> FileStatusView {
        FileStatusView { path: self.path@, status: self.status@, staged: self.staged }
    }
}

pub open spec fn status_views(v: Seq<FileStatus>) -> Seq<FileStatusView> {
    v.map_values(|f: FileStatus| f@)
}

/// The entries of one porcelain line: a staged entry for the X column unless
/// it is blank or `?`, an unstaged entry for the Y column unless blank; a
/// line shorter than four characters counts only as "?? " (untracked).
/// Excluded paths give nothing.
pub open spec fn status_entries(l: Seq<char>, pats: Seq<Seq<char>>) -> Seq<FileStatusView> {
    if l.len() < 4 {
        if has_prefix(l, "?? "@) {
            let p = unquote(trim(l.skip(3)));
            if excluded(p, pats) {
                Seq::empty()
            } else {
                seq![FileStatusView { path: p, status: "??"@, staged: false }]
            }
        } else {
            Seq::empty()
        }
    } else {
        let p = unquote(trim(l.skip(3)));
        let x = l[0];
        let y = l[1];
        if excluded(p, pats) {
            Seq::empty()
        } else {
            (if x != ' ' && x != '?' {
                seq![FileStatusView { path: p, status: seq![x], staged: true }]
            } else {
                Seq::empty()
            }) + (if y != ' ' {
                seq![FileStatusView { path: p, status: seq![y], staged: false }]
            } else {
                Seq::empty()
            })
        }
    }
}

pub open spec fn status_fold(lines: Seq<Seq<char>>, n: int, pats: Seq<Seq<char>>) -> Seq<FileStatusView>
    decreases n,
{
    if n <= 0 {
        Seq::empty()
    } else {
        status_fold(lines, n - 1, pats) + status_entries(lines[n - 1], pats)
    }
}

pub open spec fn status_files_of(s: Seq<char>, pats: Seq<Seq<char>>) -> Seq<FileStatusView> {
    status_fold(lines_of(s), lines_of(s).len() as int, pats)
}

fn push_status(v: &mut Vec<FileStatus>, path: &String, status: String, staged: bool)
    ensures
        status_views(final(v)@) == status_views(old(v)@).push(
            FileStatusView { path: path@, status: status@, staged },
        ),
{
    let f = FileStatus { path: path.clone(), status, staged };
    proof {
        assert(status_views(v@.push(f)) =~= status_views(v@).push(f@));
    }
    v.push(f);
}

fn char_string(c: char) -> (r: String)
    ensures
        r@ == seq![c],
{
    let mut r = String::new();
    crate::text::push_char(&mut r, c);
    proof {
        assert(r@ =~= seq![c]);
    }
    r
}

/// The entries that porcelain status lists, excluded paths left out.
pub fn parse_status_files(porcelain_status: &str, exclusions: &[String]) -> (r: Vec<FileStatus>)
    ensures
        status_views(r@) == status_files_of(porcelain_status@, string_seq_views(exclusions@)),
{
    let ghost pats = string_seq_views(exclusions@);
    let cs = chars_of(porcelain_status);
    let lines = split_lines(cs.as_slice());
    let ghost ls = lines_of(porcelain_status@);
    let mut out: Vec<FileStatus> = Vec::new();
    proof {
        assert(status_views(out@) =~= Seq::empty());
    }
    let mut i: usize = 0;
    while i < lines.len()
        invariant
            i <= lines@.len(),
            seq_views(lines@) == ls,
            pats == string_seq_views(exclusions@),
            status_views(out@) == status_fold(ls, i as int, pats),
        decreases lines@.len() - i,
    {
        let line = lines[i].as_slice();
        proof {
            assert(ls[i as int] == line@);
        }
        let ghost before = status_views(out@);
        let rest = slice_vec(line, if line.len() < 3 { line.len() } else { 3 }, line.len());
        let t = trim_chars(rest.as_slice());
        let p = crate::conflict::unquote_chars(t);
        let path = string_of(p.as_slice());
        if line.len() < 4 {
            if starts_with(line, "?? ") {
                proof {
                    reveal_strlit("?? ");
                    assert(rest@ =~= line@.skip(3));
                }
                if !is_excluded(path.as_str(), exclusions) {
                    push_status(&mut out, &path, "??".to_string(), false);
                }
            }
            proof {
                assert(status_views(out@) =~= before + status_entries(line@, pats));
            }
        } else {
            proof {
                assert(rest@ =~= line@.skip(3));
            }
            let x = line[0];
            let y = line[1];
            if !is_excluded(path.as_str(), exclusions) {
                if x != ' ' && x != '?' {
                    push_status(&mut out, &path, char_string(x), true);
                }
                if y != ' ' {
                    push_status(&mut out, &path, char_string(y), false);
                }
            }
            proof {
                assert(status_views(out@) =~= before + status_entries(line@, pats));
            }
        }
        i = i + 1;
    }
    out
}

} // verus!

verus! {

/// The staged paths (from `diff --cached --name-only`) that the exclusion
/// globs hide, in order: they are unstaged before a commit.
pub open spec fn excluded_staged_fold(ls: Seq<Seq<char>>, n: int, pats: Seq<Seq<char>>) -> Seq<Seq<char>>
    decreases n,
{
    if n <= 0 {
        Seq::empty()
    } else {
        let acc = excluded_staged_fold(ls, n - 1, pats);
        let f = trim(ls[n - 1]);
        if f.len() > 0 && excluded(f, pats) {
            acc.push(f)
        } else {
            acc
        }
    }
}

pub fn excluded_staged_files(name_only: &str, exclusions: &[String]) -> (r: Vec<String>)
    ensures
        string_seq_views(r@) == excluded_staged_fold(
            lines_of(name_only@),
            lines_of(name_only@).len() as int,
            string_seq_views(exclusions@),
        ),
{
    let cs = chars_of(name_only);
    let lines = split_lines(cs.as_slice());
    let ghost ls = lines_of(name_only@);
    let mut out: Vec<String> = Vec::new();
    proof {
        assert(string_seq_views(out@) =~= Seq::empty());
    }
    let mut i: usize = 0;
    while i < lines.len()
        invariant
            i <= lines@.len(),
            seq_views(lines@) == ls,
            string_seq_views(out@) == excluded_staged_fold(ls, i as int, string_seq_views(exclusions@)),
        decreases lines@.len() - i,
    {
        proof {
            assert(ls[i as int] == lines@[i as int]@);
        }
        let t = trim_chars(lines[i].as_slice());
        if t.len() > 0 {
            let f = string_of(t.as_slice());
            if is_excluded(f.as_str(), exclusions) {
                proof {
                    assert(string_seq_views(out@.push(f)) =~= string_seq_views(out@).push(f@));
                }
                out.push(f);
            }
        }
        i = i + 1;
    }
    out
}

} // verus!
