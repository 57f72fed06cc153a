//! Working-tree commands whose arguments depend on the files involved:
//! discarding, stashing, adding everything, pushing, and counting what is
//! left to push.

use vstd::prelude::*;
use crate::conflict::string_seq_views;
use crate::numeric::{parse_u32, parse_unsigned};
use crate::staging::{excluded, is_excluded, rename_parts, split_rename_path, status_views, FileStatusView};
use crate::text::{chars_of, string_of, trim, trim_chars};
use crate::types::FileStatus;

verus! {

pub open spec fn add_unique(s: Seq<Seq<char>>, x: Seq<char>) -> Seq<Seq<char>> {
    if s.contains(x) {
        s
    } else {
        s.push(x)
    }
}

/// One selected file: to_clean ("??") paths are cleaned, other paths
/// restored (both sides of a rename); blank and excluded paths are skipped.
pub open spec fn discard_step(
    acc: (Seq<Seq<char>>, Seq<Seq<char>>),
    f: FileStatusView,
    pats: Seq<Seq<char>>,
) -> (Seq<Seq<char>>, Seq<Seq<char>>) {
    let p = trim(f.path);
    if p.len() == 0 || excluded(p, pats) {
        acc
    } else if trim(f.status) == seq!['?', '?'] {
        (acc.0, add_unique(acc.1, p))
    } else {
        match rename_parts(p) {
            Some((o, n)) => (add_unique(add_unique(acc.0, o), n), acc.1),
            None => (add_unique(acc.0, p), acc.1),
        }
    }
}

pub open spec fn discard_fold(files: Seq<FileStatusView>, n: int, pats: Seq<Seq<char>>) -> (Seq<Seq<char>>, Seq<Seq<char>>)
    decreases n,
{
    if n <= 0 {
        (Seq::empty(), Seq::empty())
    } else {
        discard_step(discard_fold(files, n - 1, pats), files[n - 1], pats)
    }
}

/// The commands that discard the files' changes: a restore of the to_restore
/// paths from HEAD (index and worktree), then a clean of the to_clean ones;
/// a command only where it has paths.
pub open spec fn discard_commands_spec(files: Seq<FileStatusView>, pats: Seq<Seq<char>>) -> Seq<Seq<Seq<char>>> {
    let (t, u) = discard_fold(files, files.len() as int, pats);
    (if t.len() > 0 {
        seq![seq!["restore"@, "--source=HEAD"@, "--staged"@, "--worktree"@, "--"@] + t]
    } else {
        Seq::empty()
    }) + (if u.len() > 0 {
        seq![seq!["clean"@, "-fd"@, "--"@] + u]
    } else {
        Seq::empty()
    })
}

pub open spec fn command_views(v: Seq<Vec<String>>) -> Seq<Seq<Seq<char>>> {
    v.map_values(|c: Vec<String>| string_seq_views(c@))
}

fn push_unique(v: &mut Vec<String>, x: String)
    ensures
        string_seq_views(final(v)@) == add_unique(string_seq_views(old(v)@), x@),
{
    let mut i: usize = 0;
    while i < v.len()
        invariant
            i <= v@.len(),
            forall|j: int| 0 <= j < i ==> string_seq_views(v@)[j] != x@,
        decreases v@.len() - i,
    {
        if v[i] == x {
            proof {
                assert(string_seq_views(v@)[i as int] == x@);
            }
            return;
        }
        i = i + 1;
    }
    proof {
        assert(!string_seq_views(v@).contains(x@));
        assert(string_seq_views(v@.push(x)) =~= string_seq_views(v@).push(x@));
    }
    v.push(x);
}

fn is_untracked_code(s: &[char]) -> (r: bool)
    ensures
        r == (s@ == seq!['?', '?']),
{
    let r = s.len() == 2 && s[0] == '?' && s[1] == '?';
    proof {
        if s@.len() == 2 {
            assert(s@ =~= seq![s@[0], s@[1]]);
        }
    }
    r
}

fn prefixed(prefix: Vec<String>, paths: &Vec<String>) -> (r: Vec<String>)
    ensures
        string_seq_views(r@) == string_seq_views(prefix@) + string_seq_views(paths@),
{
    let mut r = prefix;
    let ghost start = string_seq_views(r@);
    let mut i: usize = 0;
    while i < paths.len()
        invariant
            i <= paths@.len(),
            string_seq_views(r@) == start + string_seq_views(paths@).take(i as int),
        decreases paths@.len() - i,
    {
        let p = paths[i].clone();
        proof {
            assert(string_seq_views(r@.push(p)) =~= string_seq_views(r@).push(p@));
            assert(string_seq_views(paths@).take(i + 1) =~= string_seq_views(paths@).take(i as int).push(
                p@,
            ));
        }
        r.push(p);
        i = i + 1;
    }
    proof {
        assert(string_seq_views(paths@).take(paths@.len() as int) =~= string_seq_views(paths@));
    }
    r
}

pub fn discard_commands(files: &Vec<FileStatus>, exclusions: &[String]) -> (r: Vec<Vec<String>>)
    ensures
        command_views(r@) == discard_commands_spec(status_views(files@), string_seq_views(exclusions@)),
{
    let ghost fv = status_views(files@);
    let ghost pats = string_seq_views(exclusions@);
    let mut to_restore: Vec<String> = Vec::new();
    let mut to_clean: Vec<String> = Vec::new();
    proof {
        assert(string_seq_views(to_restore@) =~= Seq::empty());
        assert(string_seq_views(to_clean@) =~= Seq::empty());
    }
    let mut i: usize = 0;
    while i < files.len()
        invariant
            i <= files@.len(),
            fv == status_views(files@),
            pats == string_seq_views(exclusions@),
            (string_seq_views(to_restore@), string_seq_views(to_clean@)) == discard_fold(fv, i as int, pats),
        decreases files@.len() - i,
    {
        let f = &files[i];
        proof {
            assert(fv[i as int] == f@);
        }
        let pc = chars_of(f.path.as_str());
        let p = trim_chars(pc.as_slice());
        let path = string_of(p.as_slice());
        if p.len() > 0 && !is_excluded(path.as_str(), exclusions) {
            let sc = chars_of(f.status.as_str());
            let st = trim_chars(sc.as_slice());
            if is_untracked_code(st.as_slice()) {
                push_unique(&mut to_clean, path);
            } else {
                match split_rename_path(path.as_str()) {
                    Some((o, n)) => {
                        push_unique(&mut to_restore, o);
                        push_unique(&mut to_restore, n);
                    },
                    None => {
                        push_unique(&mut to_restore, path);
                    },
                }
            }
        }
        i = i + 1;
    }
    let mut cmds: Vec<Vec<String>> = Vec::new();
    let ghost t = string_seq_views(to_restore@);
    let ghost u = string_seq_views(to_clean@);
    if to_restore.len() > 0 {
        let head = vec![
            "restore".to_string(),
            "--source=HEAD".to_string(),
            "--staged".to_string(),
            "--worktree".to_string(),
            "--".to_string(),
        ];
        proof {
            assert(string_seq_views(head@) =~= seq!["restore"@, "--source=HEAD"@, "--staged"@, "--worktree"@, "--"@]);
        }
        let c = prefixed(head, &to_restore);
        cmds.push(c);
    }
    let ghost mid = command_views(cmds@);
    proof {
        assert(mid =~= (if t.len() > 0 {
            seq![seq!["restore"@, "--source=HEAD"@, "--staged"@, "--worktree"@, "--"@] + t]
        } else {
            Seq::empty()
        }));
    }
    if to_clean.len() > 0 {
        let head = vec!["clean".to_string(), "-fd".to_string(), "--".to_string()];
        proof {
            assert(string_seq_views(head@) =~= seq!["clean"@, "-fd"@, "--"@]);
        }
        let c = prefixed(head, &to_clean);
        proof {
            assert(command_views(cmds@.push(c)) =~= mid.push(string_seq_views(c@)));
        }
        cmds.push(c);
    }
    proof {
        assert(command_views(cmds@) =~= discard_commands_spec(fv, pats));
    }
    cmds
}

/// The stash command for one file: the new side of a rename, to_clean
/// files included with `-u`; blank and excluded paths are refused.
pub open spec fn stash_target(path: Seq<char>) -> Seq<char> {
    match rename_parts(trim(path)) {
        Some((_, n)) => n,
        None => trim(path),
    }
}

pub fn stash_file_args(file: &FileStatus, exclusions: &[String]) -> (r: Result<Vec<String>, String>)
    ensures
        trim(file.path@).len() == 0 ==> (r matches Err(e) && e@ == "No file path provided"@),
        trim(file.path@).len() > 0 && excluded(stash_target(file.path@), string_seq_views(exclusions@)) ==> (
        r matches Err(e) && e@ == "File "@ + stash_target(file.path@) + " is excluded from git operations"@),
        trim(file.path@).len() > 0 && !excluded(stash_target(file.path@), string_seq_views(exclusions@)) ==> (
        r matches Ok(args) && string_seq_views(args@) == seq![
            "stash"@,
            "push"@,
            "-m"@,
            "stash "@ + stash_target(file.path@),
        ] + (if trim(file.status@) == seq!['?', '?'] {
            seq!["-u"@]
        } else {
            Seq::empty()
        }) + seq!["--"@, stash_target(file.path@)]),
{
    let pc = chars_of(file.path.as_str());
    let p = trim_chars(pc.as_slice());
    if p.len() == 0 {
        return Err("No file path provided".to_string());
    }
    let raw = string_of(p.as_slice());
    let target = match split_rename_path(raw.as_str()) {
        Some((_, n)) => n,
        None => raw,
    };
    if is_excluded(target.as_str(), exclusions) {
        let mut m = String::new();
        m.append("File ");
        m.append(target.as_str());
        m.append(" is excluded from git operations");
        return Err(m);
    }
    let mut message = "stash ".to_string();
    message.append(target.as_str());
    let mut args = vec!["stash".to_string(), "push".to_string(), "-m".to_string(), message];
    let ghost a0 = string_seq_views(args@);
    let sc = chars_of(file.status.as_str());
    let st = trim_chars(sc.as_slice());
    if is_untracked_code(st.as_slice()) {
        args.push("-u".to_string());
    }
    let ghost a1 = string_seq_views(args@);
    args.push("--".to_string());
    let t2 = target.clone();
    args.push(t2);
    proof {
        assert(string_seq_views(args@) =~= seq!["stash"@, "push"@, "-m"@, "stash "@ + target@] + (if trim(
            file.status@,
        ) == seq!['?', '?'] {
            seq!["-u"@]
        } else {
            Seq::empty()
        }) + seq!["--"@, target@]);
    }
    Ok(args)
}

/// `add .` with every non-blank exclusion as a `:!` pathspec.
pub open spec fn add_all_fold(pats: Seq<Seq<char>>, n: int) -> Seq<Seq<char>>
    decreases n,
{
    if n <= 0 {
        seq!["add"@, "."@]
    } else if trim(pats[n - 1]).len() > 0 {
        add_all_fold(pats, n - 1).push(":!"@ + pats[n - 1])
    } else {
        add_all_fold(pats, n - 1)
    }
}

pub fn add_all_args(exclusions: &[String]) -> (r: Vec<String>)
    ensures
        string_seq_views(r@) == add_all_fold(string_seq_views(exclusions@), exclusions@.len() as int),
{
    let ghost pats = string_seq_views(exclusions@);
    let mut args = vec!["add".to_string(), ".".to_string()];
    proof {
        assert(string_seq_views(args@) =~= seq!["add"@, "."@]);
    }
    let mut i: usize = 0;
    while i < exclusions.len()
        invariant
            i <= exclusions@.len(),
            pats == string_seq_views(exclusions@),
            string_seq_views(args@) == add_all_fold(pats, i as int),
        decreases exclusions@.len() - i,
    {
        proof {
            assert(pats[i as int] == exclusions@[i as int]@);
        }
        let cs = chars_of(exclusions[i].as_str());
        let t = trim_chars(cs.as_slice());
        if t.len() > 0 {
            let mut s = ":!".to_string();
            s.append(exclusions[i].as_str());
            proof {
                assert(string_seq_views(args@.push(s)) =~= string_seq_views(args@).push(s@));
            }
            args.push(s);
        }
        i = i + 1;
    }
    args
}

/// `push` where the branch has an upstream; otherwise `push -u origin
/// <branch>` with the current branch's name.
pub fn push_args(has_upstream: bool, current_branch_output: &str) -> (r: Vec<String>)
    ensures
        has_upstream ==> string_seq_views(r@) == seq!["push"@],
        !has_upstream ==> string_seq_views(r@) == seq!["push"@, "-u"@, "origin"@, trim(current_branch_output@)],
{
    if has_upstream {
        let r = vec!["push".to_string()];
        proof {
            assert(string_seq_views(r@) =~= seq!["push"@]);
        }
        r
    } else {
        let cs = chars_of(current_branch_output);
        let b = trim_chars(cs.as_slice());
        let r = vec!["push".to_string(), "-u".to_string(), "origin".to_string(), string_of(b.as_slice())];
        proof {
            assert(string_seq_views(r@) =~= seq!["push"@, "-u"@, "origin"@, trim(current_branch_output@)]);
        }
        r
    }
}

pub open spec fn count_value(s: Seq<char>) -> nat {
    match parse_unsigned(trim(s), u32::MAX as nat) {
        Some(n) => n,
        None => 0,
    }
}

/// The commits ahead of the upstream, from `rev-list --count`; 0 where the
/// output is no number.
pub fn ahead_count(stdout: &str) -> (r: u32)
    ensures
        r as nat == count_value(stdout@),
{
    let cs = chars_of(stdout);
    let t = trim_chars(cs.as_slice());
    match parse_u32(t.as_slice()) {
        Some(n) => n,
        None => 0,
    }
}

/// Without an upstream, the commits not on any remote branch, at least 1
/// (the branch still needs pushing); 1 where even that count failed.
pub fn unpushed_count(not_on_remotes: Option<String>) -> (r: u32)
    ensures
        not_on_remotes is None ==> r == 1,
        not_on_remotes matches Some(s) ==> r as nat == (if count_value(s@) == 0 {
            1
        } else {
            count_value(s@)
        }),
{
    match not_on_remotes {
        None => 1,
        Some(s) => {
            let c = ahead_count(s.as_str());
            if c == 0 {
                1
            } else {
                c
            }
        },
    }
}

} // verus!

verus! {

/// `add <path>`, refused for an excluded path.
pub fn add_path_args(path: &str, exclusions: &[String]) -> (r: Result<Vec<String>, String>)
    ensures
        excluded(path@, string_seq_views(exclusions@)) ==> (r matches Err(e) && e@ == "File "@ + path@
            + " is excluded from git operations"@),
        !excluded(path@, string_seq_views(exclusions@)) ==> (r matches Ok(args) && string_seq_views(args@)
            == seq!["add"@, path@]),
{
    if is_excluded(path, exclusions) {
        let mut m = "File ".to_string();
        m.append(path);
        m.append(" is excluded from git operations");
        return Err(m);
    }
    let args = vec!["add".to_string(), path.to_string()];
    proof {
        assert(string_seq_views(args@) =~= seq!["add"@, path@]);
    }
    Ok(args)
}

} // verus!
