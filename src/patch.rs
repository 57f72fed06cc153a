//! Single-line patches: a zero-context diff is read into its header and its
//! added/removed lines (each with an anchor into the other side), and one
//! selected line, or one removed/added pair, becomes a minimal hunk that
//! `git apply --cached --unidiff-zero` accepts.

use vstd::prelude::*;
use crate::diff::{content_after_marker, succ_sat, succ_sat_exec};
use crate::numeric::{decimal, parse_u32, parse_unsigned, push_decimal};
use crate::text::{
    after_char, before_char, chars_of, has_prefix, lines_of, lines_text, push_chars, seq_views,
    slice_vec, split_lines, split_once_char, split_words, starts_with, string_of, words_of,
    };

verus! {

/// The line a caller wants to stage or unstage: an old line (a removal), a
/// new line (an addition), or both (a one-line modification).
#[derive(Debug, Clone, Copy, PartialEq, Eq, Structural)]
pub struct StageLineSelection {
    pub old_line_number: Option<u32>,
    pub new_line_number: Option<u32>,
}

#[derive(Debug, Clone, Copy, PartialEq, Eq, Structural)]
pub enum ParsedPatchLineKind {
    Add,
    Remove,
}

/// An added or removed line of a zero-context diff, with its own number and
/// the position it stands at on each side.
#[derive(Debug, Clone, PartialEq, Eq)]
pub struct ParsedPatchLine {
    pub kind: ParsedPatchLineKind,
    pub content: String,
    pub old_line: Option<u32>,
    pub new_line: Option<u32>,
    pub old_anchor: u32,
    pub new_anchor: u32,
}

#[derive(Debug, Clone, PartialEq, Eq)]
pub struct ParsedPatchHunk {
    pub lines: Vec<ParsedPatchLine>,
}

/// A zero-context diff: the header lines kept verbatim, then its hunks.
#[derive(Debug, Clone, PartialEq, Eq)]
pub struct ParsedUnstagedPatch {
    pub header_lines: Vec<String>,
    pub hunks: Vec<ParsedPatchHunk>,
}

// ---------------------------------------------------------------------------
// Model
// ---------------------------------------------------------------------------

pub struct PatchLineModel {
    pub kind: ParsedPatchLineKind,
    pub content: Seq<char>,
    pub old_line: Option<u32>,
    pub new_line: Option<u32>,
    pub old_anchor: u32,
    pub new_anchor: u32,
}

pub struct PatchModel {
    pub header: Seq<Seq<char>>,
    pub hunks: Seq<Seq<PatchLineModel>>,
}

impl View for ParsedPatchLine {
    type V = PatchLineModel;

    open spec fn view(&self) -> PatchLineModel {
        PatchLineModel {
            kind: self.kind,
            content: self.content@,
            old_line: self.old_line,
            new_line: self.new_line,
            old_anchor: self.old_anchor,
            new_anchor: self.new_anchor,
        }
    }
}

pub open spec fn patch_line_views(v: Seq<ParsedPatchLine>) -> Seq<PatchLineModel> {
    v.map_values(|l: ParsedPatchLine| l@)
}

impl View for ParsedPatchHunk {
    type V = Seq<PatchLineModel>;

    open spec fn view(&self) -> Seq<PatchLineModel> {
        patch_line_views(self.lines@)
    }
}

pub open spec fn patch_hunk_views(v: Seq<ParsedPatchHunk>) -> Seq<Seq<PatchLineModel>> {
    v.map_values(|h: ParsedPatchHunk| h@)
}

pub open spec fn string_views(v: Seq<String>) -> Seq<Seq<char>> {
    v.map_values(|s: String| s@)
}

impl View for ParsedUnstagedPatch {
    type V = PatchModel;

    open spec fn view(&self) -> PatchModel {
        PatchModel { header: string_views(self.header_lines@), hunks: patch_hunk_views(self.hunks@) }
    }
}

// ---------------------------------------------------------------------------
// Reading a zero-context diff
// ---------------------------------------------------------------------------

pub open spec fn quoted(msg: Seq<char>, tok: Seq<char>) -> Seq<char> {
    msg + tok + "'"@
}

/// A hunk range token such as `-12,3` or `+7`: its start and count (1 when
/// the count is left out), or the reason it does not read.
pub open spec fn hunk_range(tok: Seq<char>, prefix: char) -> Result<(u32, u32), Seq<char>> {
    if !(tok.len() > 0 && tok[0] == prefix) {
        Err(quoted("Invalid hunk token '"@, tok))
    } else {
        let range = tok.drop_first();
        match parse_unsigned(before_char(range, ','), u32::MAX as nat) {
            None => Err(quoted("Invalid hunk range start '"@, tok)),
            Some(start) => match after_char(range, ',') {
                None => Ok((start as u32, 1u32)),
                Some(c) => match parse_unsigned(c, u32::MAX as nat) {
                    None => Err(quoted("Invalid hunk range count '"@, tok)),
                    Some(count) => Ok((start as u32, count as u32)),
                },
            },
        }
    }
}

/// The old and new starts that a `@@ -a,b +c,d @@` line declares.
pub open spec fn hunk_header(l: Seq<char>) -> Result<(u32, u32), Seq<char>> {
    let parts = words_of(l);
    if parts.len() < 3 {
        Err(quoted("Invalid hunk header '"@, l))
    } else {
        match hunk_range(parts[1], '-') {
            Err(e) => Err(e),
            Ok((old_start, _)) => match hunk_range(parts[2], '+') {
                Err(e) => Err(e),
                Ok((new_start, _)) => Ok((old_start, new_start)),
            },
        }
    }
}

/// Where the header ends: at the first hunk marker.
pub open spec fn header_end_from(lines: Seq<Seq<char>>, i: int) -> int
    decreases lines.len() - i,
{
    if i < 0 || i >= lines.len() {
        lines.len() as int
    } else if has_prefix(lines[i], "@@"@) {
        i
    } else {
        header_end_from(lines, i + 1)
    }
}

#[derive(Debug, Clone, Copy, PartialEq, Eq, Structural)]
pub enum ScanPhase {
    Scanning,
    InHunk,
    Done,
    Failed,
}

/// The hunk scanner between lines: finished hunks, the open hunk's lines,
/// the two cursors, and the error once one is met.
pub struct ScanState {
    pub phase: ScanPhase,
    pub hunks: Seq<Seq<PatchLineModel>>,
    pub cur: Seq<PatchLineModel>,
    pub old: u32,
    pub new: u32,
    pub error: Seq<char>,
}

/// A line outside any hunk: a second file ends the scan once a hunk was
/// read; a hunk marker opens a hunk; anything else is passed over.
pub open spec fn scan_outside(sc: ScanState, l: Seq<char>) -> ScanState {
    if has_prefix(l, "diff --git "@) && sc.hunks.len() > 0 {
        ScanState { phase: ScanPhase::Done, ..sc }
    } else if has_prefix(l, "@@"@) {
        match hunk_header(l) {
            Err(e) => ScanState { phase: ScanPhase::Failed, error: e, ..sc },
            Ok((o, n)) => ScanState { phase: ScanPhase::InHunk, cur: Seq::empty(), old: o, new: n, ..sc },
        }
    } else {
        sc
    }
}

/// A line inside a hunk: `+` and `-` lines are recorded with both cursors
/// as anchors, ` ` lines advance both cursors, others change nothing.
pub open spec fn scan_body(sc: ScanState, l: Seq<char>) -> ScanState {
    if has_prefix(l, "\\ No newline at end of file"@) {
        sc
    } else if l.len() > 0 && l[0] == '+' {
        let x = PatchLineModel {
            kind: ParsedPatchLineKind::Add,
            content: l.drop_first(),
            old_line: None,
            new_line: Some(sc.new),
            old_anchor: sc.old,
            new_anchor: sc.new,
        };
        ScanState { cur: sc.cur.push(x), new: succ_sat(sc.new), ..sc }
    } else if l.len() > 0 && l[0] == '-' {
        let x = PatchLineModel {
            kind: ParsedPatchLineKind::Remove,
            content: l.drop_first(),
            old_line: Some(sc.old),
            new_line: None,
            old_anchor: sc.old,
            new_anchor: sc.new,
        };
        ScanState { cur: sc.cur.push(x), old: succ_sat(sc.old), ..sc }
    } else if l.len() > 0 && l[0] == ' ' {
        ScanState { old: succ_sat(sc.old), new: succ_sat(sc.new), ..sc }
    } else {
        sc
    }
}

pub open spec fn scan_step(sc: ScanState, l: Seq<char>) -> ScanState {
    match sc.phase {
        ScanPhase::Scanning => scan_outside(sc, l),
        ScanPhase::InHunk => if has_prefix(l, "@@"@) || has_prefix(l, "diff --git "@) {
            scan_outside(
                ScanState {
                    phase: ScanPhase::Scanning,
                    hunks: sc.hunks.push(sc.cur),
                    cur: Seq::empty(),
                    ..sc
                },
                l,
            )
        } else {
            scan_body(sc, l)
        },
        _ => sc,
    }
}

pub open spec fn scan_start() -> ScanState {
    ScanState {
        phase: ScanPhase::Scanning,
        hunks: Seq::empty(),
        cur: Seq::empty(),
        old: 0,
        new: 0,
        error: Seq::empty(),
    }
}

/// The scanner after lines `from .. n`.
pub open spec fn scan_fold(lines: Seq<Seq<char>>, from: int, n: int) -> ScanState
    decreases n - from,
{
    if n <= from {
        scan_start()
    } else {
        scan_step(scan_fold(lines, from, n - 1), lines[n - 1])
    }
}

/// The hunks a finished scan read, the open one included.
pub open spec fn scan_hunks(sc: ScanState) -> Seq<Seq<PatchLineModel>> {
    if sc.phase == ScanPhase::InHunk {
        sc.hunks.push(sc.cur)
    } else {
        sc.hunks
    }
}

/// What a zero-context diff reads as, or why it does not.
pub open spec fn parse_patch(s: Seq<char>) -> Result<PatchModel, Seq<char>> {
    let lines = lines_of(s);
    let e = header_end_from(lines, 0);
    if e == 0 {
        Err("Unable to parse diff header"@)
    } else {
        let sc = scan_fold(lines, e, lines.len() as int);
        if sc.phase == ScanPhase::Failed {
            Err(sc.error)
        } else if scan_hunks(sc).len() == 0 {
            Err("No unstaged diff hunks available for selected file"@)
        } else {
            Ok(PatchModel { header: lines.take(e), hunks: scan_hunks(sc) })
        }
    }
}

pub open spec fn patch_result(r: Result<ParsedUnstagedPatch, String>) -> Result<PatchModel, Seq<char>> {
    match r {
        Ok(p) => Ok(p@),
        Err(e) => Err(e@),
    }
}

} // verus!

verus! {

proof fn lemma_patch_line_views_push(v: Seq<ParsedPatchLine>, x: ParsedPatchLine)
    ensures
        patch_line_views(v.push(x)) == patch_line_views(v).push(x@),
{
    assert(patch_line_views(v.push(x)) =~= patch_line_views(v).push(x@));
}

proof fn lemma_patch_hunk_views_push(v: Seq<ParsedPatchHunk>, x: ParsedPatchHunk)
    ensures
        patch_hunk_views(v.push(x)) == patch_hunk_views(v).push(x@),
{
    assert(patch_hunk_views(v.push(x)) =~= patch_hunk_views(v).push(x@));
}

proof fn lemma_string_views_push(v: Seq<String>, x: String)
    ensures
        string_views(v.push(x)) == string_views(v).push(x@),
{
    assert(string_views(v.push(x)) =~= string_views(v).push(x@));
}

fn quoted_exec(msg: &str, tok: &[char]) -> (r: String)
    ensures
        r@ == quoted(msg@, tok@),
{
    let mut r = String::new();
    r.append(msg);
    push_chars(&mut r, tok);
    r.append("'");
    r
}

fn hunk_range_chars(tok: &[char], prefix: char) -> (r: Result<(u32, u32), String>)
    ensures
        match r {
            Ok(v) => hunk_range(tok@, prefix) == Ok::<(u32, u32), Seq<char>>(v),
            Err(e) => hunk_range(tok@, prefix) == Err::<(u32, u32), Seq<char>>(e@),
        },
{
    if !(tok.len() > 0 && tok[0] == prefix) {
        return Err(quoted_exec("Invalid hunk token '", tok));
    }
    let range = slice_vec(tok, 1, tok.len());
    proof {
        assert(range@ =~= tok@.drop_first());
    }
    let (head, rest) = split_once_char(range.as_slice(), ',');
    let start = match parse_u32(head.as_slice()) {
        Some(v) => v,
        None => {
            return Err(quoted_exec("Invalid hunk range start '", tok));
        },
    };
    match rest {
        None => Ok((start, 1)),
        Some(c) => match parse_u32(c.as_slice()) {
            Some(count) => Ok((start, count)),
            None => Err(quoted_exec("Invalid hunk range count '", tok)),
        },
    }
}

/// Reads a hunk range token (`-12,3`, `+7`) whose first character must be
/// `prefix`: its start and its count, 1 where the count is left out.
pub fn parse_hunk_range(token: &str, prefix: char) -> (r: Result<(u32, u32), String>)
    ensures
        match r {
            Ok(v) => hunk_range(token@, prefix) == Ok::<(u32, u32), Seq<char>>(v),
            Err(e) => hunk_range(token@, prefix) == Err::<(u32, u32), Seq<char>>(e@),
        },
{
    let tok = chars_of(token);
    hunk_range_chars(tok.as_slice(), prefix)
}

/// Reads the old and new starts of a `@@ -a,b +c,d @@` line.
pub fn parse_hunk_header(l: &[char]) -> (r: Result<(u32, u32), String>)
    ensures
        match r {
            Ok(v) => hunk_header(l@) == Ok::<(u32, u32), Seq<char>>(v),
            Err(e) => hunk_header(l@) == Err::<(u32, u32), Seq<char>>(e@),
        },
{
    let parts = split_words(l);
    if parts.len() < 3 {
        return Err(quoted_exec("Invalid hunk header '", l));
    }
    proof {
        assert(seq_views(parts@)[1] == parts@[1]@);
        assert(seq_views(parts@)[2] == parts@[2]@);
    }
    let (old_start, _) = match hunk_range_chars(parts[1].as_slice(), '-') {
        Ok(v) => v,
        Err(e) => {
            return Err(e);
        },
    };
    let (new_start, _) = match hunk_range_chars(parts[2].as_slice(), '+') {
        Ok(v) => v,
        Err(e) => {
            return Err(e);
        },
    };
    Ok((old_start, new_start))
}

/// The header lines of a diff (everything before the first hunk marker)
/// and the index where they end.
pub fn parse_diff_header(lines: &Vec<Vec<char>>) -> (r: Result<(Vec<String>, usize), String>)
    ensures
        match r {
            Ok((header, end)) => {
                &&& end as int == header_end_from(seq_views(lines@), 0)
                &&& 0 < end <= lines@.len()
                &&& string_views(header@) == seq_views(lines@).take(end as int)
            },
            Err(e) => {
                &&& header_end_from(seq_views(lines@), 0) == 0
                &&& e@ == "Unable to parse diff header"@
            },
        },
{
    let ghost ls = seq_views(lines@);
    let mut header: Vec<String> = Vec::new();
    let mut i: usize = 0;
    while i < lines.len()
        invariant_except_break
            ls == seq_views(lines@),
            i <= lines@.len(),
            header_end_from(ls, i as int) == header_end_from(ls, 0),
            string_views(header@) == ls.take(i as int),
        ensures
            i <= lines@.len(),
            header_end_from(ls, 0) == i,
            string_views(header@) == ls.take(i as int),
        decreases lines@.len() - i,
    {
        proof {
            assert(ls[i as int] == lines@[i as int]@);
        }
        let line = lines[i].as_slice();
        if starts_with(line, "@@") {
            break;
        }
        let s = string_of(line);
        proof {
            lemma_string_views_push(header@, s);
            assert(ls.take(i + 1) =~= ls.take(i as int).push(ls[i as int]));
        }
        header.push(s);
        i = i + 1;
    }
    if i == 0 {
        return Err("Unable to parse diff header".to_string());
    }
    Ok((header, i))
}

struct PatchScanner {
    phase: ScanPhase,
    hunks: Vec<ParsedPatchHunk>,
    cur: Vec<ParsedPatchLine>,
    old: u32,
    new: u32,
    error: String,
}

impl View for PatchScanner {
    type V = ScanState;

    closed spec fn view(&self) -> ScanState {
        ScanState {
            phase: self.phase,
            hunks: patch_hunk_views(self.hunks@),
            cur: patch_line_views(self.cur@),
            old: self.old,
            new: self.new,
            error: self.error@,
        }
    }
}

impl PatchScanner {
    fn outside(self, l: &[char]) -> (r: PatchScanner)
        ensures
            r@ == scan_outside(self@, l@),
    {
        if starts_with(l, "diff --git ") && self.hunks.len() > 0 {
            return PatchScanner { phase: ScanPhase::Done, ..self };
        }
        if starts_with(l, "@@") {
            match parse_hunk_header(l) {
                Err(e) => PatchScanner { phase: ScanPhase::Failed, error: e, ..self },
                Ok((o, n)) => {
                    let r = PatchScanner { phase: ScanPhase::InHunk, cur: Vec::new(), old: o, new: n, ..self };
                    proof {
                        assert(patch_line_views(r.cur@) =~= Seq::empty());
                    }
                    r
                },
            }
        } else {
            self
        }
    }

    fn body(self, l: &[char]) -> (r: PatchScanner)
        ensures
            r@ == scan_body(self@, l@),
    {
        if starts_with(l, "\\ No newline at end of file") {
            return self;
        }
        if l.len() > 0 && l[0] == '+' {
            let x = ParsedPatchLine {
                kind: ParsedPatchLineKind::Add,
                content: content_after_marker(l),
                old_line: None,
                new_line: Some(self.new),
                old_anchor: self.old,
                new_anchor: self.new,
            };
            let PatchScanner { phase, hunks, mut cur, old, new, error } = self;
            proof {
                lemma_patch_line_views_push(cur@, x);
            }
            cur.push(x);
            PatchScanner { phase, hunks, cur, old, new: succ_sat_exec(new), error }
        } else if l.len() > 0 && l[0] == '-' {
            let x = ParsedPatchLine {
                kind: ParsedPatchLineKind::Remove,
                content: content_after_marker(l),
                old_line: Some(self.old),
                new_line: None,
                old_anchor: self.old,
                new_anchor: self.new,
            };
            let PatchScanner { phase, hunks, mut cur, old, new, error } = self;
            proof {
                lemma_patch_line_views_push(cur@, x);
            }
            cur.push(x);
            PatchScanner { phase, hunks, cur, old: succ_sat_exec(old), new, error }
        } else if l.len() > 0 && l[0] == ' ' {
            let old = succ_sat_exec(self.old);
            let new = succ_sat_exec(self.new);
            PatchScanner { old, new, ..self }
        } else {
            self
        }
    }

    fn step(self, l: &[char]) -> (r: PatchScanner)
        ensures
            r@ == scan_step(self@, l@),
    {
        let phase = self.phase;
        if phase == ScanPhase::Scanning {
            self.outside(l)
        } else if phase == ScanPhase::InHunk {
            if starts_with(l, "@@") || starts_with(l, "diff --git ") {
                let PatchScanner { phase: _, mut hunks, cur, old, new, error } = self;
                let h = ParsedPatchHunk { lines: cur };
                proof {
                    lemma_patch_hunk_views_push(hunks@, h);
                }
                hunks.push(h);
                let closed = PatchScanner {
                    phase: ScanPhase::Scanning,
                    hunks,
                    cur: Vec::new(),
                    old,
                    new,
                    error,
                };
                let r = closed.outside(l);
                proof {
                    assert(patch_line_views(Seq::<ParsedPatchLine>::empty()) =~= Seq::empty());
                }
                r
            } else {
                self.body(l)
            }
        } else {
            self
        }
    }
}

/// A parsed patch from its header and hunks; there must be a hunk.
pub fn build_parsed_patch(header_lines: Vec<String>, hunks: Vec<ParsedPatchHunk>) -> (r: Result<
    ParsedUnstagedPatch,
    String,
>)
    ensures
        hunks@.len() == 0 ==> r is Err && r->Err_0@ == "No unstaged diff hunks available for selected file"@,
        hunks@.len() > 0 ==> r is Ok && r->Ok_0.header_lines@ == header_lines@ && r->Ok_0.hunks@
            == hunks@,
{
    if hunks.len() == 0 {
        return Err("No unstaged diff hunks available for selected file".to_string());
    }
    Ok(ParsedUnstagedPatch { header_lines, hunks })
}

/// Reads a zero-context diff into its header and its added/removed lines.
pub fn parse_unstaged_zero_context_diff(diff_output: &str) -> (r: Result<ParsedUnstagedPatch, String>)
    ensures
        patch_result(r) == parse_patch(diff_output@),
{
    let cs = chars_of(diff_output);
    let lines = split_lines(cs.as_slice());
    let ghost ls = lines_of(diff_output@);
    let (header, start) = match parse_diff_header(&lines) {
        Ok(v) => v,
        Err(e) => {
            return Err(e);
        },
    };
    let mut sc = PatchScanner {
        phase: ScanPhase::Scanning,
        hunks: Vec::new(),
        cur: Vec::new(),
        old: 0,
        new: 0,
        error: String::new(),
    };
    proof {
        assert(patch_hunk_views(sc.hunks@) =~= Seq::empty());
        assert(patch_line_views(sc.cur@) =~= Seq::empty());
    }
    let mut i: usize = start;
    while i < lines.len()
        invariant
            start <= i <= lines@.len(),
            seq_views(lines@) == ls,
            sc@ == scan_fold(ls, start as int, i as int),
        decreases lines@.len() - i,
    {
        proof {
            assert(ls[i as int] == lines@[i as int]@);
        }
        sc = sc.step(lines[i].as_slice());
        i = i + 1;
    }
    let PatchScanner { phase, mut hunks, cur, old: _, new: _, error } = sc;
    if phase == ScanPhase::Failed {
        return Err(error);
    }
    if phase == ScanPhase::InHunk {
        let h = ParsedPatchHunk { lines: cur };
        proof {
            lemma_patch_hunk_views_push(hunks@, h);
        }
        hunks.push(h);
    }
    build_parsed_patch(header, hunks)
}

} // verus!

verus! {

// ---------------------------------------------------------------------------
// Finding the selected line
// ---------------------------------------------------------------------------

pub open spec fn line_matches(l: PatchLineModel, n: u32, kind: ParsedPatchLineKind) -> bool {
    l.kind == kind && if kind == ParsedPatchLineKind::Add {
        l.new_line == Some(n)
    } else {
        l.old_line == Some(n)
    }
}

pub open spec fn has_match(p: PatchModel, n: u32, kind: ParsedPatchLineKind) -> bool {
    exists|h: int, k: int|
        0 <= h < p.hunks.len() && 0 <= k < p.hunks[h].len() && line_matches(
            #[trigger] p.hunks[h][k],
            n,
            kind,
        )
}

/// Line `k` of hunk `h` matches, and no line before it (in hunk order) does.
pub open spec fn is_first_match(p: PatchModel, n: u32, kind: ParsedPatchLineKind, h: int, k: int) -> bool {
    &&& 0 <= h < p.hunks.len()
    &&& 0 <= k < p.hunks[h].len()
    &&& line_matches(p.hunks[h][k], n, kind)
    &&& forall|h2: int, k2: int|
        0 <= h2 < h && 0 <= k2 < p.hunks[h2].len() ==> !line_matches(#[trigger] p.hunks[h2][k2], n, kind)
    &&& forall|k2: int| 0 <= k2 < k ==> !line_matches(#[trigger] p.hunks[h][k2], n, kind)
}

pub open spec fn first_match(p: PatchModel, n: u32, kind: ParsedPatchLineKind) -> (int, int) {
    choose|hk: (int, int)| is_first_match(p, n, kind, hk.0, hk.1)
}

pub proof fn lemma_first_match_unique(p: PatchModel, n: u32, kind: ParsedPatchLineKind, h: int, k: int)
    requires
        is_first_match(p, n, kind, h, k),
    ensures
        first_match(p, n, kind) == (h, k),
{
    assert(is_first_match(p, n, kind, (h, k).0, (h, k).1));
    let hk = first_match(p, n, kind);
    assert(is_first_match(p, n, kind, hk.0, hk.1));
    if hk.0 < h {
        assert(!line_matches(p.hunks[hk.0][hk.1], n, kind));
    } else if hk.0 > h {
        assert(!line_matches(p.hunks[h][k], n, kind));
    } else if hk.1 < k {
        assert(!line_matches(p.hunks[h][hk.1], n, kind));
    } else if hk.1 > k {
        assert(!line_matches(p.hunks[h][k], n, kind));
    }
}

pub open spec fn not_found_message(n: u32, kind: ParsedPatchLineKind) -> Seq<char> {
    if kind == ParsedPatchLineKind::Add {
        "Unable to find added line "@ + decimal(n as nat) + " in unstaged diff (new)"@
    } else {
        "Unable to find removed line "@ + decimal(n as nat) + " in unstaged diff (old)"@
    }
}

/// The first added (by new number) or removed (by old number) line with
/// number `line_number`, as its hunk index and its index in that hunk.
pub fn lookup_line_in_patch(
    patch: &ParsedUnstagedPatch,
    line_number: u32,
    line_type: ParsedPatchLineKind,
) -> (r: Result<(usize, usize), String>)
    ensures
        match r {
            Ok((h, k)) => is_first_match(patch@, line_number, line_type, h as int, k as int),
            Err(e) => !has_match(patch@, line_number, line_type) && e@ == not_found_message(
                line_number,
                line_type,
            ),
        },
{
    let ghost p = patch@;
    let mut h: usize = 0;
    while h < patch.hunks.len()
        invariant
            p == patch@,
            h <= patch.hunks@.len(),
            forall|h2: int, k2: int|
                0 <= h2 < h && 0 <= k2 < p.hunks[h2].len() ==> !line_matches(
                    #[trigger] p.hunks[h2][k2],
                    line_number,
                    line_type,
                ),
        decreases patch.hunks@.len() - h,
    {
        let lines = &patch.hunks[h].lines;
        proof {
            assert(p.hunks[h as int] == patch_line_views(lines@));
        }
        let mut k: usize = 0;
        while k < lines.len()
            invariant
                p == patch@,
                h < patch.hunks@.len(),
                *lines == patch.hunks@[h as int].lines,
                p.hunks[h as int] == patch_line_views(lines@),
                k <= lines@.len(),
                forall|h2: int, k2: int|
                    0 <= h2 < h && 0 <= k2 < p.hunks[h2].len() ==> !line_matches(
                        #[trigger] p.hunks[h2][k2],
                        line_number,
                        line_type,
                    ),
                forall|k2: int| 0 <= k2 < k ==> !line_matches(#[trigger] p.hunks[h as int][k2], line_number, line_type),
            decreases lines@.len() - k,
        {
            let line = &lines[k];
            proof {
                assert(p.hunks[h as int][k as int] == line@);
            }
            let hit = match line_type {
                ParsedPatchLineKind::Add => line.kind == ParsedPatchLineKind::Add && line.new_line
                    == Some(line_number),
                ParsedPatchLineKind::Remove => line.kind == ParsedPatchLineKind::Remove && line.old_line
                    == Some(line_number),
            };
            if hit {
                return Ok((h, k));
            }
            k = k + 1;
        }
        h = h + 1;
    }
    proof {
        assert(!has_match(p, line_number, line_type));
    }
    let mut msg = String::new();
    match line_type {
        ParsedPatchLineKind::Add => {
            msg.append("Unable to find added line ");
            push_decimal(&mut msg, line_number as u64);
            msg.append(" in unstaged diff (new)");
        },
        ParsedPatchLineKind::Remove => {
            msg.append("Unable to find removed line ");
            push_decimal(&mut msg, line_number as u64);
            msg.append(" in unstaged diff (old)");
        },
    }
    Err(msg)
}

// ---------------------------------------------------------------------------
// The synthesized hunk
// ---------------------------------------------------------------------------

/// A one-line hunk: its header ranges and its `-`/`+` lines.
pub struct StageHunk {
    pub old_start: u32,
    pub old_count: u32,
    pub new_start: u32,
    pub new_count: u32,
    pub body: Seq<Seq<char>>,
}

/// The hunk that stages the selection: a paired modification
/// `@@ -o,1 +n,1 @@`, a deletion `@@ -o,1 +anchor,0 @@`, or an insertion
/// `@@ -anchor,0 +n,1 @@`; or why there is none.
pub open spec fn stage_hunk(p: PatchModel, sel: StageLineSelection) -> Result<StageHunk, Seq<char>> {
    let rem = ParsedPatchLineKind::Remove;
    let add = ParsedPatchLineKind::Add;
    match sel.old_line_number {
        Some(o) => if !has_match(p, o, rem) {
            Err(not_found_message(o, rem))
        } else {
            let (rh, rk) = first_match(p, o, rem);
            let rl = p.hunks[rh][rk];
            match sel.new_line_number {
                Some(n) => if !has_match(p, n, add) {
                    Err(not_found_message(n, add))
                } else {
                    let (ah, ak) = first_match(p, n, add);
                    let al = p.hunks[ah][ak];
                    if rh != ah {
                        Err("Selected modified line pair is in different hunks"@)
                    } else {
                        Ok(StageHunk {
                            old_start: o,
                            old_count: 1,
                            new_start: n,
                            new_count: 1,
                            body: seq![seq!['-'] + rl.content, seq!['+'] + al.content],
                        })
                    }
                },
                None => Ok(StageHunk {
                    old_start: o,
                    old_count: 1,
                    new_start: rl.new_anchor,
                    new_count: 0,
                    body: seq![seq!['-'] + rl.content],
                }),
            }
        },
        None => match sel.new_line_number {
            Some(n) => if !has_match(p, n, add) {
                Err(not_found_message(n, add))
            } else {
                let (ah, ak) = first_match(p, n, add);
                let al = p.hunks[ah][ak];
                Ok(StageHunk {
                    old_start: al.old_anchor,
                    old_count: 0,
                    new_start: n,
                    new_count: 1,
                    body: seq![seq!['+'] + al.content],
                })
            },
            None => Err("Stage-line selection is empty"@),
        },
    }
}

pub open spec fn hunk_header_text(h: StageHunk) -> Seq<char> {
    "@@ -"@ + decimal(h.old_start as nat) + seq![','] + decimal(h.old_count as nat) + " +"@ + decimal(
        h.new_start as nat,
    ) + seq![','] + decimal(h.new_count as nat) + " @@"@
}

/// The patch text: the diff's header lines, the hunk header, the hunk's
/// lines, each followed by a newline.
pub open spec fn stage_patch_text(p: PatchModel, h: StageHunk) -> Seq<char> {
    lines_text(p.header + seq![hunk_header_text(h)] + h.body)
}

/// A hunk header for a pure insertion declares no old lines and one new
/// line; for a pure deletion one old line and no new line; for a paired
/// modification one of each.
pub proof fn lemma_stage_hunk_counts(p: PatchModel, sel: StageLineSelection)
    ensures
        stage_hunk(p, sel) matches Ok(h) ==> {
            &&& (sel.old_line_number is None ==> h.old_count == 0 && h.new_count == 1)
            &&& (sel.new_line_number is None ==> h.old_count == 1 && h.new_count == 0)
            &&& (sel.old_line_number is Some && sel.new_line_number is Some ==> h.old_count == 1
                && h.new_count == 1)
        },
{
}

fn marked(marker: char, content: &String) -> (r: String)
    ensures
        r@ == seq![marker] + content@,
{
    let mut r = String::new();
    crate::text::push_char(&mut r, marker);
    r.append(content.as_str());
    proof {
        assert(r@ =~= seq![marker] + content@);
    }
    r
}

fn header_text_exec(old_start: u32, old_count: u32, new_start: u32, new_count: u32) -> (r: String)
    ensures
        r@ == hunk_header_text(
            StageHunk { old_start, old_count, new_start, new_count, body: Seq::empty() },
        ),
{
    let mut r = String::new();
    r.append("@@ -");
    push_decimal(&mut r, old_start as u64);
    r.append(",");
    push_decimal(&mut r, old_count as u64);
    r.append(" +");
    push_decimal(&mut r, new_start as u64);
    r.append(",");
    push_decimal(&mut r, new_count as u64);
    r.append(" @@");
    proof {
        reveal_strlit(",");
        assert(","@ =~= seq![',']);
    }
    r
}

/// The lines of `ls`, each followed by a newline.
pub fn join_lines(ls: &Vec<String>) -> (r: String)
    ensures
        r@ == lines_text(string_views(ls@)),
{
    let mut r = String::new();
    let mut i: usize = 0;
    while i < ls.len()
        invariant
            i <= ls@.len(),
            r@ == lines_text(string_views(ls@).take(i as int)),
        decreases ls@.len() - i,
    {
        r.append(ls[i].as_str());
        crate::text::push_char(&mut r, '\n');
        proof {
            let v = string_views(ls@);
            assert(v.take(i + 1).drop_last() =~= v.take(i as int));
            assert(v.take(i + 1).last() == ls@[i as int]@);
            assert(r@ =~= lines_text(v.take(i + 1)));
        }
        i = i + 1;
    }
    proof {
        assert(string_views(ls@).take(ls@.len() as int) =~= string_views(ls@));
    }
    r
}

pub open spec fn stage_result(p: PatchModel, sel: StageLineSelection, r: Result<String, String>) -> bool {
    match r {
        Ok(t) => stage_hunk(p, sel) matches Ok(h) && t@ == stage_patch_text(p, h),
        Err(e) => stage_hunk(p, sel) == Err::<StageHunk, Seq<char>>(e@),
    }
}

/// The patch text that stages exactly the selected line (or line pair):
/// the diff's header, then a one-line hunk, newline-terminated.
pub fn build_stage_line_patch(patch: &ParsedUnstagedPatch, selection: &StageLineSelection) -> (r: Result<
    String,
    String,
>)
    ensures
        stage_result(patch@, *selection, r),
{
    let ghost p = patch@;
    let rem = ParsedPatchLineKind::Remove;
    let add = ParsedPatchLineKind::Add;
    let (old_start, old_count, new_start, new_count, body): (u32, u32, u32, u32, Vec<String>) =
        match (selection.old_line_number, selection.new_line_number) {
        (Some(o), Some(n)) => {
            let (rh, rk) = match lookup_line_in_patch(patch, o, rem) {
                Ok(v) => v,
                Err(e) => {
                    return Err(e);
                },
            };
            let (ah, ak) = match lookup_line_in_patch(patch, n, add) {
                Ok(v) => v,
                Err(e) => {
                    proof {
                        lemma_first_match_unique(p, o, rem, rh as int, rk as int);
                    }
                    return Err(e);
                },
            };
            proof {
                lemma_first_match_unique(p, o, rem, rh as int, rk as int);
                lemma_first_match_unique(p, n, add, ah as int, ak as int);
            }
            if rh != ah {
                return Err("Selected modified line pair is in different hunks".to_string());
            }
            let rl = &patch.hunks[rh].lines[rk];
            let al = &patch.hunks[ah].lines[ak];
            proof {
                assert(p.hunks[rh as int][rk as int] == rl@);
                assert(p.hunks[ah as int][ak as int] == al@);
            }
            let mut body: Vec<String> = Vec::new();
            body.push(marked('-', &rl.content));
            body.push(marked('+', &al.content));
            proof {
                assert(string_views(body@) =~= seq![seq!['-'] + rl.content@, seq!['+'] + al.content@]);
                assert(stage_hunk(p, *selection) == Ok::<StageHunk, Seq<char>>(
                    StageHunk { old_start: o, old_count: 1, new_start: n, new_count: 1, body: string_views(body@) },
                ));
            }
            (o, 1, n, 1, body)
        },
        (Some(o), None) => {
            let (rh, rk) = match lookup_line_in_patch(patch, o, rem) {
                Ok(v) => v,
                Err(e) => {
                    return Err(e);
                },
            };
            proof {
                lemma_first_match_unique(p, o, rem, rh as int, rk as int);
            }
            let rl = &patch.hunks[rh].lines[rk];
            proof {
                assert(p.hunks[rh as int][rk as int] == rl@);
            }
            let mut body: Vec<String> = Vec::new();
            body.push(marked('-', &rl.content));
            proof {
                assert(string_views(body@) =~= seq![seq!['-'] + rl.content@]);
                assert(stage_hunk(p, *selection) == Ok::<StageHunk, Seq<char>>(
                    StageHunk {
                        old_start: o,
                        old_count: 1,
                        new_start: rl.new_anchor,
                        new_count: 0,
                        body: string_views(body@),
                    },
                ));
            }
            (o, 1, rl.new_anchor, 0, body)
        },
        (None, Some(n)) => {
            let (ah, ak) = match lookup_line_in_patch(patch, n, add) {
                Ok(v) => v,
                Err(e) => {
                    return Err(e);
                },
            };
            proof {
                lemma_first_match_unique(p, n, add, ah as int, ak as int);
            }
            let al = &patch.hunks[ah].lines[ak];
            proof {
                assert(p.hunks[ah as int][ak as int] == al@);
            }
            let mut body: Vec<String> = Vec::new();
            body.push(marked('+', &al.content));
            proof {
                assert(string_views(body@) =~= seq![seq!['+'] + al.content@]);
                assert(stage_hunk(p, *selection) == Ok::<StageHunk, Seq<char>>(
                    StageHunk {
                        old_start: al.old_anchor,
                        old_count: 0,
                        new_start: n,
                        new_count: 1,
                        body: string_views(body@),
                    },
                ));
            }
            (al.old_anchor, 0, n, 1, body)
        },
        (None, None) => {
            return Err("Stage-line selection is empty".to_string());
        },
    };
    let ghost h = StageHunk { old_start, old_count, new_start, new_count, body: string_views(body@) };
    proof {
        assert(stage_hunk(p, *selection) == Ok::<StageHunk, Seq<char>>(h));
    }
    let mut all: Vec<String> = Vec::new();
    let mut i: usize = 0;
    while i < patch.header_lines.len()
        invariant
            p == patch@,
            i <= patch.header_lines@.len(),
            string_views(all@) == p.header.take(i as int),
        decreases patch.header_lines@.len() - i,
    {
        let line = patch.header_lines[i].clone();
        proof {
            lemma_string_views_push(all@, line);
            assert(p.header.take(i + 1) =~= p.header.take(i as int).push(line@));
        }
        all.push(line);
        i = i + 1;
    }
    let header = header_text_exec(old_start, old_count, new_start, new_count);
    proof {
        lemma_string_views_push(all@, header);
    }
    all.push(header);
    let mut j: usize = 0;
    while j < body.len()
        invariant
            j <= body@.len(),
            string_views(all@) == p.header + seq![hunk_header_text(h)] + string_views(body@).take(
                j as int,
            ),
            h.body == string_views(body@),
        decreases body@.len() - j,
    {
        let line = body[j].clone();
        proof {
            lemma_string_views_push(all@, line);
            assert(string_views(body@).take(j + 1) =~= string_views(body@).take(j as int).push(line@));
        }
        all.push(line);
        proof {
            assert(string_views(all@) =~= p.header + seq![hunk_header_text(h)] + string_views(body@).take(
                j + 1,
            ));
        }
        j = j + 1;
    }
    proof {
        assert(p.header.take(p.header.len() as int) =~= p.header);
        assert(string_views(body@).take(body@.len() as int) =~= string_views(body@));
    }
    Ok(join_lines(&all))
}

} // verus!

verus! {

proof fn lemma_header_end_from(lines: Seq<Seq<char>>, i: int)
    requires
        0 <= i <= lines.len(),
        forall|k: int| 0 <= k < i ==> !has_prefix(#[trigger] lines[k], "@@"@),
    ensures
        i <= header_end_from(lines, i) <= lines.len(),
        forall|k: int| 0 <= k < header_end_from(lines, i) ==> !has_prefix(#[trigger] lines[k], "@@"@),
        header_end_from(lines, i) < lines.len() ==> has_prefix(lines[header_end_from(lines, i)], "@@"@),
    decreases lines.len() - i,
{
    if i < lines.len() && !has_prefix(lines[i], "@@"@) {
        lemma_header_end_from(lines, i + 1);
    }
}

/// A read patch keeps as its header exactly the diff's lines before the
/// first hunk marker, and its first hunk starts at that marker.
pub proof fn lemma_header_is_prefix_before_marker(s: Seq<char>)
    ensures
        parse_patch(s) matches Ok(p) ==> {
            let lines = lines_of(s);
            let e = p.header.len() as int;
            &&& p.header == lines.take(e)
            &&& e < lines.len() && has_prefix(lines[e], "@@"@)
            &&& forall|k: int| 0 <= k < e ==> !has_prefix(#[trigger] lines[k], "@@"@)
        },
{
    let lines = lines_of(s);
    lemma_header_end_from(lines, 0);
    let e = header_end_from(lines, 0);
    if e >= lines.len() && e > 0 {
        assert(scan_fold(lines, e, lines.len() as int) == scan_start());
    }
}

} // verus!
