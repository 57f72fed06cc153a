//! Unified-diff text (`git diff`, `git show`) read into files, hunks and
//! numbered lines, in one forward pass over the lines.

use vstd::prelude::*;
use crate::numeric::parse_unsigned;
use crate::text::{
    before_char, chars_of, find_seq, find_str, has_prefix, lemma_find_from_found, lines_of,
    seq_views, slice_vec, split_lines, split_once_char, split_words, starts_with, string_of, trim,
    trim_chars, words_of, occurs_at, lemma_words_nonempty,
};
use crate::numeric::parse_u32;
use crate::types::{DiffFile, DiffHunk, DiffLine, DiffLineType};

verus! {

// ---------------------------------------------------------------------------
// Model
// ---------------------------------------------------------------------------

pub struct LineModel {
    pub kind: DiffLineType,
    pub content: Seq<char>,
    pub old: Option<u32>,
    pub new: Option<u32>,
}

/// A hunk without its per-parse identifier.
pub struct HunkModel {
    pub old_start: u32,
    pub new_start: u32,
    pub lines: Seq<LineModel>,
}

pub struct FileModel {
    pub path: Seq<char>,
    pub status: Seq<char>,
    pub hunks: Seq<HunkModel>,
}

impl View for DiffLine {
    type V = LineModel;

    open spec fn view(&self) -> LineModel {
        LineModel {
            kind: self.type_,
            content: self.content@,
            old: self.old_line_number,
            new: self.new_line_number,
        }
    }
}

pub open spec fn line_views(v: Seq<DiffLine>) -> Seq<LineModel> {
    v.map_values(|l: DiffLine| l@)
}

impl View for DiffHunk {
    type V = HunkModel;

    open spec fn view(&self) -> HunkModel {
        HunkModel { old_start: self.old_start, new_start: self.new_start, lines: line_views(self.lines@) }
    }
}

pub open spec fn hunk_views(v: Seq<DiffHunk>) -> Seq<HunkModel> {
    v.map_values(|h: DiffHunk| h@)
}

impl View for DiffFile {
    type V = FileModel;

    open spec fn view(&self) -> FileModel {
        FileModel { path: self.path@, status: self.status@, hunks: hunk_views(self.hunks@) }
    }
}

pub open spec fn file_views(v: Seq<DiffFile>) -> Seq<FileModel> {
    v.map_values(|f: DiffFile| f@)
}

proof fn lemma_line_views_push(v: Seq<DiffLine>, x: DiffLine)
    ensures
        line_views(v.push(x)) == line_views(v).push(x@),
{
    assert(line_views(v.push(x)) =~= line_views(v).push(x@));
}

proof fn lemma_hunk_views_push(v: Seq<DiffHunk>, x: DiffHunk)
    ensures
        hunk_views(v.push(x)) == hunk_views(v).push(x@),
{
    assert(hunk_views(v.push(x)) =~= hunk_views(v).push(x@));
}

proof fn lemma_file_views_push(v: Seq<DiffFile>, x: DiffFile)
    ensures
        file_views(v.push(x)) == file_views(v).push(x@),
{
    assert(file_views(v.push(x)) =~= file_views(v).push(x@));
}

// ---------------------------------------------------------------------------
// The parse, one line at a time
// ---------------------------------------------------------------------------

/// What the parser holds between lines: the finished files, the file and
/// hunk being built, and the old/new line cursors.
pub struct ParseState {
    pub files: Seq<FileModel>,
    pub file: Option<FileModel>,
    pub hunk: Option<HunkModel>,
    pub old_ln: u32,
    pub new_ln: u32,
}

pub open spec fn succ_sat(n: u32) -> u32 {
    if n < u32::MAX {
        (n + 1) as u32
    } else {
        n
    }
}

pub open spec fn with_hunk(f: FileModel, h: Option<HunkModel>) -> FileModel {
    match h {
        Some(h) => FileModel { path: f.path, status: f.status, hunks: f.hunks.push(h) },
        None => f,
    }
}

pub open spec fn with_status(f: FileModel, status: Seq<char>) -> FileModel {
    FileModel { path: f.path, status, hunks: f.hunks }
}

/// The path named by a `diff --git a/.. b/..` line: what follows the first
/// " b/", trimmed; failing that, the last word of the line.
pub open spec fn diff_path(l: Seq<char>) -> Seq<char> {
    let i = find_seq(l, " b/"@);
    if i >= 0 {
        trim(l.subrange(i + 3, l.len() as int))
    } else {
        let w = words_of(l);
        if w.len() > 0 {
            w.last()
        } else {
            Seq::empty()
        }
    }
}

/// The start of a hunk range token such as `-12,3` (0 where it does not read).
pub open spec fn range_start(tok: Seq<char>) -> u32 {
    match parse_unsigned(before_char(tok.drop_first(), ','), u32::MAX as nat) {
        Some(v) => v as u32,
        None => 0,
    }
}

/// The effect of a `+`, `-` or ` ` line inside an open hunk.
pub open spec fn hunk_line_step(st: ParseState, h: HunkModel, l: Seq<char>) -> ParseState {
    if l.len() > 0 && l[0] == '+' {
        let line = LineModel { kind: DiffLineType::Add, content: l.drop_first(), old: None, new: Some(st.new_ln) };
        ParseState {
            hunk: Some(HunkModel { lines: h.lines.push(line), ..h }),
            new_ln: succ_sat(st.new_ln),
            ..st
        }
    } else if l.len() > 0 && l[0] == '-' {
        let line = LineModel { kind: DiffLineType::Remove, content: l.drop_first(), old: Some(st.old_ln), new: None };
        ParseState {
            hunk: Some(HunkModel { lines: h.lines.push(line), ..h }),
            old_ln: succ_sat(st.old_ln),
            ..st
        }
    } else if l.len() > 0 && l[0] == ' ' {
        let line = LineModel {
            kind: DiffLineType::Context,
            content: l.drop_first(),
            old: Some(st.old_ln),
            new: Some(st.new_ln),
        };
        ParseState {
            hunk: Some(HunkModel { lines: h.lines.push(line), ..h }),
            old_ln: succ_sat(st.old_ln),
            new_ln: succ_sat(st.new_ln),
            ..st
        }
    } else {
        ParseState { hunk: Some(h), ..st }
    }
}

/// A line that belongs to an open hunk: it starts with `+`, `-` or ` `.
pub open spec fn is_hunk_line(l: Seq<char>) -> bool {
    l.len() > 0 && (l[0] == '+' || l[0] == '-' || l[0] == ' ')
}

/// A line of the current file that is not a hunk line: status metadata,
/// header lines that change nothing, or a hunk marker.
pub open spec fn file_line_step(st: ParseState, f: FileModel, l: Seq<char>) -> ParseState {
    if has_prefix(l, "new file mode"@) {
        ParseState { file: Some(with_status(f, "A"@)), ..st }
    } else if has_prefix(l, "deleted file mode"@) {
        ParseState { file: Some(with_status(f, "D"@)), ..st }
    } else if has_prefix(l, "rename from"@) {
        ParseState { file: Some(with_status(f, "R"@)), ..st }
    } else if has_prefix(l, "@@"@) {
        let w = words_of(l);
        if w.len() >= 3 {
            let o = range_start(w[1]);
            let n = range_start(w[2]);
            ParseState {
                files: st.files,
                file: Some(with_hunk(f, st.hunk)),
                hunk: Some(HunkModel { old_start: o, new_start: n, lines: Seq::empty() }),
                old_ln: o,
                new_ln: n,
            }
        } else {
            ParseState { file: Some(with_hunk(f, st.hunk)), hunk: None, ..st }
        }
    } else {
        st
    }
}

/// The effect of one line of diff text. A `diff --git` line starts a file;
/// within a file, a `+`, `-` or ` ` line belongs to the open hunk, if any,
/// whatever follows its marker (so a removed `--x` reads as `---x`); any
/// other line is file metadata, a hunk marker, or ignored.
pub open spec fn diff_step(st: ParseState, l: Seq<char>) -> ParseState {
    if has_prefix(l, "diff --git"@) {
        ParseState {
            files: match st.file {
                Some(f) => st.files.push(with_hunk(f, st.hunk)),
                None => st.files,
            },
            file: Some(FileModel { path: diff_path(l), status: "M"@, hunks: Seq::empty() }),
            hunk: None,
            ..st
        }
    } else {
        match st.file {
            None => st,
            Some(f) => match st.hunk {
                Some(h) => if is_hunk_line(l) {
                    hunk_line_step(st, h, l)
                } else {
                    file_line_step(st, f, l)
                },
                None => file_line_step(st, f, l),
            },
        }
    }
}

pub open spec fn initial_state() -> ParseState {
    ParseState { files: Seq::empty(), file: None, hunk: None, old_ln: 0, new_ln: 0 }
}

/// The state after the first `n` lines.
pub open spec fn diff_fold(lines: Seq<Seq<char>>, n: int) -> ParseState
    decreases n,
{
    if n <= 0 {
        initial_state()
    } else {
        diff_step(diff_fold(lines, n - 1), lines[n - 1])
    }
}

/// The files at end of input: the open hunk and file flushed.
pub open spec fn finish(st: ParseState) -> Seq<FileModel> {
    match st.file {
        Some(f) => st.files.push(with_hunk(f, st.hunk)),
        None => st.files,
    }
}

/// The files that a unified diff describes.
pub open spec fn parse_diff(s: Seq<char>) -> Seq<FileModel> {
    let lines = lines_of(s);
    finish(diff_fold(lines, lines.len() as int))
}

} // verus!

verus! {

/// Relies on `uuid::Uuid::new_v4` and its `Display`: a fresh random
/// identifier for a hunk. Nothing is promised of its value.
#[verifier::external_body]
fn new_hunk_id() -> String {
    uuid::Uuid::new_v4().to_string()
}

pub open spec fn opt_file(o: Option<DiffFile>) -> Option<FileModel> {
    match o {
        Some(f) => Some(f@),
        None => None,
    }
}

pub open spec fn opt_hunk(o: Option<DiffHunk>) -> Option<HunkModel> {
    match o {
        Some(h) => Some(h@),
        None => None,
    }
}

struct DiffParser {
    files: Vec<DiffFile>,
    file: Option<DiffFile>,
    hunk: Option<DiffHunk>,
    old_ln: u32,
    new_ln: u32,
}

impl View for DiffParser {
    type V = ParseState;

    closed spec fn view(&self) -> ParseState {
        ParseState {
            files: file_views(self.files@),
            file: opt_file(self.file),
            hunk: opt_hunk(self.hunk),
            old_ln: self.old_ln,
            new_ln: self.new_ln,
        }
    }
}

pub(crate) fn succ_sat_exec(n: u32) -> (r: u32)
    ensures
        r == succ_sat(n),
{
    if n < u32::MAX {
        n + 1
    } else {
        n
    }
}

fn file_with_hunk(f: DiffFile, h: Option<DiffHunk>) -> (r: DiffFile)
    ensures
        r@ == with_hunk(f@, opt_hunk(h)),
{
    match h {
        Some(h) => {
            let DiffFile { path, status, mut hunks } = f;
            proof {
                lemma_hunk_views_push(hunks@, h);
            }
            hunks.push(h);
            DiffFile { path, status, hunks }
        },
        None => f,
    }
}

fn set_status(f: DiffFile, status: &str) -> (r: DiffFile)
    ensures
        r@ == with_status(f@, status@),
{
    let DiffFile { path, status: _, hunks } = f;
    DiffFile { path, status: status.to_string(), hunks }
}

fn diff_path_exec(l: &[char]) -> (r: String)
    ensures
        r@ == diff_path(l@),
{
    let llen = l.len();
    match find_str(l, " b/") {
        Some(i) => {
            proof {
                reveal_strlit(" b/");
                assert(" b/"@.len() == 3);
                lemma_find_from_found(l@, " b/"@, 0);
                assert(occurs_at(l@, " b/"@, i as int));
            }
            let rest = slice_vec(l, i + 3, llen);
            let t = trim_chars(rest.as_slice());
            string_of(t.as_slice())
        },
        None => {
            let w = split_words(l);
            if w.len() > 0 {
                proof {
                    assert(seq_views(w@)[w@.len() - 1] == w@[w@.len() - 1]@);
                }
                string_of(w[w.len() - 1].as_slice())
            } else {
                String::new()
            }
        },
    }
}

fn range_start_exec(tok: &[char]) -> (r: u32)
    requires
        tok@.len() > 0,
    ensures
        r == range_start(tok@),
{
    let rest = slice_vec(tok, 1, tok.len());
    proof {
        assert(rest@ =~= tok@.drop_first());
    }
    let (head, _) = split_once_char(rest.as_slice(), ',');
    match parse_u32(head.as_slice()) {
        Some(v) => v,
        None => 0,
    }
}

pub(crate) fn content_after_marker(l: &[char]) -> (r: String)
    requires
        l@.len() > 0,
    ensures
        r@ == l@.drop_first(),
{
    let rest = slice_vec(l, 1, l.len());
    proof {
        assert(rest@ =~= l@.drop_first());
    }
    string_of(rest.as_slice())
}

fn push_line(h: DiffHunk, line: DiffLine) -> (r: DiffHunk)
    ensures
        r@ == (HunkModel { lines: h@.lines.push(line@), ..h@ }),
{
    let DiffHunk { id, old_start, new_start, mut lines } = h;
    proof {
        lemma_line_views_push(lines@, line);
    }
    lines.push(line);
    DiffHunk { id, old_start, new_start, lines }
}

impl DiffParser {
    fn hunk_line(self, h: DiffHunk, l: &[char]) -> (r: DiffParser)
        requires
            self.hunk is None,
        ensures
            r@ == hunk_line_step(self@, h@, l@),
    {
        let DiffParser { files, file, hunk: _, old_ln, new_ln } = self;
        if l.len() > 0 && l[0] == '+' {
            let line = DiffLine {
                type_: DiffLineType::Add,
                content: content_after_marker(l),
                old_line_number: None,
                new_line_number: Some(new_ln),
            };
            DiffParser { files, file, hunk: Some(push_line(h, line)), old_ln, new_ln: succ_sat_exec(new_ln) }
        } else if l.len() > 0 && l[0] == '-' {
            let line = DiffLine {
                type_: DiffLineType::Remove,
                content: content_after_marker(l),
                old_line_number: Some(old_ln),
                new_line_number: None,
            };
            DiffParser { files, file, hunk: Some(push_line(h, line)), old_ln: succ_sat_exec(old_ln), new_ln }
        } else if l.len() > 0 && l[0] == ' ' {
            let line = DiffLine {
                type_: DiffLineType::Context,
                content: content_after_marker(l),
                old_line_number: Some(old_ln),
                new_line_number: Some(new_ln),
            };
            DiffParser {
                files,
                file,
                hunk: Some(push_line(h, line)),
                old_ln: succ_sat_exec(old_ln),
                new_ln: succ_sat_exec(new_ln),
            }
        } else {
            DiffParser { files, file, hunk: Some(h), old_ln, new_ln }
        }
    }

    fn step(self, l: &[char]) -> (r: DiffParser)
        ensures
            r@ == diff_step(self@, l@),
    {
        let DiffParser { mut files, file, hunk, old_ln, new_ln } = self;
        if starts_with(l, "diff --git") {
            match file {
                Some(f) => {
                    let f2 = file_with_hunk(f, hunk);
                    proof {
                        lemma_file_views_push(files@, f2);
                    }
                    files.push(f2);
                },
                None => {},
            }
            let nf = DiffFile { path: diff_path_exec(l), status: "M".to_string(), hunks: Vec::new() };
            proof {
                assert(hunk_views(nf.hunks@) =~= Seq::empty());
            }
            return DiffParser { files, file: Some(nf), hunk: None, old_ln, new_ln };
        }
        match file {
            None => DiffParser { files, file: None, hunk, old_ln, new_ln },
            Some(f) => {
                let hunk_line = l.len() > 0 && (l[0] == '+' || l[0] == '-' || l[0] == ' ');
                match hunk {
                    Some(h) => {
                        if hunk_line {
                            let p = DiffParser { files, file: Some(f), hunk: None, old_ln, new_ln };
                            p.hunk_line(h, l)
                        } else {
                            DiffParser { files, file: Some(f), hunk: Some(h), old_ln, new_ln }.file_line(l)
                        }
                    },
                    None => DiffParser { files, file: Some(f), hunk: None, old_ln, new_ln }.file_line(l),
                }
            },
        }
    }

    fn file_line(self, l: &[char]) -> (r: DiffParser)
        requires
            self.file is Some,
        ensures
            r@ == file_line_step(self@, self@.file.unwrap(), l@),
    {
        let DiffParser { files, file, hunk, old_ln, new_ln } = self;
        let f = match file {
            Some(f) => f,
            None => {
                return DiffParser { files, file: None, hunk, old_ln, new_ln };
            },
        };
        if starts_with(l, "new file mode") {
            DiffParser { files, file: Some(set_status(f, "A")), hunk, old_ln, new_ln }
        } else if starts_with(l, "deleted file mode") {
            DiffParser { files, file: Some(set_status(f, "D")), hunk, old_ln, new_ln }
        } else if starts_with(l, "rename from") {
            DiffParser { files, file: Some(set_status(f, "R")), hunk, old_ln, new_ln }
        } else if starts_with(l, "@@") {
            let f2 = file_with_hunk(f, hunk);
            let w = split_words(l);
            if w.len() >= 3 {
                proof {
                    lemma_words_nonempty(l@, 0, Seq::empty());
                    assert(seq_views(w@)[1] == w@[1]@);
                    assert(seq_views(w@)[2] == w@[2]@);
                }
                let o = range_start_exec(w[1].as_slice());
                let n = range_start_exec(w[2].as_slice());
                let h = DiffHunk { id: new_hunk_id(), old_start: o, new_start: n, lines: Vec::new() };
                proof {
                    assert(line_views(h.lines@) =~= Seq::empty());
                }
                DiffParser { files, file: Some(f2), hunk: Some(h), old_ln: o, new_ln: n }
            } else {
                DiffParser { files, file: Some(f2), hunk: None, old_ln, new_ln }
            }
        } else {
            DiffParser { files, file: Some(f), hunk, old_ln, new_ln }
        }
    }

    fn finish(self) -> (r: Vec<DiffFile>)
        ensures
            file_views(r@) == finish(self@),
    {
        let DiffParser { mut files, file, hunk, old_ln: _, new_ln: _ } = self;
        match file {
            Some(f) => {
                let f2 = file_with_hunk(f, hunk);
                proof {
                    lemma_file_views_push(files@, f2);
                }
                files.push(f2);
            },
            None => {},
        }
        files
    }
}

/// Reads unified-diff text into its files, hunks and numbered lines.
/// Each hunk gets a fresh identifier; everything else is fixed by the text.
pub fn parse_diff_output(stdout: &str) -> (files: Vec<DiffFile>)
    ensures
        file_views(files@) == parse_diff(stdout@),
{
    let cs = chars_of(stdout);
    let lines = split_lines(cs.as_slice());
    let mut p = DiffParser { files: Vec::new(), file: None, hunk: None, old_ln: 0, new_ln: 0 };
    proof {
        assert(file_views(p.files@) =~= Seq::empty());
    }
    let mut i: usize = 0;
    while i < lines.len()
        invariant
            i <= lines@.len(),
            seq_views(lines@) == lines_of(stdout@),
            p@ == diff_fold(lines_of(stdout@), i as int),
        decreases lines@.len() - i,
    {
        proof {
            assert(seq_views(lines@)[i as int] == lines@[i as int]@);
        }
        p = p.step(lines[i].as_slice());
        i = i + 1;
    }
    p.finish()
}

} // verus!

verus! {

// ---------------------------------------------------------------------------
// Numbering within a hunk
// ---------------------------------------------------------------------------

/// The old-side counter before line `k` of a hunk: the hunk's old start,
/// advanced by one for each earlier Remove or Context line.
pub open spec fn old_cursor_at(h: HunkModel, k: int) -> u32
    decreases k,
{
    if k <= 0 {
        h.old_start
    } else if h.lines[k - 1].kind != DiffLineType::Add {
        succ_sat(old_cursor_at(h, k - 1))
    } else {
        old_cursor_at(h, k - 1)
    }
}

/// The new-side counter before line `k`: advanced by each earlier Add or Context line.
pub open spec fn new_cursor_at(h: HunkModel, k: int) -> u32
    decreases k,
{
    if k <= 0 {
        h.new_start
    } else if h.lines[k - 1].kind != DiffLineType::Remove {
        succ_sat(new_cursor_at(h, k - 1))
    } else {
        new_cursor_at(h, k - 1)
    }
}

/// Every line carries the counters of its side(s) and only those: an Add
/// line the new counter, a Remove line the old one, a Context line both.
pub open spec fn hunk_numbered(h: HunkModel) -> bool {
    forall|k: int|
        0 <= k < h.lines.len() ==> {
            let l = #[trigger] h.lines[k];
            &&& (l.kind == DiffLineType::Add ==> l.old is None && l.new == Some(new_cursor_at(h, k)))
            &&& (l.kind == DiffLineType::Remove ==> l.old == Some(old_cursor_at(h, k)) && l.new is None)
            &&& (l.kind == DiffLineType::Context ==> l.old == Some(old_cursor_at(h, k)) && l.new
                == Some(new_cursor_at(h, k)))
        }
}

pub open spec fn file_numbered(f: FileModel) -> bool {
    forall|j: int| 0 <= j < f.hunks.len() ==> hunk_numbered(#[trigger] f.hunks[j])
}

spec fn state_numbered(st: ParseState) -> bool {
    &&& forall|i: int| 0 <= i < st.files.len() ==> file_numbered(#[trigger] st.files[i])
    &&& (st.file matches Some(f) ==> file_numbered(f))
    &&& (st.hunk matches Some(h) ==> hunk_numbered(h) && st.old_ln == old_cursor_at(
        h,
        h.lines.len() as int,
    ) && st.new_ln == new_cursor_at(h, h.lines.len() as int))
}

proof fn lemma_cursor_prefix(h: HunkModel, x: LineModel, k: int)
    requires
        0 <= k <= h.lines.len(),
    ensures
        old_cursor_at(HunkModel { lines: h.lines.push(x), ..h }, k) == old_cursor_at(h, k),
        new_cursor_at(HunkModel { lines: h.lines.push(x), ..h }, k) == new_cursor_at(h, k),
    decreases k,
{
    if k > 0 {
        lemma_cursor_prefix(h, x, k - 1);
        assert(h.lines.push(x)[k - 1] == h.lines[k - 1]);
    }
}

proof fn lemma_push_numbered(st: ParseState, h: HunkModel, x: LineModel)
    requires
        hunk_numbered(h),
        st.old_ln == old_cursor_at(h, h.lines.len() as int),
        st.new_ln == new_cursor_at(h, h.lines.len() as int),
        x.kind == DiffLineType::Add ==> x.old is None && x.new == Some(st.new_ln),
        x.kind == DiffLineType::Remove ==> x.old == Some(st.old_ln) && x.new is None,
        x.kind == DiffLineType::Context ==> x.old == Some(st.old_ln) && x.new == Some(st.new_ln),
    ensures
        hunk_numbered(HunkModel { lines: h.lines.push(x), ..h }),
        old_cursor_at(HunkModel { lines: h.lines.push(x), ..h }, (h.lines.len() + 1) as int) == (if x.kind
            != DiffLineType::Add {
            succ_sat(st.old_ln)
        } else {
            st.old_ln
        }),
        new_cursor_at(HunkModel { lines: h.lines.push(x), ..h }, (h.lines.len() + 1) as int) == (if x.kind
            != DiffLineType::Remove {
            succ_sat(st.new_ln)
        } else {
            st.new_ln
        }),
{
    let h2 = HunkModel { lines: h.lines.push(x), ..h };
    assert forall|k: int| 0 <= k <= h.lines.len() implies old_cursor_at(h2, k) == old_cursor_at(h, k)
        && new_cursor_at(h2, k) == new_cursor_at(h, k) by {
        lemma_cursor_prefix(h, x, k);
    }
    assert forall|k: int| 0 <= k < h2.lines.len() implies {
        let l = #[trigger] h2.lines[k];
        &&& (l.kind == DiffLineType::Add ==> l.old is None && l.new == Some(new_cursor_at(h2, k)))
        &&& (l.kind == DiffLineType::Remove ==> l.old == Some(old_cursor_at(h2, k)) && l.new is None)
        &&& (l.kind == DiffLineType::Context ==> l.old == Some(old_cursor_at(h2, k)) && l.new == Some(
            new_cursor_at(h2, k),
        ))
    } by {
        if k < h.lines.len() {
            assert(h2.lines[k] == h.lines[k]);
        } else {
            assert(h2.lines[k] == x);
        }
    }
    assert(h2.lines[h.lines.len() as int] == x);
}

proof fn lemma_with_hunk_numbered(f: FileModel, h: Option<HunkModel>)
    requires
        file_numbered(f),
        h matches Some(hh) ==> hunk_numbered(hh),
    ensures
        file_numbered(with_hunk(f, h)),
{
    if let Some(hh) = h {
        let f2 = with_hunk(f, h);
        assert forall|j: int| 0 <= j < f2.hunks.len() implies hunk_numbered(#[trigger] f2.hunks[j]) by {
            if j < f.hunks.len() {
                assert(f2.hunks[j] == f.hunks[j]);
            } else {
                assert(f2.hunks[j] == hh);
            }
        }
    }
}

proof fn lemma_files_push_numbered(files: Seq<FileModel>, f: FileModel)
    requires
        forall|i: int| 0 <= i < files.len() ==> file_numbered(#[trigger] files[i]),
        file_numbered(f),
    ensures
        forall|i: int| 0 <= i < files.push(f).len() ==> file_numbered(#[trigger] files.push(f)[i]),
{
    assert forall|i: int| 0 <= i < files.push(f).len() implies file_numbered(
        #[trigger] files.push(f)[i],
    ) by {
        if i < files.len() {
            assert(files.push(f)[i] == files[i]);
        }
    }
}

proof fn lemma_step_numbered(st: ParseState, l: Seq<char>)
    requires
        state_numbered(st),
    ensures
        state_numbered(diff_step(st, l)),
{
    let empty_file = FileModel { path: diff_path(l), status: "M"@, hunks: Seq::empty() };
    assert(file_numbered(empty_file));
    if let Some(f) = st.file {
        lemma_with_hunk_numbered(f, st.hunk);
        lemma_files_push_numbered(st.files, with_hunk(f, st.hunk));
        assert(file_numbered(with_status(f, "A"@)));
        assert(file_numbered(with_status(f, "D"@)));
        assert(file_numbered(with_status(f, "R"@)));
        let w = words_of(l);
        if w.len() >= 3 {
            let o = range_start(w[1]);
            let n = range_start(w[2]);
            let nh = HunkModel { old_start: o, new_start: n, lines: Seq::empty() };
            assert(hunk_numbered(nh));
            assert(old_cursor_at(nh, 0) == o);
            assert(new_cursor_at(nh, 0) == n);
        }
        if let Some(h) = st.hunk {
            let add = LineModel { kind: DiffLineType::Add, content: l.drop_first(), old: None, new: Some(st.new_ln) };
            let rem = LineModel { kind: DiffLineType::Remove, content: l.drop_first(), old: Some(st.old_ln), new: None };
            let ctx = LineModel {
                kind: DiffLineType::Context,
                content: l.drop_first(),
                old: Some(st.old_ln),
                new: Some(st.new_ln),
            };
            lemma_push_numbered(st, h, add);
            lemma_push_numbered(st, h, rem);
            lemma_push_numbered(st, h, ctx);
        }
    }
}

proof fn lemma_fold_numbered(lines: Seq<Seq<char>>, n: int)
    requires
        0 <= n <= lines.len(),
    ensures
        state_numbered(diff_fold(lines, n)),
    decreases n,
{
    if n > 0 {
        lemma_fold_numbered(lines, n - 1);
        lemma_step_numbered(diff_fold(lines, n - 1), lines[n - 1]);
    }
}

/// Within every hunk of a parsed diff, line numbers follow the unified-diff
/// counters: each line carries the running old and/or new counter, which
/// starts at the hunk's declared start and grows by one (saturating at
/// `u32::MAX`) per line of that side.
pub proof fn lemma_parsed_hunks_numbered(s: Seq<char>)
    ensures
        forall|i: int|
            0 <= i < parse_diff(s).len() ==> file_numbered(#[trigger] parse_diff(s)[i]),
{
    let lines = lines_of(s);
    let st = diff_fold(lines, lines.len() as int);
    lemma_fold_numbered(lines, lines.len() as int);
    if let Some(f) = st.file {
        lemma_with_hunk_numbered(f, st.hunk);
        lemma_files_push_numbered(st.files, with_hunk(f, st.hunk));
    }
}

/// Parsing depends on the text alone: two parses of one text agree in
/// every file, status, hunk range and numbered line.
pub proof fn lemma_parse_deterministic(s: Seq<char>, a: Seq<DiffFile>, b: Seq<DiffFile>)
    requires
        file_views(a) == parse_diff(s),
        file_views(b) == parse_diff(s),
    ensures
        file_views(a) == file_views(b),
{
}

} // verus!
