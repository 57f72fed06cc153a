//! Character-level text helpers shared by the parsers.

use vstd::prelude::*;

verus! {

/// Relies on `String::push`: the character is appended at the end.
#[verifier::external_body]
pub(crate) fn push_char(s: &mut String, c: char)
    ensures
        final(s)@ == old(s)@.push(c),
{
    s.push(c);
}

/// The characters of `s`, in order.
pub fn chars_of(s: &str) -> (r: Vec<char>)
    ensures
        r@ == s@,
{
    let mut r: Vec<char> = Vec::new();
    for c in it: s.chars()
        invariant
            r@ == it.seq().take(it.index() as int),
            it.seq() == s@,
    {
        r.push(c);
    }
    r
}

/// A `String` holding exactly the characters of `cs`.
pub fn string_of(cs: &[char]) -> (r: String)
    ensures
        r@ == cs@,
{
    let mut r = String::new();
    let mut i: usize = 0;
    while i < cs.len()
        invariant
            i <= cs@.len(),
            r@ == cs@.take(i as int),
        decreases cs@.len() - i,
    {
        push_char(&mut r, cs[i]);
        proof {
            assert(cs@.take(i + 1) == cs@.take(i as int).push(cs@[i as int]));
        }
        i = i + 1;
    }
    proof {
        assert(cs@.take(cs@.len() as int) == cs@);
    }
    r
}

} // verus!

verus! {

// ---------------------------------------------------------------------------
// Whitespace
// ---------------------------------------------------------------------------

/// Unicode `White_Space`, the property that `char::is_whitespace` tests.
pub open spec fn is_ws(c: char) -> bool {
    let u = c as u32;
    ||| 0x09 <= u <= 0x0d
    ||| u == 0x20
    ||| u == 0x85
    ||| u == 0xa0
    ||| u == 0x1680
    ||| 0x2000 <= u <= 0x200a
    ||| u == 0x2028
    ||| u == 0x2029
    ||| u == 0x202f
    ||| u == 0x205f
    ||| u == 0x3000
}

pub fn is_whitespace(c: char) -> (r: bool)
    ensures
        r == is_ws(c),
{
    let u = c as u32;
    (0x09 <= u && u <= 0x0d) || u == 0x20 || u == 0x85 || u == 0xa0 || u == 0x1680 || (0x2000
        <= u && u <= 0x200a) || u == 0x2028 || u == 0x2029 || u == 0x202f || u == 0x205f || u
        == 0x3000
}

// ---------------------------------------------------------------------------
// Lines
// ---------------------------------------------------------------------------

/// A line without the carriage return of a `\r\n` ending.
pub open spec fn strip_cr(l: Seq<char>) -> Seq<char> {
    if l.len() > 0 && l.last() == '\r' {
        l.drop_last()
    } else {
        l
    }
}

/// The lines of `s` from position `from` on, `cur` being the part of the
/// current line already read: split at `\n`, a `\r` before it dropped, no
/// empty line after a final `\n` (the rules of `str::lines`).
pub open spec fn lines_acc(s: Seq<char>, from: int, cur: Seq<char>) -> Seq<Seq<char>>
    decreases s.len() - from,
{
    if from >= s.len() {
        if cur.len() == 0 {
            Seq::empty()
        } else {
            seq![cur]
        }
    } else if s[from] == '\n' {
        seq![strip_cr(cur)] + lines_acc(s, from + 1, Seq::empty())
    } else {
        lines_acc(s, from + 1, cur.push(s[from]))
    }
}

pub open spec fn lines_of(s: Seq<char>) -> Seq<Seq<char>> {
    lines_acc(s, 0, Seq::empty())
}

pub open spec fn seq_views(v: Seq<Vec<char>>) -> Seq<Seq<char>> {
    v.map_values(|l: Vec<char>| l@)
}

proof fn lemma_seq_views_push(v: Seq<Vec<char>>, x: Vec<char>)
    ensures
        seq_views(v.push(x)) == seq_views(v).push(x@),
{
    assert(seq_views(v.push(x)) =~= seq_views(v).push(x@));
}

fn strip_cr_vec(l: Vec<char>) -> (r: Vec<char>)
    ensures
        r@ == strip_cr(l@),
{
    let mut l = l;
    if l.len() > 0 && l[l.len() - 1] == '\r' {
        l.pop();
    }
    l
}

/// The lines of `s`, as `str::lines` gives them.
pub fn split_lines(s: &[char]) -> (r: Vec<Vec<char>>)
    ensures
        seq_views(r@) == lines_of(s@),
{
    let mut r: Vec<Vec<char>> = Vec::new();
    let mut cur: Vec<char> = Vec::new();
    let mut i: usize = 0;
    while i < s.len()
        invariant
            i <= s@.len(),
            seq_views(r@) + lines_acc(s@, i as int, cur@) == lines_of(s@),
        decreases s@.len() - i,
    {
        if s[i] == '\n' {
            let line = strip_cr_vec(cur);
            proof {
                lemma_seq_views_push(r@, line);
                assert(seq_views(r@) + lines_acc(s@, i as int, cur@) =~= seq_views(r@).push(line@)
                    + lines_acc(s@, i + 1, Seq::empty()));
            }
            r.push(line);
            cur = Vec::new();
        } else {
            proof {
                assert(lines_acc(s@, i as int, cur@) == lines_acc(s@, i + 1, cur@.push(s@[i as int])));
            }
            cur.push(s[i]);
        }
        i = i + 1;
    }
    if cur.len() > 0 {
        proof {
            lemma_seq_views_push(r@, cur);
            assert(seq_views(r@) + seq![cur@] =~= seq_views(r@).push(cur@));
        }
        r.push(cur);
    } else {
        proof {
            assert(seq_views(r@) + Seq::<Seq<char>>::empty() =~= seq_views(r@));
        }
    }
    r
}

// ---------------------------------------------------------------------------
// Prefixes, substrings, separators
// ---------------------------------------------------------------------------

pub open spec fn has_prefix(s: Seq<char>, p: Seq<char>) -> bool {
    p.len() <= s.len() && s.subrange(0, p.len() as int) == p
}

pub fn starts_with(s: &[char], p: &str) -> (r: bool)
    ensures
        r == has_prefix(s@, p@),
{
    let pc = chars_of(p);
    if pc.len() > s.len() {
        return false;
    }
    let mut i: usize = 0;
    while i < pc.len()
        invariant
            pc@ == p@,
            pc@.len() <= s@.len(),
            i <= pc@.len(),
            s@.subrange(0, i as int) == pc@.subrange(0, i as int),
        decreases pc@.len() - i,
    {
        if s[i] != pc[i] {
            proof {
                assert(s@.subrange(0, pc@.len() as int)[i as int] != pc@[i as int]);
            }
            return false;
        }
        proof {
            assert(s@.subrange(0, i + 1) =~= s@.subrange(0, i as int).push(s@[i as int]));
            assert(pc@.subrange(0, i + 1) =~= pc@.subrange(0, i as int).push(pc@[i as int]));
        }
        i = i + 1;
    }
    proof {
        assert(pc@.subrange(0, pc@.len() as int) =~= pc@);
    }
    true
}

/// `s` holds `n` at position `i`.
pub open spec fn occurs_at(s: Seq<char>, n: Seq<char>, i: int) -> bool {
    0 <= i && i + n.len() <= s.len() && s.subrange(i, i + n.len()) == n
}

pub open spec fn contains_seq(s: Seq<char>, n: Seq<char>) -> bool {
    exists|i: int| occurs_at(s, n, i)
}

pub fn contains_str(s: &[char], n: &str) -> (r: bool)
    ensures
        r == contains_seq(s@, n@),
{
    let nc = chars_of(n);
    if nc.len() > s.len() {
        proof {
            assert forall|i: int| !occurs_at(s@, n@, i) by {}
        }
        return false;
    }
    let slen = s.len();
    let last = slen - nc.len();
    let mut i: usize = 0;
    loop
        invariant_except_break
            slen == s@.len(),
            nc@ == n@,
            last == s@.len() - nc@.len(),
            i <= last,
            forall|k: int| 0 <= k < i ==> !occurs_at(s@, n@, k),
        ensures
            forall|k: int| 0 <= k <= last ==> !occurs_at(s@, n@, k),
        decreases last - i,
    {
        let mut j: usize = 0;
        let mut same = true;
        while j < nc.len()
            invariant
                slen == s@.len(),
                nc@ == n@,
                i <= last,
                last == s@.len() - nc@.len(),
                j <= nc@.len(),
                same ==> s@.subrange(i as int, i + j) == nc@.subrange(0, j as int),
                !same ==> !occurs_at(s@, n@, i as int),
            decreases nc@.len() - j,
        {
            if same && s[i + j] != nc[j] {
                proof {
                    assert(s@.subrange(i as int, i + nc@.len())[j as int] == s@[i + j]);
                }
                same = false;
            }
            proof {
                if same {
                    assert(s@.subrange(i as int, i + j + 1) =~= s@.subrange(i as int, i + j).push(
                        s@[i + j],
                    ));
                    assert(nc@.subrange(0, j + 1) =~= nc@.subrange(0, j as int).push(nc@[j as int]));
                }
            }
            j = j + 1;
        }
        if same {
            proof {
                assert(nc@.subrange(0, nc@.len() as int) =~= nc@);
                assert(occurs_at(s@, n@, i as int));
            }
            return true;
        }
        if i == last {
            break;
        }
        i = i + 1;
    }
    proof {
        assert forall|k: int| !occurs_at(s@, n@, k) by {
            if 0 <= k <= last {
            }
        }
    }
    false
}

/// The first position at or after `from` where `s` holds `c`; `s.len()` if none.
pub open spec fn index_of_from(s: Seq<char>, c: char, from: int) -> int
    decreases s.len() - from,
{
    if from >= s.len() {
        s.len() as int
    } else if s[from] == c {
        from
    } else {
        index_of_from(s, c, from + 1)
    }
}

pub open spec fn index_of(s: Seq<char>, c: char) -> int {
    index_of_from(s, c, 0)
}

pub proof fn lemma_index_of_from_bounds(s: Seq<char>, c: char, from: int)
    requires
        0 <= from,
    ensures
        from <= index_of_from(s, c, from) <= s.len() || (from > s.len() && index_of_from(s, c, from) == s.len()),
        index_of_from(s, c, from) < s.len() ==> s[index_of_from(s, c, from)] == c,
    decreases s.len() - from,
{
    if from < s.len() && s[from] != c {
        lemma_index_of_from_bounds(s, c, from + 1);
    }
}

pub fn find_char(s: &[char], c: char) -> (r: usize)
    ensures
        r == index_of(s@, c),
{
    let mut i: usize = 0;
    while i < s.len()
        invariant
            i <= s@.len(),
            index_of_from(s@, c, i as int) == index_of(s@, c),
        decreases s@.len() - i,
    {
        if s[i] == c {
            return i;
        }
        i = i + 1;
    }
    i
}

/// What comes before the first `c` (all of `s` where there is none).
pub open spec fn before_char(s: Seq<char>, c: char) -> Seq<char> {
    s.subrange(0, index_of(s, c))
}

/// What comes after the first `c`, where there is one.
pub open spec fn after_char(s: Seq<char>, c: char) -> Option<Seq<char>> {
    if index_of(s, c) < s.len() {
        Some(s.subrange(index_of(s, c) + 1, s.len() as int))
    } else {
        None
    }
}

pub fn slice_vec(s: &[char], from: usize, to: usize) -> (r: Vec<char>)
    requires
        from <= to <= s@.len(),
    ensures
        r@ == s@.subrange(from as int, to as int),
{
    let mut r: Vec<char> = Vec::new();
    let mut i: usize = from;
    while i < to
        invariant
            from <= i <= to,
            to <= s@.len(),
            r@ == s@.subrange(from as int, i as int),
        decreases to - i,
    {
        r.push(s[i]);
        proof {
            assert(s@.subrange(from as int, i + 1) =~= s@.subrange(from as int, i as int).push(s@[i as int]));
        }
        i = i + 1;
    }
    r
}

/// Splits `s` at its first `c`, as `splitn(2, c)` does.
pub fn split_once_char(s: &[char], c: char) -> (r: (Vec<char>, Option<Vec<char>>))
    ensures
        r.0@ == before_char(s@, c),
        r.1 is None <==> after_char(s@, c) is None,
        r.1 is Some ==> r.1.unwrap()@ == after_char(s@, c).unwrap(),
{
    let k = find_char(s, c);
    proof {
        lemma_index_of_from_bounds(s@, c, 0);
    }
    let head = slice_vec(s, 0, k);
    if k < s.len() {
        (head, Some(slice_vec(s, k + 1, s.len())))
    } else {
        (head, None)
    }
}

// ---------------------------------------------------------------------------
// Trimming and words
// ---------------------------------------------------------------------------

pub open spec fn skip_ws_from(s: Seq<char>, i: int) -> int
    decreases s.len() - i,
{
    if i >= s.len() {
        s.len() as int
    } else if is_ws(s[i]) {
        skip_ws_from(s, i + 1)
    } else {
        i
    }
}

pub open spec fn trim_end_at(s: Seq<char>, j: int) -> int
    decreases j,
{
    if j <= 0 {
        0
    } else if is_ws(s[j - 1]) {
        trim_end_at(s, j - 1)
    } else {
        j
    }
}

/// `s` without leading and trailing whitespace, as `str::trim` gives it.
pub open spec fn trim(s: Seq<char>) -> Seq<char> {
    let a = skip_ws_from(s, 0);
    let b = trim_end_at(s, s.len() as int);
    if a < b {
        s.subrange(a, b)
    } else {
        Seq::empty()
    }
}

/// `s` without trailing whitespace, as `str::trim_end` gives it.
pub open spec fn trim_end(s: Seq<char>) -> Seq<char> {
    s.subrange(0, trim_end_at(s, s.len() as int))
}

proof fn lemma_skip_ws_bounds(s: Seq<char>, i: int)
    requires
        0 <= i <= s.len(),
    ensures
        i <= skip_ws_from(s, i) <= s.len(),
    decreases s.len() - i,
{
    if i < s.len() && is_ws(s[i]) {
        lemma_skip_ws_bounds(s, i + 1);
    }
}

proof fn lemma_trim_end_bounds(s: Seq<char>, j: int)
    requires
        0 <= j <= s.len(),
    ensures
        0 <= trim_end_at(s, j) <= j,
    decreases j,
{
    if j > 0 && is_ws(s[j - 1]) {
        lemma_trim_end_bounds(s, j - 1);
    }
}

fn trim_end_index(s: &[char]) -> (r: usize)
    ensures
        r == trim_end_at(s@, s@.len() as int),
        r <= s@.len(),
{
    let mut j: usize = s.len();
    while j > 0 && is_whitespace(s[j - 1])
        invariant
            j <= s@.len(),
            trim_end_at(s@, j as int) == trim_end_at(s@, s@.len() as int),
        decreases j,
    {
        j = j - 1;
    }
    j
}

pub fn trim_chars(s: &[char]) -> (r: Vec<char>)
    ensures
        r@ == trim(s@),
{
    let mut a: usize = 0;
    while a < s.len() && is_whitespace(s[a])
        invariant
            a <= s@.len(),
            skip_ws_from(s@, a as int) == skip_ws_from(s@, 0),
        decreases s@.len() - a,
    {
        a = a + 1;
    }
    let b = trim_end_index(s);
    if a < b {
        slice_vec(s, a, b)
    } else {
        Vec::new()
    }
}

pub fn trim_end_chars(s: &[char]) -> (r: Vec<char>)
    ensures
        r@ == trim_end(s@),
{
    let b = trim_end_index(s);
    slice_vec(s, 0, b)
}

/// The whitespace-separated words of `s` from `from` on, `cur` being the
/// part of the current word already read (the rules of `str::split_whitespace`).
pub open spec fn words_acc(s: Seq<char>, from: int, cur: Seq<char>) -> Seq<Seq<char>>
    decreases s.len() - from,
{
    if from >= s.len() {
        if cur.len() == 0 {
            Seq::empty()
        } else {
            seq![cur]
        }
    } else if is_ws(s[from]) {
        if cur.len() == 0 {
            words_acc(s, from + 1, Seq::empty())
        } else {
            seq![cur] + words_acc(s, from + 1, Seq::empty())
        }
    } else {
        words_acc(s, from + 1, cur.push(s[from]))
    }
}

pub open spec fn words_of(s: Seq<char>) -> Seq<Seq<char>> {
    words_acc(s, 0, Seq::empty())
}

pub fn split_words(s: &[char]) -> (r: Vec<Vec<char>>)
    ensures
        seq_views(r@) == words_of(s@),
{
    let mut r: Vec<Vec<char>> = Vec::new();
    let mut cur: Vec<char> = Vec::new();
    let mut i: usize = 0;
    while i < s.len()
        invariant
            i <= s@.len(),
            seq_views(r@) + words_acc(s@, i as int, cur@) == words_of(s@),
        decreases s@.len() - i,
    {
        if is_whitespace(s[i]) {
            if cur.len() == 0 {
                proof {
                    assert(cur@ =~= Seq::<char>::empty());
                    assert(words_acc(s@, i as int, cur@) == words_acc(s@, i + 1, Seq::empty()));
                }
            } else {
                proof {
                    lemma_seq_views_push(r@, cur);
                    assert(seq_views(r@) + words_acc(s@, i as int, cur@) =~= seq_views(r@).push(cur@)
                        + words_acc(s@, i + 1, Seq::empty()));
                }
                r.push(cur);
                cur = Vec::new();
            }
        } else {
            proof {
                assert(words_acc(s@, i as int, cur@) == words_acc(s@, i + 1, cur@.push(s@[i as int])));
            }
            cur.push(s[i]);
        }
        i = i + 1;
    }
    if cur.len() > 0 {
        proof {
            lemma_seq_views_push(r@, cur);
            assert(seq_views(r@) + seq![cur@] =~= seq_views(r@).push(cur@));
        }
        r.push(cur);
    } else {
        proof {
            assert(seq_views(r@) + Seq::<Seq<char>>::empty() =~= seq_views(r@));
        }
    }
    r
}

} // verus!

verus! {

/// The first position at or after `from` where `s` holds `n`; -1 if none.
pub open spec fn find_from(s: Seq<char>, n: Seq<char>, from: int) -> int
    decreases s.len() + 1 - from,
{
    if from < 0 || from + n.len() > s.len() {
        -1
    } else if occurs_at(s, n, from) {
        from
    } else {
        find_from(s, n, from + 1)
    }
}

pub open spec fn find_seq(s: Seq<char>, n: Seq<char>) -> int {
    find_from(s, n, 0)
}

pub proof fn lemma_find_from_found(s: Seq<char>, n: Seq<char>, from: int)
    requires
        0 <= from,
    ensures
        find_from(s, n, from) == -1 || (from <= find_from(s, n, from) && occurs_at(
            s,
            n,
            find_from(s, n, from),
        )),
    decreases s.len() + 1 - from,
{
    if from + n.len() <= s.len() && !occurs_at(s, n, from) {
        lemma_find_from_found(s, n, from + 1);
    }
}

pub(crate) fn occurs_at_exec(s: &[char], n: &[char], i: usize) -> (r: bool)
    requires
        i + n@.len() <= s@.len(),
    ensures
        r == occurs_at(s@, n@, i as int),
{
    let slen = s.len();
    let mut j: usize = 0;
    while j < n.len()
        invariant
            slen == s@.len(),
            i + n@.len() <= s@.len(),
            j <= n@.len(),
            s@.subrange(i as int, i + j) == n@.subrange(0, j as int),
        decreases n@.len() - j,
    {
        if s[i + j] != n[j] {
            proof {
                assert(s@.subrange(i as int, i + n@.len())[j as int] == s@[i + j]);
            }
            return false;
        }
        proof {
            assert(s@.subrange(i as int, i + j + 1) =~= s@.subrange(i as int, i + j).push(s@[i + j]));
            assert(n@.subrange(0, j + 1) =~= n@.subrange(0, j as int).push(n@[j as int]));
        }
        j = j + 1;
    }
    proof {
        assert(n@.subrange(0, n@.len() as int) =~= n@);
    }
    true
}

/// The first position where `s` holds `n`, as `str::find` gives it.
pub fn find_str(s: &[char], n: &str) -> (r: Option<usize>)
    ensures
        r is None <==> find_seq(s@, n@) == -1,
        r is Some ==> r.unwrap() as int == find_seq(s@, n@),
{
    let nc = chars_of(n);
    if nc.len() > s.len() {
        return None;
    }
    let slen = s.len();
    let last = slen - nc.len();
    let mut i: usize = 0;
    loop
        invariant_except_break
            slen == s@.len(),
            nc@ == n@,
            last == s@.len() - nc@.len(),
            i <= last,
            find_from(s@, n@, i as int) == find_seq(s@, n@),
        ensures
            find_seq(s@, n@) == -1,
        decreases last - i,
    {
        if occurs_at_exec(s, &nc, i) {
            return Some(i);
        }
        if i == last {
            proof {
                assert(find_from(s@, n@, i + 1) == -1);
            }
            break;
        }
        i = i + 1;
    }
    None
}

} // verus!

verus! {

pub proof fn lemma_words_nonempty(s: Seq<char>, from: int, cur: Seq<char>)
    requires
        0 <= from,
    ensures
        forall|k: int|
            0 <= k < words_acc(s, from, cur).len() ==> #[trigger] words_acc(s, from, cur)[k].len() > 0,
    decreases s.len() - from,
{
    let w = words_acc(s, from, cur);
    if from >= s.len() {
        if cur.len() > 0 {
            assert(w == seq![cur]);
            assert forall|k: int| 0 <= k < w.len() implies #[trigger] w[k].len() > 0 by {
                assert(w[k] == cur);
            }
        }
    } else if is_ws(s[from]) {
        lemma_words_nonempty(s, from + 1, Seq::empty());
        let r = words_acc(s, from + 1, Seq::empty());
        if cur.len() > 0 {
            assert(w == seq![cur] + r);
            assert forall|k: int| 0 <= k < w.len() implies #[trigger] w[k].len() > 0 by {
                if k > 0 {
                    assert(w[k] == r[k - 1]);
                } else {
                    assert(w[k] == cur);
                }
            }
        } else {
            assert(w == r);
        }
    } else {
        lemma_words_nonempty(s, from + 1, cur.push(s[from]));
        assert(w == words_acc(s, from + 1, cur.push(s[from])));
    }
}

} // verus!

verus! {

/// Appends the characters of `cs`.
pub fn push_chars(s: &mut String, cs: &[char])
    ensures
        final(s)@ == old(s)@ + cs@,
{
    let mut i: usize = 0;
    while i < cs.len()
        invariant
            i <= cs@.len(),
            s@ == old(s)@ + cs@.take(i as int),
        decreases cs@.len() - i,
    {
        push_char(s, cs[i]);
        proof {
            assert(cs@.take(i + 1) =~= cs@.take(i as int).push(cs@[i as int]));
            assert(s@ =~= old(s)@ + cs@.take(i + 1));
        }
        i = i + 1;
    }
    proof {
        assert(cs@.take(cs@.len() as int) =~= cs@);
    }
}

/// Lines joined with `\n` after each one.
pub open spec fn lines_text(ls: Seq<Seq<char>>) -> Seq<char>
    decreases ls.len(),
{
    if ls.len() == 0 {
        Seq::empty()
    } else {
        lines_text(ls.drop_last()) + ls.last() + seq!['\n']
    }
}

} // verus!

verus! {

/// Every occurrence of `pat` (left to right, not overlapping) from position
/// `i` on replaced by `rep`, as `str::replace` does for a non-empty pattern.
pub open spec fn replace_from(s: Seq<char>, pat: Seq<char>, rep: Seq<char>, i: int) -> Seq<char>
    decreases s.len() - i,
{
    if i < 0 || i >= s.len() || pat.len() == 0 {
        if 0 <= i < s.len() {
            s.skip(i)
        } else {
            Seq::empty()
        }
    } else if occurs_at(s, pat, i) {
        rep + replace_from(s, pat, rep, i + pat.len())
    } else {
        seq![s[i]] + replace_from(s, pat, rep, i + 1)
    }
}

pub(crate) fn replace_all(s: &[char], pat: &str, rep: &str) -> (r: String)
    requires
        pat@.len() > 0,
    ensures
        r@ == replace_from(s@, pat@, rep@, 0),
{
    let pc = chars_of(pat);
    let slen = s.len();
    let mut r = String::new();
    let mut i: usize = 0;
    while i < slen
        invariant
            slen == s@.len(),
            pc@ == pat@,
            pc@.len() > 0,
            i <= slen,
            r@ + replace_from(s@, pat@, rep@, i as int) == replace_from(s@, pat@, rep@, 0),
        decreases slen - i,
    {
        if pc.len() <= slen - i && occurs_at_exec(s, pc.as_slice(), i) {
            proof {
                assert(r@ + replace_from(s@, pat@, rep@, i as int) =~= (r@ + rep@) + replace_from(
                    s@,
                    pat@,
                    rep@,
                    i + pat@.len(),
                ));
            }
            r.append(rep);
            i = i + pc.len();
        } else {
            proof {
                assert(!occurs_at(s@, pat@, i as int));
                assert(r@ + replace_from(s@, pat@, rep@, i as int) =~= r@.push(s@[i as int]) + replace_from(
                    s@,
                    pat@,
                    rep@,
                    i + 1,
                ));
            }
            push_char(&mut r, s[i]);
            i = i + 1;
        }
    }
    proof {
        assert(r@ + replace_from(s@, pat@, rep@, i as int) =~= r@);
    }
    r
}

/// `s` without any number of leading copies of `p`, as
/// `str::trim_start_matches` gives it for a non-empty `p`.
pub open spec fn trim_start_from(s: Seq<char>, p: Seq<char>, i: int) -> Seq<char>
    decreases s.len() - i,
{
    if i < 0 || i > s.len() || p.len() == 0 {
        Seq::empty()
    } else if occurs_at(s, p, i) {
        trim_start_from(s, p, i + p.len())
    } else {
        s.skip(i)
    }
}

pub(crate) fn trim_start_matches(s: &[char], p: &str) -> (r: Vec<char>)
    requires
        p@.len() > 0,
    ensures
        r@ == trim_start_from(s@, p@, 0),
{
    let pc = chars_of(p);
    let slen = s.len();
    let mut i: usize = 0;
    while pc.len() <= slen - i && occurs_at_exec(s, pc.as_slice(), i)
        invariant
            slen == s@.len(),
            pc@ == p@,
            pc@.len() > 0,
            i <= slen,
            trim_start_from(s@, p@, i as int) == trim_start_from(s@, p@, 0),
        decreases slen - i,
    {
        i = i + pc.len();
    }
    let r = slice_vec(s, i, slen);
    proof {
        assert(r@ =~= s@.skip(i as int));
    }
    r
}

} // verus!
