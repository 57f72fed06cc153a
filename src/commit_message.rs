//! Commit messages drafted by a language model: the prompt sent with the
//! staged changes, and the cleanup of what comes back.

use vstd::prelude::*;
use crate::executor::{arg_views, joined};
use crate::numeric::{decimal, push_decimal};
use crate::text::{
    chars_of, has_prefix, lines_of, push_chars, seq_views, slice_vec, split_lines, starts_with,
    string_of, trim, trim_chars, trim_end, trim_end_chars,
};

verus! {

/// The model used when none is configured.
pub const DEFAULT_GEMINI_MODEL: &'static str = "gemini-2.5-flash";

/// At most this many characters of the staged diff go into the prompt.
pub const GEMINI_MAX_DIFF_CHARS: usize = 40000;

/// At most this many characters of the staged file list go into the prompt.
pub const GEMINI_MAX_FILE_SUMMARY_CHARS: usize = 4000;

/// The instructions that open every prompt.
pub const COMMIT_PROMPT_INTRO: &'static str = "You are an expert software engineer writing Git commit messages.\nTask: Generate a single commit message from the staged changes.\nRules:\n- Return plain text only (no markdown, no code fences).\n- Output format must be exactly:\n<subject line>\n\n<description/body>\n- Keep the subject line under 72 characters.\n- Use imperative voice.\n- Prefer Conventional Commit prefixes when clear (feat, fix, refactor, docs, test, chore).\n- Always include a short body (1-3 concise lines) explaining what changed and why.\n- Do not include labels like \"Subject:\" or \"Description:\".\n\n";

} // verus!

verus! {

/// A listed model's name without its "models/" prefix, kept only for the
/// Gemini family.
pub open spec fn model_name(raw: Seq<char>) -> Option<Seq<char>> {
    let t = trim(raw);
    let n = if has_prefix(t, "models/"@) {
        t.skip("models/"@.len() as int)
    } else {
        t
    };
    if t.len() == 0 || n.len() == 0 || !has_prefix(n, "gemini"@) {
        None
    } else {
        Some(n)
    }
}

pub fn normalize_gemini_model_name(raw_name: &str) -> (r: Option<String>)
    ensures
        r is None <==> model_name(raw_name@) is None,
        r matches Some(n) ==> model_name(raw_name@) == Some(n@),
{
    let cs = chars_of(raw_name);
    let t = trim_chars(cs.as_slice());
    if t.len() == 0 {
        return None;
    }
    let n = if starts_with(t.as_slice(), "models/") {
        let k = chars_of("models/").len();
        let rest = slice_vec(t.as_slice(), k, t.len());
        proof {
            assert(rest@ =~= t@.skip("models/"@.len() as int));
        }
        rest
    } else {
        t
    };
    if n.len() == 0 || !starts_with(n.as_slice(), "gemini") {
        return None;
    }
    Some(string_of(n.as_slice()))
}

/// The first `max_chars` characters of `input`, and whether any were cut.
pub fn truncate_for_prompt(input: &str, max_chars: usize) -> (r: (String, bool))
    ensures
        r.1 == (input@.len() > max_chars),
        r.0@ == (if input@.len() > max_chars {
            input@.take(max_chars as int)
        } else {
            input@
        }),
{
    let cs = chars_of(input);
    if cs.len() > max_chars {
        let head = slice_vec(cs.as_slice(), 0, max_chars);
        proof {
            assert(head@ =~= input@.take(max_chars as int));
        }
        (string_of(head.as_slice()), true)
    } else {
        (string_of(cs.as_slice()), false)
    }
}

pub open spec fn prompt_text(files: Seq<char>, diff: Seq<char>, truncated: bool) -> Seq<char> {
    COMMIT_PROMPT_INTRO@ + "Staged files (name-status):\n"@ + trim(files) + "\n\nStaged diff:\n"@ + trim(diff)
        + (if truncated {
        "\n\n[NOTE] Diff content was truncated due to size."@
    } else {
        Seq::empty()
    })
}

/// The prompt: the fixed instructions, the staged file list and the staged
/// diff (each trimmed), and a note where the diff was cut.
pub fn build_commit_message_prompt(staged_files: &str, staged_diff: &str, diff_was_truncated: bool) -> (r:
    String)
    ensures
        r@ == prompt_text(staged_files@, staged_diff@, diff_was_truncated),
{
    let mut prompt = COMMIT_PROMPT_INTRO.to_string();
    prompt.append("Staged files (name-status):\n");
    let f = chars_of(staged_files);
    let ft = trim_chars(f.as_slice());
    push_chars(&mut prompt, ft.as_slice());
    prompt.append("\n\nStaged diff:\n");
    let d = chars_of(staged_diff);
    let dt = trim_chars(d.as_slice());
    push_chars(&mut prompt, dt.as_slice());
    if diff_was_truncated {
        prompt.append("\n\n[NOTE] Diff content was truncated due to size.");
    } else {
        proof {
            assert(prompt@ =~= prompt@ + Seq::<char>::empty());
        }
    }
    prompt
}

// ---------------------------------------------------------------------------
// Cleaning up the reply
// ---------------------------------------------------------------------------

/// `\r\n` pairs turned into `\n`, scanning from position `i`.
pub open spec fn crlf_from(s: Seq<char>, i: int) -> Seq<char>
    decreases s.len() - i,
{
    if i < 0 || i >= s.len() {
        Seq::empty()
    } else if i + 1 < s.len() && s[i] == '\r' && s[i + 1] == '\n' {
        seq!['\n'] + crlf_from(s, i + 2)
    } else {
        seq![s[i]] + crlf_from(s, i + 1)
    }
}

fn crlf_to_lf(s: &[char]) -> (r: Vec<char>)
    ensures
        r@ == crlf_from(s@, 0),
{
    let mut r: Vec<char> = Vec::new();
    let mut i: usize = 0;
    while i < s.len()
        invariant
            i <= s@.len(),
            r@ + crlf_from(s@, i as int) == crlf_from(s@, 0),
        decreases s@.len() - i,
    {
        if i + 1 < s.len() && s[i] == '\r' && s[i + 1] == '\n' {
            proof {
                assert(r@ + crlf_from(s@, i as int) =~= r@.push('\n') + crlf_from(s@, i + 2));
            }
            r.push('\n');
            i = i + 2;
        } else {
            proof {
                assert(r@ + crlf_from(s@, i as int) =~= r@.push(s@[i as int]) + crlf_from(s@, i + 1));
            }
            r.push(s[i]);
            i = i + 1;
        }
    }
    proof {
        assert(r@ + crlf_from(s@, i as int) =~= r@);
    }
    r
}

/// The number of lines with something besides whitespace, among the first `n`.
pub open spec fn nonblank_count(ls: Seq<Seq<char>>, n: int) -> nat
    decreases n,
{
    if n <= 0 {
        0
    } else {
        nonblank_count(ls, n - 1) + if trim(ls[n - 1]).len() > 0 {
            1nat
        } else {
            0nat
        }
    }
}

/// A message with a subject but no body gets a generic body that counts
/// the staged files; anything else is only trimmed.
pub open spec fn with_body(message: Seq<char>, staged_files: Seq<char>) -> Seq<char> {
    let normalized = crlf_from(message, 0);
    let ls = lines_of(normalized);
    let subject = if ls.len() > 0 {
        trim(ls[0])
    } else {
        Seq::empty()
    };
    let has_body = exists|k: int| 1 <= k < ls.len() && trim(#[trigger] ls[k]).len() > 0;
    if subject.len() == 0 || has_body {
        trim(normalized)
    } else {
        let n = nonblank_count(lines_of(staged_files), lines_of(staged_files).len() as int);
        subject + "\n\n"@ + if n <= 1 {
            "Update staged changes in 1 file."@
        } else {
            "Update staged changes in "@ + decimal(n) + " files."@
        }
    }
}

pub fn ensure_commit_message_has_body(message: &str, staged_files: &str) -> (r: String)
    ensures
        r@ == with_body(message@, staged_files@),
{
    let m = chars_of(message);
    let normalized = crlf_to_lf(m.as_slice());
    let ls = split_lines(normalized.as_slice());
    let ghost lsv = lines_of(normalized@);
    let subject = if ls.len() > 0 {
        proof {
            assert(seq_views(ls@)[0] == ls@[0]@);
        }
        trim_chars(ls[0].as_slice())
    } else {
        Vec::new()
    };
    let mut has_body = false;
    let mut k: usize = 1;
    while k < ls.len()
        invariant
            1 <= k,
            seq_views(ls@) == lsv,
            has_body ==> exists|j: int| 1 <= j < lsv.len() && trim(#[trigger] lsv[j]).len() > 0,
            !has_body ==> forall|j: int| 1 <= j < k && j < lsv.len() ==> trim(#[trigger] lsv[j]).len() == 0,
        decreases ls@.len() - k,
    {
        proof {
            assert(lsv[k as int] == ls@[k as int]@);
        }
        let t = trim_chars(ls[k].as_slice());
        if t.len() > 0 {
            has_body = true;
        }
        k = k + 1;
    }
    proof {
        if subject@.len() == 0 {
            assert(subject@ =~= Seq::<char>::empty());
        }
    }
    if subject.len() == 0 || has_body {
        let t = trim_chars(normalized.as_slice());
        return string_of(t.as_slice());
    }
    let sc = chars_of(staged_files);
    let sl = split_lines(sc.as_slice());
    let ghost slv = lines_of(staged_files@);
    let mut count: u64 = 0;
    let mut j: usize = 0;
    while j < sl.len()
        invariant
            j <= sl@.len(),
            seq_views(sl@) == slv,
            count as nat == nonblank_count(slv, j as int),
            count <= j,
        decreases sl@.len() - j,
    {
        proof {
            assert(slv[j as int] == sl@[j as int]@);
        }
        let t = trim_chars(sl[j].as_slice());
        if t.len() > 0 {
            count = count + 1;
        }
        j = j + 1;
    }
    let mut out = string_of(subject.as_slice());
    out.append("\n\n");
    if count <= 1 {
        out.append("Update staged changes in 1 file.");
    } else {
        out.append("Update staged changes in ");
        push_decimal(&mut out, count);
        out.append(" files.");
    }
    out
}

} // verus!

verus! {

pub open spec fn is_ascii_upper(c: char) -> bool {
    65 <= (c as u32) <= 90
}

/// `t` starts with the lowercase ASCII text `p`, ignoring ASCII case (as a
/// test on `to_ascii_lowercase` does).
pub open spec fn has_prefix_ci(t: Seq<char>, p: Seq<char>) -> bool {
    &&& p.len() <= t.len()
    &&& forall|i: int|
        0 <= i < p.len() ==> (#[trigger] t[i] == p[i] || (is_ascii_upper(t[i]) && (t[i] as u32) + 32
            == (p[i] as u32)))
}

fn starts_with_ci(t: &[char], p: &str) -> (r: bool)
    ensures
        r == has_prefix_ci(t@, p@),
{
    let pc = chars_of(p);
    if pc.len() > t.len() {
        return false;
    }
    let mut i: usize = 0;
    while i < pc.len()
        invariant
            pc@ == p@,
            pc@.len() <= t@.len(),
            i <= pc@.len(),
            forall|j: int|
                0 <= j < i ==> (#[trigger] t@[j] == pc@[j] || (is_ascii_upper(t@[j]) && (t@[j] as u32)
                    + 32 == (pc@[j] as u32))),
        decreases pc@.len() - i,
    {
        let c = t[i];
        let u = c as u32;
        if !(c == pc[i] || (65 <= u && u <= 90 && u + 32 == pc[i] as u32)) {
            return false;
        }
        i = i + 1;
    }
    true
}

/// A reply wrapped in a code fence loses the fence lines.
pub open spec fn strip_fence(text: Seq<char>) -> Seq<char> {
    if has_prefix(text, "```"@) {
        let ls = lines_of(text);
        let l1 = if ls.len() > 0 {
            ls.drop_first()
        } else {
            ls
        };
        let l2 = if l1.len() > 0 && has_prefix(trim(l1.last()), "```"@) {
            l1.drop_last()
        } else {
            l1
        };
        trim(joined(l2, "\n"@))
    } else {
        text
    }
}

pub open spec fn strip_label(text: Seq<char>) -> Seq<char> {
    if has_prefix(text, "Commit message:"@) {
        trim(text.skip("Commit message:"@.len() as int))
    } else {
        text
    }
}

/// One reply line: "Subject:" keeps only its text; "Description:" keeps
/// its text after a blank separator line; other lines lose trailing space.
pub open spec fn label_step(acc: Seq<Seq<char>>, l: Seq<char>) -> Seq<Seq<char>> {
    let t = trim(l);
    if has_prefix_ci(t, "subject:"@) {
        let rest = trim(t.skip(8));
        if rest.len() > 0 {
            acc.push(rest)
        } else {
            acc
        }
    } else if has_prefix_ci(t, "description:"@) {
        let a1 = if acc.len() > 0 && trim(acc.last()).len() > 0 {
            acc.push(Seq::empty())
        } else {
            acc
        };
        let rest = trim(t.skip(12));
        if rest.len() > 0 {
            a1.push(rest)
        } else {
            a1
        }
    } else {
        acc.push(trim_end(l))
    }
}

pub open spec fn label_fold(ls: Seq<Seq<char>>, n: int) -> Seq<Seq<char>>
    decreases n,
{
    if n <= 0 {
        Seq::empty()
    } else {
        label_step(label_fold(ls, n - 1), ls[n - 1])
    }
}

/// The reply cleaned up: trimmed, unfenced, unlabelled.
pub open spec fn sanitized(raw: Seq<char>) -> Seq<char> {
    let t = strip_label(strip_fence(trim(raw)));
    let ls = lines_of(t);
    let nl = label_fold(ls, ls.len() as int);
    if nl.len() > 0 {
        trim(joined(nl, "\n"@))
    } else {
        t
    }
}

fn line_strings(ls: &Vec<Vec<char>>, from: usize, to: usize) -> (r: Vec<String>)
    requires
        from <= to <= ls@.len(),
    ensures
        arg_views(r@) == seq_views(ls@).subrange(from as int, to as int),
{
    let mut r: Vec<String> = Vec::new();
    let mut i: usize = from;
    while i < to
        invariant
            from <= i <= to,
            to <= ls@.len(),
            arg_views(r@) == seq_views(ls@).subrange(from as int, i as int),
        decreases to - i,
    {
        let s = string_of(ls[i].as_slice());
        proof {
            assert(seq_views(ls@)[i as int] == ls@[i as int]@);
            assert(arg_views(r@.push(s)) =~= arg_views(r@).push(s@));
            assert(seq_views(ls@).subrange(from as int, i + 1) =~= seq_views(ls@).subrange(
                from as int,
                i as int,
            ).push(s@));
        }
        r.push(s);
        i = i + 1;
    }
    r
}

fn strip_fence_exec(text: Vec<char>) -> (r: Vec<char>)
    ensures
        r@ == strip_fence(text@),
{
    if !starts_with(text.as_slice(), "```") {
        return text;
    }
    let ls = split_lines(text.as_slice());
    let from: usize = if ls.len() > 0 {
        1
    } else {
        0
    };
    let mut to: usize = ls.len();
    if to > from {
        proof {
            assert(seq_views(ls@)[to - 1] == ls@[to - 1]@);
        }
        let last = trim_chars(ls[to - 1].as_slice());
        if starts_with(last.as_slice(), "```") {
            to = to - 1;
        }
    }
    let kept = line_strings(&ls, from, to);
    proof {
        let v = lines_of(text@);
        let l1 = if v.len() > 0 {
            v.drop_first()
        } else {
            v
        };
        assert(v.subrange(from as int, v.len() as int) =~= l1);
        if l1.len() > 0 && has_prefix(trim(l1.last()), "```"@) {
            assert(v.subrange(from as int, to as int) =~= l1.drop_last());
        } else {
            assert(v.subrange(from as int, to as int) =~= l1);
        }
    }
    let joined_text = crate::executor::join_strings(kept.as_slice(), "\n");
    let jc = chars_of(joined_text.as_str());
    trim_chars(jc.as_slice())
}

fn strip_label_exec(text: Vec<char>) -> (r: Vec<char>)
    ensures
        r@ == strip_label(text@),
{
    if starts_with(text.as_slice(), "Commit message:") {
        let k = chars_of("Commit message:").len();
        let rest = slice_vec(text.as_slice(), k, text.len());
        proof {
            assert(rest@ =~= text@.skip("Commit message:"@.len() as int));
        }
        trim_chars(rest.as_slice())
    } else {
        text
    }
}

proof fn lemma_label_lens()
    ensures
        "subject:"@.len() == 8,
        "description:"@.len() == 12,
{
    reveal_strlit("subject:");
    reveal_strlit("description:");
}

/// Cleans up a model's reply into a plain commit message.
pub fn sanitize_commit_message(raw: &str) -> (r: String)
    ensures
        r@ == sanitized(raw@),
{
    let rc = chars_of(raw);
    let t0 = trim_chars(rc.as_slice());
    let t1 = strip_fence_exec(t0);
    let text = strip_label_exec(t1);
    let ls = split_lines(text.as_slice());
    let ghost lsv = lines_of(text@);
    let mut out: Vec<String> = Vec::new();
    proof {
        lemma_label_lens();
        assert(arg_views(out@) =~= Seq::empty());
    }
    let mut i: usize = 0;
    while i < ls.len()
        invariant
            i <= ls@.len(),
            seq_views(ls@) == lsv,
            "subject:"@.len() == 8,
            "description:"@.len() == 12,
            arg_views(out@) == label_fold(lsv, i as int),
        decreases ls@.len() - i,
    {
        let line = ls[i].as_slice();
        proof {
            assert(lsv[i as int] == line@);
        }
        let t = trim_chars(line);
        let ghost before = arg_views(out@);
        if starts_with_ci(t.as_slice(), "subject:") {
            let rest = slice_vec(t.as_slice(), 8, t.len());
            let r = trim_chars(rest.as_slice());
            proof {
                assert(rest@ =~= t@.skip(8));
            }
            if r.len() > 0 {
                let s = string_of(r.as_slice());
                proof {
                    assert(arg_views(out@.push(s)) =~= before.push(r@));
                }
                out.push(s);
            }
        } else if starts_with_ci(t.as_slice(), "description:") {
            if out.len() > 0 {
                let lc = chars_of(out[out.len() - 1].as_str());
                let lt = trim_chars(lc.as_slice());
                proof {
                    assert(before.last() == out@[out@.len() - 1]@);
                }
                if lt.len() > 0 {
                    let e = String::new();
                    proof {
                        assert(arg_views(out@.push(e)) =~= before.push(Seq::empty()));
                    }
                    out.push(e);
                }
            }
            let ghost mid = arg_views(out@);
            let rest = slice_vec(t.as_slice(), 12, t.len());
            let r = trim_chars(rest.as_slice());
            proof {
                assert(rest@ =~= t@.skip(12));
            }
            if r.len() > 0 {
                let s = string_of(r.as_slice());
                proof {
                    assert(arg_views(out@.push(s)) =~= mid.push(r@));
                }
                out.push(s);
            }
        } else {
            let te = trim_end_chars(line);
            let s = string_of(te.as_slice());
            proof {
                assert(arg_views(out@.push(s)) =~= before.push(te@));
            }
            out.push(s);
        }
        i = i + 1;
    }
    if out.len() > 0 {
        let j = crate::executor::join_strings(out.as_slice(), "\n");
        let jc = chars_of(j.as_str());
        let jt = trim_chars(jc.as_slice());
        string_of(jt.as_slice())
    } else {
        string_of(text.as_slice())
    }
}

} // verus!

verus! {

pub open spec fn concat_all(parts: Seq<Seq<char>>) -> Seq<char>
    decreases parts.len(),
{
    if parts.len() == 0 {
        Seq::empty()
    } else {
        concat_all(parts.drop_last()) + parts.last()
    }
}

/// The reply's text: the text parts of its first candidate run together and
/// trimmed; none where nothing is left.
pub fn gemini_text_from_parts(parts: &[String]) -> (r: Option<String>)
    ensures
        trim(concat_all(arg_views(parts@))).len() == 0 ==> r is None,
        trim(concat_all(arg_views(parts@))).len() > 0 ==> (r matches Some(t) && t@ == trim(
            concat_all(arg_views(parts@)),
        )),
{
    let mut out = String::new();
    let mut i: usize = 0;
    while i < parts.len()
        invariant
            i <= parts@.len(),
            out@ == concat_all(arg_views(parts@).take(i as int)),
        decreases parts@.len() - i,
    {
        out.append(parts[i].as_str());
        proof {
            let v = arg_views(parts@);
            assert(v.take(i + 1).drop_last() =~= v.take(i as int));
            assert(v.take(i + 1).last() == parts@[i as int]@);
        }
        i = i + 1;
    }
    proof {
        assert(arg_views(parts@).take(parts@.len() as int) =~= arg_views(parts@));
    }
    let cs = chars_of(out.as_str());
    let t = trim_chars(cs.as_slice());
    if t.len() == 0 {
        None
    } else {
        Some(string_of(t.as_slice()))
    }
}

} // verus!

verus! {

// ---------------------------------------------------------------------------
// Listing the models
// ---------------------------------------------------------------------------

/// A listed model is offered when it has a name, can generate content (or
/// lists no methods at all), and is a Gemini model.
pub open spec fn offered_model(name: Option<Seq<char>>, methods: Seq<Seq<char>>) -> Option<Seq<char>> {
    match name {
        None => None,
        Some(n) => if methods.len() > 0 && !methods.contains("generateContent"@) {
            None
        } else {
            model_name(n)
        },
    }
}

pub fn accept_model(name: Option<String>, methods: &[String]) -> (r: Option<String>)
    ensures
        crate::conflict::opt_view(r) == offered_model(crate::conflict::opt_view(name), arg_views(methods@)),
{
    let n = match name {
        None => {
            return None;
        },
        Some(n) => n,
    };
    if methods.len() > 0 {
        let wanted = "generateContent".to_string();
        let mut found = false;
        let mut i: usize = 0;
        while i < methods.len()
            invariant
                i <= methods@.len(),
                wanted@ == "generateContent"@,
                found <==> exists|j: int| 0 <= j < i && arg_views(methods@)[j] == "generateContent"@,
            decreases methods@.len() - i,
        {
            proof {
                assert(arg_views(methods@)[i as int] == methods@[i as int]@);
            }
            if methods[i] == wanted {
                found = true;
            }
            i = i + 1;
        }
        if !found {
            proof {
                assert(!arg_views(methods@).contains("generateContent"@));
            }
            return None;
        }
    }
    normalize_gemini_model_name(n.as_str())
}

/// Lexicographic order by code point (the byte order of UTF-8 strings).
pub open spec fn text_lt(a: Seq<char>, b: Seq<char>) -> bool
    decreases a.len(),
{
    if a.len() == 0 {
        b.len() > 0
    } else if b.len() == 0 {
        false
    } else if a[0] != b[0] {
        a[0] < b[0]
    } else {
        text_lt(a.drop_first(), b.drop_first())
    }
}

pub open spec fn sorted_unique(v: Seq<Seq<char>>) -> bool {
    forall|i: int, j: int| 0 <= i < j < v.len() ==> text_lt(#[trigger] v[i], #[trigger] v[j])
}

pub proof fn lemma_text_lt_trans(a: Seq<char>, b: Seq<char>, c: Seq<char>)
    requires
        text_lt(a, b),
        text_lt(b, c),
    ensures
        text_lt(a, c),
    decreases a.len(),
{
    if a.len() > 0 && a[0] == b[0] && b[0] == c[0] {
        lemma_text_lt_trans(a.drop_first(), b.drop_first(), c.drop_first());
    }
}

pub proof fn lemma_text_lt_total(a: Seq<char>, b: Seq<char>)
    ensures
        a == b || text_lt(a, b) || text_lt(b, a),
    decreases a.len(),
{
    if a.len() > 0 && b.len() > 0 && a[0] == b[0] {
        lemma_text_lt_total(a.drop_first(), b.drop_first());
        if a.drop_first() == b.drop_first() {
            assert(a =~= seq![a[0]] + a.drop_first());
            assert(b =~= seq![b[0]] + b.drop_first());
        }
    } else if a.len() == 0 && b.len() == 0 {
        assert(a =~= b);
    }
}

fn text_less(a: &[char], b: &[char]) -> (r: bool)
    ensures
        r == text_lt(a@, b@),
{
    proof {
        assert(a@.skip(0) =~= a@);
        assert(b@.skip(0) =~= b@);
    }
    let mut i: usize = 0;
    while i < a.len() && i < b.len() && a[i] == b[i]
        invariant
            i <= a@.len(),
            i <= b@.len(),
            text_lt(a@.skip(i as int), b@.skip(i as int)) == text_lt(a@, b@),
        decreases a@.len() - i,
    {
        proof {
            assert(a@.skip(i as int).drop_first() =~= a@.skip(i + 1));
            assert(b@.skip(i as int).drop_first() =~= b@.skip(i + 1));
        }
        i = i + 1;
    }
    if i == a.len() {
        i < b.len()
    } else if i == b.len() {
        false
    } else {
        a[i] < b[i]
    }
}

/// Adds a name to a sorted, duplicate-free list, keeping it so.
pub fn insert_model(models: &mut Vec<String>, name: String)
    requires
        sorted_unique(arg_views(old(models)@)),
    ensures
        sorted_unique(arg_views(final(models)@)),
        forall|y: Seq<char>|
            arg_views(final(models)@).contains(y) <==> (arg_views(old(models)@).contains(y) || y == name@),
{
    let ghost v = arg_views(models@);
    let nc = chars_of(name.as_str());
    let mut k: usize = 0;
    while k < models.len()
        invariant_except_break
            k <= models@.len(),
            v == arg_views(models@),
            nc@ == name@,
            forall|i: int| 0 <= i < k ==> text_lt(#[trigger] v[i], name@),
        ensures
            k <= models@.len(),
            v == arg_views(models@),
            forall|i: int| 0 <= i < k ==> text_lt(#[trigger] v[i], name@),
            k < models@.len() ==> !text_lt(v[k as int], name@),
        decreases models@.len() - k,
    {
        let mc = chars_of(models[k].as_str());
        proof {
            assert(v[k as int] == models@[k as int]@);
        }
        if !text_less(mc.as_slice(), nc.as_slice()) {
            break;
        }
        k = k + 1;
    }
    if k < models.len() {
        let same = models[k] == name;
        proof {
            assert(v[k as int] == models@[k as int]@);
        }
        if same {
            return;
        }
        proof {
            lemma_text_lt_total(v[k as int], name@);
        }
    }
    let ghost w = v.insert(k as int, name@);
    proof {
        assert forall|i: int, j: int| 0 <= i < j < w.len() implies text_lt(#[trigger] w[i], #[trigger] w[j]) by {
            if j < k {
                assert(w[i] == v[i] && w[j] == v[j]);
            } else if j == k {
                assert(w[j] == name@ && w[i] == v[i]);
            } else if i < k {
                assert(w[i] == v[i] && w[j] == v[j - 1]);
                assert(text_lt(name@, v[k as int]));
                if j - 1 > k {
                    lemma_text_lt_trans(name@, v[k as int], v[j - 1]);
                }
                lemma_text_lt_trans(v[i], name@, v[j - 1]);
            } else if i == k {
                assert(w[i] == name@ && w[j] == v[j - 1]);
                assert(text_lt(name@, v[k as int]));
                if j - 1 > k {
                    lemma_text_lt_trans(name@, v[k as int], v[j - 1]);
                }
            } else {
                assert(w[i] == v[i - 1] && w[j] == v[j - 1]);
            }
        }
        assert forall|y: Seq<char>| w.contains(y) <==> (v.contains(y) || y == name@) by {
            if w.contains(y) {
                let j = choose|j: int| 0 <= j < w.len() && w[j] == y;
                if j < k {
                    assert(v[j] == y);
                } else if j > k {
                    assert(v[j - 1] == y);
                }
            }
            if v.contains(y) {
                let j = choose|j: int| 0 <= j < v.len() && v[j] == y;
                if j < k {
                    assert(w[j] == y);
                } else {
                    assert(w[j + 1] == y);
                }
            }
            if y == name@ {
                assert(w[k as int] == y);
            }
        }
    }
    models.insert(k, name);
    proof {
        assert(arg_views(models@) =~= w);
    }
}

/// The models offered, or the error when there are none.
pub fn finish_model_list(models: Vec<String>) -> (r: Result<Vec<String>, String>)
    ensures
        models@.len() == 0 ==> (r matches Err(e) && e@ == "No Gemini models found for this API key."@),
        models@.len() > 0 ==> r == Ok::<Vec<String>, String>(models),
{
    if models.len() == 0 {
        Err("No Gemini models found for this API key.".to_string())
    } else {
        Ok(models)
    }
}

} // verus!
