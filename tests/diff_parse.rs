use git_tools::diff::parse_diff_output;
use git_tools::types::DiffLineType;

#[test]
fn single_insertion_parses_to_one_add_line() {
    let text = "diff --git a/x b/x\n--- a/x\n+++ b/x\n@@ -1,0 +1,1 @@\n+hello\n";
    let files = parse_diff_output(text);
    assert_eq!(files.len(), 1);
    assert_eq!(files[0].path, "x");
    assert_eq!(files[0].status, "M");
    assert_eq!(files[0].hunks.len(), 1);
    let hunk = &files[0].hunks[0];
    assert_eq!(hunk.old_start, 1);
    assert_eq!(hunk.new_start, 1);
    assert_eq!(hunk.lines.len(), 1);
    assert_eq!(hunk.lines[0].type_, DiffLineType::Add);
    assert_eq!(hunk.lines[0].content, "hello");
    assert_eq!(hunk.lines[0].old_line_number, None);
    assert_eq!(hunk.lines[0].new_line_number, Some(1));
}

#[test]
fn counters_advance_per_side_within_a_hunk() {
    let text = "diff --git a/f.rs b/f.rs\nindex 1..2 100644\n--- a/f.rs\n+++ b/f.rs\n@@ -10,4 +20,5 @@ fn main\n keep\n-gone\n+new one\n+new two\n same\n";
    let files = parse_diff_output(text);
    let lines = &files[0].hunks[0].lines;
    let got: Vec<(DiffLineType, Option<u32>, Option<u32>)> =
        lines.iter().map(|l| (l.type_, l.old_line_number, l.new_line_number)).collect();
    assert_eq!(
        got,
        vec![
            (DiffLineType::Context, Some(10), Some(20)),
            (DiffLineType::Remove, Some(11), None),
            (DiffLineType::Add, None, Some(21)),
            (DiffLineType::Add, None, Some(22)),
            (DiffLineType::Context, Some(12), Some(23)),
        ]
    );
}

#[test]
fn file_statuses_and_hunkless_files() {
    let text = "diff --git a/new.txt b/new.txt\nnew file mode 100644\n@@ -0,0 +1 @@\n+a\n\
diff --git a/old.txt b/old.txt\ndeleted file mode 100644\n@@ -1 +0,0 @@\n-a\n\
diff --git a/img.png b/img.png\nBinary files a/img.png and b/img.png differ\n\
diff --git a/a.txt b/b.txt\nsimilarity index 100%\nrename from a.txt\nrename to b.txt\n";
    let files = parse_diff_output(text);
    let summary: Vec<(&str, &str, usize)> =
        files.iter().map(|f| (f.path.as_str(), f.status.as_str(), f.hunks.len())).collect();
    assert_eq!(
        summary,
        vec![("new.txt", "A", 1), ("old.txt", "D", 1), ("img.png", "M", 0), ("b.txt", "R", 0)]
    );
}

#[test]
fn hunk_ids_are_fresh_and_no_newline_marker_is_ignored() {
    let text = "diff --git a/x b/x\n@@ -1 +1 @@\n-a\n\\ No newline at end of file\n+b\n@@ -5,2 +5,2 @@\n c\n";
    let files = parse_diff_output(text);
    let hunks = &files[0].hunks;
    assert_eq!(hunks.len(), 2);
    assert_eq!(hunks[0].lines.len(), 2);
    assert!(!hunks[0].id.is_empty());
    assert_ne!(hunks[0].id, hunks[1].id);
    assert_eq!(hunks[1].old_start, 5);
}

#[test]
fn parsing_twice_gives_the_same_structure() {
    let text = "diff --git a/x b/x\n@@ -3,2 +3,3 @@\n a\n+b\n c\r\n";
    let strip = |t: &str| {
        parse_diff_output(t)
            .into_iter()
            .map(|f| {
                let hunks: Vec<_> = f
                    .hunks
                    .into_iter()
                    .map(|h| (h.old_start, h.new_start, h.lines))
                    .collect();
                (f.path, f.status, hunks)
            })
            .collect::<Vec<_>>()
    };
    assert_eq!(strip(text), strip(text));
    assert_eq!(strip(text)[0].2[0].2[2].content, "c");
}

#[test]
fn empty_text_has_no_files() {
    assert!(parse_diff_output("").is_empty());
    assert!(parse_diff_output("@@ -1 +1 @@\n+x\n").is_empty());
}

#[test]
fn hunk_lines_that_look_like_headers_are_kept() {
    let text = "diff --git a/r.md b/r.md\n--- a/r.md\n+++ b/r.md\n@@ -3,2 +3,2 @@\n----\n+++ plus\n keep\n-index x\n";
    let lines = &parse_diff_output(text)[0].hunks[0].lines;
    let got: Vec<(DiffLineType, &str, Option<u32>, Option<u32>)> = lines
        .iter()
        .map(|l| (l.type_, l.content.as_str(), l.old_line_number, l.new_line_number))
        .collect();
    assert_eq!(
        got,
        vec![
            (DiffLineType::Remove, "---", Some(3), None),
            (DiffLineType::Add, "++ plus", None, Some(3)),
            (DiffLineType::Context, "keep", Some(4), Some(4)),
            (DiffLineType::Remove, "index x", Some(5), None),
        ]
    );
}
