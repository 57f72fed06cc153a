use git_tools::patch::{
    build_stage_line_patch, lookup_line_in_patch, parse_hunk_range,
    parse_unstaged_zero_context_diff, ParsedPatchLineKind, StageLineSelection,
};

const HEADER: &str = "diff --git a/f b/f\nindex 1..2 100644\n--- a/f\n+++ b/f\n";

fn sel(old: Option<u32>, new: Option<u32>) -> StageLineSelection {
    StageLineSelection { old_line_number: old, new_line_number: new }
}

#[test]
fn pure_deletion_uses_new_anchor() {
    let diff = format!("{}@@ -5,1 +7,0 @@\n-removed text\n", HEADER);
    let parsed = parse_unstaged_zero_context_diff(&diff).unwrap();
    let patch = build_stage_line_patch(&parsed, &sel(Some(5), None)).unwrap();
    assert_eq!(patch, format!("{}@@ -5,1 +7,0 @@\n-removed text\n", HEADER));
}

#[test]
fn pure_insertion_has_zero_old_count() {
    let diff = format!("{}@@ -3,0 +4,2 @@\n+one\n+two\n", HEADER);
    let parsed = parse_unstaged_zero_context_diff(&diff).unwrap();
    let patch = build_stage_line_patch(&parsed, &sel(None, Some(5))).unwrap();
    assert_eq!(patch, format!("{}@@ -3,0 +5,1 @@\n+two\n", HEADER));
}

#[test]
fn paired_modification_has_counts_of_one() {
    let diff = format!("{}@@ -8 +8 @@\n-before\n+after\n", HEADER);
    let parsed = parse_unstaged_zero_context_diff(&diff).unwrap();
    let patch = build_stage_line_patch(&parsed, &sel(Some(8), Some(8))).unwrap();
    assert_eq!(patch, format!("{}@@ -8,1 +8,1 @@\n-before\n+after\n", HEADER));
}

#[test]
fn anchors_follow_both_cursors() {
    let diff = format!("{}@@ -10,2 +12,1 @@\n-a\n-b\n+c\n@@ -30,0 +31,1 @@\n+d\n", HEADER);
    let parsed = parse_unstaged_zero_context_diff(&diff).unwrap();
    assert_eq!(parsed.header_lines.len(), 4);
    assert_eq!(parsed.hunks.len(), 2);
    let c = &parsed.hunks[0].lines[2];
    assert_eq!((c.new_line, c.old_anchor, c.new_anchor), (Some(12), 12, 12));
    let b = &parsed.hunks[0].lines[1];
    assert_eq!((b.old_line, b.new_anchor), (Some(11), 12));
    assert_eq!(lookup_line_in_patch(&parsed, 31, ParsedPatchLineKind::Add), Ok((1, 0)));
}

#[test]
fn selection_errors() {
    let diff = format!("{}@@ -1 +1 @@\n-x\n+y\n@@ -9 +9 @@\n-p\n+q\n", HEADER);
    let parsed = parse_unstaged_zero_context_diff(&diff).unwrap();
    assert_eq!(
        build_stage_line_patch(&parsed, &sel(None, None)),
        Err("Stage-line selection is empty".to_string())
    );
    assert_eq!(
        build_stage_line_patch(&parsed, &sel(Some(1), Some(9))),
        Err("Selected modified line pair is in different hunks".to_string())
    );
    assert_eq!(
        build_stage_line_patch(&parsed, &sel(Some(4), None)),
        Err("Unable to find removed line 4 in unstaged diff (old)".to_string())
    );
    assert_eq!(
        build_stage_line_patch(&parsed, &sel(None, Some(40))),
        Err("Unable to find added line 40 in unstaged diff (new)".to_string())
    );
}

#[test]
fn parse_errors() {
    assert_eq!(
        parse_unstaged_zero_context_diff("").unwrap_err(),
        "Unable to parse diff header"
    );
    assert_eq!(
        parse_unstaged_zero_context_diff(HEADER).unwrap_err(),
        "No unstaged diff hunks available for selected file"
    );
    assert_eq!(
        parse_unstaged_zero_context_diff(&format!("{}@@ -x +1 @@\n", HEADER)).unwrap_err(),
        "Invalid hunk range start '-x'"
    );
    assert_eq!(
        parse_unstaged_zero_context_diff(&format!("{}@@ broken\n", HEADER)).unwrap_err(),
        "Invalid hunk header '@@ broken'"
    );
}

#[test]
fn hunk_range_tokens() {
    assert_eq!(parse_hunk_range("-12,3", '-'), Ok((12, 3)));
    assert_eq!(parse_hunk_range("+7", '+'), Ok((7, 1)));
    assert_eq!(parse_hunk_range("+4294967295,0", '+'), Ok((u32::MAX, 0)));
    assert_eq!(parse_hunk_range("7", '+'), Err("Invalid hunk token '7'".to_string()));
    assert_eq!(parse_hunk_range("-1,z", '-'), Err("Invalid hunk range count '-1,z'".to_string()));
    assert_eq!(parse_hunk_range("-4294967296", '-'), Err("Invalid hunk range start '-4294967296'".to_string()));
}

#[test]
fn second_file_ends_the_scan() {
    let diff = format!("{}@@ -1 +1 @@\n+only\ndiff --git a/g b/g\n@@ -1 +1 @@\n+other\n", HEADER);
    let parsed = parse_unstaged_zero_context_diff(&diff).unwrap();
    assert_eq!(parsed.hunks.len(), 1);
    assert_eq!(parsed.hunks[0].lines[0].content, "only");
}

#[test]
fn no_newline_marker_is_skipped() {
    let diff = format!("{}@@ -2 +2 @@\n-old\n\\ No newline at end of file\n+new\n\\ No newline at end of file\n", HEADER);
    let parsed = parse_unstaged_zero_context_diff(&diff).unwrap();
    assert_eq!(parsed.hunks[0].lines.len(), 2);
    let patch = build_stage_line_patch(&parsed, &sel(Some(2), Some(2))).unwrap();
    assert_eq!(patch, format!("{}@@ -2,1 +2,1 @@\n-old\n+new\n", HEADER));
}

#[test]
fn stage_and_unstage_patches_coincide() {
    // Worktree diff before staging, and the cached diff once the line is staged.
    let unstaged = format!("{}@@ -3,0 +4,2 @@\n+first\n+second\n", HEADER);
    let cached = format!("{}@@ -3,0 +4 @@\n+first\n", HEADER);
    let s = sel(None, Some(4));
    let stage = build_stage_line_patch(&parse_unstaged_zero_context_diff(&unstaged).unwrap(), &s).unwrap();
    let unstage = build_stage_line_patch(&parse_unstaged_zero_context_diff(&cached).unwrap(), &s).unwrap();
    assert_eq!(stage, unstage);
    assert_eq!(stage, format!("{}@@ -3,0 +4,1 @@\n+first\n", HEADER));
}

#[test]
fn header_runs_to_the_first_hunk_marker() {
    let diff = "diff --git a/m b/m\nold mode 100644\nnew mode 100755\ndiff --git a/f b/f\n--- a/f\n+++ b/f\n@@ -1 +1 @@\n-x\n+y\n";
    let parsed = parse_unstaged_zero_context_diff(diff).unwrap();
    assert_eq!(
        parsed.header_lines,
        vec!["diff --git a/m b/m", "old mode 100644", "new mode 100755", "diff --git a/f b/f", "--- a/f", "+++ b/f"]
    );
    assert_eq!(parsed.hunks.len(), 1);
}

#[test]
fn removed_dash_lines_are_selectable() {
    let diff = format!("{}@@ -4 +3,0 @@\n----\n", HEADER);
    let parsed = parse_unstaged_zero_context_diff(&diff).unwrap();
    let patch = build_stage_line_patch(&parsed, &sel(Some(4), None)).unwrap();
    assert_eq!(patch, format!("{}@@ -4,1 +3,0 @@\n----\n", HEADER));
}
