use git_tools::patch::StageLineSelection;
use git_tools::staging::{
    check_line_target, is_excluded, line_apply_args, line_diff_args, line_patch_from_diff,
    split_rename_path,
};

fn strings(v: &[&str]) -> Vec<String> {
    v.iter().map(|s| s.to_string()).collect()
}

#[test]
fn exclusion_globs() {
    let pats = strings(&["  ", "*.log", "build/**"]);
    assert!(is_excluded("debug.log", &pats));
    assert!(is_excluded("build\\out\\a.o", &pats));
    assert!(!is_excluded("src/main.rs", &pats));
    assert!(!is_excluded("debug.log", &[]));
    assert!(!is_excluded("a[", &strings(&["a["])));
}

#[test]
fn rename_paths() {
    assert_eq!(
        split_rename_path("old.txt -> new.txt"),
        Some(("old.txt".to_string(), "new.txt".to_string()))
    );
    assert_eq!(split_rename_path("plain.txt"), None);
    assert_eq!(split_rename_path(" -> new"), None);
}

#[test]
fn line_targets() {
    let pats = strings(&["*.lock"]);
    assert_eq!(
        check_line_target("Cargo.lock", &pats, false),
        Err("File Cargo.lock is excluded from git operations".to_string())
    );
    assert_eq!(
        check_line_target("a -> b", &pats, false),
        Err("Stage-line is not supported for rename paths".to_string())
    );
    assert_eq!(
        check_line_target("a -> b", &pats, true),
        Err("Unstage-line is not supported for rename paths".to_string())
    );
    assert_eq!(check_line_target("src/lib.rs", &pats, true), Ok(()));
}

#[test]
fn line_staging_commands() {
    assert_eq!(
        line_diff_args("f.rs", false),
        strings(&["diff", "--no-color", "--no-ext-diff", "--unified=0", "--", "f.rs"])
    );
    assert_eq!(
        line_diff_args("f.rs", true),
        strings(&["diff", "--cached", "--no-color", "--no-ext-diff", "--unified=0", "--", "f.rs"])
    );
    assert_eq!(
        line_apply_args("/tmp/p.patch", true),
        strings(&["apply", "--cached", "--reverse", "--unidiff-zero", "--whitespace=nowarn", "/tmp/p.patch"])
    );
    assert_eq!(line_apply_args("/tmp/p.patch", false).len(), 5);
}

#[test]
fn line_patch_from_zero_context_diff() {
    let sel = StageLineSelection { old_line_number: None, new_line_number: Some(2) };
    assert_eq!(
        line_patch_from_diff("  \n", &sel, false),
        Err("No unstaged diff available for selected file".to_string())
    );
    assert_eq!(
        line_patch_from_diff("", &sel, true),
        Err("No staged diff available for selected file".to_string())
    );
    let diff = "diff --git a/f b/f\n--- a/f\n+++ b/f\n@@ -1,0 +2,1 @@\n+added\n";
    assert_eq!(
        line_patch_from_diff(diff, &sel, false),
        Ok("diff --git a/f b/f\n--- a/f\n+++ b/f\n@@ -1,0 +2,1 @@\n+added\n".to_string())
    );
}
