use git_tools::commit_message::{
    build_commit_message_prompt, ensure_commit_message_has_body, gemini_text_from_parts,
    normalize_gemini_model_name, sanitize_commit_message, truncate_for_prompt,
    COMMIT_PROMPT_INTRO, DEFAULT_GEMINI_MODEL,
};
use git_tools::staging::excluded_staged_files;

#[test]
fn model_names() {
    assert_eq!(normalize_gemini_model_name(" models/gemini-2.5-pro "), Some("gemini-2.5-pro".to_string()));
    assert_eq!(normalize_gemini_model_name("gemini-1.5"), Some("gemini-1.5".to_string()));
    assert_eq!(normalize_gemini_model_name("models/"), None);
    assert_eq!(normalize_gemini_model_name("models/text-bison"), None);
    assert_eq!(normalize_gemini_model_name("   "), None);
    assert!(DEFAULT_GEMINI_MODEL.starts_with("gemini"));
}

#[test]
fn truncation_counts_characters() {
    assert_eq!(truncate_for_prompt("héllo", 2), ("hé".to_string(), true));
    assert_eq!(truncate_for_prompt("abc", 3), ("abc".to_string(), false));
    assert_eq!(truncate_for_prompt("", 0), (String::new(), false));
}

#[test]
fn prompt_layout() {
    let p = build_commit_message_prompt(" M a.rs \n", "\ndiff\n", true);
    assert!(p.starts_with("You are an expert software engineer"));
    assert!(p.contains("- Output format must be exactly:\n<subject line>\n\n<description/body>\n"));
    assert_eq!(
        &p[COMMIT_PROMPT_INTRO.len()..],
        "Staged files (name-status):\nM a.rs\n\nStaged diff:\ndiff\n\n[NOTE] Diff content was truncated due to size."
    );
    let q = build_commit_message_prompt("a", "b", false);
    assert!(q.ends_with("Staged diff:\nb"));
}

#[test]
fn sanitizing_replies() {
    assert_eq!(
        sanitize_commit_message("```text\nfeat: add x\n\nBody line   \n```\n"),
        "feat: add x\n\nBody line"
    );
    assert_eq!(
        sanitize_commit_message("Commit message: Subject: fix: y\nDESCRIPTION: explain why"),
        "fix: y\n\nexplain why"
    );
    assert_eq!(sanitize_commit_message("   "), "");
    assert_eq!(sanitize_commit_message("Subject:   \n"), "Subject:");
}

#[test]
fn fallback_body() {
    assert_eq!(
        ensure_commit_message_has_body("fix: x\r\n", "M\ta\nM\tb\n\n"),
        "fix: x\n\nUpdate staged changes in 2 files."
    );
    assert_eq!(
        ensure_commit_message_has_body("fix: x", ""),
        "fix: x\n\nUpdate staged changes in 1 file."
    );
    assert_eq!(ensure_commit_message_has_body(" fix\r\n\r\nbody \n", "a"), "fix\n\nbody");
    assert_eq!(ensure_commit_message_has_body("\nrest", "a"), "rest");
}

#[test]
fn reply_parts_and_commit_exclusions() {
    let parts = vec![" feat: a".to_string(), "\n\nb ".to_string()];
    assert_eq!(gemini_text_from_parts(&parts), Some("feat: a\n\nb".to_string()));
    assert_eq!(gemini_text_from_parts(&[" ".to_string()]), None);
    assert_eq!(
        excluded_staged_files("a.log\nsrc/x.rs\n b.log \n", &["*.log".to_string()]),
        vec!["a.log".to_string(), "b.log".to_string()]
    );
}
