use git_tools::commit_message::{accept_model, finish_model_list, insert_model};
use git_tools::conflict::{conflict_file, conflict_stages, stage_object, ConflictStages};

#[test]
fn stages_from_ls_files() {
    let out = "100644 aaa 1\tf.txt\n100644 bbb 3\tf.txt\nbroken\n";
    assert_eq!(conflict_stages(out), ConflictStages { base: true, ours: false, theirs: true });
    assert_eq!(conflict_stages(""), ConflictStages { base: false, ours: false, theirs: false });
    assert_eq!(stage_object(2, "dir/f.txt"), ":2:dir/f.txt");
}

#[test]
fn absent_stage_is_empty_content() {
    let f = conflict_file(None, Some("ours\n".into()), Some("theirs\n".into()));
    assert_eq!(f.base, "");
    assert_eq!(f.ours, "ours\n");
    assert_eq!(f.theirs, "theirs\n");
}

#[test]
fn model_list_is_sorted_and_unique() {
    let gen = vec!["generateContent".to_string()];
    let embed = vec!["embedContent".to_string()];
    assert_eq!(accept_model(Some("models/gemini-pro".into()), &gen), Some("gemini-pro".into()));
    assert_eq!(accept_model(Some("models/gemini-embed".into()), &embed), None);
    assert_eq!(accept_model(Some("models/gemini-x".into()), &[]), Some("gemini-x".into()));
    assert_eq!(accept_model(None, &gen), None);
    let mut models: Vec<String> = Vec::new();
    for m in ["gemini-b", "gemini-a", "gemini-c", "gemini-a", "gemini-ab"] {
        insert_model(&mut models, m.to_string());
    }
    assert_eq!(models, vec!["gemini-a", "gemini-ab", "gemini-b", "gemini-c"]);
    assert_eq!(finish_model_list(Vec::new()), Err("No Gemini models found for this API key.".to_string()));
    assert_eq!(finish_model_list(models.clone()), Ok(models));
}
