use git_tools::types::{AppSettings, RepoEntry};

fn empty() -> AppSettings {
    AppSettings {
        repos: Vec::new(),
        active_repo_id: None,
        open_repo_ids: Vec::new(),
        excluded_files: Vec::new(),
        repo_filters: Vec::new(),
        file_encodings: Vec::new(),
        gemini_api_token: None,
        gemini_model: None,
    }
}

fn three() -> AppSettings {
    let mut s = empty();
    for id in ["a", "b", "c"] {
        s.add_repo(id.to_string(), id.to_uppercase(), format!("/{}", id));
    }
    s
}

#[test]
fn adding_opens_and_removing_forgets() {
    let mut s = three();
    assert_eq!(s.open_repo_ids, vec!["a", "b", "c"]);
    s.set_active_repo(&"b".to_string()).unwrap();
    s.remove_repo(&"b".to_string());
    assert_eq!(s.repos.iter().map(|r| r.id.as_str()).collect::<Vec<_>>(), vec!["a", "c"]);
    assert_eq!(s.open_repo_ids, vec!["a", "c"]);
    assert_eq!(s.active_repo_id, None);
    assert_eq!(s.set_active_repo(&"zz".to_string()), Err("Repository ID not found".to_string()));
    assert_eq!(s.open_repo(&"zz".to_string()), Err("Repository ID not found".to_string()));
}

#[test]
fn closing_the_active_repo_moves_to_a_neighbour() {
    let mut s = three();
    s.set_active_repo(&"b".to_string()).unwrap();
    assert!(s.close_repo(&"b".to_string()));
    assert_eq!(s.active_repo_id.as_deref(), Some("c"));
    assert!(s.close_repo(&"c".to_string()));
    assert_eq!(s.active_repo_id.as_deref(), Some("a"));
    assert!(s.close_repo(&"a".to_string()));
    assert_eq!(s.active_repo_id, None);
    assert!(!s.close_repo(&"a".to_string()));
    s.open_repo(&"b".to_string()).unwrap();
    assert_eq!(s.open_repo_ids, vec!["b"]);
}

#[test]
fn active_entry_filters_and_model_settings() {
    let mut s = three();
    assert_eq!(s.active_repo(), None);
    s.set_active_repo(&"c".to_string()).unwrap();
    assert_eq!(s.active_repo(), Some(RepoEntry { id: "c".into(), name: "C".into(), path: "/c".into() }));
    s.set_repo_filter("a".into(), "src".into());
    s.set_repo_filter("b".into(), "docs".into());
    s.set_repo_filter("a".into(), "lib".into());
    assert_eq!(s.repo_filters, vec![("a".to_string(), "lib".to_string()), ("b".to_string(), "docs".to_string())]);
    s.set_repo_filter("a".into(), String::new());
    assert_eq!(s.repo_filters, vec![("b".to_string(), "docs".to_string())]);
    s.set_gemini_api_token("  key ");
    assert_eq!(s.gemini_api_token.as_deref(), Some("key"));
    s.set_gemini_model("   ");
    assert_eq!(s.gemini_model, None);
    s.set_excluded_files(vec!["*.log".into()]);
    assert_eq!(s.excluded_files.len(), 1);
}

#[test]
fn default_settings_are_empty() {
    let s = AppSettings::default();
    assert_eq!(s, empty());
}
