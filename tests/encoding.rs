use git_tools::settings::{decode_bytes, resolve_file_encoding, resolve_repo_path};
use git_tools::types::{AppSettings, RepoEntry};

fn settings() -> AppSettings {
    AppSettings {
        repos: Vec::new(),
        active_repo_id: None,
        open_repo_ids: Vec::new(),
        excluded_files: Vec::new(),
        repo_filters: Vec::new(),
        file_encodings: Vec::new(),
        gemini_api_token: None,
        gemini_model: None,
    }
}

#[test]
fn test_resolve_encoding() {
    let mut settings = settings();
    settings.file_encodings.push(("*.txt".to_string(), "windows-1252".to_string()));
    settings.file_encodings.push(("src/**/*.rs".to_string(), "utf-8".to_string()));

    assert_eq!(
        resolve_file_encoding("test.txt", &settings).as_deref(),
        Some("windows-1252")
    );
    assert_eq!(
        resolve_file_encoding("src/main.rs", &settings).as_deref(),
        Some("utf-8")
    );
    assert_eq!(resolve_file_encoding("image.png", &settings), None);
}

#[test]
fn test_decode_bytes() {
    let mut settings = settings();
    settings.file_encodings.push(("*.txt".to_string(), "windows-1252".to_string()));

    // Windows-1252 encoded "café" (E9 is é)
    let data = vec![0x63, 0x61, 0x66, 0xE9];

    let decoded = decode_bytes(&data, "test.txt", &settings, None);
    assert_eq!(decoded, "café");

    // UTF-8 (default)
    let data_utf8 = "café".as_bytes();
    let decoded_utf8 = decode_bytes(data_utf8, "other.rs", &settings, None);
    assert_eq!(decoded_utf8, "café");
}

#[test]
fn override_and_unknown_encodings() {
    let s = settings();
    let data = vec![0x63, 0xE9];
    assert_eq!(decode_bytes(&data, "a.rs", &s, Some("latin1".to_string())), "cé");
    assert_eq!(decode_bytes(&data, "a.rs", &s, Some("no-such-encoding".to_string())), "c\u{FFFD}");
    assert_eq!(decode_bytes(&data, "a.rs", &s, None), "c\u{FFFD}");
    let mut t = settings();
    t.file_encodings.push(("dir/*.txt".to_string(), "utf-16le".to_string()));
    assert_eq!(resolve_file_encoding("dir\\x.txt", &t).as_deref(), Some("utf-16le"));
}

#[test]
fn repository_resolution() {
    let mut s = settings();
    assert_eq!(resolve_repo_path(&s, Some("  /work/repo ".into())), Ok("/work/repo".to_string()));
    assert_eq!(resolve_repo_path(&s, Some("   ".into())), Err("No active repository selected".to_string()));
    s.active_repo_id = Some("b".into());
    s.repos.push(RepoEntry { id: "a".into(), name: "A".into(), path: "/a".into() });
    assert_eq!(resolve_repo_path(&s, None), Err("Active repository not found in settings".to_string()));
    s.repos.push(RepoEntry { id: "b".into(), name: "B".into(), path: "/b".into() });
    assert_eq!(resolve_repo_path(&s, None), Ok("/b".to_string()));
}
