use quickpaste::store::{
    backup_file_name, corrupt_archive_file_name, default_history_days, default_snippet_type,
    default_snippets, default_theme, get_settings_path, get_snippets_path, get_text_expansions_path,
    load_plan, prune_clipboard_history, temp_file_name, validate_snippets, LoadPlan, Settings, Snippet,
};

fn snippet(title: &str, content: &str) -> Snippet {
    Snippet {
        id: None,
        title: title.to_string(),
        content: content.to_string(),
        pinned: false,
        use_count: 0,
        category: None,
        tags: vec![],
        shortcut: None,
        is_secret: false,
        snippet_type: "text".to_string(),
        color: None,
        created_at: 0,
        last_used_at: 0,
        trigger: None,
        slot: None,
        source_app: None,
        emoji: None,
        chain: Vec::new(),
    }
}

fn capture(content: &str, created_at: u64) -> Snippet {
    let mut s = snippet("Clip", content);
    s.category = Some("Clipboard".to_string());
    s.created_at = created_at;
    s
}

#[test]
fn settings_defaults() {
    let s = Settings::default();
    assert!(!s.dark_mode);
    assert!(s.auto_paste);
    assert!(!s.clipboard_history_enabled);
    assert_eq!(s.hotkey, "alt+q");
    assert_eq!(s.theme, "violet");
    assert_eq!(s.clipboard_history_duration_days, 30);
    assert!(s.text_expansion_default_pack_ids.is_empty());
    assert_eq!(default_theme(), "violet");
    assert_eq!(default_snippet_type(), "text");
    assert_eq!(default_history_days(), 30);
}

#[test]
fn default_snippets_hold_the_welcome() {
    let d = default_snippets();
    assert_eq!(d.len(), 1);
    assert_eq!(d[0].title, "Welcome");
    assert!(d[0].pinned);
    assert_eq!(d[0].category.as_deref(), Some("General"));
    assert_eq!(d[0].tags, vec!["welcome".to_string()]);
}

#[test]
fn snippet_validation_errors() {
    assert_eq!(validate_snippets(&[snippet("Title", "body")]), Ok(()));
    assert_eq!(
        validate_snippets(&[snippet("  ", "body")]),
        Err("Snippet title and content are required".to_string())
    );
    assert_eq!(
        validate_snippets(&[snippet("Title", "")]),
        Err("Snippet title and content are required".to_string())
    );
    let long_title: String = std::iter::repeat('ş').take(201).collect();
    assert_eq!(
        validate_snippets(&[snippet(&long_title, "body")]),
        Err("Snippet field size limit exceeded".to_string())
    );
    let fits_title: String = std::iter::repeat('ş').take(200).collect();
    assert_eq!(validate_snippets(&[snippet(&fits_title, "body")]), Ok(()));
    let big: String = std::iter::repeat('€').take(333_334).collect();
    assert_eq!(
        validate_snippets(&[snippet("T", &big)]),
        Err("Snippet field size limit exceeded".to_string())
    );
    let mut slotted = snippet("T", "b");
    slotted.slot = Some(10);
    assert_eq!(
        validate_snippets(&[snippet("ok", "ok"), slotted]),
        Err("Favorite slot must be between 1 and 9".to_string())
    );
    let mut zero = snippet("T", "b");
    zero.slot = Some(0);
    assert!(validate_snippets(&[zero]).is_err());
    let mut nine = snippet("T", "b");
    nine.slot = Some(9);
    assert_eq!(validate_snippets(&[nine]), Ok(()));
    let many: Vec<Snippet> = (0..100_001).map(|_| snippet("t", "c")).collect();
    assert_eq!(validate_snippets(&many), Err("Snippet limit exceeded".to_string()));
}

#[test]
fn old_clipboard_captures_are_pruned() {
    let day = 86_400_000u64;
    let now = 100 * day;
    let list = vec![capture("old", 10 * day), snippet("kept", "x"), capture("new", 95 * day)];
    let (kept, changed) = prune_clipboard_history(list, 30, now);
    assert!(changed);
    let contents: Vec<&str> = kept.iter().map(|s| s.content.as_str()).collect();
    assert_eq!(contents, vec!["x", "new"]);

    let list = vec![capture("old", 10 * day)];
    let (kept, changed) = prune_clipboard_history(list, 0, now);
    assert!(!changed);
    assert_eq!(kept.len(), 1);

    let list = vec![capture("old", 0)];
    let (kept, changed) = prune_clipboard_history(list, 200, now);
    assert!(!changed);
    assert_eq!(kept.len(), 1);

    let list = vec![capture("edge", 70 * day)];
    let (kept, _) = prune_clipboard_history(list, 30, now);
    assert_eq!(kept.len(), 1);
}

#[test]
fn data_file_names() {
    assert_eq!(backup_file_name(Some("snippets.json")), "snippets.json.bak");
    assert_eq!(temp_file_name(None), "data.json.tmp");
    assert_eq!(corrupt_archive_file_name(Some("settings.json"), 1700000000123), "settings.json.corrupted-1700000000123");
    assert_eq!(get_snippets_path("/data"), vec!["/data".to_string(), "QuickPaste".to_string(), "snippets.json".to_string()]);
    assert_eq!(get_settings_path("D")[2], "settings.json");
    assert_eq!(get_text_expansions_path("D")[2], "text_expansions.json");
}

#[test]
fn loading_recovers_from_the_backup() {
    assert_eq!(load_plan(false, false, false), LoadPlan::CreateDefaults);
    assert_eq!(load_plan(true, true, false), LoadPlan::UsePrimary);
    assert_eq!(load_plan(true, false, true), LoadPlan::RecoverFromBackup);
    assert_eq!(load_plan(true, false, false), LoadPlan::ArchiveAndReset);
}
