use quickpaste::monitor::{accept_clipboard_text, is_password_manager, ClipboardMonitor, Suppression};
use quickpaste::shell::{
    check_backup_size, check_backup_version, check_expansion_import_size, executable_name,
    export_dialog_title, format_hotkey, get_active_process_name, import_dialog_title,
    is_system_window, is_turkish_locale, next_backoff_ms, paste_outcome, shortcuts_to_register,
    should_show_welcome, ClipboardRetry, RetryStep, ShortcutOrigin, WindowTargets,
};
use quickpaste::store::{Settings, Snippet};

fn snippet(title: &str) -> Snippet {
    Snippet {
        id: None,
        title: title.to_string(),
        content: "c".to_string(),
        pinned: false,
        use_count: 0,
        category: None,
        tags: vec![],
        shortcut: None,
        is_secret: false,
        snippet_type: "text".to_string(),
        color: None,
        created_at: 0,
        last_used_at: 0,
        trigger: None,
        slot: None,
        source_app: None,
        emoji: None,
        chain: Vec::new(),
    }
}

#[test]
fn hotkeys_are_capitalized_per_part() {
    assert_eq!(format_hotkey("alt+q"), "Alt+Q");
    assert_eq!(format_hotkey("ctrl+shift+ü"), "Ctrl+Shift+Ü");
    assert_eq!(format_hotkey("Alt++x"), "Alt++X");
    assert_eq!(format_hotkey(""), "");
    assert_eq!(format_hotkey("ß"), "SS");
}

#[test]
fn system_windows_and_process_names() {
    assert!(is_system_window(0, None));
    assert!(is_system_window(5, Some("Shell_TrayWnd")));
    assert!(is_system_window(5, Some("Progman")));
    assert!(!is_system_window(5, Some("Notepad")));
    assert!(!is_system_window(5, None));
    assert_eq!(executable_name("C:\\Program Files\\App\\app.exe"), "app.exe");
    assert_eq!(executable_name("plain.exe"), "plain.exe");
    assert_eq!(executable_name("C:\\dir\\"), "");
    assert_eq!(get_active_process_name(None), "Unknown");
    assert_eq!(get_active_process_name(Some("C:\\x\\Code.exe")), "Code.exe");
}

#[test]
fn paste_targets() {
    let mut t = WindowTargets::new();
    t.store_own_hwnd(7);
    t.store_own_hwnd(0);
    assert_eq!(t.own_hwnd, 7);
    t.capture_target(7, false);
    assert_eq!(t.previous_window, 0);
    t.capture_target(9, true);
    assert_eq!(t.previous_window, 0);
    assert_eq!(t.capture_foreground_window(11, false), 11);
    assert_eq!(t.resolve_paste_target(Some(3), 12, false), 3);
    assert_eq!(t.previous_window, 11);
    assert_eq!(t.resolve_paste_target(Some(0), 12, false), 12);
    assert_eq!(t.resolve_paste_target(None, 0, false), 12);
}

#[test]
fn shortcuts_are_planned_in_order() {
    let mut settings = Settings::default();
    settings.hotkey = "  alt+w ".to_string();
    let mut a = snippet("A");
    a.shortcut = Some("ctrl+1".to_string());
    a.slot = Some(3);
    let mut b = snippet("B");
    b.shortcut = Some("   ".to_string());
    b.slot = Some(12);
    let mut c = snippet("C");
    c.slot = Some(1);
    let plan = shortcuts_to_register(&settings, &[a, b, c]);
    let accels: Vec<&str> = plan.iter().map(|p| p.accelerator.as_str()).collect();
    assert_eq!(accels, vec!["Alt+W", "Ctrl+1", "Alt+3", "Alt+1"]);
    assert!(matches!(plan[0].origin, ShortcutOrigin::App));
    assert!(matches!(plan[1].origin, ShortcutOrigin::Snippet(0)));
    assert!(matches!(plan[2].origin, ShortcutOrigin::Favorite(0)));
    assert!(matches!(plan[3].origin, ShortcutOrigin::Favorite(2)));
}

#[test]
fn backups_are_checked() {
    assert_eq!(check_backup_version(None), Ok(1));
    assert_eq!(check_backup_version(Some(2)), Ok(2));
    assert_eq!(check_backup_version(Some(3)), Err("Unsupported backup version: 3".to_string()));
    assert_eq!(check_backup_version(Some(0)), Err("Unsupported backup version: 0".to_string()));
    assert_eq!(check_backup_size(50 * 1024 * 1024), Ok(()));
    assert_eq!(check_backup_size(50 * 1024 * 1024 + 1), Err("Backup file is larger than 50 MB".to_string()));
    assert_eq!(
        check_expansion_import_size(60 * 1024 * 1024),
        Err("Text expansion import is larger than 50 MB".to_string())
    );
}

#[test]
fn clipboard_writes_back_off() {
    assert_eq!(next_backoff_ms(10, 500), 20);
    assert_eq!(next_backoff_ms(320, 500), 500);
    assert_eq!(next_backoff_ms(320, 400), 400);
    let mut r = ClipboardRetry::new(500);
    let mut waits = Vec::new();
    loop {
        match r.after_attempt(false) {
            RetryStep::Wait(ms, more) => {
                waits.push(ms);
                if !more {
                    break;
                }
            }
            RetryStep::Written => unreachable!(),
        }
    }
    assert_eq!(waits, vec![10, 20, 40, 80, 160, 320]);
    let mut r = ClipboardRetry::new(500);
    assert!(matches!(r.after_attempt(true), RetryStep::Written));
    assert!(paste_outcome(true, false, true));
    assert!(!paste_outcome(false, false, true));
    assert!(paste_outcome(false, true, true));
    assert!(!paste_outcome(true, true, false));
}

#[test]
fn locale_titles_and_welcome() {
    assert!(is_turkish_locale(Some("TR-tr")));
    assert!(!is_turkish_locale(Some("en")));
    assert!(!is_turkish_locale(None));
    assert_eq!(export_dialog_title(Some("tr")), "Metin Genişletmeleri Dışa Aktar");
    assert_eq!(import_dialog_title(None), "Import Text Expansions");
    let mut s = Settings::default();
    assert!(should_show_welcome(&s));
    s.text_expansion_onboarding_completed = true;
    assert!(!should_show_welcome(&s));
}

#[test]
fn monitor_runs_once() {
    let mut m = ClipboardMonitor::new();
    assert!(!m.running());
    assert!(m.start());
    assert!(!m.start());
    assert!(m.running());
    assert!(m.stop());
    assert!(!m.stop());
    assert!(!m.running());
}

#[test]
fn own_clipboard_writes_are_suppressed() {
    let mut s = Suppression::new();
    assert!(!s.updates_suppressed(1000));
    s.suppress_updates_for(1000, 1500);
    assert!(s.updates_suppressed(2499));
    assert!(!s.updates_suppressed(2500));
    s.suppress_updates_for(u64::MAX - 1, 1500);
    assert!(s.updates_suppressed(u64::MAX - 1));
}

#[test]
fn clipboard_texts_are_recorded_once() {
    assert!(is_password_manager("1Password.exe"));
    assert!(is_password_manager("KeePassXC"));
    assert!(!is_password_manager("notepad.exe"));
    let mut last = String::new();
    let p = accept_clipboard_text(&mut last, "hello".to_string(), "Code.exe".to_string()).unwrap();
    assert_eq!(p.text, "hello");
    assert_eq!(p.source_app, "Code.exe");
    assert_eq!(last, "hello");
    assert!(accept_clipboard_text(&mut last, "hello".to_string(), "Code.exe".to_string()).is_none());
    assert!(accept_clipboard_text(&mut last, "   ".to_string(), "Code.exe".to_string()).is_none());
    assert!(accept_clipboard_text(&mut last, "secret".to_string(), "Bitwarden.exe".to_string()).is_none());
    assert_eq!(last, "hello");
}
