use quickpaste::expansion::{LegacyTable, TextExpansion};
use quickpaste::keyboard::{
    active_suggestion_token, classify_terminator, HookTarget, is_injected, is_navigation_key, is_pure_modifier,
    needs_clipboard_fallback, normalize_query_key, KeyAction, KeyEvent, VK_BACK, VK_ESCAPE, VK_RETURN,
    VK_SHIFT, VK_SPACE, VK_TAB,
};
use quickpaste::packs::seeded;
use quickpaste::runtime::{ExpansionRuntime, TerminatorKind};

fn runtime_with(triggers: &[(&str, &str)]) -> ExpansionRuntime {
    let items: Vec<TextExpansion> = triggers
        .iter()
        .map(|(t, r)| seeded(t, r, "d", "2024-05-01T10:00:00+03:00"))
        .collect();
    ExpansionRuntime::new(items, LegacyTable { entries: Vec::new() })
}

fn key(vk: u32, text: Option<&str>) -> KeyEvent {
    KeyEvent {
        vk,
        text: text.map(|t| t.to_string()),
        flags: 0,
        suspended: false,
        ctrl: false,
        alt: false,
        shift: false,
        win: false,
    }
}

#[test]
fn terminators_are_classified() {
    assert!(matches!(classify_terminator(VK_RETURN, None), Some(TerminatorKind::Enter)));
    assert!(matches!(classify_terminator(VK_TAB, None), Some(TerminatorKind::Tab)));
    assert!(matches!(classify_terminator(VK_SPACE, None), Some(TerminatorKind::Space)));
    assert!(matches!(classify_terminator(0x41, Some(" ")), Some(TerminatorKind::Space)));
    match classify_terminator(0xBE, Some(".")) {
        Some(TerminatorKind::Punctuation(p)) => assert_eq!(p, "."),
        _ => panic!("a dot ends a word"),
    }
    assert!(classify_terminator(0x41, Some("a")).is_none());
    assert!(classify_terminator(0x31, Some("1")).is_none());
    assert!(classify_terminator(0x41, Some("ab")).is_none());
    assert!(classify_terminator(0x41, None).is_none());
}

#[test]
fn key_kinds() {
    assert!(is_navigation_key(0x25));
    assert!(is_navigation_key(0x5D));
    assert!(!is_navigation_key(0x41));
    assert!(is_pure_modifier(VK_SHIFT));
    assert!(is_pure_modifier(0xA5));
    assert!(!is_pure_modifier(0x41));
    assert!(is_injected(0x10));
    assert!(is_injected(0x02));
    assert!(!is_injected(0x01));
}

#[test]
fn long_or_multiline_replacements_are_pasted() {
    assert!(needs_clipboard_fallback("a\nb"));
    assert!(needs_clipboard_fallback("a\tb"));
    assert!(needs_clipboard_fallback("a\rb"));
    let long: String = std::iter::repeat('x').take(97).collect();
    assert!(needs_clipboard_fallback(&long));
    let fits: String = std::iter::repeat('x').take(96).collect();
    assert!(!needs_clipboard_fallback(&fits));
}

#[test]
fn suggestion_tokens() {
    assert_eq!(active_suggestion_token("hello :da  "), Some(":da".to_string()));
    assert_eq!(active_suggestion_token(":d"), Some(":d".to_string()));
    assert_eq!(active_suggestion_token(":"), None);
    assert_eq!(active_suggestion_token("hello"), None);
    assert_eq!(active_suggestion_token("   "), None);
    assert_eq!(active_suggestion_token("a\t:xy"), Some(":xy".to_string()));
    assert_eq!(normalize_query_key(" ::Da "), "da");
}

#[test]
fn keys_drive_the_buffer() {
    let rt = runtime_with(&[(":date", "{{date}}")]);
    let mut buffer = String::new();
    match rt.on_key_down(&mut buffer, &key(0xBA, Some(":"))) {
        KeyAction::Terminated(t) => {
            assert!(matches!(t, TerminatorKind::Punctuation(_)));
            assert!(rt.complete_terminator(&mut buffer, &t, "Unknown", "").is_none());
        }
        _ => panic!("a colon is punctuation"),
    }
    assert_eq!(buffer, ":");
    assert!(matches!(rt.on_key_down(&mut buffer, &key(0x44, Some("d"))), KeyAction::Refresh));
    assert_eq!(buffer, ":d");
    assert!(matches!(rt.on_key_down(&mut buffer, &key(VK_BACK, None)), KeyAction::Refresh));
    assert_eq!(buffer, ":");
    assert!(matches!(rt.on_key_down(&mut buffer, &key(VK_SHIFT, None)), KeyAction::Pass));
    let mut shifted = key(0x99, None);
    shifted.shift = true;
    assert!(matches!(rt.on_key_down(&mut buffer, &shifted), KeyAction::Hide));
    assert_eq!(buffer, ":");
    let mut injected = key(0x41, Some("x"));
    injected.flags = 0x10;
    assert!(matches!(rt.on_key_down(&mut buffer, &injected), KeyAction::Pass));
    assert_eq!(buffer, ":");
    assert!(matches!(rt.on_key_down(&mut buffer, &key(0x41, Some(""))), KeyAction::Pass));
    assert!(matches!(rt.on_key_down(&mut buffer, &key(VK_ESCAPE, None)), KeyAction::Hide));
    assert_eq!(buffer, "");
    buffer.push_str("abc");
    let mut ctrl = key(0x43, Some("c"));
    ctrl.ctrl = true;
    assert!(matches!(rt.on_key_down(&mut buffer, &ctrl), KeyAction::Hide));
    assert_eq!(buffer, "");
    buffer.push_str(":date");
    match rt.on_key_down(&mut buffer, &key(VK_SPACE, Some(" "))) {
        KeyAction::Terminated(TerminatorKind::Space) => {}
        _ => panic!("space ends the word"),
    }
    assert_eq!(buffer, ":date");
}

#[test]
fn terminators_expand_or_update_the_buffer() {
    let rt = runtime_with(&[(":hi", "Hello {{clipboard}}")]);
    let mut buffer = "say :hi".to_string();
    let m = rt.complete_terminator(&mut buffer, &TerminatorKind::Space, "Unknown", "you").unwrap();
    assert_eq!(m.replacement, "Hello you");
    assert_eq!(m.delete_graphemes, 3);
    assert_eq!(buffer, "");
    let mut buffer = "no match".to_string();
    let punct = TerminatorKind::Punctuation(",".to_string());
    assert!(rt.complete_terminator(&mut buffer, &punct, "Unknown", "").is_none());
    assert_eq!(buffer, "no match,");
    assert!(rt.complete_terminator(&mut buffer, &TerminatorKind::Enter, "Unknown", "").is_none());
    assert_eq!(buffer, "");
}

#[test]
fn suggestions_refresh_for_colon_tokens() {
    let rt = runtime_with(&[(":date", "{{date}}"), (":dance", "x")]);
    let req = rt.refresh_suggestions("text :da", "Unknown").unwrap();
    assert_eq!(req.raw_query, ":da");
    assert_eq!(req.query, "da");
    assert_eq!(req.delete_graphemes, 3);
    assert_eq!(req.suggestions.len(), 2);
    assert!(rt.refresh_suggestions("text :zz", "Unknown").is_none());
    assert!(rt.refresh_suggestions("text da", "Unknown").is_none());
    assert!(rt.refresh_suggestions("text ::", "Unknown").is_none());
}

#[test]
fn chosen_suggestions_are_planned() {
    let rt = runtime_with(&[(":hi", "Hello"), (":ml", "a\nb")]);
    let plan = rt.apply_text_expansion_trigger(":HI", 3, 42, "").unwrap();
    assert_eq!(plan.replacement, "Hello");
    assert_eq!(plan.target, 42);
    assert_eq!(plan.delete_graphemes, 3);
    assert!(!plan.paste);
    assert!(rt.apply_text_expansion_trigger(":ml", 3, 42, "").unwrap().paste);
    assert_eq!(
        rt.apply_text_expansion_trigger(":none", 5, 42, "").err(),
        Some("No expansion found for trigger :none".to_string())
    );
    assert_eq!(
        rt.apply_text_expansion_trigger(":hi", 3, 0, "").err(),
        Some("No active target window available for expansion".to_string())
    );
}

#[test]
fn the_hook_remembers_the_last_real_window() {
    let mut t = HookTarget::new();
    assert_eq!(t.current_target_window(0, false), 0);
    assert_eq!(t.current_target_window(5, false), 5);
    assert_eq!(t.current_target_window(6, true), 5);
    assert_eq!(t.current_target_window(0, false), 5);
}
