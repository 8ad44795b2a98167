use quickpaste::expansion::{validate_items, LegacyTable, TextExpansion};
use quickpaste::packs::seeded;
use quickpaste::runtime::ExpansionRuntime;
use quickpaste::seeding::{
    bootstrap_runtime, build_seeded_text_expansions, legacy_from_snippets, legacy_unity_table,
    snippet_timestamp_to_rfc3339,
};
use quickpaste::store::{Settings, Snippet};
use quickpaste::variables::resolve_dynamic_variables;

/// A catalog source in the format of the bundled default catalog.
fn catalog_source() -> String {
    [
        "# QuickPaste default text expansions",
        "",
        "## Günlük Kullanım",
        "- `:mail` → can@example.com",
        "- `:thx` → Thank you!",
        "",
        "## Unity — Debug & Logging",
        "- `:log` → Debug.Log(\"\");",
        "- `:logw` → Debug.LogWarning(\"\");",
        "- `:loge` → Debug.LogError(\"\");",
        "",
        "## Git & Commit",
        "- `:feat` → feat: ",
    ]
    .join("\n")
}

fn empty_table() -> LegacyTable {
    LegacyTable { entries: Vec::new() }
}

fn snippet_with_trigger(title: &str, content: &str, trigger: Option<&str>) -> Snippet {
    Snippet {
        id: None,
        title: title.to_string(),
        content: content.to_string(),
        pinned: false,
        use_count: 0,
        category: None,
        tags: vec![],
        shortcut: None,
        is_secret: false,
        snippet_type: "text".to_string(),
        color: None,
        created_at: 0,
        last_used_at: 0,
        trigger: trigger.map(|t| t.to_string()),
        slot: None,
        source_app: None,
        emoji: None,
        chain: Vec::new(),
    }
}

fn triggers(items: &[TextExpansion]) -> Vec<String> {
    items.iter().map(|item| item.trigger.clone()).collect()
}

#[test]
fn defaults_start_empty_without_pack_selection() {
    let source = catalog_source();
    let mut runtime = ExpansionRuntime::new(Vec::new(), legacy_unity_table(&source));
    let items = bootstrap_runtime(&mut runtime, None, &source, &[], &Settings::default());
    assert!(items.is_empty());
    assert!(runtime.current_snapshot().is_empty());
}

#[test]
fn seeded_pack_selection_uses_unity_u_prefix() {
    let source = catalog_source();
    let mut settings = Settings::default();
    settings.text_expansion_onboarding_completed = true;
    settings.text_expansion_default_pack_ids = vec!["unity-debug".to_string()];

    let table = legacy_unity_table(&source);
    let items = build_seeded_text_expansions(&source, &[], &settings, &table);
    let triggers = triggers(&items);
    assert!(triggers.iter().any(|trigger| trigger == "Ulog"), "triggers: {:?}", triggers);
    assert!(triggers.iter().any(|trigger| trigger == "Ulogw"), "triggers: {:?}", triggers);
    assert!(triggers.iter().any(|trigger| trigger == "Uloge"), "triggers: {:?}", triggers);
}

#[test]
fn prefix_suggestions_match_unity_triggers() {
    let source = catalog_source();
    let mut settings = Settings::default();
    settings.text_expansion_onboarding_completed = true;
    settings.text_expansion_default_pack_ids = vec!["core-essentials".to_string()];

    let table = legacy_unity_table(&source);
    let items = build_seeded_text_expansions(&source, &[], &settings, &table);
    let mut runtime = ExpansionRuntime::new(Vec::new(), table);
    let _ = runtime.replace_runtime(items).unwrap();
    let suggestions = runtime.suggest_matches(":da", 6, "Unknown");
    let triggers: Vec<String> = suggestions.into_iter().map(|item| item.trigger).collect();
    assert!(triggers.iter().any(|trigger| trigger == ":date"), "triggers: {:?}", triggers);
}

#[test]
fn duplicate_triggers_are_rejected() {
    let now = "2024-05-01T10:00:00+03:00";
    let items = vec![seeded(":a", "one", "one", now), seeded(":a", "two", "two", now)];
    assert!(validate_items(&items).is_err());
}

#[test]
fn random_variable_resolves_in_range() {
    let text = resolve_dynamic_variables("Value: {{random:1-3}}", "");
    let value = text.strip_prefix("Value: ").unwrap_or_default().parse::<i64>().unwrap();
    assert!((1..=3).contains(&value));
}

#[test]
fn legacy_migration_creates_expansions_from_snippets() {
    let snippets = vec![snippet_with_trigger("Email", "can@example.com", Some(":mail"))];
    let items = legacy_from_snippets(&snippets);
    assert_eq!(items.len(), 1);
    assert_eq!(items[0].trigger, ":mail");
    assert_eq!(items[0].replacement, "can@example.com");
}

#[test]
fn legacy_migration_skips_blank_and_missing_triggers() {
    let snippets = vec![
        snippet_with_trigger("A", "alpha", None),
        snippet_with_trigger("B", "beta", Some("   ")),
        snippet_with_trigger("C", "gamma", Some("  :g  ")),
    ];
    let items = legacy_from_snippets(&snippets);
    assert_eq!(items.len(), 1);
    assert_eq!(items[0].trigger, ":g");
    assert_eq!(items[0].description.as_deref(), Some("C"));
    assert!(items[0].enabled && !items[0].case_sensitive && items[0].word_boundary);
    assert_eq!(items[0].updated_at, items[0].created_at);
    assert_eq!(items[0].id.len(), 36);
}

#[test]
fn seeded_expansions_merge_snippet_triggers_over_pack_items() {
    let source = catalog_source();
    let mut settings = Settings::default();
    settings.text_expansion_default_pack_ids = vec!["daily-productivity".to_string()];
    let table = legacy_unity_table(&source);
    let snippets = vec![snippet_with_trigger("Mail", "me@example.org", Some(":MAIL"))];
    let items = build_seeded_text_expansions(&source, &snippets, &settings, &table);
    let mails: Vec<&TextExpansion> = items
        .iter()
        .filter(|item| item.trigger.to_lowercase() == ":mail")
        .collect();
    assert_eq!(mails.len(), 1);
    assert_eq!(mails[0].replacement, "me@example.org");
    assert!(items.iter().any(|item| item.trigger == ":thx"));
}

#[test]
fn snippet_times_become_rfc3339_text() {
    assert_eq!(snippet_timestamp_to_rfc3339(0), None);
    let text = snippet_timestamp_to_rfc3339(1_700_000_000_000).unwrap();
    assert!(text.starts_with("2023-11-1"), "{}", text);
    assert!(snippet_timestamp_to_rfc3339(253_402_300_799_999).is_some());
}

#[test]
fn clock_variables_have_their_forms() {
    let out = resolve_dynamic_variables("{{date}}|{{ saat }}|{{datetime}}", "");
    let parts: Vec<&str> = out.split('|').collect();
    assert_eq!(parts.len(), 3);
    let (date, time, datetime) = (parts[0], parts[1], parts[2]);
    let d: Vec<char> = date.chars().collect();
    assert_eq!(d.len(), 10);
    assert!(d[2] == '.' && d[5] == '.');
    assert!(d.iter().enumerate().all(|(i, c)| i == 2 || i == 5 || c.is_ascii_digit()));
    let t: Vec<char> = time.chars().collect();
    assert_eq!(t.len(), 8);
    assert!(t[2] == ':' && t[5] == ':');
    assert!(t.iter().enumerate().all(|(i, c)| i == 2 || i == 5 || c.is_ascii_digit()));
    assert_eq!(datetime.len(), 19);
    assert_eq!(&datetime[10..11], " ");
}

#[test]
fn fresh_identifiers_are_version_4() {
    let x = seeded(":a", "b", "c", "2024-05-01T10:00:00+03:00");
    let id: Vec<char> = x.id.chars().collect();
    assert_eq!(id.len(), 36);
    assert_eq!(id[14], '4');
    assert!(matches!(id[19], '8' | '9' | 'a' | 'b'));
    assert!(id.iter().all(|c| *c == '-' || c.is_ascii_hexdigit() && !c.is_ascii_uppercase()));
}

#[test]
fn carried_expansions_are_stamped_in_rfc3339() {
    let mut s = snippet_with_trigger("T", "c", Some(":t"));
    s.created_at = 1_700_000_000_123;
    let items = legacy_from_snippets(&[s]);
    let stamp = &items[0].created_at;
    assert_eq!(&stamp[4..5], "-");
    assert_eq!(&stamp[10..11], "T");
    assert!(stamp.contains(".123"));
    assert_eq!(items[0].updated_at, items[0].created_at);
}

#[test]
fn carried_stamps_denote_the_snippet_times() {
    let mut s = snippet_with_trigger("T", "c", Some(":t"));
    s.created_at = 1_700_000_000_123;
    s.last_used_at = 1_700_000_500_000;
    let items = legacy_from_snippets(&[s]);
    let created = chrono::DateTime::parse_from_rfc3339(&items[0].created_at).unwrap();
    let updated = chrono::DateTime::parse_from_rfc3339(&items[0].updated_at).unwrap();
    assert!((created.timestamp_millis() - 1_700_000_000_123).abs() <= 30_000);
    assert!((updated.timestamp_millis() - 1_700_000_500_000).abs() <= 30_000);
}
