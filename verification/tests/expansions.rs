use quickpaste::catalog::{canonicalize_default_trigger, heading_to_section_key, parse_catalog, parse_catalog_line};
use quickpaste::expansion::{
    app_filter_matches, canonicalize_legacy_text_expansion_trigger, dedupe_items, merge_items,
    normalize_app_filter, normalize_search_key, normalize_text_expansion_with, normalize_trigger_key,
    validate_items, LegacyTable, LegacyTrigger, TextExpansion,
};
use quickpaste::numeric::{i64_to_text, parse_i64};
use quickpaste::packs::{build_default_catalog, seeded, signature_text};
use quickpaste::runtime::{ExpansionRuntime, TerminatorKind};
use quickpaste::seeding::{legacy_unity_table, load_text_expansion_catalog, select_pack_items};
use quickpaste::suggest::{preview_replacement, string_less, utf8_length};
use quickpaste::variables::{resolve_dynamic_variables_with, resolve_random, VariableContext};

const NOW: &str = "2024-05-01T10:00:00+03:00";

fn catalog_source() -> String {
    [
        "## Günlük Kullanım",
        "- `:mail` → can@example.com",
        "- `:sig` → (signature)",
        "## Unity — Debug & Logging",
        "- `:log` → Debug.Log(\"\");",
        "- `Uassert` → Debug.Assert(true);",
        "## Unknown heading",
        "- `:skip` → never",
        "## Git & Commit",
        "- `:feat` → feat: \\nbody",
    ]
    .join("\r\n")
}

fn empty_table() -> LegacyTable {
    LegacyTable { entries: Vec::new() }
}

fn expansion(trigger: &str, replacement: &str) -> TextExpansion {
    seeded(trigger, replacement, "d", NOW)
}

#[test]
fn trigger_keys_are_trimmed_and_lower_cased() {
    assert_eq!(normalize_trigger_key("  :Mail "), ":mail");
    assert_eq!(normalize_search_key("  ::Date "), "date");
}

#[test]
fn validation_reports_blank_and_duplicate_triggers() {
    let blank = vec![expansion("  ", "x")];
    assert_eq!(validate_items(&blank), Err("Trigger cannot be empty".to_string()));
    let dup = vec![expansion(":a", "1"), expansion(":b", "2"), expansion(" :A ", "3")];
    assert_eq!(validate_items(&dup), Err("Duplicate trigger detected: :A".to_string()));
    let ok = vec![expansion(":a", "1"), expansion(":b", "2")];
    assert_eq!(validate_items(&ok), Ok(()));
}

#[test]
fn app_filters_are_keyed_and_deduplicated() {
    let filters = vec![" Code.exe".to_string(), "".to_string(), "code.exe ".to_string(), "Unity.exe".to_string()];
    assert_eq!(normalize_app_filter(&filters), vec!["code.exe".to_string(), "unity.exe".to_string()]);
    let mut x = expansion(":a", "1");
    x.app_filter = vec!["code.exe".to_string()];
    assert!(app_filter_matches(&x, " CODE.EXE"));
    assert!(!app_filter_matches(&x, "notepad.exe"));
    x.app_filter = vec![];
    assert!(app_filter_matches(&x, "anything"));
}

#[test]
fn normalization_fills_missing_fields() {
    let mut x = expansion("  :a  ", "one\r\ntwo");
    x.id = "  ".to_string();
    x.description = Some("   ".to_string());
    x.created_at = String::new();
    x.updated_at = String::new();
    x.app_filter = vec!["A.exe".to_string(), "a.exe".to_string()];
    let n = normalize_text_expansion_with(x, &empty_table(), "fresh-id".to_string(), NOW.to_string());
    assert_eq!(n.id, "fresh-id");
    assert_eq!(n.trigger, ":a");
    assert_eq!(n.replacement, "one\ntwo");
    assert_eq!(n.description, None);
    assert_eq!(n.created_at, NOW);
    assert_eq!(n.updated_at, NOW);
    assert_eq!(n.app_filter, vec!["a.exe".to_string()]);
}

#[test]
fn legacy_unity_triggers_take_their_new_form() {
    let table = LegacyTable {
        entries: vec![LegacyTrigger {
            raw: ":log".to_string(),
            trigger: "Ulog".to_string(),
            replacement: "Debug.Log(\"\");".to_string(),
        }],
    };
    assert_eq!(canonicalize_legacy_text_expansion_trigger(&table, " :log ", "Debug.Log(\"\");"), "Ulog");
    assert_eq!(canonicalize_legacy_text_expansion_trigger(&table, ":log", "something else"), ":log");
    assert_eq!(canonicalize_legacy_text_expansion_trigger(&table, ":other", "x"), ":other");
}

#[test]
fn legacy_table_comes_from_unity_packs() {
    let table = legacy_unity_table(&catalog_source());
    let raws: Vec<&str> = table.entries.iter().map(|e| e.raw.as_str()).collect();
    assert_eq!(raws, vec![":log", ":assert"]);
    assert_eq!(table.entries[0].trigger, "Ulog");
    assert_eq!(table.entries[1].trigger, "Uassert");
}

#[test]
fn merge_replaces_by_key_and_appends_new() {
    let base = vec![expansion(":a", "old"), expansion(":b", "keep")];
    let incoming = vec![expansion(":A", "new"), expansion(":c", "added")];
    let merged = merge_items(base, incoming, &empty_table());
    let pairs: Vec<(String, String)> = merged.iter().map(|x| (x.trigger.clone(), x.replacement.clone())).collect();
    assert_eq!(
        pairs,
        vec![
            (":A".to_string(), "new".to_string()),
            (":b".to_string(), "keep".to_string()),
            (":c".to_string(), "added".to_string()),
        ]
    );
}

#[test]
fn dedupe_keeps_the_last_item_in_the_first_place() {
    let items = vec![expansion(":a", "1"), expansion(":b", "2"), expansion(" :A", "3")];
    let out = dedupe_items(items, &empty_table());
    assert_eq!(out.len(), 2);
    assert_eq!(out[0].trigger, ":A");
    assert_eq!(out[0].replacement, "3");
    assert_eq!(out[1].trigger, ":b");
    let keys: Vec<String> = out.iter().map(|x| normalize_trigger_key(&x.trigger)).collect();
    assert_ne!(keys[0], keys[1]);
}

#[test]
fn catalog_lines_and_headings() {
    assert_eq!(
        parse_catalog_line("- `:mail` → can@example.com  "),
        Some((":mail".to_string(), "can@example.com".to_string()))
    );
    assert_eq!(parse_catalog_line("- `:x` → a\\nb"), Some((":x".to_string(), "a\nb".to_string())));
    assert_eq!(parse_catalog_line("no arrow here"), None);
    assert_eq!(parse_catalog_line("no backtick → here"), None);
    assert_eq!(heading_to_section_key("Unity — Debug & Logging"), Some("unity-debug".to_string()));
    assert_eq!(heading_to_section_key("Unity — Coroutine & Time"), Some("unity-coroutines".to_string()));
    assert_eq!(heading_to_section_key("Something else"), None);
    assert_eq!(canonicalize_default_trigger("unity-debug", " ::log "), "Ulog");
    assert_eq!(canonicalize_default_trigger("unity-debug", "Uassert"), "Uassert");
    assert_eq!(canonicalize_default_trigger("git", " :feat "), ":feat");
}

#[test]
fn catalog_sections_in_order() {
    let sections = parse_catalog(&catalog_source());
    let keys: Vec<&str> = sections.iter().map(|s| s.key.as_str()).collect();
    assert_eq!(keys, vec!["daily", "unity-debug", "git"]);
    assert_eq!(sections[0].entries.len(), 2);
    assert_eq!(sections[2].entries[0].replacement, "feat: \nbody");
}

#[test]
fn default_catalog_puts_core_first_and_signs() {
    let catalog = build_default_catalog(&catalog_source(), "tr-TR", Some("  Ayşe "));
    assert_eq!(catalog.version, 1);
    let ids: Vec<&str> = catalog.packs.iter().map(|p| p.id.as_str()).collect();
    assert_eq!(ids, vec!["core-essentials", "daily-productivity", "unity-debug", "git-version-control"]);
    assert_eq!(catalog.recommended_pack_ids, ids.iter().map(|s| s.to_string()).collect::<Vec<_>>());
    assert_eq!(catalog.packs[0].title, "Çekirdek / Temel");
    assert_eq!(catalog.packs[0].items.len(), 6);
    let sig = catalog.packs[0].items.iter().find(|x| x.trigger == ":sig").unwrap();
    assert_eq!(sig.replacement, "Saygılarımla,\nAyşe");
    let daily_sig = catalog.packs[1].items.iter().find(|x| x.trigger == ":sig").unwrap();
    assert_eq!(daily_sig.replacement, signature_text("Ayşe"));
    assert_eq!(catalog.packs[2].items[0].trigger, "Ulog");
    assert!(!catalog.packs[2].app_filter.is_empty());
}

#[test]
fn catalog_locale_is_lower_cased_or_english() {
    let c = load_text_expansion_catalog(&catalog_source(), Some("EN-us".to_string()));
    assert_eq!(c.locale, "en-us");
    let d = load_text_expansion_catalog(&catalog_source(), None);
    assert_eq!(d.locale, "en");
    assert_eq!(d.packs[0].title, "Core / Essentials");
}

#[test]
fn selected_pack_items_skip_taken_keys() {
    let catalog = build_default_catalog(&catalog_source(), "en", None);
    let ids = vec!["daily-productivity".to_string(), "core-essentials".to_string(), "missing".to_string()];
    let items = select_pack_items(&catalog, &ids);
    let triggers: Vec<&str> = items.iter().map(|x| x.trigger.as_str()).collect();
    assert_eq!(triggers, vec![":mail", ":sig", ":date", ":time", ":datetime", ":uuid", ":clip"]);
}

#[test]
fn numbers_round_trip_through_text() {
    for v in [0i64, 7, -7, 1234567890, i64::MAX, i64::MIN] {
        assert_eq!(parse_i64(&i64_to_text(v)), Some(v));
        assert_eq!(i64_to_text(v), v.to_string());
    }
    assert_eq!(parse_i64("+12"), Some(12));
    assert_eq!(parse_i64("1a"), None);
    assert_eq!(parse_i64(""), None);
    assert_eq!(parse_i64("9223372036854775808"), None);
}

#[test]
fn random_tokens_stay_in_range() {
    for _ in 0..50 {
        let v: i64 = resolve_random("random: 2 - 4 ").unwrap().parse().unwrap();
        assert!((2..=4).contains(&v));
        let w: i64 = resolve_random("random:3-1").unwrap().parse().unwrap();
        assert!((1..=3).contains(&w));
    }
    assert_eq!(resolve_random("random:5-5"), Some("5".to_string()));
    assert_eq!(resolve_random("random:-2-2"), None);
    assert_eq!(resolve_random("random:x-1"), None);
    assert_eq!(resolve_random("random:7"), None);
    assert_eq!(resolve_random("date"), None);
}

#[test]
fn variables_resolve_from_context() {
    let ctx = VariableContext {
        date: "01.05.2024".to_string(),
        time: "10:00:00".to_string(),
        datetime: "01.05.2024 10:00:00".to_string(),
        clipboard: "CLIP".to_string(),
    };
    assert_eq!(
        resolve_dynamic_variables_with("{{date}} {{ time }} {{clipboard}} {{nope}} {{open", &ctx),
        "01.05.2024 10:00:00 CLIP {{nope}} {{open"
    );
}

#[test]
fn previews_are_one_line() {
    assert_eq!(preview_replacement("  a\r\nb\tc  "), "a ⏎ b  c");
    let long: String = std::iter::repeat('x').take(80).collect();
    let p = preview_replacement(&long);
    assert!(p.ends_with('…'));
    assert_eq!(p.chars().count(), 71);
}

#[test]
fn string_order_and_utf8_length() {
    assert!(string_less("abc", "abd"));
    assert!(string_less("ab", "abc"));
    assert!(!string_less("abc", "abc"));
    assert!(!string_less("b", "a"));
    assert_eq!(utf8_length("aç€😀"), 1 + 2 + 3 + 4);
}

#[test]
fn suggestions_are_ranked() {
    let items = vec![
        expansion(":dateformat", "x"),
        expansion(":date", "y"),
        expansion(":dab", "z"),
        expansion(":other", "w"),
    ];
    let runtime = ExpansionRuntime::new(items, empty_table());
    let s = runtime.suggest_matches(":da", 10, "Unknown");
    let triggers: Vec<&str> = s.iter().map(|x| x.trigger.as_str()).collect();
    assert_eq!(triggers, vec![":dab", ":date", ":dateformat"]);
    let exact = runtime.suggest_matches("date", 10, "Unknown");
    assert_eq!(exact[0].trigger, ":date");
    assert_eq!(runtime.suggest_matches(":da", 0, "Unknown").len(), 1);
    assert!(runtime.suggest_matches("  ", 5, "Unknown").is_empty());
}

#[test]
fn matching_picks_the_longest_trigger_and_resolves() {
    let items = vec![expansion(":d", "short"), expansion(":dd", "long {{clipboard}}")];
    let runtime = ExpansionRuntime::new(items, empty_table());
    let m = runtime.evaluate_match("hello :dd", &TerminatorKind::Space, "Unknown", "C").unwrap();
    assert_eq!(m.trigger, ":dd");
    assert_eq!(m.replacement, "long C");
    assert_eq!(m.delete_graphemes, 3);
    assert_eq!(m.suffix, Some(" ".to_string()));
    assert!(runtime.evaluate_match("hello:dd", &TerminatorKind::Enter, "Unknown", "").is_none());
    let mut wb = expansion("ab", "x");
    wb.word_boundary = true;
    let r2 = ExpansionRuntime::new(vec![wb], empty_table());
    assert!(r2.evaluate_match("cab", &TerminatorKind::Tab, "Unknown", "").is_none());
    assert!(r2.evaluate_match("c ab", &TerminatorKind::Tab, "Unknown", "").is_some());
}

#[test]
fn the_buffer_keeps_its_last_clusters() {
    let runtime = ExpansionRuntime::new(vec![expansion(":a", "x")], empty_table());
    assert_eq!(runtime.buffer_limit(), 256);
    let mut buffer = String::new();
    let long: String = std::iter::repeat('y').take(300).collect();
    runtime.append_text(&mut buffer, &long);
    assert_eq!(buffer.chars().count(), 256);
    runtime.append_text(&mut buffer, "z");
    assert!(buffer.ends_with('z'));
    assert_eq!(buffer.chars().count(), 256);
}

#[test]
fn save_puts_normalized_items_in_force() {
    let mut runtime = ExpansionRuntime::new(Vec::new(), empty_table());
    let saved = runtime.save_text_expansions(&[expansion("  :x ", "1")]).unwrap();
    assert_eq!(saved[0].trigger, ":x");
    let snap = runtime.current_snapshot();
    assert_eq!(snap.len(), 1);
    assert_eq!(snap[0].trigger, ":x");
    assert_eq!(runtime.resolve_trigger_replacement(":X", ""), Some("1".to_string()));
    let refused = runtime.save_text_expansions(&[expansion(":y", "1"), expansion(":Y", "2")]);
    assert!(refused.is_err());
    assert_eq!(runtime.current_snapshot()[0].trigger, ":x");
    assert_eq!(runtime.max_trigger_graphemes(), 2);
}
