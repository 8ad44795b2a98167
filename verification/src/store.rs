//! The records that QuickPaste keeps on disk (snippets and settings), their defaults, the
//! rules a snippet list must meet before it is written, the pruning of old clipboard
//! history, and the naming and recovery rules of the data files.

use crate::numeric::{decimal, decimal_text};
use crate::suggest::{utf8_len, utf8_length};
use crate::text::{chars_of, str_equals, trim, trim_ws};
use vstd::prelude::*;

verus! {

broadcast use vstd::std_specs::vec::group_vec_axioms;

/// A stored snippet.
#[derive(Debug, Clone)]
pub struct Snippet {
    pub id: Option<String>,
    pub title: String,
    pub content: String,
    pub pinned: bool,
    pub use_count: u32,
    pub category: Option<String>,
    pub tags: Vec<String>,
    pub shortcut: Option<String>,
    /// Whether the snippet content should be masked in the UI.
    pub is_secret: bool,
    /// Snippet type: "text" | "code" | "url" | "password".
    pub snippet_type: String,
    /// Optional color label hex string, e.g. "#ef4444".
    pub color: Option<String>,
    /// Unix timestamp (ms) when the snippet was created.
    pub created_at: u64,
    /// Unix timestamp (ms) when the snippet was last used or pasted.
    pub last_used_at: u64,
    /// Optional trigger abbreviation for text expansion (e.g. ":email").
    pub trigger: Option<String>,
    /// Optional favorite slot (1-9) for the global Alt+1..9 hotkeys.
    pub slot: Option<u8>,
    /// Optional executable name of the application the snippet was copied from.
    pub source_app: Option<String>,
    /// Optional custom icon shown by the frontend.
    pub emoji: Option<String>,
    /// Macro steps executed in sequence.
    pub chain: Vec<String>,
}

/// A snippet as plain values.
pub struct SnippetView {
    pub id: Option<Seq<char>>,
    pub title: Seq<char>,
    pub content: Seq<char>,
    pub pinned: bool,
    pub use_count: u32,
    pub category: Option<Seq<char>>,
    pub tags: Seq<Seq<char>>,
    pub shortcut: Option<Seq<char>>,
    pub is_secret: bool,
    pub snippet_type: Seq<char>,
    pub color: Option<Seq<char>>,
    pub created_at: u64,
    pub last_used_at: u64,
    pub trigger: Option<Seq<char>>,
    pub slot: Option<u8>,
    pub source_app: Option<Seq<char>>,
    pub emoji: Option<Seq<char>>,
    pub chain: Seq<Seq<char>>,
}

impl DeepView for Snippet {
    type V = SnippetView;

    open spec fn deep_view(&self) -> SnippetView {
        SnippetView {
            id: self.id.deep_view(),
            title: self.title@,
            content: self.content@,
            pinned: self.pinned,
            use_count: self.use_count,
            category: self.category.deep_view(),
            tags: self.tags.deep_view(),
            shortcut: self.shortcut.deep_view(),
            is_secret: self.is_secret,
            snippet_type: self.snippet_type@,
            color: self.color.deep_view(),
            created_at: self.created_at,
            last_used_at: self.last_used_at,
            trigger: self.trigger.deep_view(),
            slot: self.slot,
            source_app: self.source_app.deep_view(),
            emoji: self.emoji.deep_view(),
            chain: self.chain.deep_view(),
        }
    }
}

fn copy_text(x: &Option<String>) -> (r: Option<String>)
    ensures
        r.deep_view() == x.deep_view(),
{
    match x {
        Some(t) => Some(t.clone()),
        None => None,
    }
}

/// A copy of a snippet.
pub fn copy_snippet(s: &Snippet) -> (r: Snippet)
    ensures
        r.deep_view() == s.deep_view(),
{
    Snippet {
        id: copy_text(&s.id),
        title: s.title.clone(),
        content: s.content.clone(),
        pinned: s.pinned,
        use_count: s.use_count,
        category: copy_text(&s.category),
        tags: s.tags.clone(),
        shortcut: copy_text(&s.shortcut),
        is_secret: s.is_secret,
        snippet_type: s.snippet_type.clone(),
        color: copy_text(&s.color),
        created_at: s.created_at,
        last_used_at: s.last_used_at,
        trigger: copy_text(&s.trigger),
        slot: s.slot,
        source_app: copy_text(&s.source_app),
        emoji: copy_text(&s.emoji),
        chain: s.chain.clone(),
    }
}

/// The application settings.
#[derive(Debug, Clone)]
pub struct Settings {
    pub dark_mode: bool,
    pub auto_paste: bool,
    pub clipboard_history_enabled: bool,
    pub startup_with_os: bool,
    pub hotkey: String,
    pub theme: String,
    pub clipboard_history_duration_days: u32,
    pub text_expansion_onboarding_completed: bool,
    pub text_expansion_default_pack_ids: Vec<String>,
    pub text_expansion_profile_name: String,
    pub text_expansion_profile_role: String,
    pub text_expansion_profile_stack: String,
    pub text_expansion_show_welcome_on_startup: bool,
}

/// The snippet type of a stored snippet that names none.
pub fn default_snippet_type() -> (r: String)
    ensures
        r@ == "text"@,
{
    "text".to_string()
}

/// The theme of settings that name none.
pub fn default_theme() -> (r: String)
    ensures
        r@ == "violet"@,
{
    "violet".to_string()
}

/// How many days of clipboard history settings keep when they name no number.
pub fn default_history_days() -> (r: u32)
    ensures
        r == 30,
{
    30
}

/// The defaults: light, auto-paste on, no clipboard history, no start with the system,
/// `alt+q`, the violet theme, thirty days of history, text expansion not set up.
pub open spec fn is_default_settings(s: Settings) -> bool {
    &&& !s.dark_mode
    &&& s.auto_paste
    &&& !s.clipboard_history_enabled
    &&& !s.startup_with_os
    &&& s.hotkey@ == "alt+q"@
    &&& s.theme@ == "violet"@
    &&& s.clipboard_history_duration_days == 30
    &&& !s.text_expansion_onboarding_completed
    &&& s.text_expansion_default_pack_ids@.len() == 0
    &&& s.text_expansion_profile_name@.len() == 0
    &&& s.text_expansion_profile_role@.len() == 0
    &&& s.text_expansion_profile_stack@.len() == 0
    &&& !s.text_expansion_show_welcome_on_startup
}

impl Default for Settings {
    fn default() -> (r: Self)
        ensures
            is_default_settings(r),
    {
        Settings {
            dark_mode: false,
            auto_paste: true,
            clipboard_history_enabled: false,
            startup_with_os: false,
            hotkey: "alt+q".to_string(),
            theme: default_theme(),
            clipboard_history_duration_days: 30,
            text_expansion_onboarding_completed: false,
            text_expansion_default_pack_ids: Vec::new(),
            text_expansion_profile_name: String::new(),
            text_expansion_profile_role: String::new(),
            text_expansion_profile_stack: String::new(),
            text_expansion_show_welcome_on_startup: false,
        }
    }
}

/// The most snippets a list may hold.
pub const MAX_SNIPPETS: usize = 100_000;

/// The most characters a snippet title may hold.
pub const MAX_TITLE_CHARS: usize = 200;

/// The most bytes (UTF-8) a snippet's content may hold.
pub const MAX_CONTENT_BYTES: u128 = 1_000_000;

/// What is wrong with a snippet, if anything: a blank title or empty content; a title
/// over the character limit or content over the byte limit; a slot outside 1..=9.
pub open spec fn snippet_problem(s: SnippetView) -> Option<Seq<char>> {
    if trim_ws(s.title).len() == 0 || s.content.len() == 0 {
        Some("Snippet title and content are required"@)
    } else if s.title.len() > MAX_TITLE_CHARS || utf8_len(s.content) > MAX_CONTENT_BYTES {
        Some("Snippet field size limit exceeded"@)
    } else {
        match s.slot {
            Some(v) => if 1 <= v <= 9 {
                None
            } else {
                Some("Favorite slot must be between 1 and 9"@)
            },
            None => None,
        }
    }
}

/// The first snippet at or after `i` that has a problem.
pub open spec fn first_problem_from(xs: Seq<SnippetView>, i: int) -> Option<int>
    decreases xs.len() - i,
{
    if 0 <= i < xs.len() {
        if snippet_problem(xs[i]) is Some {
            Some(i)
        } else {
            first_problem_from(xs, i + 1)
        }
    } else {
        None
    }
}

/// Why a snippet list may not be written, if it may not: too many snippets, else the
/// problem of the first snippet that has one.
pub open spec fn snippets_error(xs: Seq<SnippetView>) -> Option<Seq<char>> {
    if xs.len() > MAX_SNIPPETS {
        Some("Snippet limit exceeded"@)
    } else {
        match first_problem_from(xs, 0) {
            Some(i) => snippet_problem(xs[i]),
            None => None,
        }
    }
}

proof fn lemma_first_problem_from(xs: Seq<SnippetView>, i: int)
    requires
        0 <= i,
    ensures
        match first_problem_from(xs, i) {
            Some(j) => i <= j < xs.len() && snippet_problem(xs[j]) is Some,
            None => forall|j: int| i <= j < xs.len() ==> snippet_problem(#[trigger] xs[j]) is None,
        },
    decreases xs.len() - i,
{
    if i < xs.len() && snippet_problem(xs[i]) is None {
        lemma_first_problem_from(xs, i + 1);
    }
}

/// The problem of one snippet (see `snippet_problem`).
pub fn check_snippet(s: &Snippet) -> (r: Option<String>)
    ensures
        r.deep_view() == snippet_problem(s.deep_view()),
{
    let title = trim(s.title.as_str());
    if title.as_str().is_empty() || s.content.as_str().is_empty() {
        return Some("Snippet title and content are required".to_string());
    }
    let title_chars = chars_of(s.title.as_str());
    if title_chars.len() > MAX_TITLE_CHARS || utf8_length(s.content.as_str()) > MAX_CONTENT_BYTES {
        return Some("Snippet field size limit exceeded".to_string());
    }
    match s.slot {
        Some(v) => if 1 <= v && v <= 9 {
            None
        } else {
            Some("Favorite slot must be between 1 and 9".to_string())
        },
        None => None,
    }
}

/// Checks a snippet list before it is written: `Ok` exactly when `snippets_error` finds
/// nothing, else that error.
pub fn validate_snippets(snippets: &[Snippet]) -> (r: Result<(), String>)
    ensures
        match snippets_error(snippets.deep_view()) {
            Some(e) => r matches Err(m) && m@ == e,
            None => r is Ok,
        },
{
    if snippets.len() > MAX_SNIPPETS {
        return Err("Snippet limit exceeded".to_string());
    }
    let ghost xs = snippets.deep_view();
    proof {
        lemma_first_problem_from(xs, 0);
    }
    let mut i: usize = 0;
    while i < snippets.len()
        invariant
            i <= snippets.len(),
            xs == snippets.deep_view(),
            xs.len() <= MAX_SNIPPETS,
            first_problem_from(xs, 0) == first_problem_from(xs, i as int),
        decreases snippets.len() - i,
    {
        match check_snippet(&snippets[i]) {
            Some(e) => {
                assert(xs[i as int] == snippets[i as int].deep_view());
                assert(first_problem_from(xs, i as int) == Some(i as int));
                return Err(e);
            },
            None => {
                assert(xs[i as int] == snippets[i as int].deep_view());
            },
        }
        i += 1;
    }
    Ok(())
}

/// The snippet a new installation starts with: pinned, in `General`, tagged `welcome`.
pub open spec fn welcome_view() -> SnippetView {
    SnippetView {
        id: None,
        title: "Welcome"@,
        content: "Welcome to QuickPaste! Click once to paste."@,
        pinned: true,
        use_count: 0,
        category: Some("General"@),
        tags: seq!["welcome"@],
        shortcut: None,
        is_secret: false,
        snippet_type: "text"@,
        color: None,
        created_at: 0,
        last_used_at: 0,
        trigger: None,
        slot: None,
        source_app: None,
        emoji: None,
        chain: Seq::empty(),
    }
}

/// The snippet a new installation starts with.
pub fn welcome_snippet() -> (r: Snippet)
    ensures
        r.deep_view() == welcome_view(),
{
    let mut tags: Vec<String> = Vec::new();
    tags.push("welcome".to_string());
    assert(tags.deep_view() =~= seq!["welcome"@]);
    let chain: Vec<String> = Vec::new();
    assert(chain.deep_view() =~= Seq::<Seq<char>>::empty());
    Snippet {
        title: "Welcome".to_string(),
        content: "Welcome to QuickPaste! Click once to paste.".to_string(),
        pinned: true,
        use_count: 0,
        category: Some("General".to_string()),
        tags,
        shortcut: None,
        is_secret: false,
        snippet_type: "text".to_string(),
        color: None,
        created_at: 0,
        last_used_at: 0,
        trigger: None,
        slot: None,
        source_app: None,
        id: None,
        emoji: None,
        chain,
    }
}

/// The snippets of a new installation: the welcome snippet alone.
pub fn default_snippets() -> (r: Vec<Snippet>)
    ensures
        r.deep_view() == seq![welcome_view()],
{
    let mut r: Vec<Snippet> = Vec::new();
    r.push(welcome_snippet());
    assert(r.deep_view() =~= seq![welcome_view()]);
    r
}

/// Milliseconds in a day.
pub const MILLIS_PER_DAY: u64 = 86_400_000;

/// A snippet that history pruning removes: a clipboard capture made before `cutoff`.
pub open spec fn expired(s: SnippetView, cutoff: u64) -> bool {
    s.category == Some("Clipboard"@) && s.created_at < cutoff
}

/// The snippets of `xs` that pruning keeps, in order.
pub open spec fn kept(xs: Seq<SnippetView>, cutoff: u64) -> Seq<SnippetView>
    decreases xs.len(),
{
    if xs.len() == 0 {
        Seq::empty()
    } else {
        let prev = kept(xs.drop_last(), cutoff);
        if expired(xs.last(), cutoff) {
            prev
        } else {
            prev.push(xs.last())
        }
    }
}

/// Pruning keeps exactly the snippets that are not expired, in order: every snippet kept
/// is one of the list and not expired, and every snippet of the list that is not expired
/// is kept.
pub proof fn lemma_kept_exactly(xs: Seq<SnippetView>, cutoff: u64)
    ensures
        forall|s: SnippetView| #[trigger] kept(xs, cutoff).contains(s) ==> xs.contains(s) && !expired(s, cutoff),
        forall|s: SnippetView| #[trigger] xs.contains(s) && !expired(s, cutoff) ==> kept(xs, cutoff).contains(s),
        kept(xs, cutoff).len() <= xs.len(),
    decreases xs.len(),
{
    if xs.len() > 0 {
        let d = xs.drop_last();
        let l = xs.last();
        lemma_kept_exactly(d, cutoff);
        let prev = kept(d, cutoff);
        assert(xs =~= d.push(l));
        assert forall|s: SnippetView| #[trigger] kept(xs, cutoff).contains(s) implies xs.contains(s)
            && !expired(s, cutoff) by {
            if s == l && !expired(l, cutoff) {
                assert(xs[xs.len() - 1] == l);
            } else {
                if !expired(l, cutoff) {
                    let k = choose|k: int| 0 <= k < prev.push(l).len() && prev.push(l)[k] == s;
                    assert(prev[k] == s);
                }
                assert(prev.contains(s));
                let j = choose|j: int| 0 <= j < d.len() && d[j] == s;
                assert(xs[j] == s);
            }
        }
        assert forall|s: SnippetView| #[trigger] xs.contains(s) && !expired(s, cutoff) implies kept(
            xs,
            cutoff,
        ).contains(s) by {
            let j = choose|j: int| 0 <= j < xs.len() && xs[j] == s;
            if j == xs.len() - 1 {
                assert(prev.push(l)[prev.len() as int] == s);
            } else {
                assert(d[j] == s);
                assert(d.contains(s));
                let k = choose|k: int| 0 <= k < prev.len() && prev[k] == s;
                if !expired(l, cutoff) {
                    assert(prev.push(l)[k] == s);
                }
            }
        }
    }
}

/// The moment before which clipboard captures expire, when history is kept for `days`
/// days and it is `now_ms` (ms since the Unix epoch): `now_ms` less the period, where
/// the period is not zero and `now_ms` lies past it.
pub open spec fn history_cutoff(days: u32, now_ms: u64) -> Option<u64> {
    let threshold = days * MILLIS_PER_DAY;
    if days > 0 && now_ms > threshold {
        Some((now_ms - threshold) as u64)
    } else {
        None
    }
}

/// Whether a snippet is a clipboard capture.
fn is_clipboard_capture(s: &Snippet) -> (r: bool)
    ensures
        r == (s.category.deep_view() == Some("Clipboard"@)),
{
    match &s.category {
        Some(c) => str_equals(c.as_str(), "Clipboard"),
        None => false,
    }
}

/// Drops from `list` the clipboard captures older than the history period; returns the
/// list kept and whether anything was dropped (the list is then written back).
pub fn prune_clipboard_history(list: Vec<Snippet>, days: u32, now_ms: u64) -> (r: (
    Vec<Snippet>,
    bool,
))
    ensures
        match history_cutoff(days, now_ms) {
            Some(cutoff) => r.0.deep_view() == kept(list.deep_view(), cutoff),
            None => r.0.deep_view() == list.deep_view(),
        },
        r.1 == (r.0.len() != list.len()),
{
    if days == 0 {
        return (list, false);
    }
    let threshold: u64 = (days as u64) * MILLIS_PER_DAY;
    if now_ms <= threshold {
        return (list, false);
    }
    let cutoff: u64 = now_ms - threshold;
    let ghost xs = list.deep_view();
    let mut out: Vec<Snippet> = Vec::new();
    let mut i: usize = 0;
    assert(xs.take(0) =~= Seq::<SnippetView>::empty());
    while i < list.len()
        invariant
            i <= list.len(),
            xs == list.deep_view(),
            out.deep_view() == kept(xs.take(i as int), cutoff),
            out.len() <= i,
        decreases list.len() - i,
    {
        assert(xs.take(i + 1).drop_last() =~= xs.take(i as int));
        let s = &list[i];
        assert(xs.take(i + 1).last() == s.deep_view());
        if !(is_clipboard_capture(s) && s.created_at < cutoff) {
            let ghost before = out.deep_view();
            let c = copy_snippet(s);
            out.push(c);
            assert(out.deep_view() =~= before.push(s.deep_view()));
        }
        i += 1;
    }
    assert(xs.take(list.len() as int) =~= xs);
    let changed = out.len() != list.len();
    (out, changed)
}

/// The directory of QuickPaste's data inside the platform's data directory.
pub open spec fn app_dir_name() -> Seq<char> {
    "QuickPaste"@
}

/// The path of a data file, as its components: the platform's data directory, the
/// application's directory, the file.
pub open spec fn data_file_components(data_dir: Seq<char>, file: Seq<char>) -> Seq<Seq<char>> {
    seq![data_dir, app_dir_name(), file]
}

fn data_file_path(data_dir: &str, file: &str) -> (r: Vec<String>)
    ensures
        r.deep_view() == data_file_components(data_dir@, file@),
{
    let mut r: Vec<String> = Vec::new();
    r.push(data_dir.to_string());
    r.push("QuickPaste".to_string());
    r.push(file.to_string());
    assert(r.deep_view() =~= data_file_components(data_dir@, file@));
    r
}

/// The path of the snippet file, as its components (`get_snippets_path`).
pub fn get_snippets_path(data_dir: &str) -> (r: Vec<String>)
    ensures
        r.deep_view() == data_file_components(data_dir@, "snippets.json"@),
{
    data_file_path(data_dir, "snippets.json")
}

/// The path of the settings file, as its components (`get_settings_path`).
pub fn get_settings_path(data_dir: &str) -> (r: Vec<String>)
    ensures
        r.deep_view() == data_file_components(data_dir@, "settings.json"@),
{
    data_file_path(data_dir, "settings.json")
}

/// The path of the expansion file, as its components (`get_text_expansions_path`).
pub fn get_text_expansions_path(data_dir: &str) -> (r: Vec<String>)
    ensures
        r.deep_view() == data_file_components(data_dir@, "text_expansions.json"@),
{
    data_file_path(data_dir, "text_expansions.json")
}

/// The name of a data file's sidecar: the file's name (or `data.json` when the path has
/// none), a dot, and the suffix.
pub open spec fn sidecar_name(file_name: Option<Seq<char>>, suffix: Seq<char>) -> Seq<char> {
    let base = match file_name {
        Some(n) => n,
        None => "data.json"@,
    };
    base + "."@ + suffix
}

/// The file name of a data file's sidecar (see `sidecar_name`).
pub fn sidecar_file_name(file_name: Option<&str>, suffix: &str) -> (r: String)
    ensures
        r@ == sidecar_name(file_name.deep_view(), suffix@),
{
    let mut r = match file_name {
        Some(n) => n.to_string(),
        None => "data.json".to_string(),
    };
    r.append(".");
    r.append(suffix);
    r
}

/// The file name of a data file's backup (`<name>.bak`).
pub fn backup_file_name(file_name: Option<&str>) -> (r: String)
    ensures
        r@ == sidecar_name(file_name.deep_view(), "bak"@),
{
    sidecar_file_name(file_name, "bak")
}

/// The file name a data file is first written to (`<name>.tmp`).
pub fn temp_file_name(file_name: Option<&str>) -> (r: String)
    ensures
        r@ == sidecar_name(file_name.deep_view(), "tmp"@),
{
    sidecar_file_name(file_name, "tmp")
}

/// The file name an unreadable data file is moved to: `<name>.corrupted-<stamp>`, the
/// stamp in decimal.
pub fn corrupt_archive_file_name(file_name: Option<&str>, stamp: u64) -> (r: String)
    ensures
        r@ == sidecar_name(file_name.deep_view(), "corrupted-"@ + decimal(stamp as nat)),
{
    let mut suffix = "corrupted-".to_string();
    let digits = decimal_text(stamp);
    suffix.append(digits.as_str());
    sidecar_file_name(file_name, suffix.as_str())
}

/// What loading a data file does.
#[derive(Debug, PartialEq, Eq, Structural)]
pub enum LoadPlan {
    /// There is no file: write the defaults and use them.
    CreateDefaults,
    /// The file reads: use it.
    UsePrimary,
    /// The file does not read but its backup does: move the file aside, write the
    /// backup's contents back, and use them.
    RecoverFromBackup,
    /// Neither reads: move the file aside and start from the empty or default value.
    ArchiveAndReset,
}

/// How a data file is loaded, given whether it exists and whether it and its backup read.
pub fn load_plan(exists: bool, primary_reads: bool, backup_reads: bool) -> (r: LoadPlan)
    ensures
        !exists ==> r == LoadPlan::CreateDefaults,
        exists && primary_reads ==> r == LoadPlan::UsePrimary,
        exists && !primary_reads && backup_reads ==> r == LoadPlan::RecoverFromBackup,
        exists && !primary_reads && !backup_reads ==> r == LoadPlan::ArchiveAndReset,
{
    if !exists {
        LoadPlan::CreateDefaults
    } else if primary_reads {
        LoadPlan::UsePrimary
    } else if backup_reads {
        LoadPlan::RecoverFromBackup
    } else {
        LoadPlan::ArchiveAndReset
    }
}

} // verus!
