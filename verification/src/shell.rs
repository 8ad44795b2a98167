//! The application's own rules around the windows and hotkeys: which window a paste goes
//! to, how hotkeys are written and which ones are registered, what a backup import
//! accepts, and how clipboard writes are retried.

use crate::numeric::{decimal, decimal_text};
use crate::packs::{is_turkish, locale_is_turkish};
use crate::store::{Settings, Snippet, SnippetView};
use crate::text::{
    char_to_uppercase, chars_of, push_char, spec_char_to_uppercase, str_equals, trim, trim_ws,
};
use vstd::prelude::*;

verus! {

broadcast use vstd::std_specs::vec::group_vec_axioms;

/// Window classes of the Windows shell (taskbar, tray overflow, desktop) that never
/// receive a paste.
pub open spec fn shell_class(name: Seq<char>) -> bool {
    name == "Shell_TrayWnd"@ || name == "NotifyIconOverflowWindow"@ || name == "WorkerW"@ || name
        == "Progman"@
}

/// Whether a window is a system window (`is_system_window`): no window at all, or a
/// window of a shell class; `class_name` is the window's class, when it has one.
pub fn is_system_window(hwnd: isize, class_name: Option<&str>) -> (r: bool)
    ensures
        r == (hwnd == 0 || match class_name {
            Some(n) => shell_class(n@),
            None => false,
        }),
{
    if hwnd == 0 {
        return true;
    }
    match class_name {
        Some(n) => str_equals(n, "Shell_TrayWnd") || str_equals(n, "NotifyIconOverflowWindow")
            || str_equals(n, "WorkerW") || str_equals(n, "Progman"),
        None => false,
    }
}

/// What follows the last `sep` in `s` (all of `s` when there is none).
pub open spec fn last_segment(s: Seq<char>, sep: char) -> Seq<char>
    decreases s.len(),
{
    if s.len() == 0 {
        s
    } else if s.last() == sep {
        Seq::empty()
    } else {
        last_segment(s.drop_last(), sep).push(s.last())
    }
}

/// The file name of an executable's path: what follows the last backslash.
pub fn executable_name(path: &str) -> (r: String)
    ensures
        r@ == last_segment(path@, '\\'),
{
    let v = chars_of(path);
    let n = v.len();
    let mut j: usize = n;
    assert(v@.subrange(0, n as int) =~= v@);
    assert(last_segment(v@, '\\') + v@.subrange(n as int, n as int) =~= last_segment(v@, '\\'));
    while j > 0 && v[j - 1] != '\\'
        invariant
            j <= n,
            n == v@.len(),
            last_segment(v@, '\\') == last_segment(v@.subrange(0, j as int), '\\') + v@.subrange(
                j as int,
                n as int,
            ),
        decreases j,
    {
        proof {
            let a = v@.subrange(0, j as int);
            assert(a.drop_last() =~= v@.subrange(0, j - 1));
            assert(last_segment(a, '\\') == last_segment(v@.subrange(0, j - 1), '\\').push(
                v@[j - 1],
            ));
            assert(last_segment(v@.subrange(0, j - 1), '\\').push(v@[j - 1]) + v@.subrange(
                j as int,
                n as int,
            ) =~= last_segment(v@.subrange(0, j - 1), '\\') + v@.subrange(j - 1, n as int));
        }
        j -= 1;
    }
    proof {
        let a = v@.subrange(0, j as int);
        if j > 0 {
            assert(a.last() == v@[j - 1]);
        }
        assert(last_segment(a, '\\') =~= Seq::<char>::empty());
        assert(Seq::<char>::empty() + v@.subrange(j as int, n as int) =~= v@.subrange(
            j as int,
            n as int,
        ));
    }
    crate::text::string_from(&v, j, n)
}

/// The name of the foreground process (`get_active_process_name`): the file name of its
/// executable's path, or `Unknown` when the path could not be read.
pub fn get_active_process_name(image_path: Option<&str>) -> (r: String)
    ensures
        r@ == match image_path {
            Some(p) => last_segment(p@, '\\'),
            None => "Unknown"@,
        },
{
    match image_path {
        Some(p) => executable_name(p),
        None => "Unknown".to_string(),
    }
}

/// The windows the application remembers: its own, and the last window outside it that
/// had the focus, where pastes go.
pub struct WindowTargets {
    pub own_hwnd: isize,
    pub previous_window: isize,
}

/// A window that a paste may go to: a window, not the application's own, not a system
/// window.
pub open spec fn paste_candidate(hwnd: isize, own: isize, system: bool) -> bool {
    hwnd != 0 && hwnd != own && !system
}

impl WindowTargets {
    /// No window known yet.
    pub fn new() -> (r: Self)
        ensures
            r.own_hwnd == 0,
            r.previous_window == 0,
    {
        WindowTargets { own_hwnd: 0, previous_window: 0 }
    }

    /// Records the application's own window (`store_own_hwnd`), unless there is none.
    pub fn store_own_hwnd(&mut self, hwnd: isize)
        ensures
            final(self).own_hwnd == if hwnd != 0 {
                hwnd
            } else {
                old(self).own_hwnd
            },
            final(self).previous_window == old(self).previous_window,
    {
        if hwnd != 0 {
            self.own_hwnd = hwnd;
        }
    }

    /// Remembers the foreground window as the paste target when it may take a paste
    /// (`capture_target`); `system` says whether it is a system window.
    pub fn capture_target(&mut self, foreground: isize, system: bool)
        ensures
            final(self).own_hwnd == old(self).own_hwnd,
            final(self).previous_window == if paste_candidate(
                foreground,
                old(self).own_hwnd,
                system,
            ) {
                foreground
            } else {
                old(self).previous_window
            },
    {
        if foreground != 0 && foreground != self.own_hwnd && !system {
            self.previous_window = foreground;
        }
    }

    /// Captures the foreground window and returns the paste target
    /// (`capture_foreground_window`).
    pub fn capture_foreground_window(&mut self, foreground: isize, system: bool) -> (r: isize)
        ensures
            final(self).own_hwnd == old(self).own_hwnd,
            final(self).previous_window == if paste_candidate(
                foreground,
                old(self).own_hwnd,
                system,
            ) {
                foreground
            } else {
                old(self).previous_window
            },
            r == final(self).previous_window,
    {
        self.capture_target(foreground, system);
        self.previous_window
    }

    /// The window a paste goes to (`resolve_paste_target`): the requested window when one
    /// is given and it is not 0; else the foreground window is captured and the paste
    /// target returned.
    pub fn resolve_paste_target(&mut self, requested: Option<isize>, foreground: isize, system: bool) -> (r:
        isize)
        ensures
            match requested {
                Some(t) if t != 0 => r == t && *final(self) == *old(self),
                _ => final(self).own_hwnd == old(self).own_hwnd && final(self).previous_window == if paste_candidate(
                    foreground,
                    old(self).own_hwnd,
                    system,
                ) {
                    foreground
                } else {
                    old(self).previous_window
                } && r == final(self).previous_window,
            },
    {
        match requested {
            Some(t) => {
                if t != 0 {
                    return t;
                }
            },
            None => {},
        }
        self.capture_foreground_window(foreground, system)
    }
}

/// Whether a hotkey character begins a part: it is the first, or follows a `+`.
pub open spec fn at_part_start(s: Seq<char>) -> bool {
    s.len() == 0 || s.last() == '+'
}

/// A hotkey with the first character of each `+`-separated part upper-cased.
pub open spec fn formatted_hotkey(s: Seq<char>) -> Seq<char>
    decreases s.len(),
{
    if s.len() == 0 {
        Seq::empty()
    } else {
        let p = s.drop_last();
        let c = s.last();
        formatted_hotkey(p) + if c == '+' {
            seq!['+']
        } else if at_part_start(p) {
            spec_char_to_uppercase(c)
        } else {
            seq![c]
        }
    }
}

/// Writes a hotkey the way the shortcut parser reads it (`format_hotkey`): each
/// `+`-separated part with its first character upper-cased.
pub fn format_hotkey(hotkey: &str) -> (r: String)
    ensures
        r@ == formatted_hotkey(hotkey@),
{
    let v = chars_of(hotkey);
    let mut out = String::new();
    let mut i: usize = 0;
    assert(v@.take(0) =~= Seq::<char>::empty());
    while i < v.len()
        invariant
            i <= v.len(),
            v@ == hotkey@,
            out@ == formatted_hotkey(v@.take(i as int)),
        decreases v.len() - i,
    {
        let c = v[i];
        let start = i == 0 || v[i - 1] == '+';
        let ghost pre = v@.take(i as int);
        assert(v@.take(i + 1).drop_last() =~= pre);
        assert(v@.take(i + 1).last() == c);
        assert(start == at_part_start(pre));
        if c == '+' {
            push_char(&mut out, c);
        } else if start {
            let up = char_to_uppercase(c);
            out.append(up.as_str());
        } else {
            push_char(&mut out, c);
        }
        assert(out@ =~= formatted_hotkey(v@.take(i + 1)));
        i += 1;
    }
    assert(v@.take(v.len() as int) =~= v@);
    out
}

/// Whether a locale is Turkish (`is_turkish_locale`): one is given and, lower-cased, it
/// starts with `tr`.
pub fn is_turkish_locale(locale: Option<&str>) -> (r: bool)
    ensures
        r == match locale {
            Some(l) => is_turkish(l@),
            None => false,
        },
{
    match locale {
        Some(l) => locale_is_turkish(l),
        None => false,
    }
}

/// Where a registered shortcut comes from.
pub enum ShortcutOrigin {
    /// The hotkey that shows the main window.
    App,
    /// The hotkey of the snippet at this position.
    Snippet(usize),
    /// The favorite slot of the snippet at this position.
    Favorite(usize),
}

/// A shortcut to register, as the shortcut parser reads it.
pub struct PlannedShortcut {
    pub accelerator: String,
    pub origin: ShortcutOrigin,
}

/// Whether a snippet has a hotkey of its own: one that is not blank.
pub open spec fn has_hotkey(s: SnippetView) -> bool {
    match s.shortcut {
        Some(sc) => trim_ws(sc).len() > 0,
        None => false,
    }
}

/// Whether a snippet has a favorite slot in 1..=9.
pub open spec fn has_favorite(s: SnippetView) -> bool {
    match s.slot {
        Some(v) => 1 <= v <= 9,
        None => false,
    }
}

/// The accelerator of a favorite slot: `Alt+` and the slot's digit.
pub open spec fn favorite_accelerator(slot: u8) -> Seq<char> {
    "Alt+"@ + decimal(slot as nat)
}

/// The snippet hotkeys in the order they are registered and looked up: the snippets'
/// own hotkeys, in snippet order, then their favorite slots, in snippet order.
pub open spec fn snippet_hotkeys_of(xs: Seq<SnippetView>) -> Seq<(Seq<char>, ShortcutOrigin)> {
    own_hotkeys_of(xs) + favorite_hotkeys_of(xs)
}

/// The snippets' own hotkeys, formatted, each with the snippet's position.
pub open spec fn own_hotkeys_of(xs: Seq<SnippetView>) -> Seq<(Seq<char>, ShortcutOrigin)>
    decreases xs.len(),
{
    if xs.len() == 0 {
        Seq::empty()
    } else {
        let prev = own_hotkeys_of(xs.drop_last());
        let s = xs.last();
        if has_hotkey(s) {
            prev.push(
                (formatted_hotkey(s.shortcut.unwrap()), ShortcutOrigin::Snippet((xs.len() - 1) as usize)),
            )
        } else {
            prev
        }
    }
}

/// The snippets' favorite slots, as accelerators, each with the snippet's position.
pub open spec fn favorite_hotkeys_of(xs: Seq<SnippetView>) -> Seq<(Seq<char>, ShortcutOrigin)>
    decreases xs.len(),
{
    if xs.len() == 0 {
        Seq::empty()
    } else {
        let prev = favorite_hotkeys_of(xs.drop_last());
        let s = xs.last();
        if has_favorite(s) {
            prev.push(
                (favorite_accelerator(s.slot.unwrap()), ShortcutOrigin::Favorite((xs.len() - 1) as usize)),
            )
        } else {
            prev
        }
    }
}

/// A planned shortcut as plain values.
pub open spec fn planned_view(p: PlannedShortcut) -> (Seq<char>, ShortcutOrigin) {
    (p.accelerator@, p.origin)
}

/// The plain values of a list of planned shortcuts.
pub open spec fn planned_views(ps: Seq<PlannedShortcut>) -> Seq<(Seq<char>, ShortcutOrigin)> {
    ps.map_values(|p: PlannedShortcut| planned_view(p))
}

/// The snippet hotkeys in the order they are registered and looked up (see
/// `snippet_hotkeys_of`).
pub fn snippet_hotkeys(snippets: &[Snippet]) -> (r: Vec<PlannedShortcut>)
    ensures
        planned_views(r@) == snippet_hotkeys_of(snippets.deep_view()),
{
    let ghost xs = snippets.deep_view();
    let mut out: Vec<PlannedShortcut> = Vec::new();
    let mut i: usize = 0;
    assert(xs.take(0) =~= Seq::<SnippetView>::empty());
    assert(planned_views(out@) =~= own_hotkeys_of(xs.take(0)));
    while i < snippets.len()
        invariant
            i <= snippets.len(),
            xs == snippets.deep_view(),
            planned_views(out@) == own_hotkeys_of(xs.take(i as int)),
        decreases snippets.len() - i,
    {
        let ghost pre = xs.take(i + 1);
        assert(pre.drop_last() =~= xs.take(i as int));
        assert(pre.last() == snippets[i as int].deep_view());
        match &snippets[i].shortcut {
            Some(sc) => {
                let t = trim(sc.as_str());
                if !t.as_str().is_empty() {
                    let ghost before = out@;
                    let p = PlannedShortcut {
                        accelerator: format_hotkey(sc.as_str()),
                        origin: ShortcutOrigin::Snippet(i),
                    };
                    out.push(p);
                    assert(planned_views(out@) =~= planned_views(before).push(planned_view(p)));
                }
            },
            None => {},
        }
        i += 1;
    }
    assert(xs.take(snippets.len() as int) =~= xs);
    let ghost owns = planned_views(out@);
    let mut favs: Vec<PlannedShortcut> = Vec::new();
    let mut i: usize = 0;
    assert(planned_views(favs@) =~= favorite_hotkeys_of(xs.take(0)));
    while i < snippets.len()
        invariant
            i <= snippets.len(),
            xs == snippets.deep_view(),
            planned_views(favs@) == favorite_hotkeys_of(xs.take(i as int)),
        decreases snippets.len() - i,
    {
        let ghost pre = xs.take(i + 1);
        assert(pre.drop_last() =~= xs.take(i as int));
        assert(pre.last() == snippets[i as int].deep_view());
        match snippets[i].slot {
            Some(v) => {
                if 1 <= v && v <= 9 {
                    let mut a = "Alt+".to_string();
                    let d = decimal_text(v as u64);
                    a.append(d.as_str());
                    let ghost before = favs@;
                    let p = PlannedShortcut { accelerator: a, origin: ShortcutOrigin::Favorite(i) };
                    favs.push(p);
                    assert(planned_views(favs@) =~= planned_views(before).push(planned_view(p)));
                }
            },
            None => {},
        }
        i += 1;
    }
    let ghost fv = planned_views(favs@);
    let ghost before = out@;
    out.append(&mut favs);
    assert(planned_views(out@) =~= planned_views(before) + fv);
    out
}

/// All shortcuts to register: the application's hotkey, trimmed and formatted, first,
/// then the snippet hotkeys.
pub fn shortcuts_to_register(settings: &Settings, snippets: &[Snippet]) -> (r: Vec<PlannedShortcut>)
    ensures
        planned_views(r@) == seq![(formatted_hotkey(trim_ws(settings.hotkey@)), ShortcutOrigin::App)]
            + snippet_hotkeys_of(snippets.deep_view()),
{
    let t = trim(settings.hotkey.as_str());
    let app = PlannedShortcut { accelerator: format_hotkey(t.as_str()), origin: ShortcutOrigin::App };
    let mut out: Vec<PlannedShortcut> = Vec::new();
    out.push(app);
    let mut rest = snippet_hotkeys(snippets);
    let ghost rv = planned_views(rest@);
    let ghost first = planned_views(out@);
    out.append(&mut rest);
    assert(planned_views(out@) =~= first + rv);
    out
}

/// The oldest and newest backup formats an import accepts.
pub const OLDEST_BACKUP_VERSION: u64 = 1;
pub const NEWEST_BACKUP_VERSION: u64 = 2;

/// The version a backup claims, 1 when it claims none, if this application reads it;
/// else the error naming it.
pub fn check_backup_version(version: Option<u64>) -> (r: Result<u64, String>)
    ensures
        ({
            let v = match version {
                Some(x) => x,
                None => 1,
            };
            if OLDEST_BACKUP_VERSION <= v <= NEWEST_BACKUP_VERSION {
                r == Ok::<u64, String>(v)
            } else {
                r matches Err(e) && e@ == "Unsupported backup version: "@ + decimal(v as nat)
            }
        }),
{
    let v = match version {
        Some(x) => x,
        None => 1,
    };
    if OLDEST_BACKUP_VERSION <= v && v <= NEWEST_BACKUP_VERSION {
        Ok(v)
    } else {
        let mut e = "Unsupported backup version: ".to_string();
        let d = decimal_text(v);
        e.append(d.as_str());
        Err(e)
    }
}

/// The largest file an import reads (50 MiB).
pub const MAX_IMPORT_BYTES: u64 = 52_428_800;

/// Whether a backup file is small enough to import; else the error.
pub fn check_backup_size(len: u64) -> (r: Result<(), String>)
    ensures
        len <= MAX_IMPORT_BYTES ==> r is Ok,
        len > MAX_IMPORT_BYTES ==> (r matches Err(e) && e@ == "Backup file is larger than 50 MB"@),
{
    if len > MAX_IMPORT_BYTES {
        Err("Backup file is larger than 50 MB".to_string())
    } else {
        Ok(())
    }
}

/// Whether an expansion file is small enough to import; else the error.
pub fn check_expansion_import_size(len: u64) -> (r: Result<(), String>)
    ensures
        len <= MAX_IMPORT_BYTES ==> r is Ok,
        len > MAX_IMPORT_BYTES ==> (r matches Err(e) && e@
            == "Text expansion import is larger than 50 MB"@),
{
    if len > MAX_IMPORT_BYTES {
        Err("Text expansion import is larger than 50 MB".to_string())
    } else {
        Ok(())
    }
}

/// How many times a clipboard write is tried.
pub const CLIPBOARD_WRITE_ATTEMPTS: u32 = 6;

/// The first wait between clipboard write attempts (ms).
pub const FIRST_RETRY_WAIT_MS: u64 = 10;

/// The wait after the next failed attempt: twice this one, but no more than `cap`.
pub fn next_backoff_ms(wait_ms: u64, cap: u64) -> (r: u64)
    ensures
        r == if 2 * wait_ms < cap {
            2 * wait_ms
        } else {
            cap as int
        },
{
    let doubled: u128 = (wait_ms as u128) * 2;
    if doubled < cap as u128 {
        doubled as u64
    } else {
        cap
    }
}

/// What a clipboard write does after an attempt.
pub enum RetryStep {
    /// The write succeeded.
    Written,
    /// The attempt failed: wait this long, then try again (`true`) or give up (`false`).
    Wait(u64, bool),
}

/// The retries of a clipboard write: which attempt comes next and how long to wait after
/// a failure, doubling up to a cap.
pub struct ClipboardRetry {
    pub attempt: u32,
    pub wait_ms: u64,
    pub cap_ms: u64,
}

impl ClipboardRetry {
    /// Before the first attempt, with waits capped at `cap_ms`.
    pub fn new(cap_ms: u64) -> (r: Self)
        ensures
            r.attempt == 1,
            r.wait_ms == FIRST_RETRY_WAIT_MS,
            r.cap_ms == cap_ms,
    {
        ClipboardRetry { attempt: 1, wait_ms: FIRST_RETRY_WAIT_MS, cap_ms }
    }

    /// Records the outcome of the current attempt.  A failure waits the current wait, and
    /// tries again unless this was the last attempt; the next wait doubles, up to the cap.
    pub fn after_attempt(&mut self, written: bool) -> (r: RetryStep)
        requires
            1 <= old(self).attempt <= CLIPBOARD_WRITE_ATTEMPTS,
        ensures
            written ==> r is Written && *final(self) == *old(self),
            !written ==> r == RetryStep::Wait(
                old(self).wait_ms,
                old(self).attempt < CLIPBOARD_WRITE_ATTEMPTS,
            ) && final(self).attempt == old(self).attempt + 1 && final(self).cap_ms == old(
                self,
            ).cap_ms && final(self).wait_ms == if 2 * old(self).wait_ms < old(self).cap_ms {
                2 * old(self).wait_ms
            } else {
                old(self).cap_ms as int
            },
    {
        if written {
            return RetryStep::Written;
        }
        let wait = self.wait_ms;
        let more = self.attempt < CLIPBOARD_WRITE_ATTEMPTS;
        self.attempt = self.attempt + 1;
        self.wait_ms = next_backoff_ms(self.wait_ms, self.cap_ms);
        RetryStep::Wait(wait, more)
    }
}

/// Whether `copy_and_paste` succeeded: the paste, and the copy unless it was skipped.
pub fn paste_outcome(skip_copy: bool, copied: bool, pasted: bool) -> (r: bool)
    ensures
        r == (pasted && (skip_copy || copied)),
{
    if skip_copy {
        pasted
    } else {
        copied && pasted
    }
}

/// Whether the welcome window opens at start: text expansion has not been set up yet.
pub fn should_show_welcome(settings: &Settings) -> (r: bool)
    ensures
        r == !settings.text_expansion_onboarding_completed,
{
    !settings.text_expansion_onboarding_completed
}

/// The title of the expansion export dialog in a locale.
pub fn export_dialog_title(locale: Option<&str>) -> (r: &'static str)
    ensures
        r@ == if match locale {
            Some(l) => is_turkish(l@),
            None => false,
        } {
            "Metin Genişletmeleri Dışa Aktar"@
        } else {
            "Export Text Expansions"@
        },
{
    if is_turkish_locale(locale) {
        "Metin Genişletmeleri Dışa Aktar"
    } else {
        "Export Text Expansions"
    }
}

/// The title of the expansion import dialog in a locale.
pub fn import_dialog_title(locale: Option<&str>) -> (r: &'static str)
    ensures
        r@ == if match locale {
            Some(l) => is_turkish(l@),
            None => false,
        } {
            "Metin Genişletmeleri İçe Aktar"@
        } else {
            "Import Text Expansions"@
        },
{
    if is_turkish_locale(locale) {
        "Metin Genişletmeleri İçe Aktar"
    } else {
        "Import Text Expansions"
    }
}

} // verus!
