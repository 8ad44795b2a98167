//! The decisions of the global keyboard hook: which keys end a word, which leave the
//! typed buffer alone, what each key does to the buffer, when suggestions are offered,
//! and when a replacement must be pasted rather than typed.

use crate::expansion::search_key;
use crate::runtime::{ExpansionMatch, ExpansionRuntime, TerminatorKind, matched, nothing_fires};
use crate::segment::{
    backspace_buffer, clear_buffer, drop_last_grapheme, graphemes_of, keep_last_graphemes,
    spec_graphemes,
};
use crate::runtime::buffer_limit_for;
use crate::runtime::max_graphemes;
use crate::suggest::{TextExpansionSuggestion, suggestions_for};
use crate::text::{
    chars_of, has_prefix, is_alphanumeric, is_whitespace, is_ws, spec_is_alphanumeric, starts_with,
    string_from, trim, trim_end, trim_end_ws, trim_ws,
};
use crate::expansion::normalize_search_key;
use vstd::prelude::*;

verus! {

broadcast use vstd::std_specs::vec::group_vec_axioms;

/// Backspace.
pub const VK_BACK: u32 = 0x08;
/// Tab.
pub const VK_TAB: u32 = 0x09;
/// Enter.
pub const VK_RETURN: u32 = 0x0D;
/// Shift.
pub const VK_SHIFT: u32 = 0x10;
/// Control.
pub const VK_CONTROL: u32 = 0x11;
/// Alt.
pub const VK_MENU: u32 = 0x12;
/// Escape.
pub const VK_ESCAPE: u32 = 0x1B;
/// Space.
pub const VK_SPACE: u32 = 0x20;
/// Left Windows key.
pub const VK_LWIN: u32 = 0x5B;
/// Right Windows key.
pub const VK_RWIN: u32 = 0x5C;
/// Left Shift.
pub const VK_LSHIFT: u32 = 0xA0;
/// Right Shift.
pub const VK_RSHIFT: u32 = 0xA1;
/// Left Control.
pub const VK_LCONTROL: u32 = 0xA2;
/// Right Control.
pub const VK_RCONTROL: u32 = 0xA3;
/// Left Alt.
pub const VK_LMENU: u32 = 0xA4;
/// Right Alt.
pub const VK_RMENU: u32 = 0xA5;

/// The flag of a key event injected by software.
pub const LLKHF_INJECTED: u32 = 0x10;
/// The flag of a key event injected from a lower integrity level.
pub const LLKHF_LOWER_IL_INJECTED: u32 = 0x02;

/// The most characters a replacement may have and still be typed key by key.
pub const MAX_TYPED_CHARS: usize = 96;

/// How many suggestions are offered at most.
pub const SUGGESTION_LIMIT: usize = 5;

/// `r` is how a key ends the typed word, if it does: Enter, Tab and Space by their key;
/// otherwise a text of one space is Space, and a text of one character that is neither a
/// letter, a digit nor white space is punctuation.
pub open spec fn terminates(vk: u32, text: Option<Seq<char>>, r: Option<TerminatorKind>) -> bool {
    if vk == VK_RETURN {
        r == Some(TerminatorKind::Enter)
    } else if vk == VK_TAB {
        r == Some(TerminatorKind::Tab)
    } else if vk == VK_SPACE {
        r == Some(TerminatorKind::Space)
    } else {
        match text {
            None => r is None,
            Some(t) => if t == seq![' '] {
                r == Some(TerminatorKind::Space)
            } else if t.len() == 1 && !spec_is_alphanumeric(t[0]) && !is_ws(t[0]) {
                r matches Some(TerminatorKind::Punctuation(p)) && p@ == t
            } else {
                r is None
            },
        }
    }
}

/// Every one-character text that is neither a letter or digit nor white space ends the
/// typed word as punctuation, whatever the key (other than Enter, Tab and Space, which
/// end it by themselves): the punctuation is that very text.
pub proof fn lemma_punctuation_terminates(vk: u32, c: char, r: Option<TerminatorKind>)
    requires
        vk != VK_RETURN && vk != VK_TAB && vk != VK_SPACE,
        !spec_is_alphanumeric(c),
        !is_ws(c),
        terminates(vk, Some(seq![c]), r),
    ensures
        r matches Some(TerminatorKind::Punctuation(p)) && p@ == seq![c],
{
    assert(seq![c] != seq![' ']) by {
        if seq![c] == seq![' '] {
            assert(seq![c][0] == seq![' '][0]);
        }
    }
}

/// How a key ends the typed word, if it does (see `terminates`).
pub fn classify_terminator(vk: u32, text: Option<&str>) -> (r: Option<TerminatorKind>)
    ensures
        terminates(vk, text.deep_view(), r),
{
    if vk == VK_RETURN {
        return Some(TerminatorKind::Enter);
    }
    if vk == VK_TAB {
        return Some(TerminatorKind::Tab);
    }
    if vk == VK_SPACE {
        return Some(TerminatorKind::Space);
    }
    match text {
        None => None,
        Some(t) => {
            let cs = chars_of(t);
            if cs.len() == 1 {
                let ch = cs[0];
                if ch == ' ' {
                    assert(t@ =~= seq![' ']);
                    return Some(TerminatorKind::Space);
                }
                assert(t@ != seq![' ']) by {
                    if t@ == seq![' '] {
                        assert(t@[0] == ' ');
                    }
                }
                if !is_alphanumeric(ch) && !is_whitespace(ch) {
                    return Some(TerminatorKind::Punctuation(t.to_string()));
                }
                None
            } else {
                assert(t@ != seq![' ']) by {
                    if t@ == seq![' '] {
                        assert(t@.len() == 1);
                    }
                }
                None
            }
        },
    }
}

/// Page Up, Page Down, End, Home, the arrows, Insert, Delete and the context-menu key.
pub open spec fn navigation_key(vk: u32) -> bool {
    vk == 0x21 || vk == 0x22 || vk == 0x23 || vk == 0x24 || vk == 0x25 || vk == 0x26 || vk
        == 0x27 || vk == 0x28 || vk == 0x2D || vk == 0x2E || vk == 0x5D
}

/// Whether a key moves the caret or edits away from the typed word.
pub fn is_navigation_key(vk: u32) -> (r: bool)
    ensures
        r == navigation_key(vk),
{
    vk == 0x21 || vk == 0x22 || vk == 0x23 || vk == 0x24 || vk == 0x25 || vk == 0x26 || vk
        == 0x27 || vk == 0x28 || vk == 0x2D || vk == 0x2E || vk == 0x5D
}

/// Shift, Control, Alt and the Windows keys, left, right or either.
pub open spec fn pure_modifier(vk: u32) -> bool {
    vk == VK_SHIFT || vk == VK_CONTROL || vk == VK_MENU || vk == VK_LSHIFT || vk == VK_RSHIFT
        || vk == VK_LCONTROL || vk == VK_RCONTROL || vk == VK_LMENU || vk == VK_RMENU || vk
        == VK_LWIN || vk == VK_RWIN
}

/// Whether a key is a modifier alone.
pub fn is_pure_modifier(vk: u32) -> (r: bool)
    ensures
        r == pure_modifier(vk),
{
    vk == VK_SHIFT || vk == VK_CONTROL || vk == VK_MENU || vk == VK_LSHIFT || vk == VK_RSHIFT
        || vk == VK_LCONTROL || vk == VK_RCONTROL || vk == VK_LMENU || vk == VK_RMENU || vk
        == VK_LWIN || vk == VK_RWIN
}

/// Whether a key event was injected by software (either injection flag is set).
pub fn is_injected(flags: u32) -> (r: bool)
    ensures
        r == (flags & LLKHF_INJECTED != 0 || flags & LLKHF_LOWER_IL_INJECTED != 0),
{
    flags & LLKHF_INJECTED != 0 || flags & LLKHF_LOWER_IL_INJECTED != 0
}

/// A replacement is pasted through the clipboard when it holds a line break, a carriage
/// return or a tab, or more than `MAX_TYPED_CHARS` characters.
pub open spec fn paste_needed(text: Seq<char>) -> bool {
    text.contains('\n') || text.contains('\r') || text.contains('\t') || text.len()
        > MAX_TYPED_CHARS
}

/// Whether a replacement must be pasted rather than typed (see `paste_needed`).
pub fn needs_clipboard_fallback(text: &str) -> (r: bool)
    ensures
        r == paste_needed(text@),
{
    let cs = chars_of(text);
    let mut i: usize = 0;
    while i < cs.len()
        invariant
            i <= cs.len(),
            cs@ == text@,
            forall|j: int| 0 <= j < i ==> cs@[j] != '\n' && cs@[j] != '\r' && cs@[j] != '\t',
        decreases cs.len() - i,
    {
        let c = cs[i];
        if c == '\n' || c == '\r' || c == '\t' {
            assert(text@[i as int] == c);
            return true;
        }
        i += 1;
    }
    cs.len() > MAX_TYPED_CHARS
}

/// The search key of a typed query.
pub fn normalize_query_key(value: &str) -> (r: String)
    ensures
        r@ == search_key(value@),
{
    normalize_search_key(value)
}

/// The last word of a text: what follows its last white space character.
pub open spec fn last_word(s: Seq<char>) -> Seq<char>
    decreases s.len(),
{
    if s.len() == 0 {
        s
    } else if is_ws(s.last()) {
        Seq::empty()
    } else {
        last_word(s.drop_last()).push(s.last())
    }
}

/// The token that suggestions are offered for: the last word of the buffer, once trailing
/// white space is dropped, when it starts with `:` and has at least two clusters.
pub open spec fn suggestion_token(buffer: Seq<char>) -> Option<Seq<char>> {
    let t = trim_end_ws(buffer);
    if t.len() == 0 {
        None
    } else {
        let w = trim_ws(last_word(t));
        if has_prefix(w, ":"@) && spec_graphemes(w).len() >= 2 {
            Some(w)
        } else {
            None
        }
    }
}

proof fn lemma_last_word_split(s: Seq<char>, j: int)
    requires
        0 <= j <= s.len(),
        forall|k: int| j <= k < s.len() ==> !is_ws(#[trigger] s[k]),
    ensures
        last_word(s) == last_word(s.subrange(0, j)) + s.subrange(j, s.len() as int),
    decreases s.len() - j,
{
    if j < s.len() {
        lemma_last_word_split(s, j + 1);
        let a = s.subrange(0, j + 1);
        assert(a.drop_last() =~= s.subrange(0, j));
        assert(a.last() == s[j]);
        assert(last_word(a) == last_word(s.subrange(0, j)).push(s[j]));
        assert(last_word(s.subrange(0, j)).push(s[j]) + s.subrange(j + 1, s.len() as int)
            =~= last_word(s.subrange(0, j)) + s.subrange(j, s.len() as int));
    } else {
        assert(s.subrange(j, s.len() as int) =~= Seq::<char>::empty());
        assert(s.subrange(0, j) =~= s);
        assert(last_word(s) + Seq::<char>::empty() =~= last_word(s));
    }
}

/// The token that suggestions are offered for, if any (see `suggestion_token`).
pub fn active_suggestion_token(buffer: &str) -> (r: Option<String>)
    ensures
        r.deep_view() == suggestion_token(buffer@),
{
    let trimmed = trim_end(buffer);
    let v = chars_of(trimmed.as_str());
    if v.len() == 0 {
        return None;
    }
    let n = v.len();
    let mut j: usize = n;
    while j > 0 && !is_whitespace(v[j - 1])
        invariant
            j <= n,
            n == v@.len(),
            forall|k: int| j <= k < n ==> !is_ws(#[trigger] v@[k]),
        decreases j,
    {
        j -= 1;
    }
    proof {
        lemma_last_word_split(v@, j as int);
        let pre = v@.subrange(0, j as int);
        if j > 0 {
            assert(pre.last() == v@[j - 1]);
            assert(last_word(pre) == Seq::<char>::empty());
        } else {
            assert(pre.len() == 0);
        }
        assert(last_word(v@) =~= v@.subrange(j as int, n as int));
    }
    let word = string_from(&v, j, n);
    let token = trim(word.as_str());
    proof {
        reveal_strlit(":");
    }
    if !starts_with(token.as_str(), ":") {
        return None;
    }
    let g = graphemes_of(token.as_str());
    if g.len() < 2 {
        return None;
    }
    Some(token)
}

/// What the suggestion window shows: the token as typed, its search key, how many
/// clusters to delete when a suggestion is taken, and the suggestions.
pub struct SuggestionRequest {
    pub raw_query: String,
    pub query: String,
    pub delete_graphemes: usize,
    pub suggestions: Vec<TextExpansionSuggestion>,
}

/// Whether a key event comes from the software itself, or arrives while expansions are
/// being typed: the hook lets such an event through untouched.
pub open spec fn ignored_event(flags: u32, suspended: bool) -> bool {
    flags & LLKHF_INJECTED != 0 || flags & LLKHF_LOWER_IL_INJECTED != 0 || suspended
}

/// A key press as the hook sees it.
pub struct KeyEvent {
    /// The virtual-key code.
    pub vk: u32,
    /// The text the key types in the current keyboard state, if any.
    pub text: Option<String>,
    /// The event's flags.
    pub flags: u32,
    /// Whether an expansion is being typed (the hook is suspended).
    pub suspended: bool,
    pub ctrl: bool,
    pub alt: bool,
    pub shift: bool,
    pub win: bool,
}

/// What the hook does after a key press.
pub enum KeyAction {
    /// Let the key through and leave the suggestions as they are.
    Pass,
    /// Let the key through and offer suggestions for the buffer as it now is.
    Refresh,
    /// Let the key through and hide the suggestions.
    Hide,
    /// The key ends a word: see whether an expansion fires (`complete_terminator`).
    Terminated(TerminatorKind),
}

impl ExpansionRuntime {
    /// What a key press does to the typed buffer, and what the hook does next: injected keys, keys while suspended and modifiers alone
    /// pass untouched; Backspace drops the last cluster and refreshes the suggestions;
    /// with Control, Alt or a Windows key held the buffer is cleared; a key that ends a
    /// word is handed on with the buffer as it was; a key that types text appends it and
    /// refreshes (a key that types nothing passes); Escape, navigation keys and any other
    /// key clear the buffer, Shift alone keeps it; both then hide the suggestions.
    pub fn on_key_down(&self, buffer: &mut String, event: &KeyEvent) -> (r: KeyAction)
        ensures
            ignored_event(event.flags, event.suspended) || pure_modifier(event.vk) ==> r
                is Pass && final(buffer)@ == old(buffer)@,
            !ignored_event(event.flags, event.suspended) && !pure_modifier(event.vk) ==> {
                if event.vk == VK_BACK {
                    r is Refresh && final(buffer)@ == drop_last_grapheme(old(buffer)@)
                } else if event.ctrl || event.alt || event.win {
                    r is Hide && final(buffer)@.len() == 0
                } else if exists|t: TerminatorKind|
                    #[trigger] terminates(event.vk, event.text.deep_view(), Some(t)) {
                    r matches KeyAction::Terminated(t) && terminates(
                        event.vk,
                        event.text.deep_view(),
                        Some(t),
                    ) && final(buffer)@ == old(buffer)@
                } else {
                    match event.text {
                        Some(text) => if text@.len() > 0 {
                            r is Refresh && final(buffer)@ == keep_last_graphemes(
                                old(buffer)@ + text@,
                                buffer_limit_for(max_graphemes(self.items())),
                            )
                        } else {
                            r is Pass && final(buffer)@ == old(buffer)@
                        },
                        None => r is Hide && if event.vk != VK_ESCAPE && !navigation_key(
                            event.vk,
                        ) && event.shift {
                            final(buffer)@ == old(buffer)@
                        } else {
                            final(buffer)@.len() == 0
                        },
                    }
                }
            },
    {
        if is_injected(event.flags) || event.suspended {
            return KeyAction::Pass;
        }
        if is_pure_modifier(event.vk) {
            return KeyAction::Pass;
        }
        if event.vk == VK_BACK {
            backspace_buffer(buffer);
            return KeyAction::Refresh;
        }
        if event.ctrl || event.alt || event.win {
            clear_buffer(buffer);
            return KeyAction::Hide;
        }
        let text = match &event.text {
            Some(t) => Some(t.as_str()),
            None => None,
        };
        assert(text.deep_view() == event.text.deep_view());
        match classify_terminator(event.vk, text) {
            Some(t) => {
                return KeyAction::Terminated(t);
            },
            None => {
                assert forall|t: TerminatorKind|
                    !terminates(event.vk, event.text.deep_view(), Some(t)) by {}
            },
        }
        match &event.text {
            Some(t) => {
                if !t.as_str().is_empty() {
                    self.append_text(buffer, t.as_str());
                    return KeyAction::Refresh;
                }
                return KeyAction::Pass;
            },
            None => {},
        }
        if event.vk == VK_ESCAPE {
            clear_buffer(buffer);
        } else if is_navigation_key(event.vk) {
            clear_buffer(buffer);
        } else if event.shift {
        } else {
            clear_buffer(buffer);
        }
        KeyAction::Hide
    }

    /// After a key that ends a word: the match that fires at the end of the buffer, if
    /// any, which clears the buffer; else punctuation is appended to the buffer and any
    /// other terminator clears it.
    pub fn complete_terminator(
        &self,
        buffer: &mut String,
        terminator: &TerminatorKind,
        active_process: &str,
        clipboard_text: &str,
    ) -> (r: Option<ExpansionMatch>)
        ensures
            match r {
                Some(m) => matched(
                    self.items(),
                    old(buffer)@,
                    *terminator,
                    active_process@,
                    clipboard_text@,
                    m,
                ) && final(buffer)@.len() == 0,
                None => nothing_fires(self.items(), old(buffer)@, active_process@) && match terminator {
                    TerminatorKind::Punctuation(p) => final(buffer)@ == keep_last_graphemes(
                        old(buffer)@ + p@,
                        buffer_limit_for(max_graphemes(self.items())),
                    ),
                    _ => final(buffer)@.len() == 0,
                },
            },
    {
        let m = self.evaluate_match(buffer.as_str(), terminator, active_process, clipboard_text);
        match m {
            Some(found) => {
                clear_buffer(buffer);
                Some(found)
            },
            None => {
                match terminator {
                    TerminatorKind::Punctuation(p) => {
                        self.append_text(buffer, p.as_str());
                    },
                    _ => {
                        clear_buffer(buffer);
                    },
                }
                None
            },
        }
    }

    /// What the suggestion window shows for the buffer (`refresh_suggestions`), or `None`
    /// when it is hidden: there is a token (see `suggestion_token`), its search key is not
    /// empty, and some expansion is offered for it.
    pub fn refresh_suggestions(&self, buffer: &str, active_process: &str) -> (r: Option<
        SuggestionRequest,
    >)
        ensures
            match suggestion_token(buffer@) {
                None => r is None,
                Some(raw) => {
                    let q = search_key(raw);
                    let s = suggestions_for(self.items(), search_key(q), SUGGESTION_LIMIT, active_process@);
                    if q.len() == 0 || s.len() == 0 {
                        r is None
                    } else {
                        r matches Some(req) && req.raw_query@ == raw && req.query@ == q
                            && req.delete_graphemes == spec_graphemes(raw).len()
                            && req.suggestions.deep_view() == s
                    }
                },
            },
    {
        let raw = match active_suggestion_token(buffer) {
            Some(t) => t,
            None => {
                return None;
            },
        };
        let query = normalize_query_key(raw.as_str());
        if query.as_str().is_empty() {
            return None;
        }
        let suggestions = self.suggest_matches(query.as_str(), SUGGESTION_LIMIT, active_process);
        if suggestions.len() == 0 {
            return None;
        }
        let g = graphemes_of(raw.as_str());
        Some(
            SuggestionRequest {
                raw_query: raw,
                query,
                delete_graphemes: g.len(),
                suggestions,
            },
        )
    }
}

/// The window the keyboard hook last saw the user type in, where chosen suggestions go.
pub struct HookTarget {
    pub last_target: isize,
}

impl HookTarget {
    /// No window seen yet.
    pub fn new() -> (r: Self)
        ensures
            r.last_target == 0,
    {
        HookTarget { last_target: 0 }
    }

    /// Remembers the foreground window unless there is none or it is a system window, and
    /// returns the window remembered (`current_target_window`).
    pub fn current_target_window(&mut self, foreground: isize, system: bool) -> (r: isize)
        ensures
            final(self).last_target == if foreground != 0 && !system {
                foreground
            } else {
                old(self).last_target
            },
            r == final(self).last_target,
    {
        if foreground != 0 && !system {
            self.last_target = foreground;
        }
        self.last_target
    }
}

/// How an expansion chosen from the suggestions is typed into its window.
pub struct TypingPlan {
    /// The window that receives the text.
    pub target: isize,
    /// How many clusters of the typed token to delete first.
    pub delete_graphemes: usize,
    /// The text to type.
    pub replacement: String,
    /// Whether the text is pasted through the clipboard rather than typed.
    pub paste: bool,
}

impl ExpansionRuntime {
    /// Plans the expansion of a trigger chosen from the suggestions
    /// (`apply_text_expansion_trigger`): an error when no expansion has the trigger's key
    /// or when there is no target window; else the replacement, with variables resolved,
    /// for the window `target`.
    pub fn apply_text_expansion_trigger(
        &self,
        trigger: &str,
        delete_graphemes: usize,
        target: isize,
        clipboard_text: &str,
    ) -> (r: Result<TypingPlan, String>)
        ensures
            match crate::expansion::key_index_from(
                self.items(),
                crate::expansion::name_key(trigger@),
                0,
            ) {
                None => r matches Err(e) && e@ == "No expansion found for trigger "@ + trigger@,
                Some(i) => if target == 0 {
                    r matches Err(e) && e@ == "No active target window available for expansion"@
                } else {
                    r matches Ok(p) && p.target == target && p.delete_graphemes == delete_graphemes
                        && crate::variables::resolves_with_clipboard(
                        self.items()[i].replacement,
                        clipboard_text@,
                        p.replacement@,
                    ) && p.paste == paste_needed(p.replacement@)
                },
            },
    {
        let replacement = match self.resolve_trigger_replacement(trigger, clipboard_text) {
            Some(v) => v,
            None => {
                let mut e = "No expansion found for trigger ".to_string();
                e.append(trigger);
                return Err(e);
            },
        };
        if target == 0 {
            return Err("No active target window available for expansion".to_string());
        }
        let paste = needs_clipboard_fallback(replacement.as_str());
        Ok(TypingPlan { target, delete_graphemes, replacement, paste })
    }
}

} // verus!
