//! The live set of text expansions: the typed-text buffer, trigger matching and
//! replacement lookup.

use crate::expansion::{
    ExpansionView, LegacyTable, LegacyView, TextExpansion, app_filter_allows, app_filter_matches,
    copy_expansion, items_valid, name_key, normalize_text_expansion, normalize_trigger_key,
    normalizes, validate_items, all_normalized, refused,
};
use crate::segment::{
    graphemes_of, keep_last_graphemes, spec_graphemes, strip_front_graphemes,
    trigger_grapheme_count,
};
use crate::text::{
    chars_of, ends_with, has_suffix, is_alphanumeric, spec_is_alphanumeric, spec_to_lowercase,
    to_lowercase, trim, trim_ws,
};
use crate::variables::{resolve_dynamic_variables, resolves_with_clipboard};
use vstd::prelude::*;

verus! {

broadcast use vstd::std_specs::vec::group_vec_axioms;

/// How the typed word was ended.
pub enum TerminatorKind {
    Space,
    Enter,
    Tab,
    Punctuation(String),
}

/// The text typed after the replacement: a space for a space, the punctuation itself for
/// punctuation, nothing for Enter and Tab.
pub open spec fn terminator_suffix(t: TerminatorKind) -> Option<Seq<char>> {
    match t {
        TerminatorKind::Space => Some(seq![' ']),
        TerminatorKind::Punctuation(s) => Some(s@),
        _ => None,
    }
}

/// The text to type after the replacement.
pub fn suffix_for_terminator(terminator: &TerminatorKind) -> (r: Option<String>)
    ensures
        r.deep_view() == terminator_suffix(*terminator),
{
    match terminator {
        TerminatorKind::Space => {
            let mut s = String::new();
            crate::text::push_char(&mut s, ' ');
            Some(s)
        },
        TerminatorKind::Punctuation(text) => Some(text.clone()),
        _ => None,
    }
}

/// A matched trigger: the text to delete and what to type instead.
pub struct ExpansionMatch {
    pub trigger: String,
    pub replacement: String,
    pub delete_graphemes: usize,
    pub suffix: Option<String>,
}

/// The word-boundary rule: a trigger may fire only when the grapheme cluster before it,
/// if any, does not end in a letter, digit or `_`.
pub open spec fn boundary_ok(buffer: Seq<char>, trigger: Seq<char>, word_boundary: bool) -> bool {
    let bg = spec_graphemes(buffer);
    let tg = spec_graphemes(trigger).len();
    if !word_boundary {
        true
    } else if tg == 0 {
        false
    } else if bg.len() < tg {
        false
    } else if bg.len() == tg {
        true
    } else {
        let b = bg[bg.len() - tg - 1];
        b.len() == 0 || (!spec_is_alphanumeric(b.last()) && b.last() != '_')
    }
}

/// Whether the word-boundary rule lets `trigger` fire at the end of `buffer`.
pub fn boundary_allows(buffer: &str, trigger: &str, word_boundary: bool) -> (r: bool)
    ensures
        r == boundary_ok(buffer@, trigger@, word_boundary),
{
    if !word_boundary {
        return true;
    }
    let bg = graphemes_of(buffer);
    let tg = trigger_grapheme_count(trigger);
    if tg == 0 {
        return false;
    }
    if bg.len() < tg {
        return false;
    }
    if bg.len() == tg {
        return true;
    }
    let boundary = chars_of(bg[bg.len() - tg - 1].as_str());
    assert(boundary@ == spec_graphemes(buffer@)[bg.len() - tg - 1]);
    if boundary.len() == 0 {
        return true;
    }
    let ch = boundary[boundary.len() - 1];
    !is_alphanumeric(ch) && ch != '_'
}

/// A string as compared under the expansion's case rule.
pub open spec fn cased(s: Seq<char>, case_sensitive: bool) -> Seq<char> {
    if case_sensitive {
        s
    } else {
        spec_to_lowercase(s)
    }
}

/// Whether `x` fires at the end of `buffer` in the application `active`: enabled, with a
/// non-blank trigger that ends the buffer (under its case rule), allowed by the
/// word-boundary rule and by its application filter.
pub open spec fn fires(x: ExpansionView, buffer: Seq<char>, active: Seq<char>) -> bool {
    let t = trim_ws(x.trigger);
    &&& x.enabled
    &&& t.len() > 0
    &&& has_suffix(cased(buffer, x.case_sensitive), cased(t, x.case_sensitive))
    &&& boundary_ok(buffer, t, x.word_boundary)
    &&& app_filter_allows(x.app_filter, active)
}

/// The length of a trigger in grapheme clusters, once trimmed.
pub open spec fn match_len(x: ExpansionView) -> nat {
    spec_graphemes(trim_ws(x.trigger)).len()
}

/// Item `i` is the best among the first `n` that fire: it fires, no firing item is
/// longer, and no later firing item is as long.
pub open spec fn best_among(xs: Seq<ExpansionView>, n: int, i: int, buffer: Seq<char>, active: Seq<
    char,
>) -> bool {
    &&& 0 <= i < n
    &&& fires(xs[i], buffer, active)
    &&& forall|j: int|
        0 <= j < n && fires(#[trigger] xs[j], buffer, active) ==> match_len(xs[j]) <= match_len(xs[i])
            && (j > i ==> match_len(xs[j]) < match_len(xs[i]))
}

/// How many clusters the typed buffer keeps: four times the clusters of the longest
/// trigger, plus sixteen (each step saturating at `usize::MAX`), but no less than 256.
pub open spec fn buffer_limit_for(max_graphemes: nat) -> nat {
    let a = if max_graphemes * 4 > usize::MAX {
        usize::MAX as nat
    } else {
        max_graphemes * 4
    };
    let b = if a + 16 > usize::MAX {
        usize::MAX as nat
    } else {
        a + 16
    };
    if b > 256 {
        b
    } else {
        256
    }
}

/// The largest number of grapheme clusters in a trigger of the list.
pub open spec fn max_graphemes(xs: Seq<ExpansionView>) -> nat
    decreases xs.len(),
{
    if xs.len() == 0 {
        0
    } else {
        let prev = max_graphemes(xs.drop_last());
        let g = spec_graphemes(xs.last().trigger).len();
        if g > prev {
            g
        } else {
            prev
        }
    }
}

/// `m` is the match that ends `buffer`: the best expansion that fires there, its trigger as
/// typed, its replacement with variables resolved (the clipboard variable to `clipboard`),
/// the number of its trigger's clusters to delete, and the terminator's suffix.
pub open spec fn matched(
    items: Seq<ExpansionView>,
    buffer: Seq<char>,
    terminator: TerminatorKind,
    active: Seq<char>,
    clipboard: Seq<char>,
    m: ExpansionMatch,
) -> bool {
    exists|i: int|
        #[trigger] best_among(items, items.len() as int, i, buffer, active) && m.trigger@
            == items[i].trigger && m.delete_graphemes == spec_graphemes(items[i].trigger).len()
            && m.suffix.deep_view() == terminator_suffix(terminator) && resolves_with_clipboard(
            items[i].replacement,
            clipboard,
            m.replacement@,
        )
}

/// No expansion fires at the end of `buffer` in the active application.
pub open spec fn nothing_fires(items: Seq<ExpansionView>, buffer: Seq<char>, active: Seq<char>) -> bool {
    forall|j: int| 0 <= j < items.len() ==> !fires(#[trigger] items[j], buffer, active)
}

/// A trigger typed alone fires: when the buffer holds nothing but an enabled expansion's
/// (trimmed, non-empty) trigger, in an application its filter allows, the expansion
/// fires, whatever its case and word-boundary rules; nothing precedes the trigger, so the
/// word-boundary rule has nothing to object to.
pub proof fn lemma_trigger_alone_fires(x: ExpansionView, active: Seq<char>)
    requires
        x.enabled,
        trim_ws(x.trigger) == x.trigger,
        x.trigger.len() > 0,
        spec_graphemes(x.trigger).len() > 0,
        app_filter_allows(x.app_filter, active),
    ensures
        fires(x, x.trigger, active),
{
    let t = cased(x.trigger, x.case_sensitive);
    assert(t.subrange(t.len() - t.len(), t.len() as int) =~= t);
}

/// In a runtime that holds one such expansion, typing its trigger alone and ending the
/// word matches that expansion and no other: the match is the item itself.
pub proof fn lemma_lone_trigger_is_matched(x: ExpansionView, active: Seq<char>)
    requires
        x.enabled,
        trim_ws(x.trigger) == x.trigger,
        x.trigger.len() > 0,
        spec_graphemes(x.trigger).len() > 0,
        app_filter_allows(x.app_filter, active),
    ensures
        !nothing_fires(seq![x], x.trigger, active),
        forall|i: int| best_among(seq![x], 1, i, x.trigger, active) <==> i == 0,
{
    lemma_trigger_alone_fires(x, active);
    assert(seq![x][0] == x);
}

/// In any set of expansions that holds such an expansion, a buffer that is nothing but its
/// trigger never leaves the matcher empty-handed: something fires, so the match that ends
/// the word is found.
pub proof fn lemma_typed_trigger_finds_a_match(items: Seq<ExpansionView>, k: int, active: Seq<char>)
    requires
        0 <= k < items.len(),
        items[k].enabled,
        trim_ws(items[k].trigger) == items[k].trigger,
        items[k].trigger.len() > 0,
        spec_graphemes(items[k].trigger).len() > 0,
        app_filter_allows(items[k].app_filter, active),
    ensures
        !nothing_fires(items, items[k].trigger, active),
{
    lemma_trigger_alone_fires(items[k], active);
}

/// The expansions in force, with what the buffer and the matcher need of them.
pub struct ExpansionRuntime {
    items: Vec<TextExpansion>,
    max_trigger_graphemes: usize,
    legacy: LegacyTable,
}

impl ExpansionRuntime {
    #[verifier::type_invariant]
    spec fn consistent(self) -> bool {
        self.max_trigger_graphemes == max_graphemes(self.items.deep_view())
    }

    /// The expansions in force.
    pub closed spec fn items(self) -> Seq<ExpansionView> {
        self.items.deep_view()
    }

    /// The table of old-style Unity triggers that normalization maps.
    pub closed spec fn legacy(self) -> Seq<LegacyView> {
        self.legacy.entries.deep_view()
    }

    /// The largest grapheme count over the triggers of `items`.
    fn compute_max(items: &Vec<TextExpansion>) -> (r: usize)
        ensures
            r == max_graphemes(items.deep_view()),
    {
        let mut m: usize = 0;
        let mut i: usize = 0;
        assert(items.deep_view().take(0) =~= Seq::<ExpansionView>::empty());
        while i < items.len()
            invariant
                i <= items.len(),
                m == max_graphemes(items.deep_view().take(i as int)),
            decreases items.len() - i,
        {
            let g = trigger_grapheme_count(items[i].trigger.as_str());
            let ghost xs = items.deep_view().take(i + 1);
            assert(xs.drop_last() =~= items.deep_view().take(i as int));
            assert(xs.last().trigger == items[i as int].trigger@);
            if g > m {
                m = g;
            }
            i += 1;
        }
        assert(items.deep_view().take(items.len() as int) =~= items.deep_view());
        m
    }

    /// A runtime holding `items`, with the given table of old-style Unity triggers.
    pub fn new(items: Vec<TextExpansion>, legacy: LegacyTable) -> (r: Self)
        ensures
            r.items() == items.deep_view(),
            r.legacy() == legacy.entries.deep_view(),
    {
        let m = Self::compute_max(&items);
        ExpansionRuntime { items, max_trigger_graphemes: m, legacy }
    }

    /// Puts `items` in force.
    pub fn set_items(&mut self, items: Vec<TextExpansion>)
        ensures
            final(self).items() == items.deep_view(),
            final(self).legacy() == old(self).legacy(),
    {
        let m = Self::compute_max(&items);
        proof {
            use_type_invariant(&*self);
        }
        let mut legacy = LegacyTable { entries: Vec::new() };
        std::mem::swap(&mut legacy, &mut self.legacy);
        *self = ExpansionRuntime { items, max_trigger_graphemes: m, legacy };
    }

    /// The table of old-style Unity triggers.
    pub fn legacy_table(&self) -> (r: &LegacyTable)
        ensures
            r.entries.deep_view() == self.legacy(),
    {
        &self.legacy
    }

    /// A copy of the expansions in force.
    pub fn current_snapshot(&self) -> (r: Vec<TextExpansion>)
        ensures
            r.deep_view() == self.items(),
    {
        let mut out: Vec<TextExpansion> = Vec::new();
        let mut i: usize = 0;
        while i < self.items.len()
            invariant
                i <= self.items.len(),
                out.deep_view() == self.items.deep_view().take(i as int),
            decreases self.items.len() - i,
        {
            let ghost before = out.deep_view();
            let c = copy_expansion(&self.items[i]);
            let ghost cv = c.deep_view();
            assert(cv == self.items.deep_view()[i as int]);
            out.push(c);
            assert(out.deep_view() =~= before.push(cv));
            assert(before.push(cv) =~= self.items.deep_view().take(i + 1));
            i += 1;
        }
        assert(self.items.deep_view().take(self.items.len() as int) =~= self.items.deep_view());
        out
    }

    /// The largest number of grapheme clusters in a trigger in force.
    pub fn max_trigger_graphemes(&self) -> (r: usize)
        ensures
            r == max_graphemes(self.items()),
    {
        proof {
            use_type_invariant(self);
        }
        self.max_trigger_graphemes
    }

    /// How many grapheme clusters of typed text the buffer keeps.
    pub fn buffer_limit(&self) -> (r: usize)
        ensures
            r == buffer_limit_for(max_graphemes(self.items())),
    {
        let m = self.max_trigger_graphemes();
        let a = if m > usize::MAX / 4 {
            usize::MAX
        } else {
            m * 4
        };
        let b = a.saturating_add(16);
        if b > 256 {
            b
        } else {
            256
        }
    }

    /// Appends typed text to the buffer and keeps only its last `buffer_limit` clusters.
    pub fn append_text(&self, buffer: &mut String, text: &str)
        ensures
            final(buffer)@ == keep_last_graphemes(
                old(buffer)@ + text@,
                buffer_limit_for(max_graphemes(self.items())),
            ),
            has_suffix(old(buffer)@ + text@, final(buffer)@),
    {
        buffer.append(text);
        let limit = self.buffer_limit();
        strip_front_graphemes(buffer, limit);
    }

    /// The replacement of the first expansion whose trigger has the key of `trigger`,
    /// with its variables resolved (the clipboard variable to `clipboard_text`).
    pub fn resolve_trigger_replacement(&self, trigger: &str, clipboard_text: &str) -> (r: Option<
        String,
    >)
        ensures
            match crate::expansion::key_index_from(self.items(), name_key(trigger@), 0) {
                Some(i) => r matches Some(v) && resolves_with_clipboard(
                    self.items()[i].replacement,
                    clipboard_text@,
                    v@,
                ),
                None => r is None,
            },
    {
        let key = normalize_trigger_key(trigger);
        match crate::expansion::position_of_key(&self.items, &key) {
            Some(i) => {
                assert(self.items()[i as int].replacement == self.items[i as int].replacement@);
                Some(resolve_dynamic_variables(self.items[i].replacement.as_str(), clipboard_text))
            },
            None => None,
        }
    }

    /// Normalizes each item with this runtime's table (`items.iter().cloned().map(normalize)`).
    fn normalize_all(&self, items: &[TextExpansion]) -> (r: Vec<TextExpansion>)
        ensures
            r.len() == items.len(),
            forall|i: int|
                0 <= i < items.len() ==> normalizes(
                    items.deep_view()[i],
                    #[trigger] r.deep_view()[i],
                    self.legacy(),
                ),
    {
        let mut out: Vec<TextExpansion> = Vec::new();
        let mut i: usize = 0;
        while i < items.len()
            invariant
                i <= items.len(),
                out.len() == i,
                forall|j: int|
                    0 <= j < i ==> normalizes(
                        items.deep_view()[j],
                        #[trigger] out.deep_view()[j],
                        self.legacy(),
                    ),
            decreases items.len() - i,
        {
            let n = normalize_text_expansion(copy_expansion(&items[i]), &self.legacy);
            let ghost before = out.deep_view();
            out.push(n);
            assert(out.deep_view() =~= before.push(out.deep_view()[i as int]));
            i += 1;
        }
        out
    }

    /// Checks the items (see `validate_items`), normalizes them and puts them in force
    /// (`save_text_expansions`, without the file that the application writes).  On an
    /// error nothing changes.
    pub fn save_text_expansions(&mut self, items: &[TextExpansion]) -> (r: Result<
        Vec<TextExpansion>,
        String,
    >)
        ensures
            final(self).legacy() == old(self).legacy(),
            match r {
                Ok(v) => items_valid(items.deep_view()) && all_normalized(
                    items.deep_view(),
                    v.deep_view(),
                    old(self).legacy(),
                ) && final(self).items() == v.deep_view(),
                Err(e) => refused(items.deep_view(), e@) && final(self).items() == old(self).items(),
            },
    {
        match validate_items(items) {
            Err(e) => Err(e),
            Ok(()) => {
                let normalized = self.normalize_all(items);
                let ghost nv = normalized.deep_view();
                self.set_items(normalized);
                let snapshot = self.current_snapshot();
                assert(snapshot.deep_view() == nv);
                assert(snapshot.deep_view().len() == snapshot.len());
                Ok(snapshot)
            },
        }
    }

    /// Checks and normalizes the items and puts them in force (`replace_runtime`, without
    /// the file that the application writes).  On an error nothing changes.
    pub fn replace_runtime(&mut self, items: Vec<TextExpansion>) -> (r: Result<
        Vec<TextExpansion>,
        String,
    >)
        ensures
            final(self).legacy() == old(self).legacy(),
            match r {
                Ok(v) => items_valid(items.deep_view()) && all_normalized(
                    items.deep_view(),
                    v.deep_view(),
                    old(self).legacy(),
                ) && final(self).items() == v.deep_view(),
                Err(e) => refused(items.deep_view(), e@) && final(self).items() == old(self).items(),
            },
    {
        let slice = items.as_slice();
        assert(slice.deep_view() =~= items.deep_view());
        self.save_text_expansions(slice)
    }

    /// Whether the expansion fires at the end of the buffer in the active application.
    fn item_fires(x: &TextExpansion, buffer: &str, active_process: &str) -> (r: Option<usize>)
        ensures
            match r {
                Some(len) => fires(x.deep_view(), buffer@, active_process@) && len == match_len(
                    x.deep_view(),
                ),
                None => !fires(x.deep_view(), buffer@, active_process@),
            },
    {
        if !x.enabled {
            return None;
        }
        let trigger = trim(x.trigger.as_str());
        if trigger.as_str().is_empty() {
            return None;
        }
        let (trigger_key, buffer_key) = if x.case_sensitive {
            (trigger.clone(), buffer.to_string())
        } else {
            (to_lowercase(trigger.as_str()), to_lowercase(buffer))
        };
        if !ends_with(buffer_key.as_str(), trigger_key.as_str()) {
            return None;
        }
        if !boundary_allows(buffer, trigger.as_str(), x.word_boundary) {
            return None;
        }
        if !app_filter_matches(x, active_process) {
            return None;
        }
        Some(trigger_grapheme_count(trigger.as_str()))
    }

    /// The expansion that fires at the end of `buffer`: of those that fire, the one with
    /// the longest trigger (in grapheme clusters), the last of them on a tie.
    pub fn best_match(&self, buffer: &str, active_process: &str) -> (r: Option<usize>)
        ensures
            match r {
                Some(i) => best_among(self.items(), self.items().len() as int, i as int, buffer@, active_process@),
                None => forall|j: int|
                    0 <= j < self.items().len() ==> !fires(#[trigger] self.items()[j], buffer@, active_process@),
            },
    {
        let ghost xs = self.items.deep_view();
        let mut best: Option<usize> = None;
        let mut best_len: usize = 0;
        let mut k: usize = 0;
        while k < self.items.len()
            invariant
                k <= self.items.len(),
                xs == self.items.deep_view(),
                xs == self.items(),
                match best {
                    Some(b) => best_among(xs, k as int, b as int, buffer@, active_process@) && best_len
                        == match_len(xs[b as int]),
                    None => best_len == 0 && forall|j: int|
                        0 <= j < k ==> !fires(#[trigger] xs[j], buffer@, active_process@),
                },
            decreases self.items.len() - k,
        {
            match Self::item_fires(&self.items[k], buffer, active_process) {
                Some(len) => {
                    if len >= best_len {
                        best = Some(k);
                        best_len = len;
                    }
                },
                None => {},
            }
            k += 1;
        }
        best
    }

    /// The match that ends `buffer`, if an expansion fires there (`evaluate_match`): the
    /// best trigger as typed, its replacement with variables resolved, the number of
    /// clusters to delete and the terminator's suffix.
    pub fn evaluate_match(
        &self,
        buffer: &str,
        terminator: &TerminatorKind,
        active_process: &str,
        clipboard_text: &str,
    ) -> (r: Option<ExpansionMatch>)
        ensures
            match r {
                Some(m) => matched(self.items(), buffer@, *terminator, active_process@, clipboard_text@, m),
                None => nothing_fires(self.items(), buffer@, active_process@),
            },
    {
        match self.best_match(buffer, active_process) {
            None => None,
            Some(i) => {
                let candidate = &self.items[i];
                assert(self.items()[i as int] == candidate.deep_view());
                let replacement = resolve_dynamic_variables(candidate.replacement.as_str(), clipboard_text);
                Some(ExpansionMatch {
                    trigger: candidate.trigger.clone(),
                    replacement,
                    delete_graphemes: trigger_grapheme_count(candidate.trigger.as_str()),
                    suffix: suffix_for_terminator(terminator),
                })
            },
        }
    }
}

} // verus!
