//! Trigger suggestions for a typed prefix, ranked.

use crate::expansion::{
    ExpansionView, app_filter_allows, app_filter_matches, normalize_search_key,
    search_key,
};
use crate::runtime::ExpansionRuntime;
use crate::segment::{graphemes_of, spec_graphemes};
use crate::text::{
    chars_of, has_prefix, push_char, replace, replace_all, starts_with, trim, trim_ws,
};
use vstd::prelude::*;

verus! {

/// A suggested trigger, with its description and a one-line preview of its replacement.
#[derive(Debug)]
pub struct TextExpansionSuggestion {
    pub trigger: String,
    pub description: Option<String>,
    pub replacement_preview: String,
}

pub struct SuggestionView {
    pub trigger: Seq<char>,
    pub description: Option<Seq<char>>,
    pub replacement_preview: Seq<char>,
}

impl DeepView for TextExpansionSuggestion {
    type V = SuggestionView;

    open spec fn deep_view(&self) -> SuggestionView {
        SuggestionView {
            trigger: self.trigger@,
            description: self.description.deep_view(),
            replacement_preview: self.replacement_preview@,
        }
    }
}

/// The most grapheme clusters a preview shows.
pub const PREVIEW_GRAPHEMES: usize = 70;

/// A replacement on one line: line ends become ` ⏎ `, tabs two spaces, the ends trimmed.
pub open spec fn preview_line(v: Seq<char>) -> Seq<char> {
    trim_ws(
        replace_all(
            replace_all(replace_all(v, "\r\n"@, "\n"@), "\n"@, " \u{23ce} "@),
            "\t"@,
            "  "@,
        ),
    )
}

/// The preview of a replacement: its one-line form, cut after 70 grapheme clusters with
/// `…` appended when it is longer.
pub open spec fn preview_text(v: Seq<char>) -> Seq<char> {
    let p = preview_line(v);
    let g = spec_graphemes(p);
    if g.len() > PREVIEW_GRAPHEMES {
        g.take(PREVIEW_GRAPHEMES as int).flatten().push('\u{2026}')
    } else {
        p
    }
}

/// The one-line preview of a replacement.
pub fn preview_replacement(value: &str) -> (r: String)
    ensures
        r@ == preview_text(value@),
{
    proof {
        reveal_strlit("\r\n");
        reveal_strlit("\n");
        reveal_strlit("\t");
    }
    let a = replace(value, "\r\n", "\n");
    let b = replace(a.as_str(), "\n", " \u{23ce} ");
    let c = replace(b.as_str(), "\t", "  ");
    let p = trim(c.as_str());
    let g = graphemes_of(p.as_str());
    let mut out = String::new();
    let mut i: usize = 0;
    let n = if g.len() < PREVIEW_GRAPHEMES {
        g.len()
    } else {
        PREVIEW_GRAPHEMES
    };
    assert(g.deep_view().take(0) =~= Seq::<Seq<char>>::empty());
    while i < n
        invariant
            i <= n <= g.len(),
            out@ == g.deep_view().take(i as int).flatten(),
        decreases n - i,
    {
        out.append(g[i].as_str());
        proof {
            let d = g.deep_view();
            assert(d.take(i + 1) =~= d.take(i as int).push(d[i as int]));
            d.take(i as int).lemma_flatten_push(d[i as int]);
        }
        i += 1;
    }
    if g.len() > PREVIEW_GRAPHEMES {
        push_char(&mut out, '\u{2026}');
    } else {
        assert(g.deep_view().take(g.len() as int) =~= g.deep_view());
    }
    out
}

/// `a` comes before `b` in the order of `String`: lexicographic on characters, which is
/// the byte order of their UTF-8 encodings.
pub open spec fn seq_lt(a: Seq<char>, b: Seq<char>) -> bool
    decreases a.len(),
{
    if a.len() == 0 {
        b.len() > 0
    } else if b.len() == 0 {
        false
    } else if a[0] != b[0] {
        a[0] < b[0]
    } else {
        seq_lt(a.drop_first(), b.drop_first())
    }
}

/// Whether `a` comes before `b` (`String::cmp` is `Less`).
pub fn string_less(a: &str, b: &str) -> (r: bool)
    ensures
        r == seq_lt(a@, b@),
{
    let av = chars_of(a);
    let bv = chars_of(b);
    let mut i: usize = 0;
    assert(av@.skip(0) =~= av@);
    assert(bv@.skip(0) =~= bv@);
    while i < av.len() && i < bv.len() && av[i] == bv[i]
        invariant
            i <= av.len(),
            i <= bv.len(),
            seq_lt(av@, bv@) == seq_lt(av@.skip(i as int), bv@.skip(i as int)),
        decreases av.len() - i,
    {
        assert(av@.skip(i as int).drop_first() =~= av@.skip(i + 1));
        assert(bv@.skip(i as int).drop_first() =~= bv@.skip(i + 1));
        i += 1;
    }
    if i == av.len() {
        i < bv.len()
    } else if i == bv.len() {
        false
    } else {
        av[i] < bv[i]
    }
}

/// A candidate suggestion with its rank: 0 for an exact match of the query, 1 otherwise;
/// then the number of UTF-8 bytes by which the trigger's key is longer than the query.
pub struct RankedView {
    pub bonus: nat,
    pub delta: nat,
    pub suggestion: SuggestionView,
}

/// The number of bytes of a character in UTF-8.
pub open spec fn utf8_width(c: char) -> nat {
    if (c as u32) < 0x80 {
        1
    } else if (c as u32) < 0x800 {
        2
    } else if (c as u32) < 0x10000 {
        3
    } else {
        4
    }
}

/// The number of bytes of a string in UTF-8 (`str::len`).
pub open spec fn utf8_len(s: Seq<char>) -> nat
    decreases s.len(),
{
    if s.len() == 0 {
        0
    } else {
        utf8_len(s.drop_last()) + utf8_width(s.last())
    }
}

/// The number of bytes of a string in UTF-8.
pub fn utf8_length(s: &str) -> (r: u128)
    ensures
        r == utf8_len(s@),
{
    let v = chars_of(s);
    let mut total: u128 = 0;
    let mut i: usize = 0;
    assert(v@.take(0) =~= Seq::<char>::empty());
    while i < v.len()
        invariant
            i <= v.len(),
            total == utf8_len(v@.take(i as int)),
            total <= 4 * i,
        decreases v.len() - i,
    {
        let c = v[i] as u32;
        let w: u128 = if c < 0x80 {
            1
        } else if c < 0x800 {
            2
        } else if c < 0x10000 {
            3
        } else {
            4
        };
        assert(v@.take(i + 1).drop_last() =~= v@.take(i as int));
        total = total + w;
        i += 1;
    }
    assert(v@.take(v.len() as int) =~= v@);
    total
}

/// `x` is offered for the query: enabled, allowed in the active application, and its
/// trigger's search key starts with the query.
pub open spec fn suggestible(x: ExpansionView, query: Seq<char>, active: Seq<char>) -> bool {
    x.enabled && app_filter_allows(x.app_filter, active) && has_prefix(search_key(x.trigger), query)
}

/// The ranked entry of an offered expansion.
pub open spec fn rank_entry(x: ExpansionView, query: Seq<char>) -> RankedView {
    let k = search_key(x.trigger);
    RankedView {
        bonus: if k == query {
            0
        } else {
            1
        },
        delta: if utf8_len(k) > utf8_len(query) {
            (utf8_len(k) - utf8_len(query)) as nat
        } else {
            0
        },
        suggestion: SuggestionView {
            trigger: x.trigger,
            description: x.description,
            replacement_preview: preview_text(x.replacement),
        },
    }
}

/// The offered expansions, ranked, in list order.
pub open spec fn ranked_of(xs: Seq<ExpansionView>, query: Seq<char>, active: Seq<char>) -> Seq<
    RankedView,
>
    decreases xs.len(),
{
    if xs.len() == 0 {
        Seq::empty()
    } else {
        let prev = ranked_of(xs.drop_last(), query, active);
        if suggestible(xs.last(), query, active) {
            prev.push(rank_entry(xs.last(), query))
        } else {
            prev
        }
    }
}

/// The order of suggestions: by bonus, then by extra length, then by trigger.
pub open spec fn ranked_less(a: RankedView, b: RankedView) -> bool {
    a.bonus < b.bonus || (a.bonus == b.bonus && (a.delta < b.delta || (a.delta == b.delta
        && seq_lt(a.suggestion.trigger, b.suggestion.trigger))))
}

/// `x` inserted into the sorted `s` after every entry that does not come after it.
pub open spec fn insert_ranked(s: Seq<RankedView>, x: RankedView) -> Seq<RankedView>
    decreases s.len(),
{
    if s.len() == 0 {
        seq![x]
    } else if ranked_less(x, s.last()) {
        insert_ranked(s.drop_last(), x).push(s.last())
    } else {
        s.push(x)
    }
}

/// The entries in order, equal entries in their original order (a stable sort, as
/// `slice::sort_by`).
pub open spec fn sort_ranked(s: Seq<RankedView>) -> Seq<RankedView>
    decreases s.len(),
{
    if s.len() == 0 {
        Seq::empty()
    } else {
        insert_ranked(sort_ranked(s.drop_last()), s.last())
    }
}

/// Inserting at position `p`, where every later entry comes after `x` and the entry
/// before does not, is what `insert_ranked` does.
proof fn lemma_insert_at(s: Seq<RankedView>, x: RankedView, p: int)
    requires
        0 <= p <= s.len(),
        forall|q: int| p <= q < s.len() ==> ranked_less(x, #[trigger] s[q]),
        p == 0 || !ranked_less(x, s[p - 1]),
    ensures
        insert_ranked(s, x) == s.take(p) + seq![x] + s.skip(p),
    decreases s.len(),
{
    if s.len() == 0 {
        assert(s.take(p) + seq![x] + s.skip(p) =~= seq![x]);
    } else if p < s.len() {
        assert(ranked_less(x, s[s.len() - 1]));
        let d = s.drop_last();
        lemma_insert_at(d, x, p);
        assert(d.take(p) + seq![x] + d.skip(p) + seq![s.last()] =~= s.take(p) + seq![x] + s.skip(p));
    } else {
        assert(s.take(p) + seq![x] + s.skip(p) =~= s.push(x));
    }
}

/// `seq_lt` is irreflexive.
pub proof fn lemma_seq_lt_irreflexive(a: Seq<char>)
    ensures
        !seq_lt(a, a),
    decreases a.len(),
{
    if a.len() > 0 {
        lemma_seq_lt_irreflexive(a.drop_first());
    }
}

/// `seq_lt` is total: two strings are equal or one comes before the other.
pub proof fn lemma_seq_lt_total(a: Seq<char>, b: Seq<char>)
    ensures
        a == b || seq_lt(a, b) || seq_lt(b, a),
    decreases a.len(),
{
    if a.len() > 0 && b.len() > 0 && a[0] == b[0] {
        lemma_seq_lt_total(a.drop_first(), b.drop_first());
        if a.drop_first() == b.drop_first() {
            assert(a =~= seq![a[0]] + a.drop_first());
            assert(b =~= seq![b[0]] + b.drop_first());
        }
    } else if a.len() == 0 && b.len() == 0 {
        assert(a =~= b);
    }
}

/// `seq_lt` is asymmetric.
pub proof fn lemma_seq_lt_asymmetric(a: Seq<char>, b: Seq<char>)
    ensures
        !(seq_lt(a, b) && seq_lt(b, a)),
    decreases a.len(),
{
    if a.len() > 0 && b.len() > 0 && a[0] == b[0] {
        lemma_seq_lt_asymmetric(a.drop_first(), b.drop_first());
    }
}

/// `seq_lt` is transitive.
pub proof fn lemma_seq_lt_transitive(a: Seq<char>, b: Seq<char>, c: Seq<char>)
    requires
        seq_lt(a, b),
        seq_lt(b, c),
    ensures
        seq_lt(a, c),
    decreases a.len(),
{
    if a.len() > 0 && b.len() > 0 && c.len() > 0 && a[0] == b[0] && b[0] == c[0] {
        lemma_seq_lt_transitive(a.drop_first(), b.drop_first(), c.drop_first());
    }
}

/// A list of ranked entries in order: no entry comes before one ahead of it.
pub open spec fn sorted_ranked(t: Seq<RankedView>) -> bool {
    forall|i: int, j: int| 0 <= i < j < t.len() ==> !ranked_less(#[trigger] t[j], #[trigger] t[i])
}

proof fn lemma_ranked_less_asymmetric(a: RankedView, b: RankedView)
    ensures
        !(ranked_less(a, b) && ranked_less(b, a)),
{
    lemma_seq_lt_asymmetric(a.suggestion.trigger, b.suggestion.trigger);
}

/// "Does not come after" is transitive.
proof fn lemma_ranked_not_after(a: RankedView, b: RankedView, c: RankedView)
    requires
        !ranked_less(b, a),
        !ranked_less(c, b),
    ensures
        !ranked_less(c, a),
{
    let (ta, tb, tc) = (a.suggestion.trigger, b.suggestion.trigger, c.suggestion.trigger);
    lemma_seq_lt_total(ta, tb);
    lemma_seq_lt_total(tb, tc);
    lemma_seq_lt_total(ta, tc);
    if seq_lt(tc, ta) && seq_lt(ta, tb) {
        lemma_seq_lt_transitive(tc, ta, tb);
    }
    if seq_lt(tb, tc) && seq_lt(tc, ta) {
        lemma_seq_lt_transitive(tb, tc, ta);
    }
    lemma_seq_lt_asymmetric(ta, tb);
    lemma_seq_lt_asymmetric(tb, tc);
    lemma_seq_lt_asymmetric(ta, tc);
}

/// Inserting into an ordered list keeps it ordered, and adds the one entry.
proof fn lemma_insert_ranked_sorted(s: Seq<RankedView>, x: RankedView)
    requires
        sorted_ranked(s),
    ensures
        sorted_ranked(insert_ranked(s, x)),
        insert_ranked(s, x).to_multiset() == s.to_multiset().insert(x),
    decreases s.len(),
{
    broadcast use vstd::seq_lib::group_to_multiset_ensures;

    if s.len() == 0 {
        assert(seq![x] =~= Seq::<RankedView>::empty().push(x));
        assert(s =~= Seq::<RankedView>::empty());
    } else {
        let d = s.drop_last();
        let l = s.last();
        assert(s =~= d.push(l));
        if ranked_less(x, l) {
            assert(sorted_ranked(d)) by {
                assert forall|i: int, j: int| 0 <= i < j < d.len() implies !ranked_less(
                    #[trigger] d[j],
                    #[trigger] d[i],
                ) by {
                    assert(d[i] == s[i] && d[j] == s[j]);
                }
            }
            lemma_insert_ranked_sorted(d, x);
            let m = insert_ranked(d, x);
            let r = m.push(l);
            assert(r.to_multiset() == s.to_multiset().insert(x)) by {
                assert(r.to_multiset() =~= m.to_multiset().insert(l));
                assert(s.to_multiset() =~= d.to_multiset().insert(l));
            }
            assert forall|i: int, j: int| 0 <= i < j < r.len() implies !ranked_less(
                #[trigger] r[j],
                #[trigger] r[i],
            ) by {
                if j == r.len() - 1 {
                    let e = m[i];
                    assert(m.contains(e));
                    assert(m.to_multiset().count(e) > 0);
                    if e == x {
                        lemma_ranked_less_asymmetric(x, l);
                    } else {
                        assert(d.to_multiset().count(e) > 0);
                        assert(d.contains(e));
                        let k = choose|k: int| 0 <= k < d.len() && d[k] == e;
                        assert(s[k] == e && s[s.len() - 1] == l);
                    }
                } else {
                    assert(r[i] == m[i] && r[j] == m[j]);
                }
            }
        } else {
            let r = s.push(x);
            assert forall|i: int, j: int| 0 <= i < j < r.len() implies !ranked_less(
                #[trigger] r[j],
                #[trigger] r[i],
            ) by {
                if j == r.len() - 1 {
                    if i < s.len() - 1 {
                        assert(!ranked_less(s[s.len() - 1], s[i]));
                        lemma_ranked_not_after(s[i], l, x);
                    }
                } else {
                    assert(r[i] == s[i] && r[j] == s[j]);
                }
            }
        }
    }
}

/// The sorted entries are in order and are the entries sorted.
proof fn lemma_sort_ranked(s: Seq<RankedView>)
    ensures
        sorted_ranked(sort_ranked(s)),
        sort_ranked(s).to_multiset() == s.to_multiset(),
    decreases s.len(),
{
    broadcast use vstd::seq_lib::group_to_multiset_ensures;

    if s.len() == 0 {
        assert(sort_ranked(s) =~= s);
    } else {
        lemma_sort_ranked(s.drop_last());
        lemma_insert_ranked_sorted(sort_ranked(s.drop_last()), s.last());
        assert(s =~= s.drop_last().push(s.last()));
    }
}

/// Every ranked entry is the entry of an offered expansion.
proof fn lemma_ranked_of_members(xs: Seq<ExpansionView>, query: Seq<char>, active: Seq<char>, e: RankedView)
    requires
        ranked_of(xs, query, active).contains(e),
    ensures
        exists|j: int|
            0 <= j < xs.len() && suggestible(xs[j], query, active) && e == rank_entry(
                #[trigger] xs[j],
                query,
            ),
    decreases xs.len(),
{
    let prev = ranked_of(xs.drop_last(), query, active);
    if suggestible(xs.last(), query, active) && e == rank_entry(xs.last(), query) {
        assert(xs[xs.len() - 1] == xs.last());
    } else {
        if suggestible(xs.last(), query, active) {
            let k = choose|k: int| 0 <= k < prev.push(rank_entry(xs.last(), query)).len() && prev.push(
                rank_entry(xs.last(), query),
            )[k] == e;
            assert(prev[k] == e);
        }
        assert(prev.contains(e));
        lemma_ranked_of_members(xs.drop_last(), query, active, e);
        let j = choose|j: int|
            0 <= j < xs.drop_last().len() && suggestible(xs.drop_last()[j], query, active) && e
                == rank_entry(#[trigger] xs.drop_last()[j], query);
        assert(xs[j] == xs.drop_last()[j]);
    }
}

/// The suggestions for a query come in rank order (an exact match first, then the
/// shortest extension of the query, then by trigger), at most `max(limit, 1)` of them,
/// each the suggestion of an expansion that is offered for the query.
pub proof fn lemma_suggestions_ranked(
    items: Seq<ExpansionView>,
    query: Seq<char>,
    limit: usize,
    active: Seq<char>,
)
    requires
        query.len() > 0,
    ensures
        sorted_ranked(sort_ranked(ranked_of(items, query, active))),
        suggestions_for(items, query, limit, active).len() <= if limit > 1 {
            limit as int
        } else {
            1
        },
        forall|i: int|
            0 <= i < suggestions_for(items, query, limit, active).len() ==> (#[trigger] suggestions_for(
                items,
                query,
                limit,
                active,
            )[i]) == sort_ranked(ranked_of(items, query, active))[i].suggestion,
        forall|i: int|
            0 <= i < sort_ranked(ranked_of(items, query, active)).len() ==> exists|j: int|
                0 <= j < items.len() && suggestible(items[j], query, active) && #[trigger] sort_ranked(
                    ranked_of(items, query, active),
                )[i] == rank_entry(items[j], query),
{
    broadcast use vstd::seq_lib::group_to_multiset_ensures;

    let r = ranked_of(items, query, active);
    let t = sort_ranked(r);
    lemma_sort_ranked(r);
    assert forall|i: int| 0 <= i < t.len() implies exists|j: int|
        0 <= j < items.len() && suggestible(items[j], query, active) && #[trigger] t[i]
            == rank_entry(items[j], query) by {
        let e = t[i];
        assert(t.contains(e));
        assert(t.to_multiset().count(e) > 0);
        assert(r.to_multiset().count(e) > 0);
        lemma_ranked_of_members(items, query, active, e);
    }
}

/// Only enabled expansions are suggested: each suggestion carries the trigger of an
/// enabled expansion that its application filter allows and whose search key starts with
/// the query.
pub proof fn lemma_suggestions_from_enabled(
    items: Seq<ExpansionView>,
    query: Seq<char>,
    limit: usize,
    active: Seq<char>,
)
    ensures
        forall|i: int|
            0 <= i < suggestions_for(items, query, limit, active).len() ==> exists|j: int|
                0 <= j < items.len() && items[j].enabled && app_filter_allows(items[j].app_filter, active)
                    && has_prefix(search_key(items[j].trigger), query) && #[trigger] suggestions_for(
                    items,
                    query,
                    limit,
                    active,
                )[i].trigger == items[j].trigger,
{
    if query.len() > 0 {
        lemma_suggestions_ranked(items, query, limit, active);
        let t = sort_ranked(ranked_of(items, query, active));
        assert forall|i: int|
            0 <= i < suggestions_for(items, query, limit, active).len() implies exists|j: int|
                0 <= j < items.len() && items[j].enabled && app_filter_allows(items[j].app_filter, active)
                    && has_prefix(search_key(items[j].trigger), query) && #[trigger] suggestions_for(
                    items,
                    query,
                    limit,
                    active,
                )[i].trigger == items[j].trigger by {
            assert(suggestions_for(items, query, limit, active)[i] == t[i].suggestion);
            let j = choose|j: int|
                0 <= j < items.len() && suggestible(items[j], query, active) && #[trigger] t[i]
                    == rank_entry(items[j], query);
            assert(t[i].suggestion.trigger == items[j].trigger);
        }
    }
}

/// A ranked entry with its suggestion.
struct Ranked {
    bonus: usize,
    delta: u128,
    suggestion: TextExpansionSuggestion,
}

impl Ranked {
    spec fn view(self) -> RankedView {
        RankedView {
            bonus: self.bonus as nat,
            delta: self.delta as nat,
            suggestion: self.suggestion.deep_view(),
        }
    }
}

spec fn views(v: Seq<Ranked>) -> Seq<RankedView> {
    Seq::new(v.len(), |i: int| v[i].view())
}

fn less(a: &Ranked, b: &Ranked) -> (r: bool)
    ensures
        r == ranked_less(a.view(), b.view()),
{
    a.bonus < b.bonus || (a.bonus == b.bonus && (a.delta < b.delta || (a.delta == b.delta
        && string_less(a.suggestion.trigger.as_str(), b.suggestion.trigger.as_str()))))
}

/// Inserts `x` into the sorted `v` as `insert_ranked` does.
fn insert_sorted(v: &mut Vec<Ranked>, x: Ranked)
    ensures
        views(final(v)@) == insert_ranked(views(old(v)@), x.view()),
{
    let ghost s = views(v@);
    let mut p = v.len();
    while p > 0 && less(&x, &v[p - 1])
        invariant
            p <= v.len(),
            s == views(v@),
            forall|q: int| p <= q < s.len() ==> ranked_less(x.view(), #[trigger] s[q]),
        decreases p,
    {
        p -= 1;
    }
    proof {
        lemma_insert_at(s, x.view(), p as int);
    }
    let ghost xv = x.view();
    v.insert(p, x);
    assert(views(v@) =~= s.take(p as int) + seq![xv] + s.skip(p as int));
}

/// The suggestions for a search key: the offered expansions sorted by rank, at most
/// `max(limit, 1)` of them; none for an empty key.
pub open spec fn suggestions_for(
    items: Seq<ExpansionView>,
    query: Seq<char>,
    limit: usize,
    active: Seq<char>,
) -> Seq<SuggestionView> {
    if query.len() == 0 {
        Seq::empty()
    } else {
        let sorted = sort_ranked(ranked_of(items, query, active));
        let cap = if limit > 1 {
            limit as int
        } else {
            1
        };
        let n = if sorted.len() < cap {
            sorted.len() as int
        } else {
            cap
        };
        sorted.take(n).map_values(|e: RankedView| e.suggestion)
    }
}

impl ExpansionRuntime {
    /// The suggestions for a typed prefix (`suggest_matches`): the offered expansions
    /// (enabled, allowed in the active application, with a trigger whose search key starts
    /// with the prefix's), sorted by rank, at most `max(limit, 1)` of them; none for a
    /// blank query.
    pub fn suggest_matches(&self, prefix: &str, limit: usize, active_process: &str) -> (r: Vec<
        TextExpansionSuggestion,
    >)
        ensures
            r.deep_view() == suggestions_for(self.items(), search_key(prefix@), limit, active_process@),
    {
        let query = normalize_search_key(prefix);
        if query.as_str().is_empty() {
            let none: Vec<TextExpansionSuggestion> = Vec::new();
            assert(none.deep_view() =~= Seq::<SuggestionView>::empty());
            return none;
        }
        let items = self.current_snapshot();
        let ghost xs = items.deep_view();
        let mut ranked: Vec<Ranked> = Vec::new();
        let mut i: usize = 0;
        assert(xs.take(0) =~= Seq::<ExpansionView>::empty());
        while i < items.len()
            invariant
                i <= items.len(),
                xs == items.deep_view(),
                query@ == search_key(prefix@),
                views(ranked@) == sort_ranked(ranked_of(xs.take(i as int), query@, active_process@)),
            decreases items.len() - i,
        {
            let item = &items[i];
            let ghost x = xs[i as int];
            assert(x == item.deep_view());
            let ghost pre = xs.take(i + 1);
            assert(pre.drop_last() =~= xs.take(i as int));
            assert(pre.last() == x);
            if item.enabled && app_filter_matches(item, active_process) {
                let trigger_key = normalize_search_key(item.trigger.as_str());
                if starts_with(trigger_key.as_str(), query.as_str()) {
                    let kl = utf8_length(trigger_key.as_str());
                    let ql = utf8_length(query.as_str());
                    let prefix_delta: u128 = if kl > ql {
                        kl - ql
                    } else {
                        0
                    };
                    let exact_bonus: usize = if trigger_key == query {
                        0
                    } else {
                        1
                    };
                    let description = match &item.description {
                        Some(d) => Some(d.clone()),
                        None => None,
                    };
                    let entry = Ranked {
                        bonus: exact_bonus,
                        delta: prefix_delta,
                        suggestion: TextExpansionSuggestion {
                            trigger: item.trigger.clone(),
                            description,
                            replacement_preview: preview_replacement(item.replacement.as_str()),
                        },
                    };
                    assert(entry.view() == rank_entry(x, query@));
                    let ghost prevr = ranked_of(xs.take(i as int), query@, active_process@);
                    assert(prevr.push(entry.view()).drop_last() =~= prevr);
                    assert(ranked_of(pre, query@, active_process@) == prevr.push(entry.view()));
                    insert_sorted(&mut ranked, entry);
                }
            }
            i += 1;
        }
        assert(xs.take(items.len() as int) =~= xs);
        assert(xs == self.items());
        let cap = if limit > 1 {
            limit
        } else {
            1
        };
        let mut out: Vec<TextExpansionSuggestion> = Vec::new();
        let ghost sorted = views(ranked@);
        let n = if ranked.len() < cap {
            ranked.len()
        } else {
            cap
        };
        let mut rest = ranked;
        rest.truncate(n);
        let mut k: usize = 0;
        while k < n
            invariant
                k <= n,
                n <= sorted.len(),
                rest@.len() == n,
                forall|j: int| 0 <= j < n ==> views(rest@)[j] == sorted[j],
                out.len() == k,
                forall|j: int| 0 <= j < k ==> (#[trigger] out.deep_view()[j]) == sorted[j].suggestion,
            decreases n - k,
        {
            let s = &rest[k].suggestion;
            let description = match &s.description {
                Some(d) => Some(d.clone()),
                None => None,
            };
            let copy = TextExpansionSuggestion {
                trigger: s.trigger.clone(),
                description,
                replacement_preview: s.replacement_preview.clone(),
            };
            assert(views(rest@)[k as int] == rest@[k as int].view());
            let ghost before = out.deep_view();
            let ghost cv = copy.deep_view();
            out.push(copy);
            assert(out.deep_view() =~= before.push(cv));
            k += 1;
        }
        assert(out.deep_view() =~= suggestions_for(
            self.items(),
            search_key(prefix@),
            limit,
            active_process@,
        ));
        out
    }
}

} // verus!
