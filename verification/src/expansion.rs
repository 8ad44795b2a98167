//! Text expansions: the record, its normal form, and the rules that keep a list of them
//! free of clashing triggers.

use crate::sources::{is_uuid_text, new_uuid_text, now_rfc3339, rfc3339_text};
use crate::text::{
    replace, replace_all, spec_to_lowercase, to_lowercase, trim, trim_start_char, trim_start_matches, trim_ws,
};
use vstd::prelude::*;

verus! {

broadcast use vstd::std_specs::vec::group_vec_axioms;

/// One text expansion: typing `trigger` (then a terminator) replaces it by `replacement`.
#[derive(Debug)]
pub struct TextExpansion {
    pub id: String,
    pub trigger: String,
    pub replacement: String,
    pub description: Option<String>,
    pub enabled: bool,
    pub case_sensitive: bool,
    pub word_boundary: bool,
    pub app_filter: Vec<String>,
    pub created_at: String,
    pub updated_at: String,
}

/// The value of a `TextExpansion`, its strings taken as character sequences.
pub struct ExpansionView {
    pub id: Seq<char>,
    pub trigger: Seq<char>,
    pub replacement: Seq<char>,
    pub description: Option<Seq<char>>,
    pub enabled: bool,
    pub case_sensitive: bool,
    pub word_boundary: bool,
    pub app_filter: Seq<Seq<char>>,
    pub created_at: Seq<char>,
    pub updated_at: Seq<char>,
}

impl DeepView for TextExpansion {
    type V = ExpansionView;

    open spec fn deep_view(&self) -> ExpansionView {
        ExpansionView {
            id: self.id@,
            trigger: self.trigger@,
            replacement: self.replacement@,
            description: self.description.deep_view(),
            enabled: self.enabled,
            case_sensitive: self.case_sensitive,
            word_boundary: self.word_boundary,
            app_filter: self.app_filter.deep_view(),
            created_at: self.created_at@,
            updated_at: self.updated_at@,
        }
    }
}

impl View for TextExpansion {
    type V = ExpansionView;

    open spec fn view(&self) -> ExpansionView {
        self.deep_view()
    }
}

/// The key under which names compare: trimmed, then lower-cased.
pub open spec fn name_key(s: Seq<char>) -> Seq<char> {
    spec_to_lowercase(trim_ws(s))
}

/// The key under which suggestions are searched: trimmed, leading `:` removed, lower-cased.
pub open spec fn search_key(s: Seq<char>) -> Seq<char> {
    spec_to_lowercase(trim_start_char(trim_ws(s), ':'))
}

/// `trigger.trim().to_lowercase()`: the key under which triggers clash.
pub fn normalize_trigger_key(trigger: &str) -> (r: String)
    ensures
        r@ == name_key(trigger@),
{
    let t = trim(trigger);
    to_lowercase(t.as_str())
}

/// `name.trim().to_lowercase()`: process names compare under this key.
pub fn normalize_process_name(name: &str) -> (r: String)
    ensures
        r@ == name_key(name@),
{
    let t = trim(name);
    to_lowercase(t.as_str())
}

/// The search key of a typed query or a trigger.
pub fn normalize_search_key(value: &str) -> (r: String)
    ensures
        r@ == search_key(value@),
{
    let t = trim(value);
    let s = trim_start_matches(t.as_str(), ':');
    to_lowercase(s.as_str())
}

/// The normal form of an application filter: each entry keyed, empty keys dropped, and
/// each key kept only where it first occurs.
pub open spec fn normalized_filters(fs: Seq<Seq<char>>) -> Seq<Seq<char>>
    decreases fs.len(),
{
    if fs.len() == 0 {
        Seq::empty()
    } else {
        let prev = normalized_filters(fs.drop_last());
        let k = name_key(fs.last());
        if k.len() == 0 || prev.contains(k) {
            prev
        } else {
            prev.push(k)
        }
    }
}

/// A normalized filter names no process twice and holds no empty name.
pub proof fn lemma_normalized_filters_distinct(fs: Seq<Seq<char>>)
    ensures
        normalized_filters(fs).no_duplicates(),
        forall|i: int|
            0 <= i < normalized_filters(fs).len() ==> (#[trigger] normalized_filters(fs)[i]).len()
                > 0,
    decreases fs.len(),
{
    if fs.len() > 0 {
        lemma_normalized_filters_distinct(fs.drop_last());
        let prev = normalized_filters(fs.drop_last());
        let k = name_key(fs.last());
        if !(k.len() == 0 || prev.contains(k)) {
            let next = prev.push(k);
            assert forall|i: int, j: int| 0 <= i < j < next.len() implies next[i] != next[j] by {
                if j == prev.len() {
                    assert(prev[i] == next[i]);
                }
            }
        }
    }
}

/// Whether `v` holds a string with the characters of `s`.
pub fn contains_string(v: &Vec<String>, s: &String) -> (r: bool)
    ensures
        r == v.deep_view().contains(s@),
{
    let mut i: usize = 0;
    while i < v.len()
        invariant
            i <= v.len(),
            forall|j: int| 0 <= j < i ==> v.deep_view()[j] != s@,
        decreases v.len() - i,
    {
        if v[i] == *s {
            assert(v.deep_view()[i as int] == s@);
            return true;
        }
        i += 1;
    }
    false
}

/// Normalizes an application filter (lower-cased, trimmed, without blanks or repeats).
pub fn normalize_app_filter(filters: &Vec<String>) -> (r: Vec<String>)
    ensures
        r.deep_view() == normalized_filters(filters.deep_view()),
{
    let mut out: Vec<String> = Vec::new();
    let mut i: usize = 0;
    while i < filters.len()
        invariant
            i <= filters.len(),
            out.deep_view() == normalized_filters(filters.deep_view().take(i as int)),
        decreases filters.len() - i,
    {
        let ghost fs = filters.deep_view().take(i + 1);
        assert(fs.drop_last() =~= filters.deep_view().take(i as int));
        assert(fs.last() == filters[i as int]@);
        let normalized = normalize_process_name(filters[i].as_str());
        if normalized.as_str().is_empty() {
            assert(normalized@.len() == 0);
        } else if contains_string(&out, &normalized) {
        } else {
            let ghost before = out.deep_view();
            out.push(normalized);
            assert(out.deep_view() =~= before.push(name_key(fs.last())));
        }
        i += 1;
    }
    assert(filters.deep_view().take(filters.len() as int) =~= filters.deep_view());
    out
}

/// Whether an expansion may fire in the active application: it names no application,
/// or it names this one.
pub open spec fn app_filter_allows(filter: Seq<Seq<char>>, active_process: Seq<char>) -> bool {
    filter.len() == 0 || filter.contains(name_key(active_process))
}

/// Whether the expansion's application filter admits the active process.
pub fn app_filter_matches(expansion: &TextExpansion, active_process: &str) -> (r: bool)
    ensures
        r == app_filter_allows(expansion.app_filter.deep_view(), active_process@),
{
    if expansion.app_filter.len() == 0 {
        return true;
    }
    let active = normalize_process_name(active_process);
    contains_string(&expansion.app_filter, &active)
}

/// Item `i` breaks the rules of a list: its trigger is blank, or an earlier item has the
/// same trigger key.
pub open spec fn item_invalid(xs: Seq<ExpansionView>, i: int) -> bool {
    trim_ws(xs[i].trigger).len() == 0 || exists|j: int|
        0 <= j < i && #[trigger] name_key(xs[j].trigger) == name_key(xs[i].trigger)
}

/// No item of the list breaks the rules: no blank trigger, no two triggers with one key.
pub open spec fn items_valid(xs: Seq<ExpansionView>) -> bool {
    forall|i: int| 0 <= i < xs.len() ==> !item_invalid(xs, i)
}

/// The message for the first item that breaks the rules.
pub open spec fn invalid_item_message(x: ExpansionView) -> Seq<char> {
    if trim_ws(x.trigger).len() == 0 {
        "Trigger cannot be empty"@
    } else {
        "Duplicate trigger detected: "@ + trim_ws(x.trigger)
    }
}

/// `xs` are refused with the message `e`: some item fails, and `e` names the first that
/// does.
pub open spec fn refused(xs: Seq<ExpansionView>, e: Seq<char>) -> bool {
    &&& !items_valid(xs)
    &&& exists|i: int|
        0 <= i < xs.len() && #[trigger] item_invalid(xs, i) && (forall|j: int|
            0 <= j < i ==> !item_invalid(xs, j)) && e == invalid_item_message(xs[i])
}

/// Checks that no trigger is blank and that no two triggers share a key; the error names
/// the first item that fails.
pub fn validate_items(items: &[TextExpansion]) -> (r: Result<(), String>)
    ensures
        r is Ok <==> items_valid(items.deep_view()),
        r matches Err(e) ==> refused(items.deep_view(), e@),
{
    let ghost xs = items.deep_view();
    let mut seen: Vec<String> = Vec::new();
    let mut i: usize = 0;
    while i < items.len()
        invariant
            i <= items.len(),
            xs == items.deep_view(),
            seen.len() == i,
            forall|j: int| 0 <= j < i ==> #[trigger] seen.deep_view()[j] == name_key(xs[j].trigger),
            forall|j: int| 0 <= j < i ==> !item_invalid(xs, j),
        decreases items.len() - i,
    {
        let trigger = trim(items[i].trigger.as_str());
        assert(xs[i as int].trigger == items@[i as int].trigger@);
        if trigger.as_str().is_empty() {
            assert(trigger@.len() == 0);
            assert(item_invalid(xs, i as int));
            let mut msg = String::new();
            msg.append("Trigger cannot be empty");
            assert(msg@ =~= invalid_item_message(xs[i as int]));
            return Err(msg);
        }
        let key = to_lowercase(trigger.as_str());
        if contains_string(&seen, &key) {
            let ghost j = choose|j: int| 0 <= j < seen.len() && seen.deep_view()[j] == key@;
            assert(name_key(xs[j].trigger) == name_key(xs[i as int].trigger));
            assert(item_invalid(xs, i as int));
            let mut msg = String::new();
            msg.append("Duplicate trigger detected: ");
            msg.append(trigger.as_str());
            assert(trigger@.len() != 0);
            assert(msg@ =~= invalid_item_message(xs[i as int]));
            return Err(msg);
        }
        assert(!item_invalid(xs, i as int)) by {
            if exists|j: int| 0 <= j < i && #[trigger] name_key(xs[j].trigger) == name_key(xs[i as int].trigger) {
                let j = choose|j: int| 0 <= j < i && #[trigger] name_key(xs[j].trigger) == name_key(xs[i as int].trigger);
                assert(seen.deep_view()[j] == key@);
            }
        }
        let ghost before = seen.deep_view();
        seen.push(key);
        assert(seen.deep_view() =~= before.push(name_key(xs[i as int].trigger)));
        i += 1;
    }
    Ok(())
}

/// One entry of the table that maps old-style Unity triggers to their current form.
pub struct LegacyTrigger {
    pub raw: String,
    pub trigger: String,
    pub replacement: String,
}

pub struct LegacyView {
    pub raw: Seq<char>,
    pub trigger: Seq<char>,
    pub replacement: Seq<char>,
}

impl DeepView for LegacyTrigger {
    type V = LegacyView;

    open spec fn deep_view(&self) -> LegacyView {
        LegacyView { raw: self.raw@, trigger: self.trigger@, replacement: self.replacement@ }
    }
}

/// The old-style Unity triggers of the default catalog, each with its current trigger
/// and the replacement that identifies it; the first entry for a raw trigger counts.
pub struct LegacyTable {
    pub entries: Vec<LegacyTrigger>,
}

/// The first entry at or after `k` whose raw trigger is `key`.
pub open spec fn legacy_index_from(es: Seq<LegacyView>, key: Seq<char>, k: int) -> Option<int>
    decreases es.len() - k,
{
    if 0 <= k < es.len() {
        if es[k].raw == key {
            Some(k)
        } else {
            legacy_index_from(es, key, k + 1)
        }
    } else {
        None
    }
}

/// `"\r\n"` line ends turned into `"\n"`.
pub open spec fn unix_newlines(s: Seq<char>) -> Seq<char> {
    replace_all(s, "\r\n"@, "\n"@)
}

/// The current form of a trigger: the trimmed trigger, unless the table lists it as an
/// old-style Unity trigger with this very replacement, in which case its current form.
pub open spec fn canonical_trigger(es: Seq<LegacyView>, trigger: Seq<char>, replacement: Seq<
    char,
>) -> Seq<char> {
    let t = trim_ws(trigger);
    match legacy_index_from(es, t, 0) {
        Some(k) => if es[k].replacement == unix_newlines(replacement) {
            es[k].trigger
        } else {
            t
        },
        None => t,
    }
}

/// `"\r\n"` line ends turned into `"\n"`.
pub fn to_unix_newlines(s: &str) -> (r: String)
    ensures
        r@ == unix_newlines(s@),
{
    proof {
        reveal_strlit("\r\n");
    }
    replace(s, "\r\n", "\n")
}

/// Maps an old-style Unity trigger to its current form (see `canonical_trigger`).
pub fn canonicalize_legacy_text_expansion_trigger(
    table: &LegacyTable,
    trigger: &str,
    replacement: &str,
) -> (r: String)
    ensures
        r@ == canonical_trigger(table.entries.deep_view(), trigger@, replacement@),
{
    let trimmed = trim(trigger);
    let normalized_replacement = to_unix_newlines(replacement);
    let ghost es = table.entries.deep_view();
    let mut k: usize = 0;
    while k < table.entries.len()
        invariant
            k <= table.entries.len(),
            es == table.entries.deep_view(),
            trimmed@ == trim_ws(trigger@),
            normalized_replacement@ == unix_newlines(replacement@),
            legacy_index_from(es, trimmed@, 0) == legacy_index_from(es, trimmed@, k as int),
        decreases table.entries.len() - k,
    {
        if table.entries[k].raw == trimmed {
            assert(es[k as int].raw == trimmed@);
            assert(legacy_index_from(es, trimmed@, 0) == Some(k as int));
            if table.entries[k].replacement == normalized_replacement {
                return table.entries[k].trigger.clone();
            }
            return trimmed;
        }
        k += 1;
    }
    trimmed
}

/// A description trimmed, and dropped when blank.
pub open spec fn normalized_description(d: Option<Seq<char>>) -> Option<Seq<char>> {
    match d {
        Some(d) => if trim_ws(d).len() == 0 {
            None
        } else {
            Some(trim_ws(d))
        },
        None => None,
    }
}

/// The normal form of an expansion, given the identifier to use for a blank one and the
/// time to stamp a blank creation time with.
pub open spec fn normalized_spec(
    x: ExpansionView,
    es: Seq<LegacyView>,
    fresh_id: Seq<char>,
    now: Seq<char>,
) -> ExpansionView {
    let created = if trim_ws(x.created_at).len() == 0 {
        now
    } else {
        x.created_at
    };
    ExpansionView {
        id: if trim_ws(x.id).len() == 0 {
            fresh_id
        } else {
            x.id
        },
        trigger: canonical_trigger(es, x.trigger, x.replacement),
        replacement: unix_newlines(x.replacement),
        description: normalized_description(x.description),
        enabled: x.enabled,
        case_sensitive: x.case_sensitive,
        word_boundary: x.word_boundary,
        app_filter: normalized_filters(x.app_filter),
        created_at: created,
        updated_at: if trim_ws(x.updated_at).len() == 0 {
            created
        } else {
            x.updated_at
        },
    }
}

/// `n` is a normal form of `x`: with a fresh random UUID for a blank identifier and the
/// current time, as RFC 3339 text, for a blank creation time.
pub open spec fn normalizes(x: ExpansionView, n: ExpansionView, es: Seq<LegacyView>) -> bool {
    exists|id: Seq<char>, now: Seq<char>|
        is_uuid_text(id) && rfc3339_text(now) && n == normalized_spec(x, es, id, now)
}

/// A copy of an expansion.
pub fn copy_expansion(x: &TextExpansion) -> (r: TextExpansion)
    ensures
        r.deep_view() == x.deep_view(),
{
    let description = match &x.description {
        Some(d) => Some(d.clone()),
        None => None,
    };
    TextExpansion {
        id: x.id.clone(),
        trigger: x.trigger.clone(),
        replacement: x.replacement.clone(),
        description,
        enabled: x.enabled,
        case_sensitive: x.case_sensitive,
        word_boundary: x.word_boundary,
        app_filter: x.app_filter.clone(),
        created_at: x.created_at.clone(),
        updated_at: x.updated_at.clone(),
    }
}

/// Brings an expansion into normal form with the given identifier and time.
pub fn normalize_text_expansion_with(
    item: TextExpansion,
    table: &LegacyTable,
    fresh_id: String,
    now: String,
) -> (r: TextExpansion)
    ensures
        r.deep_view() == normalized_spec(item.deep_view(), table.entries.deep_view(), fresh_id@, now@),
{
    let id_blank = trim(item.id.as_str()).as_str().is_empty();
    let id = if id_blank {
        fresh_id
    } else {
        item.id
    };
    let trigger = canonicalize_legacy_text_expansion_trigger(
        table,
        item.trigger.as_str(),
        item.replacement.as_str(),
    );
    let replacement = to_unix_newlines(item.replacement.as_str());
    let description = match &item.description {
        Some(d) => {
            let t = trim(d.as_str());
            if t.as_str().is_empty() {
                None
            } else {
                Some(t)
            }
        },
        None => None,
    };
    let app_filter = normalize_app_filter(&item.app_filter);
    let created_at = if trim(item.created_at.as_str()).as_str().is_empty() {
        now
    } else {
        item.created_at
    };
    let updated_at = if trim(item.updated_at.as_str()).as_str().is_empty() {
        created_at.clone()
    } else {
        item.updated_at
    };
    TextExpansion {
        id,
        trigger,
        replacement,
        description,
        enabled: item.enabled,
        case_sensitive: item.case_sensitive,
        word_boundary: item.word_boundary,
        app_filter,
        created_at,
        updated_at,
    }
}

/// Brings an expansion into normal form: trimmed trigger in its current form, Unix line
/// ends, trimmed description, normalized application filter, a fresh UUID for a blank
/// identifier and the current time for a blank creation time.
pub fn normalize_text_expansion(item: TextExpansion, table: &LegacyTable) -> (r: TextExpansion)
    ensures
        normalizes(item.deep_view(), r.deep_view(), table.entries.deep_view()),
{
    let fresh_id = new_uuid_text();
    let now = now_rfc3339();
    normalize_text_expansion_with(item, table, fresh_id, now)
}

/// The first item at or after `i` whose trigger has the key `k`.
pub open spec fn key_index_from(xs: Seq<ExpansionView>, k: Seq<char>, i: int) -> Option<int>
    decreases xs.len() - i,
{
    if 0 <= i < xs.len() {
        if name_key(xs[i].trigger) == k {
            Some(i)
        } else {
            key_index_from(xs, k, i + 1)
        }
    } else {
        None
    }
}

pub proof fn lemma_key_index_from(xs: Seq<ExpansionView>, k: Seq<char>, i: int)
    requires
        0 <= i,
    ensures
        match key_index_from(xs, k, i) {
            Some(j) => i <= j < xs.len() && name_key(xs[j].trigger) == k,
            None => forall|j: int| i <= j < xs.len() ==> name_key(xs[j].trigger) != k,
        },
    decreases xs.len() - i,
{
    if i < xs.len() && name_key(xs[i].trigger) != k {
        lemma_key_index_from(xs, k, i + 1);
    }
}

/// `n` takes the place of the first item whose trigger has the key `k`, or joins the end.
pub open spec fn upsert(xs: Seq<ExpansionView>, k: Seq<char>, n: ExpansionView) -> Seq<
    ExpansionView,
> {
    match key_index_from(xs, k, 0) {
        Some(i) => xs.update(i, n),
        None => xs.push(n),
    }
}

/// `base` with the items `ns` put in, one after the other, each under its key in `keys`.
pub open spec fn upsert_all(base: Seq<ExpansionView>, keys: Seq<Seq<char>>, ns: Seq<ExpansionView>) -> Seq<
    ExpansionView,
>
    decreases ns.len(),
{
    if ns.len() == 0 {
        base
    } else {
        upsert(upsert_all(base, keys.drop_last(), ns.drop_last()), keys.last(), ns.last())
    }
}

/// The trigger keys of a list.
pub open spec fn trigger_keys(xs: Seq<ExpansionView>) -> Seq<Seq<char>> {
    Seq::new(xs.len(), |i: int| name_key(xs[i].trigger))
}

/// The position of the first item whose trigger has the key `key`.
pub fn position_of_key(xs: &Vec<TextExpansion>, key: &String) -> (r: Option<usize>)
    ensures
        match r {
            Some(i) => key_index_from(xs.deep_view(), key@, 0) == Some(i as int) && i < xs.len(),
            None => key_index_from(xs.deep_view(), key@, 0) is None,
        },
{
    proof {
        lemma_key_index_from(xs.deep_view(), key@, 0);
    }
    let mut i: usize = 0;
    while i < xs.len()
        invariant
            i <= xs.len(),
            key_index_from(xs.deep_view(), key@, 0) == key_index_from(xs.deep_view(), key@, i as int),
        decreases xs.len() - i,
    {
        let k = normalize_trigger_key(xs[i].trigger.as_str());
        if k == *key {
            return Some(i);
        }
        i += 1;
    }
    None
}

/// Puts `n` in place of the first item with the key `key`, or at the end.
fn upsert_item(xs: &mut Vec<TextExpansion>, key: &String, n: TextExpansion)
    ensures
        final(xs).deep_view() == upsert(old(xs).deep_view(), key@, n.deep_view()),
{
    let ghost before = xs.deep_view();
    let ghost nv = n.deep_view();
    match position_of_key(xs, key) {
        Some(i) => {
            xs.set(i, n);
            assert(xs.deep_view() =~= before.update(i as int, nv));
        },
        None => {
            xs.push(n);
            assert(xs.deep_view() =~= before.push(nv));
        },
    }
}

/// `ns` are the items of `xs`, each normalized.
pub open spec fn all_normalized(xs: Seq<ExpansionView>, ns: Seq<ExpansionView>, es: Seq<LegacyView>) -> bool {
    &&& ns.len() == xs.len()
    &&& forall|i: int| 0 <= i < ns.len() ==> normalizes(xs[i], #[trigger] ns[i], es)
}

/// `out` is `base` with the items of `incoming` merged in: each incoming item, normalized,
/// takes the place of the first item with its trigger's key, or joins the end.
pub open spec fn merged(base: Seq<ExpansionView>, incoming: Seq<ExpansionView>, es: Seq<LegacyView>, out: Seq<
    ExpansionView,
>) -> bool {
    exists|ns: Seq<ExpansionView>|
        #[trigger] all_normalized(incoming, ns, es) && out == upsert_all(
            base,
            trigger_keys(incoming),
            ns,
        )
}

/// `out` is `items` normalized, keeping for each trigger key the item that comes last, in
/// the place where that key first occurs.
pub open spec fn deduped(items: Seq<ExpansionView>, es: Seq<LegacyView>, out: Seq<ExpansionView>) -> bool {
    exists|ns: Seq<ExpansionView>|
        #[trigger] all_normalized(items, ns, es) && out == upsert_all(Seq::empty(), trigger_keys(ns), ns)
}

/// Merges `incoming` into `base`: each incoming item, normalized, replaces the first base
/// item whose trigger has the incoming trigger's key, or is appended.
pub fn merge_items(base: Vec<TextExpansion>, incoming: Vec<TextExpansion>, table: &LegacyTable) -> (r: Vec<
    TextExpansion,
>)
    ensures
        merged(base.deep_view(), incoming.deep_view(), table.entries.deep_view(), r.deep_view()),
{
    let mut out = base;
    let ghost b = out.deep_view();
    let ghost xs = incoming.deep_view();
    let ghost mut ns: Seq<ExpansionView> = Seq::empty();
    let mut i: usize = 0;
    while i < incoming.len()
        invariant
            i <= incoming.len(),
            xs == incoming.deep_view(),
            ns.len() == i,
            forall|j: int| 0 <= j < i ==> normalizes(xs[j], #[trigger] ns[j], table.entries.deep_view()),
            out.deep_view() == upsert_all(b, trigger_keys(xs).take(i as int), ns),
        decreases incoming.len() - i,
    {
        let key = normalize_trigger_key(incoming[i].trigger.as_str());
        let n = normalize_text_expansion(copy_expansion(&incoming[i]), table);
        let ghost nv = n.deep_view();
        upsert_item(&mut out, &key, n);
        proof {
            let keys = trigger_keys(xs).take(i + 1);
            assert(keys.drop_last() =~= trigger_keys(xs).take(i as int));
            assert(keys.last() == key@);
            assert(ns.push(nv).drop_last() =~= ns);
            ns = ns.push(nv);
        }
        i += 1;
    }
    assert(trigger_keys(xs).take(incoming.len() as int) =~= trigger_keys(xs));
    assert(all_normalized(xs, ns, table.entries.deep_view()));
    out
}

/// Normalizes each item and keeps, for each trigger key, the item that comes last, in the
/// place where that key first occurs.
pub fn dedupe_items(items: Vec<TextExpansion>, table: &LegacyTable) -> (r: Vec<TextExpansion>)
    ensures
        deduped(items.deep_view(), table.entries.deep_view(), r.deep_view()),
{
    let mut out: Vec<TextExpansion> = Vec::new();
    let ghost xs = items.deep_view();
    let ghost mut ns: Seq<ExpansionView> = Seq::empty();
    let mut i: usize = 0;
    assert(out.deep_view() =~= Seq::<ExpansionView>::empty());
    while i < items.len()
        invariant
            i <= items.len(),
            xs == items.deep_view(),
            ns.len() == i,
            forall|j: int| 0 <= j < i ==> normalizes(xs[j], #[trigger] ns[j], table.entries.deep_view()),
            out.deep_view() == upsert_all(Seq::empty(), trigger_keys(ns), ns),
        decreases items.len() - i,
    {
        let n = normalize_text_expansion(copy_expansion(&items[i]), table);
        let key = normalize_trigger_key(n.trigger.as_str());
        let ghost nv = n.deep_view();
        upsert_item(&mut out, &key, n);
        proof {
            let ns2 = ns.push(nv);
            assert(ns2.drop_last() =~= ns);
            assert(trigger_keys(ns2).drop_last() =~= trigger_keys(ns));
            assert(trigger_keys(ns2).last() == key@);
            ns = ns2;
        }
        i += 1;
    }
    assert(all_normalized(xs, ns, table.entries.deep_view()));
    out
}

/// After `dedupe_items`, no two items share a trigger key: putting items in under their
/// own keys keeps the keys of a list distinct.
pub proof fn lemma_dedupe_keys_distinct(ns: Seq<ExpansionView>)
    ensures
        trigger_keys(upsert_all(Seq::empty(), trigger_keys(ns), ns)).no_duplicates(),
    decreases ns.len(),
{
    if ns.len() > 0 {
        let keys = trigger_keys(ns);
        assert(keys.drop_last() =~= trigger_keys(ns.drop_last()));
        lemma_dedupe_keys_distinct(ns.drop_last());
        let prev = upsert_all(Seq::empty(), keys.drop_last(), ns.drop_last());
        let n = ns.last();
        let k = keys.last();
        assert(k == name_key(n.trigger));
        lemma_key_index_from(prev, k, 0);
        let next = upsert(prev, k, n);
        let pk = trigger_keys(prev);
        let nk = trigger_keys(next);
        match key_index_from(prev, k, 0) {
            Some(j) => {
                assert(nk =~= pk);
            },
            None => {
                assert(nk =~= pk.push(k));
                assert forall|a: int, b: int| 0 <= a < b < nk.len() implies nk[a] != nk[b] by {
                    if b == pk.len() {
                        assert(nk[a] == name_key(prev[a].trigger));
                    } else {
                        assert(nk[a] == pk[a] && nk[b] == pk[b]);
                    }
                }
            },
        }
    }
}

/// Deduplicated expansions never share a trigger key.
pub proof fn lemma_deduped_keys_distinct(items: Seq<ExpansionView>, es: Seq<LegacyView>, out: Seq<
    ExpansionView,
>)
    requires
        deduped(items, es, out),
    ensures
        trigger_keys(out).no_duplicates(),
{
    let ns = choose|ns: Seq<ExpansionView>|
        #[trigger] all_normalized(items, ns, es) && out == upsert_all(Seq::empty(), trigger_keys(ns), ns);
    lemma_dedupe_keys_distinct(ns);
}

} // verus!
