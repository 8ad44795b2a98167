//! What a new installation starts with: the items of the packs chosen at onboarding, the
//! triggers carried over from snippets, the table of old-style Unity triggers, and the
//! catalog offered in a locale.

use crate::catalog::{SectionView, catalog_sections};
use crate::expansion::{
    ExpansionView, LegacyTable, LegacyTrigger, LegacyView, TextExpansion, all_normalized,
    copy_expansion, dedupe_items, deduped, items_valid, key_index_from, lemma_key_index_from,
    merge_items, merged, name_key, normalize_trigger_key, refused, trigger_keys,
};
use crate::runtime::ExpansionRuntime;
use crate::sources::{LAST_MILLIS_OF_9999, is_uuid_text, rfc3339_near, rfc3339_text, local_rfc3339_from_millis, new_uuid_text, now_rfc3339};
use crate::store::{Settings, Snippet, SnippetView};
use crate::packs::{
    CatalogView, PackView, TextExpansionCatalog, TextExpansionPack, build_default_catalog,
    default_catalog_ok, entry_item, section_meta, section_pack_ok, same_but_id,
};
use crate::text::{
    has_prefix, spec_to_lowercase, starts_with, to_lowercase, trim, trim_start_char,
    trim_start_matches, trim_ws,
};
use vstd::prelude::*;

verus! {

broadcast use vstd::std_specs::vec::group_vec_axioms;

/// The first pack at or after `k` whose identifier is `id`.
pub open spec fn pack_index_from(packs: Seq<PackView>, id: Seq<char>, k: int) -> Option<int>
    decreases packs.len() - k,
{
    if 0 <= k < packs.len() {
        if packs[k].id == id {
            Some(k)
        } else {
            pack_index_from(packs, id, k + 1)
        }
    } else {
        None
    }
}

/// `acc` with `x` at the end, unless an item of `acc` already has `x`'s trigger key.
pub open spec fn add_unseen(acc: Seq<ExpansionView>, x: ExpansionView) -> Seq<ExpansionView> {
    if key_index_from(acc, name_key(x.trigger), 0) is Some {
        acc
    } else {
        acc.push(x)
    }
}

/// `acc` with the items of `xs` added one after the other by `add_unseen`.
pub open spec fn add_all_unseen(acc: Seq<ExpansionView>, xs: Seq<ExpansionView>) -> Seq<ExpansionView>
    decreases xs.len(),
{
    if xs.len() == 0 {
        acc
    } else {
        add_unseen(add_all_unseen(acc, xs.drop_last()), xs.last())
    }
}

/// The items of the packs named by `ids`, in the order of `ids` and of each pack, where
/// an identifier names the first pack that has it and an item whose trigger key was
/// already taken is left out.
pub open spec fn selected_items(packs: Seq<PackView>, ids: Seq<Seq<char>>) -> Seq<ExpansionView>
    decreases ids.len(),
{
    if ids.len() == 0 {
        Seq::empty()
    } else {
        let prev = selected_items(packs, ids.drop_last());
        match pack_index_from(packs, ids.last(), 0) {
            Some(p) => add_all_unseen(prev, packs[p].items),
            None => prev,
        }
    }
}

proof fn lemma_pack_index_from(packs: Seq<PackView>, id: Seq<char>, k: int)
    requires
        0 <= k,
    ensures
        match pack_index_from(packs, id, k) {
            Some(j) => k <= j < packs.len() && packs[j].id == id,
            None => forall|j: int| k <= j < packs.len() ==> packs[j].id != id,
        },
    decreases packs.len() - k,
{
    if k < packs.len() && packs[k].id != id {
        lemma_pack_index_from(packs, id, k + 1);
    }
}

/// The position of the first pack whose identifier is `id`.
fn find_pack(packs: &Vec<TextExpansionPack>, id: &String) -> (r: Option<usize>)
    ensures
        match r {
            Some(p) => pack_index_from(packs.deep_view(), id@, 0) == Some(p as int) && p
                < packs.len(),
            None => pack_index_from(packs.deep_view(), id@, 0) is None,
        },
{
    proof {
        lemma_pack_index_from(packs.deep_view(), id@, 0);
    }
    let mut k: usize = 0;
    while k < packs.len()
        invariant
            k <= packs.len(),
            pack_index_from(packs.deep_view(), id@, 0) == pack_index_from(
                packs.deep_view(),
                id@,
                k as int,
            ),
        decreases packs.len() - k,
    {
        if packs[k].id == *id {
            return Some(k);
        }
        k += 1;
    }
    None
}

/// Whether an item of `xs` has the trigger key `key`.
fn has_key(xs: &Vec<TextExpansion>, key: &String) -> (r: bool)
    ensures
        r == (key_index_from(xs.deep_view(), key@, 0) is Some),
{
    proof {
        lemma_key_index_from(xs.deep_view(), key@, 0);
    }
    let mut i: usize = 0;
    while i < xs.len()
        invariant
            i <= xs.len(),
            key_index_from(xs.deep_view(), key@, 0) == key_index_from(xs.deep_view(), key@, i as int),
        decreases xs.len() - i,
    {
        let k = normalize_trigger_key(xs[i].trigger.as_str());
        if k == *key {
            return true;
        }
        i += 1;
    }
    false
}

/// Adding items by `add_all_unseen` to a list whose trigger keys are distinct keeps them
/// distinct.
proof fn lemma_add_all_unseen_distinct(acc: Seq<ExpansionView>, xs: Seq<ExpansionView>)
    requires
        trigger_keys(acc).no_duplicates(),
    ensures
        trigger_keys(add_all_unseen(acc, xs)).no_duplicates(),
    decreases xs.len(),
{
    if xs.len() > 0 {
        lemma_add_all_unseen_distinct(acc, xs.drop_last());
        let prev = add_all_unseen(acc, xs.drop_last());
        let x = xs.last();
        let k = name_key(x.trigger);
        lemma_key_index_from(prev, k, 0);
        if key_index_from(prev, k, 0) is None {
            let pk = trigger_keys(prev);
            let nk = trigger_keys(prev.push(x));
            assert(nk =~= pk.push(k));
            assert forall|a: int, b: int| 0 <= a < b < nk.len() implies nk[a] != nk[b] by {
                if b == pk.len() {
                    assert(nk[a] == name_key(prev[a].trigger));
                } else {
                    assert(nk[a] == pk[a] && nk[b] == pk[b]);
                }
            }
        }
    }
}

/// The items selected from the default packs never share a trigger key.
pub proof fn lemma_selected_keys_distinct(packs: Seq<PackView>, ids: Seq<Seq<char>>)
    ensures
        trigger_keys(selected_items(packs, ids)).no_duplicates(),
    decreases ids.len(),
{
    if ids.len() == 0 {
        assert(trigger_keys(Seq::<ExpansionView>::empty()) =~= Seq::<Seq<char>>::empty());
    } else {
        lemma_selected_keys_distinct(packs, ids.drop_last());
        match pack_index_from(packs, ids.last(), 0) {
            Some(p) => lemma_add_all_unseen_distinct(selected_items(packs, ids.drop_last()), packs[p].items),
            None => {},
        }
    }
}

/// The items of the packs of `catalog` named by `pack_ids` (see `selected_items`).
pub fn select_pack_items(catalog: &TextExpansionCatalog, pack_ids: &[String]) -> (r: Vec<
    TextExpansion,
>)
    ensures
        r.deep_view() == selected_items(catalog.packs.deep_view(), pack_ids.deep_view()),
{
    let ghost packs = catalog.packs.deep_view();
    let ghost ids = pack_ids.deep_view();
    let mut items: Vec<TextExpansion> = Vec::new();
    let mut i: usize = 0;
    assert(ids.take(0) =~= Seq::<Seq<char>>::empty());
    assert(items.deep_view() =~= Seq::<ExpansionView>::empty());
    while i < pack_ids.len()
        invariant
            i <= pack_ids.len(),
            packs == catalog.packs.deep_view(),
            ids == pack_ids.deep_view(),
            items.deep_view() == selected_items(packs, ids.take(i as int)),
        decreases pack_ids.len() - i,
    {
        let ghost prev = items.deep_view();
        assert(ids.take(i + 1).drop_last() =~= ids.take(i as int));
        assert(ids.take(i + 1).last() == pack_ids[i as int]@);
        match find_pack(&catalog.packs, &pack_ids[i]) {
            Some(p) => {
                let pack = &catalog.packs[p];
                let ghost pitems = pack.items.deep_view();
                assert(pitems == packs[p as int].items);
                let mut j: usize = 0;
                assert(pitems.take(0) =~= Seq::<ExpansionView>::empty());
                while j < pack.items.len()
                    invariant
                        j <= pack.items.len(),
                        pitems == pack.items.deep_view(),
                        items.deep_view() == add_all_unseen(prev, pitems.take(j as int)),
                    decreases pack.items.len() - j,
                {
                    assert(pitems.take(j + 1).drop_last() =~= pitems.take(j as int));
                    let item = &pack.items[j];
                    assert(pitems.take(j + 1).last() == item.deep_view());
                    let key = normalize_trigger_key(item.trigger.as_str());
                    if !has_key(&items, &key) {
                        let ghost before = items.deep_view();
                        let c = copy_expansion(item);
                        items.push(c);
                        assert(items.deep_view() =~= before.push(item.deep_view()));
                    }
                    j += 1;
                }
                assert(pitems.take(pack.items.len() as int) =~= pitems);
            },
            None => {},
        }
        i += 1;
    }
    assert(ids.take(pack_ids.len() as int) =~= ids);
    items
}

/// The items of the default packs named by `pack_ids` (`default_pack_items_for_ids`): the
/// English default catalog of `source` is built, signed for `profile_name`, and its packs
/// are selected.
pub fn default_pack_items_for_ids(source: &str, pack_ids: &[String], profile_name: Option<&str>) -> (r:
    Vec<TextExpansion>)
    ensures
        exists|c: CatalogView|
            #[trigger] default_catalog_ok(c, source@, "en"@, profile_name.deep_view())
                && r.deep_view() == selected_items(c.packs, pack_ids.deep_view()),
{
    let catalog = build_default_catalog(source, "en", profile_name);
    let r = select_pack_items(&catalog, pack_ids);
    assert(default_catalog_ok(catalog.deep_view(), source@, "en"@, profile_name.deep_view()));
    r
}

/// The form an old-style Unity trigger had: `U<name>` was `:<name>` (every leading `U`
/// dropped); other triggers are unchanged.
pub open spec fn legacy_raw(trigger: Seq<char>) -> Seq<char> {
    if trigger.len() > 0 && trigger[0] == 'U' {
        ":"@ + trim_start_char(trigger, 'U')
    } else {
        trigger
    }
}

/// The entry of the legacy table for an item.
pub open spec fn legacy_entry(x: ExpansionView) -> LegacyView {
    LegacyView { raw: legacy_raw(x.trigger), trigger: x.trigger, replacement: x.replacement }
}

/// The legacy table of a list of packs: an entry for each item of each pack whose
/// identifier starts with `unity`, in order.
pub open spec fn legacy_entries_of(packs: Seq<PackView>) -> Seq<LegacyView>
    decreases packs.len(),
{
    if packs.len() == 0 {
        Seq::empty()
    } else {
        let prev = legacy_entries_of(packs.drop_last());
        if has_prefix(packs.last().id, "unity"@) {
            prev + packs.last().items.map_values(|x: ExpansionView| legacy_entry(x))
        } else {
            prev
        }
    }
}

/// The legacy table of the sections of a catalog source: an entry for each entry of each
/// section whose pack is a Unity pack, as the English catalog, signed by nobody, has it.
pub open spec fn legacy_entries_of_sections(secs: Seq<SectionView>) -> Seq<LegacyView>
    decreases secs.len(),
{
    if secs.len() == 0 {
        Seq::empty()
    } else {
        let prev = legacy_entries_of_sections(secs.drop_last());
        let s = secs.last();
        if has_prefix(section_meta(s.key).id, "unity"@) {
            prev + s.entries.map_values(|e| legacy_entry(entry_item(s.key, e, None)))
        } else {
            prev
        }
    }
}

/// The entry of the legacy table for an item.
fn legacy_entry_for(x: &TextExpansion) -> (r: LegacyTrigger)
    ensures
        r.deep_view() == legacy_entry(x.deep_view()),
{
    proof {
        reveal_strlit("U");
    }
    let is_u = starts_with(x.trigger.as_str(), "U");
    assert(is_u == (x.trigger@.len() > 0 && x.trigger@[0] == 'U')) by {
        reveal_strlit("U");
        assert("U"@.len() == 1 && "U"@[0] == 'U');
        if x.trigger@.len() > 0 {
            assert(x.trigger@.subrange(0, 1)[0] == x.trigger@[0]);
            if x.trigger@[0] == 'U' {
                assert(x.trigger@.subrange(0, 1) =~= "U"@);
            }
        }
    }
    let raw = if is_u {
        let mut r = ":".to_string();
        let rest = trim_start_matches(x.trigger.as_str(), 'U');
        r.append(rest.as_str());
        r
    } else {
        x.trigger.clone()
    };
    LegacyTrigger { raw, trigger: x.trigger.clone(), replacement: x.replacement.clone() }
}

/// The legacy table of a catalog (see `legacy_entries_of`).
pub fn legacy_table_from_catalog(catalog: &TextExpansionCatalog) -> (r: LegacyTable)
    ensures
        r.entries.deep_view() == legacy_entries_of(catalog.packs.deep_view()),
{
    let ghost packs = catalog.packs.deep_view();
    let mut entries: Vec<LegacyTrigger> = Vec::new();
    let mut k: usize = 0;
    assert(packs.take(0) =~= Seq::<PackView>::empty());
    assert(entries.deep_view() =~= Seq::<LegacyView>::empty());
    while k < catalog.packs.len()
        invariant
            k <= catalog.packs.len(),
            packs == catalog.packs.deep_view(),
            entries.deep_view() == legacy_entries_of(packs.take(k as int)),
        decreases catalog.packs.len() - k,
    {
        let pack = &catalog.packs[k];
        assert(packs.take(k + 1).drop_last() =~= packs.take(k as int));
        assert(packs.take(k + 1).last() == pack.deep_view());
        if starts_with(pack.id.as_str(), "unity") {
            let ghost prev = entries.deep_view();
            let ghost items = pack.items.deep_view();
            let mut j: usize = 0;
            while j < pack.items.len()
                invariant
                    j <= pack.items.len(),
                    items == pack.items.deep_view(),
                    entries.deep_view() == prev + items.take(j as int).map_values(
                        |x: ExpansionView| legacy_entry(x),
                    ),
                decreases pack.items.len() - j,
            {
                let e = legacy_entry_for(&pack.items[j]);
                let ghost before = entries.deep_view();
                entries.push(e);
                assert(entries.deep_view() =~= before.push(legacy_entry(items[j as int])));
                assert(items.take(j + 1).map_values(|x: ExpansionView| legacy_entry(x))
                    =~= items.take(j as int).map_values(|x: ExpansionView| legacy_entry(x)).push(
                    legacy_entry(items[j as int]),
                ));
                j += 1;
            }
            assert(items.take(pack.items.len() as int) =~= items);
        }
        k += 1;
    }
    assert(packs.take(catalog.packs.len() as int) =~= packs);
    LegacyTable { entries }
}

/// The legacy table of a list of packs that starts with a pack that is no Unity pack and
/// goes on with the packs of the sections `secs` is the legacy table of the sections.
proof fn lemma_legacy_entries_of_sections(
    packs: Seq<PackView>,
    secs: Seq<SectionView>,
    locale: Seq<char>,
)
    requires
        packs.len() == secs.len() + 1,
        !has_prefix(packs[0].id, "unity"@),
        forall|k: int|
            0 <= k < secs.len() ==> section_pack_ok(#[trigger] packs[k + 1], secs[k], locale, None),
    ensures
        legacy_entries_of(packs) == legacy_entries_of_sections(secs),
    decreases secs.len(),
{
    if secs.len() == 0 {
        assert(packs.drop_last().len() == 0);
        assert(legacy_entries_of(packs.drop_last()) == Seq::<LegacyView>::empty());
    } else {
        let n = secs.len() - 1;
        assert forall|k: int| 0 <= k < secs.drop_last().len() implies section_pack_ok(
            #[trigger] packs.drop_last()[k + 1],
            secs.drop_last()[k],
            locale,
            None,
        ) by {
            assert(packs.drop_last()[k + 1] == packs[k + 1]);
            assert(section_pack_ok(packs[k + 1], secs[k], locale, None));
        }
        lemma_legacy_entries_of_sections(packs.drop_last(), secs.drop_last(), locale);
        let p = packs.last();
        let s = secs.last();
        assert(section_pack_ok(packs[n + 1], secs[n], locale, None));
        assert(p.id == section_meta(s.key).id);
        let a = p.items.map_values(|x: ExpansionView| legacy_entry(x));
        let b = s.entries.map_values(|e| legacy_entry(entry_item(s.key, e, None)));
        assert forall|j: int| 0 <= j < a.len() implies a[j] == b[j] by {
            assert(same_but_id(p.items[j], entry_item(s.key, s.entries[j], None)));
        }
        assert(a =~= b);
    }
}

/// The table of old-style Unity triggers, taken from the English default catalog of
/// `source`, signed by nobody.
pub fn legacy_unity_table(source: &str) -> (r: LegacyTable)
    ensures
        r.entries.deep_view() == legacy_entries_of_sections(catalog_sections(source@)),
{
    let catalog = build_default_catalog(source, "en", None);
    let r = legacy_table_from_catalog(&catalog);
    proof {
        let c = catalog.deep_view();
        reveal_strlit("unity");
        reveal_strlit("core-essentials");
        assert(c.packs[0].id == "core-essentials"@);
        assert(c.packs[0].id.subrange(0, 5)[0] != "unity"@[0]);
        lemma_legacy_entries_of_sections(c.packs, catalog_sections(source@), "en"@);
    }
    r
}

/// The locale a catalog is asked for in: lower-cased, or `en` when none is given.
pub open spec fn catalog_locale(locale: Option<Seq<char>>) -> Seq<char> {
    match locale {
        Some(l) => spec_to_lowercase(l),
        None => "en"@,
    }
}

/// The catalog offered in a locale (`load_text_expansion_catalog`): the default catalog
/// of `source` in the lower-cased locale (English when none is given), signed by nobody.
pub fn load_text_expansion_catalog(source: &str, locale: Option<String>) -> (r: TextExpansionCatalog)
    ensures
        default_catalog_ok(r.deep_view(), source@, catalog_locale(locale.deep_view()), None),
{
    let l = match &locale {
        Some(v) => to_lowercase(v.as_str()),
        None => "en".to_string(),
    };
    build_default_catalog(source, l.as_str(), None)
}

/// Whether a snippet's trigger is carried over into an expansion: it has one, and it is not
/// blank.
pub open spec fn carried(s: SnippetView) -> bool {
    match s.trigger {
        Some(t) => trim_ws(t).len() > 0,
        None => false,
    }
}

/// The snippets of `xs` whose triggers are carried over, in order.
pub open spec fn carried_snippets(xs: Seq<SnippetView>) -> Seq<SnippetView>
    decreases xs.len(),
{
    if xs.len() == 0 {
        Seq::empty()
    } else {
        let prev = carried_snippets(xs.drop_last());
        if carried(xs.last()) {
            prev.push(xs.last())
        } else {
            prev
        }
    }
}

/// `x` is the expansion carried over from snippet `s` at `now`: a fresh identifier, the
/// trimmed trigger, the content as replacement, the title as description, enabled,
/// case-insensitive, on word boundaries, for every application; created at `now` when the
/// snippet has no creation time, and last updated when it was created when the snippet
/// was never used; both times RFC 3339 text, and where the snippet has a time (up to the
/// end of the year 9999), text that denotes it (see `rfc3339_near`).  Which zone's text a
/// snippet time becomes is the machine's, and is not named.
pub open spec fn carried_item(x: ExpansionView, s: SnippetView, now: Seq<char>) -> bool {
    &&& is_uuid_text(x.id)
    &&& x.trigger == trim_ws(s.trigger.unwrap())
    &&& x.replacement == s.content
    &&& x.description == Some(s.title)
    &&& x.enabled
    &&& !x.case_sensitive
    &&& x.word_boundary
    &&& x.app_filter == Seq::<Seq<char>>::empty()
    &&& (s.created_at == 0 ==> x.created_at == now)
    &&& (s.last_used_at == 0 ==> x.updated_at == x.created_at)
    &&& rfc3339_text(x.created_at)
    &&& rfc3339_text(x.updated_at)
    &&& (0 < s.created_at <= LAST_MILLIS_OF_9999 ==> rfc3339_near(x.created_at, s.created_at as int))
    &&& (0 < s.last_used_at <= LAST_MILLIS_OF_9999 ==> rfc3339_near(
        x.updated_at,
        s.last_used_at as int,
    ))
}

/// `items` are the expansions carried over from `xs` at `now`, one per carried snippet,
/// in order.
pub open spec fn carried_items_at(items: Seq<ExpansionView>, xs: Seq<SnippetView>, now: Seq<char>) -> bool {
    &&& items.len() == carried_snippets(xs).len()
    &&& forall|j: int|
        0 <= j < items.len() ==> carried_item(#[trigger] items[j], carried_snippets(xs)[j], now)
}

/// `items` are the expansions carried over from `xs`, all at one moment.
pub open spec fn carried_items(items: Seq<ExpansionView>, xs: Seq<SnippetView>) -> bool {
    exists|now: Seq<char>| #[trigger] carried_items_at(items, xs, now) && rfc3339_text(now)
}

/// A snippet time (ms since the Unix epoch) as RFC 3339 text in the machine's time zone;
/// `None` for the time 0, which stands for no time, and, for every time up to the end of
/// the year 9999, text that denotes that time (to within the half minute by which a
/// time zone's offset may be rounded; see `rfc3339_near`).
pub fn snippet_timestamp_to_rfc3339(value: u64) -> (r: Option<String>)
    ensures
        value == 0 ==> r is None,
        0 < value <= LAST_MILLIS_OF_9999 ==> (r matches Some(t) && rfc3339_near(t@, value as int)),
        r matches Some(t) ==> rfc3339_text(t@),
{
    if value == 0 {
        return None;
    }
    #[verifier::truncate]
    let millis = value as i64;
    local_rfc3339_from_millis(millis)
}

/// The expansion carried over from a snippet whose trigger is not blank.
fn carried_expansion(s: &Snippet, trigger: String, now: &String) -> (r: TextExpansion)
    requires
        carried(s.deep_view()),
        trigger@ == trim_ws(s.deep_view().trigger.unwrap()),
        rfc3339_text(now@),
    ensures
        carried_item(r.deep_view(), s.deep_view(), now@),
{
    let created_at = match snippet_timestamp_to_rfc3339(s.created_at) {
        Some(t) => t,
        None => now.clone(),
    };
    let updated_at = match snippet_timestamp_to_rfc3339(s.last_used_at) {
        Some(t) => t,
        None => created_at.clone(),
    };
    let app_filter: Vec<String> = Vec::new();
    assert(app_filter.deep_view() =~= Seq::<Seq<char>>::empty());
    TextExpansion {
        id: new_uuid_text(),
        trigger,
        replacement: s.content.clone(),
        description: Some(s.title.clone()),
        enabled: true,
        case_sensitive: false,
        word_boundary: true,
        app_filter,
        created_at,
        updated_at,
    }
}

/// The expansions carried over from the triggers of snippets (`legacy_from_snippets`).
pub fn legacy_from_snippets(snippets: &[Snippet]) -> (r: Vec<TextExpansion>)
    ensures
        carried_items(r.deep_view(), snippets.deep_view()),
{
    let now = now_rfc3339();
    let ghost xs = snippets.deep_view();
    let mut out: Vec<TextExpansion> = Vec::new();
    let mut i: usize = 0;
    assert(xs.take(0) =~= Seq::<SnippetView>::empty());
    while i < snippets.len()
        invariant
            i <= snippets.len(),
            xs == snippets.deep_view(),
            carried_items_at(out.deep_view(), xs.take(i as int), now@),
            rfc3339_text(now@),
        decreases snippets.len() - i,
    {
        let s = &snippets[i];
        assert(xs.take(i + 1).drop_last() =~= xs.take(i as int));
        assert(xs.take(i + 1).last() == s.deep_view());
        let ghost cs = carried_snippets(xs.take(i as int));
        match &s.trigger {
            Some(t) => {
                let trimmed = trim(t.as_str());
                if !trimmed.as_str().is_empty() {
                    let x = carried_expansion(s, trimmed, &now);
                    let ghost before = out.deep_view();
                    out.push(x);
                    assert(out.deep_view() =~= before.push(x.deep_view()));
                    assert(carried_snippets(xs.take(i + 1)) =~= cs.push(s.deep_view()));
                } else {
                    assert(carried_snippets(xs.take(i + 1)) =~= cs);
                }
            },
            None => {
                assert(carried_snippets(xs.take(i + 1)) =~= cs);
            },
        }
        i += 1;
    }
    assert(xs.take(snippets.len() as int) =~= xs);
    out
}

/// `d` are the default items for the chosen pack identifiers: none when none are chosen,
/// else the selected items of the English default catalog of `source`, signed for
/// `profile`.
pub open spec fn defaults_for(ids: Seq<Seq<char>>, source: Seq<char>, profile: Seq<char>, d: Seq<
    ExpansionView,
>) -> bool {
    if ids.len() == 0 {
        d == Seq::<ExpansionView>::empty()
    } else {
        exists|c: CatalogView|
            #[trigger] default_catalog_ok(c, source, "en"@, Some(profile)) && d == selected_items(
                c.packs,
                ids,
            )
    }
}

/// The default items for the chosen packs of the settings (see `defaults_for`).
fn chosen_defaults(source: &str, settings: &Settings) -> (r: Vec<TextExpansion>)
    ensures
        defaults_for(
            settings.text_expansion_default_pack_ids.deep_view(),
            source@,
            settings.text_expansion_profile_name@,
            r.deep_view(),
        ),
{
    if settings.text_expansion_default_pack_ids.len() == 0 {
        let r: Vec<TextExpansion> = Vec::new();
        assert(r.deep_view() =~= Seq::<ExpansionView>::empty());
        r
    } else {
        let ids = settings.text_expansion_default_pack_ids.as_slice();
        assert(ids.deep_view() =~= settings.text_expansion_default_pack_ids.deep_view());
        default_pack_items_for_ids(source, ids, Some(settings.text_expansion_profile_name.as_str()))
    }
}

/// The expansions of a new installation (`build_seeded_text_expansions`): the default
/// items of the chosen packs, with the triggers of the snippets merged in, deduplicated;
/// normalization maps old-style Unity triggers by `table`.
pub fn build_seeded_text_expansions(
    source: &str,
    snippets: &[Snippet],
    settings: &Settings,
    table: &LegacyTable,
) -> (r: Vec<TextExpansion>)
    ensures
        exists|d: Seq<ExpansionView>, l: Seq<ExpansionView>, m: Seq<ExpansionView>|
            #![trigger defaults_for(settings.text_expansion_default_pack_ids.deep_view(), source@, settings.text_expansion_profile_name@, d), carried_items(l, snippets.deep_view()), merged(d, l, table.entries.deep_view(), m)]
            defaults_for(
                settings.text_expansion_default_pack_ids.deep_view(),
                source@,
                settings.text_expansion_profile_name@,
                d,
            ) && carried_items(l, snippets.deep_view()) && merged(
                d,
                l,
                table.entries.deep_view(),
                m,
            ) && deduped(m, table.entries.deep_view(), r.deep_view()),
{
    let defaults = chosen_defaults(source, settings);
    let ghost d = defaults.deep_view();
    let legacy = legacy_from_snippets(snippets);
    let ghost l = legacy.deep_view();
    let merged_items = merge_items(defaults, legacy, table);
    let ghost m = merged_items.deep_view();
    let r = dedupe_items(merged_items, table);
    assert(defaults_for(
        settings.text_expansion_default_pack_ids.deep_view(),
        source@,
        settings.text_expansion_profile_name@,
        d,
    ) && carried_items(l, snippets.deep_view()) && merged(d, l, table.entries.deep_view(), m));
    r
}

/// Puts the default items of the chosen packs back in force (`reset_text_expansions`,
/// without the file that the application writes), as `save_text_expansions` does.
pub fn reset_text_expansions(runtime: &mut ExpansionRuntime, source: &str, settings: &Settings) -> (r:
    Result<Vec<TextExpansion>, String>)
    ensures
        final(runtime).legacy() == old(runtime).legacy(),
        exists|d: Seq<ExpansionView>|
            #[trigger] defaults_for(
                settings.text_expansion_default_pack_ids.deep_view(),
                source@,
                settings.text_expansion_profile_name@,
                d,
            ) && match r {
                Ok(v) => items_valid(d) && all_normalized(d, v.deep_view(), old(runtime).legacy())
                    && final(runtime).items() == v.deep_view(),
                Err(e) => refused(d, e@) && final(runtime).items() == old(runtime).items(),
            },
{
    let defaults = chosen_defaults(source, settings);
    let slice = defaults.as_slice();
    assert(slice.deep_view() =~= defaults.deep_view());
    runtime.save_text_expansions(slice)
}

impl ExpansionRuntime {
    /// Puts expansions read from the file in force and returns them
    /// (`load_text_expansions`).
    pub fn load_text_expansions(&mut self, items: Vec<TextExpansion>) -> (r: Vec<TextExpansion>)
        ensures
            final(self).items() == items.deep_view(),
            final(self).legacy() == old(self).legacy(),
            r.deep_view() == items.deep_view(),
    {
        self.set_items(items);
        self.current_snapshot()
    }

    /// Replaces the expansions with an import (`import_payload`): a payload that could not
    /// be read is refused with its error and nothing changes; else the items are checked,
    /// normalized and put in force as `replace_runtime` does.
    pub fn import_payload(&mut self, parsed: Result<Vec<TextExpansion>, String>) -> (r: Result<
        Vec<TextExpansion>,
        String,
    >)
        ensures
            final(self).legacy() == old(self).legacy(),
            match parsed {
                Err(e) => r == Err::<Vec<TextExpansion>, String>(e) && final(self).items() == old(
                    self,
                ).items(),
                Ok(items) => match r {
                    Ok(v) => items_valid(items.deep_view()) && all_normalized(
                        items.deep_view(),
                        v.deep_view(),
                        old(self).legacy(),
                    ) && final(self).items() == v.deep_view(),
                    Err(e) => refused(items.deep_view(), e@) && final(self).items() == old(
                        self,
                    ).items(),
                },
            },
    {
        match parsed {
            Err(e) => Err(e),
            Ok(items) => self.replace_runtime(items),
        }
    }
}

/// Starts the expansions at launch (`bootstrap_runtime`): the items read from the
/// expansion file when there is one (`stored`), else the seeded items of a new
/// installation (see `build_seeded_text_expansions`), which the application then writes;
/// either way they are put in force and returned.
pub fn bootstrap_runtime(
    runtime: &mut ExpansionRuntime,
    stored: Option<Vec<TextExpansion>>,
    source: &str,
    snippets: &[Snippet],
    settings: &Settings,
) -> (r: Vec<TextExpansion>)
    ensures
        final(runtime).items() == r.deep_view(),
        final(runtime).legacy() == old(runtime).legacy(),
        match stored {
            Some(items) => r.deep_view() == items.deep_view(),
            None => exists|d: Seq<ExpansionView>, l: Seq<ExpansionView>, m: Seq<ExpansionView>|
                #![trigger defaults_for(settings.text_expansion_default_pack_ids.deep_view(), source@, settings.text_expansion_profile_name@, d), carried_items(l, snippets.deep_view()), merged(d, l, old(runtime).legacy(), m)]
                defaults_for(
                    settings.text_expansion_default_pack_ids.deep_view(),
                    source@,
                    settings.text_expansion_profile_name@,
                    d,
                ) && carried_items(l, snippets.deep_view()) && merged(
                    d,
                    l,
                    old(runtime).legacy(),
                    m,
                ) && deduped(m, old(runtime).legacy(), r.deep_view()),
        },
{
    let items = match stored {
        Some(v) => v,
        None => build_seeded_text_expansions(source, snippets, settings, runtime.legacy_table()),
    };
    runtime.load_text_expansions(items)
}

} // verus!
