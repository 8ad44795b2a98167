//! Expansion packs: the built-in sections of the default catalog, the always-present core
//! pack, and the catalog they form.

use crate::catalog::{
    CatalogSection, EntryView, SectionView, canonical_default_trigger, canonicalize_default_trigger,
    catalog_sections, heading_section, heading_words, parse_catalog,
};
use crate::expansion::{ExpansionView, TextExpansion};
use crate::sources::{is_uuid_text, new_uuid_text, now_rfc3339, rfc3339_text};
use crate::text::{
    has_infix, has_prefix, spec_to_lowercase, starts_with, str_equals, to_lowercase, trim, trim_ws,
};
use vstd::prelude::*;

verus! {

broadcast use vstd::std_specs::vec::group_vec_axioms;

/// A pack of expansions that can be installed together.
#[derive(Debug)]
pub struct TextExpansionPack {
    pub id: String,
    pub title: String,
    pub description: String,
    pub recommended: bool,
    pub app_filter: Vec<String>,
    pub items: Vec<TextExpansion>,
}

pub struct PackView {
    pub id: Seq<char>,
    pub title: Seq<char>,
    pub description: Seq<char>,
    pub recommended: bool,
    pub app_filter: Seq<Seq<char>>,
    pub items: Seq<ExpansionView>,
}

impl DeepView for TextExpansionPack {
    type V = PackView;

    open spec fn deep_view(&self) -> PackView {
        PackView {
            id: self.id@,
            title: self.title@,
            description: self.description@,
            recommended: self.recommended,
            app_filter: self.app_filter.deep_view(),
            items: self.items.deep_view(),
        }
    }
}

/// The catalog of packs offered in a locale.
#[derive(Debug)]
pub struct TextExpansionCatalog {
    pub version: u32,
    pub locale: String,
    pub recommended_pack_ids: Vec<String>,
    pub packs: Vec<TextExpansionPack>,
}

pub struct CatalogView {
    pub version: u32,
    pub locale: Seq<char>,
    pub recommended_pack_ids: Seq<Seq<char>>,
    pub packs: Seq<PackView>,
}

impl DeepView for TextExpansionCatalog {
    type V = CatalogView;

    open spec fn deep_view(&self) -> CatalogView {
        CatalogView {
            version: self.version,
            locale: self.locale@,
            recommended_pack_ids: self.recommended_pack_ids.deep_view(),
            packs: self.packs.deep_view(),
        }
    }
}

/// The expansions with the version of their format and the time of export, as the
/// expansion file and an export hold them.
#[derive(Debug)]
pub struct TextExpansionBundle {
    pub version: u32,
    pub text_expansions: Vec<TextExpansion>,
    pub exported_at: Option<String>,
}

impl TextExpansionBundle {
    /// A bundle of the current format (version 1) holding `items`, exported at `exported_at`.
    pub fn new(items: Vec<TextExpansion>, exported_at: Option<String>) -> (r: Self)
        ensures
            r.version == 1,
            r.text_expansions.deep_view() == items.deep_view(),
            r.exported_at.deep_view() == exported_at.deep_view(),
    {
        TextExpansionBundle { version: 1, text_expansions: items, exported_at }
    }
}

/// The applications that Unity packs are limited to.
pub open spec fn unity_apps() -> Seq<Seq<char>> {
    seq!["unity.exe"@, "rider64.exe"@, "rider.exe"@, "code.exe"@]
}

/// The applications that the general C# pack is limited to.
pub open spec fn general_dev_apps() -> Seq<Seq<char>> {
    seq!["rider64.exe"@, "rider.exe"@, "code.exe"@]
}

fn strings(parts: &[&str]) -> (r: Vec<String>)
    ensures
        r.len() == parts.len(),
        forall|i: int| 0 <= i < parts.len() ==> (#[trigger] r.deep_view()[i]) == parts@[i]@,
{
    let mut out: Vec<String> = Vec::new();
    let mut i: usize = 0;
    while i < parts.len()
        invariant
            i <= parts.len(),
            out.len() == i,
            forall|j: int| 0 <= j < i ==> (#[trigger] out.deep_view()[j]) == parts@[j]@,
        decreases parts.len() - i,
    {
        let ghost before = out.deep_view();
        let s = parts[i].to_string();
        out.push(s);
        assert(out.deep_view() =~= before.push(parts@[i as int]@));
        i += 1;
    }
    out
}

/// `unity_apps()` as strings.
pub fn unity_app_filter() -> (r: Vec<String>)
    ensures
        r.deep_view() == unity_apps(),
{
    let r = strings(&["unity.exe", "rider64.exe", "rider.exe", "code.exe"]);
    assert(r.deep_view() =~= unity_apps());
    r
}

/// `general_dev_apps()` as strings.
pub fn general_dev_app_filter() -> (r: Vec<String>)
    ensures
        r.deep_view() == general_dev_apps(),
{
    let r = strings(&["rider64.exe", "rider.exe", "code.exe"]);
    assert(r.deep_view() =~= general_dev_apps());
    r
}

/// The application filter of the items of a section.
pub open spec fn section_item_filter(key: Seq<char>) -> Seq<Seq<char>> {
    if key == "unity-general"@ {
        general_dev_apps()
    } else if has_prefix(key, "unity"@) {
        unity_apps()
    } else {
        Seq::empty()
    }
}

/// What a section looks like in the catalog.
pub struct SectionMeta {
    pub id: String,
    pub title_en: String,
    pub title_tr: String,
    pub description_en: String,
    pub description_tr: String,
    pub app_filter: Vec<String>,
}

pub struct MetaView {
    pub id: Seq<char>,
    pub title_en: Seq<char>,
    pub title_tr: Seq<char>,
    pub description_en: Seq<char>,
    pub description_tr: Seq<char>,
    pub app_filter: Seq<Seq<char>>,
}

impl DeepView for SectionMeta {
    type V = MetaView;

    open spec fn deep_view(&self) -> MetaView {
        MetaView {
            id: self.id@,
            title_en: self.title_en@,
            title_tr: self.title_tr@,
            description_en: self.description_en@,
            description_tr: self.description_tr@,
            app_filter: self.app_filter.deep_view(),
        }
    }
}

pub open spec fn meta_view(
    id: &str,
    title_en: &str,
    title_tr: &str,
    description_en: &str,
    description_tr: &str,
    app_filter: Seq<Seq<char>>,
) -> MetaView {
    MetaView {
        id: id@,
        title_en: title_en@,
        title_tr: title_tr@,
        description_en: description_en@,
        description_tr: description_tr@,
        app_filter,
    }
}

/// The catalog look of each section; an unknown key gets the daily section's.
pub open spec fn section_meta(key: Seq<char>) -> MetaView {
    if key == "git"@ {
        meta_view("git-version-control", "Git / Version Control", "Git / Sürüm Kontrolü",
            "Commit, branch, PR, and repository workflow helpers.",
            "Commit, branch, PR ve depo iş akışı yardımcıları.", Seq::empty())
    } else if key == "unity-lifecycle"@ {
        meta_view("unity-lifecycle", "Unity / Lifecycle", "Unity / Yaşam Döngüsü",
            "MonoBehaviour lifecycle and callback templates.",
            "MonoBehaviour yaşam döngüsü ve callback şablonları.", unity_apps())
    } else if key == "unity-debug"@ {
        meta_view("unity-debug", "Unity / Debug & Logging", "Unity / Debug ve Loglama",
            "Logging, assertions, and quick diagnostics.",
            "Loglama, assertion ve hızlı teşhis snippet'leri.", unity_apps())
    } else if key == "unity-attributes"@ {
        meta_view("unity-attributes", "Unity / Attributes & Serialization",
            "Unity / Özellikler ve Serileştirme",
            "SerializeField, attributes, and inspector helpers.",
            "SerializeField, attribute'lar ve inspector yardımcıları.", unity_apps())
    } else if key == "unity-components"@ {
        meta_view("unity-components", "Unity / Components & GameObject",
            "Unity / Bileşenler ve GameObject",
            "Component lookups, instantiation, destruction, and object state.",
            "Component erişimi, instantiate, destroy ve obje durumu.", unity_apps())
    } else if key == "unity-coroutine"@ {
        meta_view("unity-coroutines", "Unity / Coroutines & Time", "Unity / Coroutine ve Zaman",
            "Coroutine patterns, waits, invocation, and timing helpers.",
            "Coroutine kalıpları, beklemeler, invoke ve zaman yardımcıları.", unity_apps())
    } else if key == "unity-physics"@ {
        meta_view("unity-physics", "Unity / Physics", "Unity / Fizik",
            "Raycasts, overlaps, rigidbody utilities, and 2D physics.",
            "Raycast, overlap, rigidbody yardımcıları ve 2D fizik.", unity_apps())
    } else if key == "unity-math"@ {
        meta_view("unity-math", "Unity / Math", "Unity / Matematik",
            "Vector, Mathf, and numerical helpers.", "Vector, Mathf ve sayısal yardımcılar.",
            unity_apps())
    } else if key == "unity-transform"@ {
        meta_view("unity-transform", "Unity / Transform & Rotation",
            "Unity / Transform ve Rotasyon", "Transform access, parenting, and rotation helpers.",
            "Transform erişimi, parenting ve rotasyon yardımcıları.", unity_apps())
    } else if key == "unity-input"@ {
        meta_view("unity-input", "Unity / Input", "Unity / Input",
            "Keyboard, mouse, touch, and Input System helpers.",
            "Klavye, mouse, touch ve Input System yardımcıları.", unity_apps())
    } else if key == "unity-ui"@ {
        meta_view("unity-ui", "Unity / UI & TMP", "Unity / UI ve TMP",
            "TextMeshPro, UI components, and pointer events.",
            "TextMeshPro, UI bileşenleri ve pointer event'leri.", unity_apps())
    } else if key == "unity-events"@ {
        meta_view("unity-events", "Unity / Events & Architecture", "Unity / Olaylar ve Mimari",
            "Events, UnityEvent, state, scene loading, and persistence.",
            "Event'ler, UnityEvent, state, scene yükleme ve kalıcılık.", unity_apps())
    } else if key == "unity-general"@ {
        meta_view("unity-general", "Unity / General C# Utilities",
            "Unity / Genel C# Yardımcıları",
            "Using statements and general-purpose C# helpers for Unity work.",
            "Unity çalışmaları için using ve genel amaçlı C# yardımcıları.", general_dev_apps())
    } else {
        meta_view("daily-productivity", "Daily / General Productivity", "Günlük Verimlilik",
            "Date, contact, symbols, and lightweight communication snippets.",
            "Tarih, iletişim, semboller ve günlük akışta sık kullanılan yardımcı snippet'ler.",
            Seq::empty())
    }
}

/// The words of each default catalog heading, with the English title of the pack that
/// heading stands for.  (Two headings each name the UI, events and general packs.)
pub open spec fn heading_titles() -> Seq<(Seq<char>, Seq<char>)> {
    seq![
        ("g\u{fc}nl\u{fc}k kullan\u{131}m"@, "Daily / General Productivity"@),
        ("git & commit"@, "Git / Version Control"@),
        ("unity - lifecycle"@, "Unity / Lifecycle"@),
        ("unity - debug & logging"@, "Unity / Debug & Logging"@),
        ("unity - attributes & serialization"@, "Unity / Attributes & Serialization"@),
        ("unity - component & gameobject"@, "Unity / Components & GameObject"@),
        ("unity - coroutine & time"@, "Unity / Coroutines & Time"@),
        ("unity - physics"@, "Unity / Physics"@),
        ("unity - math"@, "Unity / Math"@),
        ("unity - transform & rotation"@, "Unity / Transform & Rotation"@),
        ("unity - input"@, "Unity / Input"@),
        ("unity - ui / tmp"@, "Unity / UI & TMP"@),
        ("unity - ui & tmp"@, "Unity / UI & TMP"@),
        ("unity - events & architecture"@, "Unity / Events & Architecture"@),
        ("unity - events & mimari"@, "Unity / Events & Architecture"@),
        ("genel c# & using"@, "Unity / General C# Utilities"@),
        ("unity - general c#"@, "Unity / General C# Utilities"@),
    ]
}

/// Where heading word `i` occurs in a heading and no other heading word does.
pub open spec fn names_only(h: Seq<char>, i: int) -> bool {
    &&& 0 <= i < heading_titles().len()
    &&& has_infix(heading_words(h), heading_titles()[i].0)
    &&& forall|j: int|
        0 <= j < heading_titles().len() && j != i ==> !has_infix(
            heading_words(h),
            #[trigger] heading_titles()[j].0,
        )
}

/// A catalog heading leads to the pack whose title it names: a heading that holds the
/// words of one default heading (and of no other) opens a section whose pack carries that
/// heading's title; so the Physics heading opens the `Unity / Physics` pack, never the
/// Math one.  The one heading left out is `Unity — Coroutine & Time`, whose section key
/// (`unity-coroutines`) names no pack of the table, so its pack takes the daily pack's
/// look.
pub proof fn lemma_heading_names_its_pack(h: Seq<char>, i: int)
    requires
        names_only(h, i),
        i != 6,
    ensures
        heading_section(h) matches Some(k) && section_meta(k).title_en == heading_titles()[i].1,
{
    let t = heading_titles();
    let n = heading_words(h);
    assert(t[0] == ("g\u{fc}nl\u{fc}k kullan\u{131}m"@, "Daily / General Productivity"@));
    assert(t[1] == ("git & commit"@, "Git / Version Control"@));
    assert(t[2] == ("unity - lifecycle"@, "Unity / Lifecycle"@));
    assert(t[3] == ("unity - debug & logging"@, "Unity / Debug & Logging"@));
    assert(t[4] == ("unity - attributes & serialization"@, "Unity / Attributes & Serialization"@));
    assert(t[5] == ("unity - component & gameobject"@, "Unity / Components & GameObject"@));
    assert(t[6] == ("unity - coroutine & time"@, "Unity / Coroutines & Time"@));
    assert(t[7] == ("unity - physics"@, "Unity / Physics"@));
    assert(t[8] == ("unity - math"@, "Unity / Math"@));
    assert(t[9] == ("unity - transform & rotation"@, "Unity / Transform & Rotation"@));
    assert(t[10] == ("unity - input"@, "Unity / Input"@));
    assert(t[11] == ("unity - ui / tmp"@, "Unity / UI & TMP"@));
    assert(t[12] == ("unity - ui & tmp"@, "Unity / UI & TMP"@));
    assert(t[13] == ("unity - events & architecture"@, "Unity / Events & Architecture"@));
    assert(t[14] == ("unity - events & mimari"@, "Unity / Events & Architecture"@));
    assert(t[15] == ("genel c# & using"@, "Unity / General C# Utilities"@));
    assert(t[16] == ("unity - general c#"@, "Unity / General C# Utilities"@));
    assert(!has_infix(n, t[6].0) || i == 6);
    assert forall|j: int| 0 <= j < 17 && j != i implies !has_infix(n, t[j].0) by {}
    reveal_strlit("git");
    reveal_strlit("unity-lifecycle");
    reveal_strlit("unity-debug");
    reveal_strlit("unity-attributes");
    reveal_strlit("unity-components");
    reveal_strlit("unity-coroutine");
    reveal_strlit("unity-physics");
    reveal_strlit("unity-math");
    reveal_strlit("unity-transform");
    reveal_strlit("unity-input");
    reveal_strlit("unity-ui");
    reveal_strlit("unity-events");
    reveal_strlit("unity-general");
    reveal_strlit("daily");
    if i == 0 {
        assert(heading_section(h) == Some("daily"@));
        assert("daily"@.len() != "git"@.len());
        assert("daily"@.len() != "unity-lifecycle"@.len());
        assert("daily"@.len() != "unity-debug"@.len());
        assert("daily"@.len() != "unity-attributes"@.len());
        assert("daily"@.len() != "unity-components"@.len());
        assert("daily"@.len() != "unity-coroutine"@.len());
        assert("daily"@.len() != "unity-physics"@.len());
        assert("daily"@.len() != "unity-math"@.len());
        assert("daily"@.len() != "unity-transform"@.len());
        assert("daily"@.len() != "unity-input"@.len());
        assert("daily"@.len() != "unity-ui"@.len());
        assert("daily"@.len() != "unity-events"@.len());
        assert("daily"@.len() != "unity-general"@.len());
        assert(section_meta("daily"@).title_en == t[0].1);
    } else if i == 1 {
        assert(heading_section(h) == Some("git"@));

        assert(section_meta("git"@).title_en == t[1].1);
    } else if i == 2 {
        assert(heading_section(h) == Some("unity-lifecycle"@));
        assert("unity-lifecycle"@.len() != "git"@.len());
        assert(section_meta("unity-lifecycle"@).title_en == t[2].1);
    } else if i == 3 {
        assert(heading_section(h) == Some("unity-debug"@));
        assert("unity-debug"@.len() != "git"@.len());
        assert("unity-debug"@.len() != "unity-lifecycle"@.len());
        assert(section_meta("unity-debug"@).title_en == t[3].1);
    } else if i == 4 {
        assert(heading_section(h) == Some("unity-attributes"@));
        assert("unity-attributes"@.len() != "git"@.len());
        assert("unity-attributes"@.len() != "unity-lifecycle"@.len());
        assert("unity-attributes"@.len() != "unity-debug"@.len());
        assert(section_meta("unity-attributes"@).title_en == t[4].1);
    } else if i == 5 {
        assert(heading_section(h) == Some("unity-components"@));
        assert("unity-components"@.len() != "git"@.len());
        assert("unity-components"@.len() != "unity-lifecycle"@.len());
        assert("unity-components"@.len() != "unity-debug"@.len());
        assert("unity-components"@[6] != "unity-attributes"@[6]);
        assert(section_meta("unity-components"@).title_en == t[5].1);
    } else if i == 7 {
        assert(heading_section(h) == Some("unity-physics"@));
        assert("unity-physics"@.len() != "git"@.len());
        assert("unity-physics"@.len() != "unity-lifecycle"@.len());
        assert("unity-physics"@.len() != "unity-debug"@.len());
        assert("unity-physics"@.len() != "unity-attributes"@.len());
        assert("unity-physics"@.len() != "unity-components"@.len());
        assert("unity-physics"@.len() != "unity-coroutine"@.len());
        assert(section_meta("unity-physics"@).title_en == t[7].1);
    } else if i == 8 {
        assert(heading_section(h) == Some("unity-math"@));
        assert("unity-math"@.len() != "git"@.len());
        assert("unity-math"@.len() != "unity-lifecycle"@.len());
        assert("unity-math"@.len() != "unity-debug"@.len());
        assert("unity-math"@.len() != "unity-attributes"@.len());
        assert("unity-math"@.len() != "unity-components"@.len());
        assert("unity-math"@.len() != "unity-coroutine"@.len());
        assert("unity-math"@.len() != "unity-physics"@.len());
        assert(section_meta("unity-math"@).title_en == t[8].1);
    } else if i == 9 {
        assert(heading_section(h) == Some("unity-transform"@));
        assert("unity-transform"@.len() != "git"@.len());
        assert("unity-transform"@[6] != "unity-lifecycle"@[6]);
        assert("unity-transform"@.len() != "unity-debug"@.len());
        assert("unity-transform"@.len() != "unity-attributes"@.len());
        assert("unity-transform"@.len() != "unity-components"@.len());
        assert("unity-transform"@[6] != "unity-coroutine"@[6]);
        assert("unity-transform"@.len() != "unity-physics"@.len());
        assert("unity-transform"@.len() != "unity-math"@.len());
        assert(section_meta("unity-transform"@).title_en == t[9].1);
    } else if i == 10 {
        assert(heading_section(h) == Some("unity-input"@));
        assert("unity-input"@.len() != "git"@.len());
        assert("unity-input"@.len() != "unity-lifecycle"@.len());
        assert("unity-input"@[6] != "unity-debug"@[6]);
        assert("unity-input"@.len() != "unity-attributes"@.len());
        assert("unity-input"@.len() != "unity-components"@.len());
        assert("unity-input"@.len() != "unity-coroutine"@.len());
        assert("unity-input"@.len() != "unity-physics"@.len());
        assert("unity-input"@.len() != "unity-math"@.len());
        assert("unity-input"@.len() != "unity-transform"@.len());
        assert(section_meta("unity-input"@).title_en == t[10].1);
    } else if i == 11 {
        assert(heading_section(h) == Some("unity-ui"@));
        assert("unity-ui"@.len() != "git"@.len());
        assert("unity-ui"@.len() != "unity-lifecycle"@.len());
        assert("unity-ui"@.len() != "unity-debug"@.len());
        assert("unity-ui"@.len() != "unity-attributes"@.len());
        assert("unity-ui"@.len() != "unity-components"@.len());
        assert("unity-ui"@.len() != "unity-coroutine"@.len());
        assert("unity-ui"@.len() != "unity-physics"@.len());
        assert("unity-ui"@.len() != "unity-math"@.len());
        assert("unity-ui"@.len() != "unity-transform"@.len());
        assert("unity-ui"@.len() != "unity-input"@.len());
        assert(section_meta("unity-ui"@).title_en == t[11].1);
    } else if i == 12 {
        assert(heading_section(h) == Some("unity-ui"@));
        assert("unity-ui"@.len() != "git"@.len());
        assert("unity-ui"@.len() != "unity-lifecycle"@.len());
        assert("unity-ui"@.len() != "unity-debug"@.len());
        assert("unity-ui"@.len() != "unity-attributes"@.len());
        assert("unity-ui"@.len() != "unity-components"@.len());
        assert("unity-ui"@.len() != "unity-coroutine"@.len());
        assert("unity-ui"@.len() != "unity-physics"@.len());
        assert("unity-ui"@.len() != "unity-math"@.len());
        assert("unity-ui"@.len() != "unity-transform"@.len());
        assert("unity-ui"@.len() != "unity-input"@.len());
        assert(section_meta("unity-ui"@).title_en == t[12].1);
    } else if i == 13 {
        assert(heading_section(h) == Some("unity-events"@));
        assert("unity-events"@.len() != "git"@.len());
        assert("unity-events"@.len() != "unity-lifecycle"@.len());
        assert("unity-events"@.len() != "unity-debug"@.len());
        assert("unity-events"@.len() != "unity-attributes"@.len());
        assert("unity-events"@.len() != "unity-components"@.len());
        assert("unity-events"@.len() != "unity-coroutine"@.len());
        assert("unity-events"@.len() != "unity-physics"@.len());
        assert("unity-events"@.len() != "unity-math"@.len());
        assert("unity-events"@.len() != "unity-transform"@.len());
        assert("unity-events"@.len() != "unity-input"@.len());
        assert("unity-events"@.len() != "unity-ui"@.len());
        assert(section_meta("unity-events"@).title_en == t[13].1);
    } else if i == 14 {
        assert(heading_section(h) == Some("unity-events"@));
        assert("unity-events"@.len() != "git"@.len());
        assert("unity-events"@.len() != "unity-lifecycle"@.len());
        assert("unity-events"@.len() != "unity-debug"@.len());
        assert("unity-events"@.len() != "unity-attributes"@.len());
        assert("unity-events"@.len() != "unity-components"@.len());
        assert("unity-events"@.len() != "unity-coroutine"@.len());
        assert("unity-events"@.len() != "unity-physics"@.len());
        assert("unity-events"@.len() != "unity-math"@.len());
        assert("unity-events"@.len() != "unity-transform"@.len());
        assert("unity-events"@.len() != "unity-input"@.len());
        assert("unity-events"@.len() != "unity-ui"@.len());
        assert(section_meta("unity-events"@).title_en == t[14].1);
    } else if i == 15 {
        assert(heading_section(h) == Some("unity-general"@));
        assert("unity-general"@.len() != "git"@.len());
        assert("unity-general"@.len() != "unity-lifecycle"@.len());
        assert("unity-general"@.len() != "unity-debug"@.len());
        assert("unity-general"@.len() != "unity-attributes"@.len());
        assert("unity-general"@.len() != "unity-components"@.len());
        assert("unity-general"@.len() != "unity-coroutine"@.len());
        assert("unity-general"@[6] != "unity-physics"@[6]);
        assert("unity-general"@.len() != "unity-math"@.len());
        assert("unity-general"@.len() != "unity-transform"@.len());
        assert("unity-general"@.len() != "unity-input"@.len());
        assert("unity-general"@.len() != "unity-ui"@.len());
        assert("unity-general"@.len() != "unity-events"@.len());
        assert(section_meta("unity-general"@).title_en == t[15].1);
    } else if i == 16 {
        assert(heading_section(h) == Some("unity-general"@));
        assert("unity-general"@.len() != "git"@.len());
        assert("unity-general"@.len() != "unity-lifecycle"@.len());
        assert("unity-general"@.len() != "unity-debug"@.len());
        assert("unity-general"@.len() != "unity-attributes"@.len());
        assert("unity-general"@.len() != "unity-components"@.len());
        assert("unity-general"@.len() != "unity-coroutine"@.len());
        assert("unity-general"@[6] != "unity-physics"@[6]);
        assert("unity-general"@.len() != "unity-math"@.len());
        assert("unity-general"@.len() != "unity-transform"@.len());
        assert("unity-general"@.len() != "unity-input"@.len());
        assert("unity-general"@.len() != "unity-ui"@.len());
        assert("unity-general"@.len() != "unity-events"@.len());
        assert(section_meta("unity-general"@).title_en == t[16].1);
    }
}

/// Two catalog headings that name packs of different titles open different sections, so
/// their entries never share a pack.
pub proof fn lemma_headings_distinct(h1: Seq<char>, i1: int, h2: Seq<char>, i2: int)
    requires
        names_only(h1, i1),
        names_only(h2, i2),
        i1 != 6,
        i2 != 6,
        heading_titles()[i1].1 != heading_titles()[i2].1,
    ensures
        heading_section(h1) != heading_section(h2),
{
    lemma_heading_names_its_pack(h1, i1);
    lemma_heading_names_its_pack(h2, i2);
}

fn meta(
    id: &str,
    title_en: &str,
    title_tr: &str,
    description_en: &str,
    description_tr: &str,
    app_filter: Vec<String>,
) -> (r: SectionMeta)
    ensures
        r.deep_view() == meta_view(
            id,
            title_en,
            title_tr,
            description_en,
            description_tr,
            app_filter.deep_view(),
        ),
{
    SectionMeta {
        id: id.to_string(),
        title_en: title_en.to_string(),
        title_tr: title_tr.to_string(),
        description_en: description_en.to_string(),
        description_tr: description_tr.to_string(),
        app_filter,
    }
}

fn no_apps() -> (r: Vec<String>)
    ensures
        r.deep_view() == Seq::<Seq<char>>::empty(),
{
    let r: Vec<String> = Vec::new();
    assert(r.deep_view() =~= Seq::<Seq<char>>::empty());
    r
}

/// How the section with this key looks in the catalog (`section_meta_for_key`).
pub fn section_meta_for_key(key: &str) -> (r: SectionMeta)
    ensures
        r.deep_view() == section_meta(key@),
{
    if str_equals(key, "git") {
        meta("git-version-control", "Git / Version Control", "Git / Sürüm Kontrolü",
            "Commit, branch, PR, and repository workflow helpers.",
            "Commit, branch, PR ve depo iş akışı yardımcıları.", no_apps())
    } else if str_equals(key, "unity-lifecycle") {
        meta("unity-lifecycle", "Unity / Lifecycle", "Unity / Yaşam Döngüsü",
            "MonoBehaviour lifecycle and callback templates.",
            "MonoBehaviour yaşam döngüsü ve callback şablonları.", unity_app_filter())
    } else if str_equals(key, "unity-debug") {
        meta("unity-debug", "Unity / Debug & Logging", "Unity / Debug ve Loglama",
            "Logging, assertions, and quick diagnostics.",
            "Loglama, assertion ve hızlı teşhis snippet'leri.", unity_app_filter())
    } else if str_equals(key, "unity-attributes") {
        meta("unity-attributes", "Unity / Attributes & Serialization",
            "Unity / Özellikler ve Serileştirme",
            "SerializeField, attributes, and inspector helpers.",
            "SerializeField, attribute'lar ve inspector yardımcıları.", unity_app_filter())
    } else if str_equals(key, "unity-components") {
        meta("unity-components", "Unity / Components & GameObject",
            "Unity / Bileşenler ve GameObject",
            "Component lookups, instantiation, destruction, and object state.",
            "Component erişimi, instantiate, destroy ve obje durumu.", unity_app_filter())
    } else if str_equals(key, "unity-coroutine") {
        meta("unity-coroutines", "Unity / Coroutines & Time", "Unity / Coroutine ve Zaman",
            "Coroutine patterns, waits, invocation, and timing helpers.",
            "Coroutine kalıpları, beklemeler, invoke ve zaman yardımcıları.", unity_app_filter())
    } else if str_equals(key, "unity-physics") {
        meta("unity-physics", "Unity / Physics", "Unity / Fizik",
            "Raycasts, overlaps, rigidbody utilities, and 2D physics.",
            "Raycast, overlap, rigidbody yardımcıları ve 2D fizik.", unity_app_filter())
    } else if str_equals(key, "unity-math") {
        meta("unity-math", "Unity / Math", "Unity / Matematik",
            "Vector, Mathf, and numerical helpers.", "Vector, Mathf ve sayısal yardımcılar.",
            unity_app_filter())
    } else if str_equals(key, "unity-transform") {
        meta("unity-transform", "Unity / Transform & Rotation",
            "Unity / Transform ve Rotasyon", "Transform access, parenting, and rotation helpers.",
            "Transform erişimi, parenting ve rotasyon yardımcıları.", unity_app_filter())
    } else if str_equals(key, "unity-input") {
        meta("unity-input", "Unity / Input", "Unity / Input",
            "Keyboard, mouse, touch, and Input System helpers.",
            "Klavye, mouse, touch ve Input System yardımcıları.", unity_app_filter())
    } else if str_equals(key, "unity-ui") {
        meta("unity-ui", "Unity / UI & TMP", "Unity / UI ve TMP",
            "TextMeshPro, UI components, and pointer events.",
            "TextMeshPro, UI bileşenleri ve pointer event'leri.", unity_app_filter())
    } else if str_equals(key, "unity-events") {
        meta("unity-events", "Unity / Events & Architecture", "Unity / Olaylar ve Mimari",
            "Events, UnityEvent, state, scene loading, and persistence.",
            "Event'ler, UnityEvent, state, scene yükleme ve kalıcılık.", unity_app_filter())
    } else if str_equals(key, "unity-general") {
        meta("unity-general", "Unity / General C# Utilities",
            "Unity / Genel C# Yardımcıları",
            "Using statements and general-purpose C# helpers for Unity work.",
            "Unity çalışmaları için using ve genel amaçlı C# yardımcıları.",
            general_dev_app_filter())
    } else {
        meta("daily-productivity", "Daily / General Productivity", "Günlük Verimlilik",
            "Date, contact, symbols, and lightweight communication snippets.",
            "Tarih, iletişim, semboller ve günlük akışta sık kullanılan yardımcı snippet'ler.",
            no_apps())
    }
}

/// The locale is Turkish: it starts with `tr` once lower-cased.
pub open spec fn is_turkish(locale: Seq<char>) -> bool {
    has_prefix(spec_to_lowercase(locale), "tr"@)
}

/// Whether the locale is Turkish.
pub fn locale_is_turkish(locale: &str) -> (r: bool)
    ensures
        r == is_turkish(locale@),
{
    let lower = to_lowercase(locale);
    starts_with(lower.as_str(), "tr")
}

/// The name in the signature: the trimmed profile name, or `Can` when there is none.
pub open spec fn profile_display(profile: Option<Seq<char>>) -> Seq<char> {
    match profile {
        Some(p) => if trim_ws(p).len() > 0 {
            trim_ws(p)
        } else {
            "Can"@
        },
        None => "Can"@,
    }
}

/// The signature block for a name.
pub open spec fn signature(name: Seq<char>) -> Seq<char> {
    "Saygılarımla,\n"@ + name
}

/// `a` is `e` with a fresh UUID as its identifier.
pub open spec fn same_but_id(a: ExpansionView, e: ExpansionView) -> bool {
    &&& is_uuid_text(a.id)
    &&& a.trigger == e.trigger
    &&& a.replacement == e.replacement
    &&& a.description == e.description
    &&& a.enabled == e.enabled
    &&& a.case_sensitive == e.case_sensitive
    &&& a.word_boundary == e.word_boundary
    &&& a.app_filter == e.app_filter
    &&& a.created_at == e.created_at
    &&& a.updated_at == e.updated_at
}

/// A seeded expansion: enabled, case-insensitive, on word boundaries, for every
/// application, created and updated at `now`.
pub open spec fn seeded_view(trigger: Seq<char>, replacement: Seq<char>, description: Seq<char>, now: Seq<
    char,
>) -> ExpansionView {
    ExpansionView {
        id: Seq::empty(),
        trigger,
        replacement,
        description: Some(description),
        enabled: true,
        case_sensitive: false,
        word_boundary: true,
        app_filter: Seq::empty(),
        created_at: now,
        updated_at: now,
    }
}

/// The items of the core pack.
pub open spec fn core_items_spec(name: Seq<char>, now: Seq<char>) -> Seq<ExpansionView> {
    seq![
        seeded_view(":date"@, "{{date}}"@, "Insert today's date"@, now),
        seeded_view(":time"@, "{{time}}"@, "Insert current time"@, now),
        seeded_view(":datetime"@, "{{datetime}}"@, "Insert current date and time"@, now),
        seeded_view(":uuid"@, "{{uuid}}"@, "Insert a new UUID"@, now),
        seeded_view(":clip"@, "{{clipboard}}"@, "Insert clipboard text"@, now),
        seeded_view(":sig"@, signature(name), "Insert signature block"@, now),
    ]
}

/// `items` are the core pack's items for `name`, stamped at `now`, each with a fresh
/// identifier.
pub open spec fn core_items_at(items: Seq<ExpansionView>, name: Seq<char>, now: Seq<char>) -> bool {
    &&& items.len() == 6
    &&& forall|k: int|
        0 <= k < 6 ==> same_but_id(#[trigger] items[k], core_items_spec(name, now)[k])
}

/// `items` are the core pack's items for `name`, all stamped at one moment.
pub open spec fn core_items_ok(items: Seq<ExpansionView>, name: Seq<char>) -> bool {
    exists|now: Seq<char>| #[trigger] core_items_at(items, name, now) && rfc3339_text(now)
}

/// A seeded expansion with a fresh identifier.
pub fn seeded(trigger: &str, replacement: &str, description: &str, now: &str) -> (r: TextExpansion)
    ensures
        same_but_id(r.deep_view(), seeded_view(trigger@, replacement@, description@, now@)),
{
    let app_filter: Vec<String> = Vec::new();
    assert(app_filter.deep_view() =~= Seq::<Seq<char>>::empty());
    TextExpansion {
        id: new_uuid_text(),
        trigger: trigger.to_string(),
        replacement: replacement.to_string(),
        description: Some(description.to_string()),
        enabled: true,
        case_sensitive: false,
        word_boundary: true,
        app_filter,
        created_at: now.to_string(),
        updated_at: now.to_string(),
    }
}

/// The name to sign with.
pub fn profile_display_name(profile_name: Option<&str>) -> (r: String)
    ensures
        r@ == profile_display(profile_name.deep_view()),
{
    match profile_name {
        Some(p) => {
            let t = trim(p);
            if t.as_str().is_empty() {
                "Can".to_string()
            } else {
                t
            }
        },
        None => "Can".to_string(),
    }
}

/// The signature block for a name.
pub fn signature_text(name: &str) -> (r: String)
    ensures
        r@ == signature(name@),
{
    let mut r = String::new();
    r.append("Saygılarımla,\n");
    r.append(name);
    assert(r@ =~= signature(name@));
    r
}

/// The items of the core pack, each with a fresh identifier and stamped with the current
/// time.
pub fn core_essentials_items(profile_name: Option<&str>) -> (r: Vec<TextExpansion>)
    ensures
        r.len() == 6,
        core_items_ok(r.deep_view(), profile_display(profile_name.deep_view())),
{
    let name = profile_display_name(profile_name);
    let now = now_rfc3339();
    let now_s = now.as_str();
    let mut r: Vec<TextExpansion> = Vec::new();
    r.push(seeded(":date", "{{date}}", "Insert today's date", now_s));
    r.push(seeded(":time", "{{time}}", "Insert current time", now_s));
    r.push(seeded(":datetime", "{{datetime}}", "Insert current date and time", now_s));
    r.push(seeded(":uuid", "{{uuid}}", "Insert a new UUID", now_s));
    r.push(seeded(":clip", "{{clipboard}}", "Insert clipboard text", now_s));
    let sig = signature_text(name.as_str());
    r.push(seeded(":sig", sig.as_str(), "Insert signature block", now_s));
    let ghost spec = core_items_spec(profile_display(profile_name.deep_view()), now@);
    assert(forall|k: int|
        0 <= k < 6 ==> same_but_id(#[trigger] r.deep_view()[k], spec[k]));
    assert(core_items_at(r.deep_view(), profile_display(profile_name.deep_view()), now@));
    r
}

/// The item that a catalog entry of a section becomes (its identifier aside): the
/// canonical trigger, the signature for `:sig`, enabled, case-insensitive, on word
/// boundaries, limited to the section's applications, without times.
pub open spec fn entry_item(section_key: Seq<char>, e: EntryView, profile: Option<Seq<char>>) -> ExpansionView {
    let trigger = canonical_default_trigger(section_key, e.trigger);
    ExpansionView {
        id: Seq::empty(),
        trigger,
        replacement: if trigger == ":sig"@ {
            signature(profile_display(profile))
        } else {
            e.replacement
        },
        description: None,
        enabled: true,
        case_sensitive: false,
        word_boundary: true,
        app_filter: section_item_filter(section_key),
        created_at: Seq::empty(),
        updated_at: Seq::empty(),
    }
}

/// The application filter of the items of a section.
pub fn section_items_filter(key: &str) -> (r: Vec<String>)
    ensures
        r.deep_view() == section_item_filter(key@),
{
    if str_equals(key, "unity-general") {
        general_dev_app_filter()
    } else if starts_with(key, "unity") {
        unity_app_filter()
    } else {
        no_apps()
    }
}

/// The expansions of a catalog section, each with a fresh identifier.
pub fn section_items(section: &CatalogSection, profile_name: Option<&str>) -> (r: Vec<TextExpansion>)
    ensures
        r.len() == section.entries.len(),
        forall|j: int|
            0 <= j < r.len() ==> same_but_id(
                #[trigger] r.deep_view()[j],
                entry_item(section.key@, section.entries.deep_view()[j], profile_name.deep_view()),
            ),
{
    let mut out: Vec<TextExpansion> = Vec::new();
    let mut j: usize = 0;
    let mut empty = String::new();
    while j < section.entries.len()
        invariant
            j <= section.entries.len(),
            out.len() == j,
            empty@ == Seq::<char>::empty(),
            forall|k: int|
                0 <= k < j ==> same_but_id(
                    #[trigger] out.deep_view()[k],
                    entry_item(section.key@, section.entries.deep_view()[k], profile_name.deep_view()),
                ),
        decreases section.entries.len() - j,
    {
        let e = &section.entries[j];
        let trigger = canonicalize_default_trigger(section.key.as_str(), e.trigger.as_str());
        let replacement = if str_equals(trigger.as_str(), ":sig") {
            let name = profile_display_name(profile_name);
            signature_text(name.as_str())
        } else {
            e.replacement.clone()
        };
        let item = TextExpansion {
            id: new_uuid_text(),
            trigger,
            replacement,
            description: None,
            enabled: true,
            case_sensitive: false,
            word_boundary: true,
            app_filter: section_items_filter(section.key.as_str()),
            created_at: String::new(),
            updated_at: String::new(),
        };
        assert(section.entries.deep_view()[j as int] == e.deep_view());
        let ghost iv = item.deep_view();
        let ghost before = out.deep_view();
        out.push(item);
        assert(out.deep_view() =~= before.push(iv));
        j += 1;
    }
    out
}

/// A pack in the look of its section and locale (`build_pack_from_section`).
pub open spec fn section_pack(section_key: Seq<char>, locale: Seq<char>, items: Seq<ExpansionView>) -> PackView {
    let m = section_meta(section_key);
    PackView {
        id: m.id,
        title: if is_turkish(locale) {
            m.title_tr
        } else {
            m.title_en
        },
        description: if is_turkish(locale) {
            m.description_tr
        } else {
            m.description_en
        },
        recommended: true,
        app_filter: m.app_filter,
        items,
    }
}

/// Builds the pack of a section from its items.
pub fn build_pack_from_section(section_key: &str, locale: &str, items: Vec<TextExpansion>) -> (r: TextExpansionPack)
    ensures
        r.deep_view() == section_pack(section_key@, locale@, items.deep_view()),
{
    let m = section_meta_for_key(section_key);
    let is_tr = locale_is_turkish(locale);
    TextExpansionPack {
        id: m.id,
        title: if is_tr {
            m.title_tr
        } else {
            m.title_en
        },
        description: if is_tr {
            m.description_tr
        } else {
            m.description_en
        },
        recommended: true,
        app_filter: m.app_filter,
        items,
    }
}

/// The core pack's look in a locale (its items aside).
pub open spec fn core_pack_ok(p: PackView, locale: Seq<char>) -> bool {
    &&& p.id == "core-essentials"@
    &&& p.title == if is_turkish(locale) {
        "Çekirdek / Temel"@
    } else {
        "Core / Essentials"@
    }
    &&& p.description == if is_turkish(locale) {
        "Tarih, saat, UUID ve pano için her zaman açık temel parçalar."@
    } else {
        "Always-available helpers for date, time, UUID, and clipboard."@
    }
    &&& p.recommended
    &&& p.app_filter == Seq::<Seq<char>>::empty()
}

/// A catalog's pack `p` is the pack of `section`: the section's look in the locale, and
/// one item for each entry, in order, with fresh identifiers.
pub open spec fn section_pack_ok(p: PackView, section: SectionView, locale: Seq<char>, profile: Option<
    Seq<char>,
>) -> bool {
    &&& p == section_pack(section.key, locale, p.items)
    &&& p.items.len() == section.entries.len()
    &&& forall|j: int|
        0 <= j < p.items.len() ==> same_but_id(
            #[trigger] p.items[j],
            entry_item(section.key, section.entries[j], profile),
        )
}

/// `c` is the default catalog of `source` for `locale`, signed for `profile`: version 1,
/// the core pack first, then one pack per section of the source, in order, every pack
/// recommended and listed by identifier.
pub open spec fn default_catalog_ok(c: CatalogView, source: Seq<char>, locale: Seq<char>, profile: Option<
    Seq<char>,
>) -> bool {
    &&& c.version == 1
    &&& c.locale == locale
    &&& c.packs.len() == catalog_sections(source).len() + 1
    &&& core_pack_ok(c.packs[0], locale)
    &&& core_items_ok(c.packs[0].items, profile_display(profile))
    &&& c.packs[0].items.len() == 6
    &&& forall|k: int|
        0 <= k < catalog_sections(source).len() ==> section_pack_ok(
            #[trigger] c.packs[k + 1],
            catalog_sections(source)[k],
            locale,
            profile,
        )
    &&& c.recommended_pack_ids.len() == c.packs.len()
    &&& forall|k: int| 0 <= k < c.packs.len() ==> (#[trigger] c.recommended_pack_ids[k]) == c.packs[k].id
}

/// The catalog for a locale (`build_default_catalog`): the core pack first, then one
/// pack per section of the source, in order; every pack recommended.
pub fn build_default_catalog(source: &str, locale: &str, profile_name: Option<&str>) -> (r: TextExpansionCatalog)
    ensures
        default_catalog_ok(r.deep_view(), source@, locale@, profile_name.deep_view()),
{
    let is_tr = locale_is_turkish(locale);
    let core_items = core_essentials_items(profile_name);
    let core = TextExpansionPack {
        id: "core-essentials".to_string(),
        title: if is_tr {
            "Çekirdek / Temel".to_string()
        } else {
            "Core / Essentials".to_string()
        },
        description: if is_tr {
            "Tarih, saat, UUID ve pano için her zaman açık temel parçalar.".to_string()
        } else {
            "Always-available helpers for date, time, UUID, and clipboard.".to_string()
        },
        recommended: true,
        app_filter: no_apps(),
        items: core_items,
    };
    let mut packs: Vec<TextExpansionPack> = Vec::new();
    packs.push(core);
    let sections = parse_catalog(source);
    let ghost secs = sections.deep_view();
    let mut k: usize = 0;
    while k < sections.len()
        invariant
            k <= sections.len(),
            secs == sections.deep_view(),
            secs == catalog_sections(source@),
            packs.len() == k + 1,
            core_pack_ok(packs.deep_view()[0], locale@),
            packs.deep_view()[0].items.len() == 6,
            core_items_ok(packs.deep_view()[0].items, profile_display(profile_name.deep_view())),
            forall|i: int|
                0 <= i < k ==> section_pack_ok(
                    #[trigger] packs.deep_view()[i + 1],
                    secs[i],
                    locale@,
                    profile_name.deep_view(),
                ),
        decreases sections.len() - k,
    {
        let items = section_items(&sections[k], profile_name);
        let pack = build_pack_from_section(sections[k].key.as_str(), locale, items);
        assert(secs[k as int] == sections[k as int].deep_view());
        let ghost pv = pack.deep_view();
        let ghost before = packs.deep_view();
        packs.push(pack);
        assert(packs.deep_view() =~= before.push(pv));
        k += 1;
    }
    let mut ids: Vec<String> = Vec::new();
    let mut k: usize = 0;
    while k < packs.len()
        invariant
            k <= packs.len(),
            ids.len() == k,
            forall|i: int| 0 <= i < k ==> (#[trigger] ids.deep_view()[i]) == packs.deep_view()[i].id,
        decreases packs.len() - k,
    {
        let ghost before = ids.deep_view();
        ids.push(packs[k].id.clone());
        assert(ids.deep_view() =~= before.push(packs.deep_view()[k as int].id));
        k += 1;
    }
    TextExpansionCatalog {
        version: 1,
        locale: locale.to_string(),
        recommended_pack_ids: ids,
        packs,
    }
}

} // verus!
