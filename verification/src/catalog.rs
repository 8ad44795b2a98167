//! The default catalog of expansion packs, read from its text source: `## ` headings name
//! the sections, and lines of the form ``- `trigger` → replacement`` give the entries.

use crate::text::{
    chars_of, first_char, has_infix, has_prefix, lemma_first_from, lemma_first_from_skip, replace,
    replace_all, spec_to_lowercase, split_once_char, starts_with, string_from, to_lowercase, trim,
    trim_ws, contains, find_from, trim_start_char, trim_start_matches,
};
use vstd::prelude::*;

verus! {

/// A line without its trailing carriage return.
pub open spec fn strip_cr(l: Seq<char>) -> Seq<char> {
    if l.len() > 0 && l.last() == '\r' {
        l.drop_last()
    } else {
        l
    }
}

/// The lines of a text, as `str::lines` yields them: split at each `\n`, a final `\n`
/// ending the last line, and a `\r` just before a `\n` dropped with it (a `\r` that ends
/// the text without a `\n` after it stays).
pub open spec fn lines_of(s: Seq<char>) -> Seq<Seq<char>>
    decreases s.len(),
{
    if s.len() == 0 {
        Seq::empty()
    } else {
        match first_char(s, '\n') {
            None => seq![s],
            Some(i) => {
                proof {
                    lemma_first_from(s, seq!['\n'], 0);
                }
                seq![strip_cr(s.take(i))] + lines_of(s.skip(i + 1))
            },
        }
    }
}

/// The lines of a text (`str::lines`).
pub fn lines(s: &str) -> (r: Vec<String>)
    ensures
        r.deep_view() == lines_of(s@),
{
    let v = chars_of(s);
    let n = v.len();
    let nl = vec!['\n'];
    assert(nl@ =~= seq!['\n']);
    let mut out: Vec<String> = Vec::new();
    let mut i: usize = 0;
    assert(v@.skip(0) =~= v@);
    assert(out.deep_view() + lines_of(v@.skip(0)) =~= lines_of(s@));
    while i < n
        invariant
            i <= n,
            n == v@.len(),
            v@ == s@,
            nl@ == seq!['\n'],
            out.deep_view() + lines_of(v@.skip(i as int)) == lines_of(s@),
        decreases n - i,
    {
        let ghost rest = v@.skip(i as int);
        let ghost before = out.deep_view();
        proof {
            lemma_first_from(v@, nl@, i as int);
            lemma_first_from(rest, nl@, 0);
        }
        let end = match find_from(&v, &nl, i) {
            Some(j) => j,
            None => n,
        };
        let mut j = end;
        if end < n && j > i && v[j - 1] == '\r' {
            j = j - 1;
        }
        let line = string_from(&v, i, j);
        proof {
            lemma_first_from_skip(v@, nl@, i as int, 0);
            if end < n {
                assert(first_char(rest, '\n') == Some(end - i));
                assert(rest.take(end - i) =~= v@.subrange(i as int, end as int));
                assert(rest.skip(end - i + 1) =~= v@.skip(end + 1));
            } else {
                assert(first_char(rest, '\n') is None);
                assert(rest =~= v@.subrange(i as int, n as int));
            }
            if end < n {
                assert(line@ =~= strip_cr(v@.subrange(i as int, end as int)));
            } else {
                assert(line@ =~= v@.subrange(i as int, end as int));
            }
        }
        out.push(line);
        proof {
            assert(out.deep_view() =~= before.push(line@));
            if end < n {
                assert(lines_of(rest) =~= seq![line@] + lines_of(v@.skip(end + 1)));
                assert(out.deep_view() + lines_of(v@.skip(end + 1)) =~= before + lines_of(rest));
            } else {
                assert(lines_of(rest) =~= seq![line@]);
                assert(v@.skip(n as int) =~= Seq::<char>::empty());
                assert(out.deep_view() + lines_of(v@.skip(n as int)) =~= before + lines_of(rest));
            }
        }
        i = if end < n {
            end + 1
        } else {
            n
        };
    }
    assert(v@.skip(n as int) =~= Seq::<char>::empty());
    assert(out.deep_view() + Seq::<Seq<char>>::empty() =~= out.deep_view());
    out
}

/// A heading as its words are looked up: `—` turned into `-`, then lower-cased.
pub open spec fn heading_words(heading: Seq<char>) -> Seq<char> {
    spec_to_lowercase(replace_all(heading, "\u{2014}"@, "-"@))
}

/// The section key that a catalog heading names, by the words it contains (after `—`
/// becomes `-` and the text is lower-cased).
pub open spec fn heading_section(heading: Seq<char>) -> Option<Seq<char>> {
    let n = heading_words(heading);
    if has_infix(n, "g\u{fc}nl\u{fc}k kullan\u{131}m"@) {
        Some("daily"@)
    } else if has_infix(n, "git & commit"@) {
        Some("git"@)
    } else if has_infix(n, "unity - lifecycle"@) {
        Some("unity-lifecycle"@)
    } else if has_infix(n, "unity - debug & logging"@) {
        Some("unity-debug"@)
    } else if has_infix(n, "unity - attributes & serialization"@) {
        Some("unity-attributes"@)
    } else if has_infix(n, "unity - component & gameobject"@) {
        Some("unity-components"@)
    } else if has_infix(n, "unity - coroutine & time"@) {
        Some("unity-coroutines"@)
    } else if has_infix(n, "unity - physics"@) {
        Some("unity-physics"@)
    } else if has_infix(n, "unity - math"@) {
        Some("unity-math"@)
    } else if has_infix(n, "unity - transform & rotation"@) {
        Some("unity-transform"@)
    } else if has_infix(n, "unity - input"@) {
        Some("unity-input"@)
    } else if has_infix(n, "unity - ui / tmp"@) || has_infix(n, "unity - ui & tmp"@) {
        Some("unity-ui"@)
    } else if has_infix(n, "unity - events & architecture"@) {
        Some("unity-events"@)
    } else if has_infix(n, "unity - events & mimari"@) {
        Some("unity-events"@)
    } else if has_infix(n, "genel c# & using"@) || has_infix(n, "unity - general c#"@) {
        Some("unity-general"@)
    } else {
        None
    }
}

fn some_text(s: &str) -> (r: Option<String>)
    ensures
        r matches Some(t) && t@ == s@,
{
    Some(s.to_string())
}

/// The section key that a catalog heading names.
pub fn heading_to_section_key(heading: &str) -> (r: Option<String>)
    ensures
        r.deep_view() == heading_section(heading@),
{
    proof {
        reveal_strlit("\u{2014}");
    }
    let replaced = replace(heading, "\u{2014}", "-");
    let n = to_lowercase(replaced.as_str());
    let n = n.as_str();
    if contains(n, "g\u{fc}nl\u{fc}k kullan\u{131}m") {
        some_text("daily")
    } else if contains(n, "git & commit") {
        some_text("git")
    } else if contains(n, "unity - lifecycle") {
        some_text("unity-lifecycle")
    } else if contains(n, "unity - debug & logging") {
        some_text("unity-debug")
    } else if contains(n, "unity - attributes & serialization") {
        some_text("unity-attributes")
    } else if contains(n, "unity - component & gameobject") {
        some_text("unity-components")
    } else if contains(n, "unity - coroutine & time") {
        some_text("unity-coroutines")
    } else if contains(n, "unity - physics") {
        some_text("unity-physics")
    } else if contains(n, "unity - math") {
        some_text("unity-math")
    } else if contains(n, "unity - transform & rotation") {
        some_text("unity-transform")
    } else if contains(n, "unity - input") {
        some_text("unity-input")
    } else if contains(n, "unity - ui / tmp") || contains(n, "unity - ui & tmp") {
        some_text("unity-ui")
    } else if contains(n, "unity - events & architecture") {
        some_text("unity-events")
    } else if contains(n, "unity - events & mimari") {
        some_text("unity-events")
    } else if contains(n, "genel c# & using") || contains(n, "unity - general c#") {
        some_text("unity-general")
    } else {
        None
    }
}

/// The text between the first and the second backtick of `left` (to its end if there is
/// no second one), as `left.split('`').nth(1)`.
pub open spec fn backtick_field(left: Seq<char>) -> Option<Seq<char>> {
    match first_char(left, '`') {
        None => None,
        Some(a) => {
            let rest = left.skip(a + 1);
            match first_char(rest, '`') {
                None => Some(rest),
                Some(b) => Some(rest.take(b)),
            }
        },
    }
}

/// The trigger and replacement of a catalog line ``… `trigger` … → replacement``: the
/// trigger trimmed, the replacement trimmed with each backslash-`n` turned into a line end.
pub open spec fn catalog_line(line: Seq<char>) -> Option<(Seq<char>, Seq<char>)> {
    match first_char(line, '\u{2192}') {
        None => None,
        Some(i) => match backtick_field(line.take(i)) {
            None => None,
            Some(f) => Some((trim_ws(f), replace_all(trim_ws(line.skip(i + 1)), "\\n"@, "\n"@))),
        },
    }
}

/// The trigger and replacement of a catalog line, if it is an entry.
pub fn parse_catalog_line(line: &str) -> (r: Option<(String, String)>)
    ensures
        match catalog_line(line@) {
            Some((t, rep)) => r matches Some((a, b)) && a@ == t && b@ == rep,
            None => r is None,
        },
{
    let (left, right) = match split_once_char(line, '\u{2192}') {
        Some(p) => p,
        None => return None,
    };
    let ghost i = first_char(line@, '\u{2192}')->0;
    assert(left@ =~= line@.take(i));
    let (_, after) = match split_once_char(left.as_str(), '`') {
        Some(p) => p,
        None => return None,
    };
    let ghost a = first_char(left@, '`')->0;
    assert(after@ =~= left@.skip(a + 1));
    let field = match split_once_char(after.as_str(), '`') {
        Some((f, _)) => {
            assert(f@ =~= after@.take(first_char(after@, '`')->0));
            f
        },
        None => after,
    };
    let trigger = trim(field.as_str());
    proof {
        reveal_strlit("\\n");
    }
    let replacement = replace(trim(right.as_str()).as_str(), "\\n", "\n");
    Some((trigger, replacement))
}

/// The trigger of a catalog entry in its canonical form: in Unity sections, leading `:`
/// removed and a `U` put in front unless it starts with one; elsewhere trimmed.
pub open spec fn canonical_default_trigger(section_key: Seq<char>, trigger: Seq<char>) -> Seq<char> {
    let t = trim_ws(trigger);
    if has_prefix(section_key, "unity"@) {
        let s = trim_start_char(t, ':');
        if has_prefix(s, "U"@) {
            s
        } else {
            "U"@ + s
        }
    } else {
        t
    }
}

/// The canonical trigger of a catalog entry.
pub fn canonicalize_default_trigger(section_key: &str, trigger: &str) -> (r: String)
    ensures
        r@ == canonical_default_trigger(section_key@, trigger@),
{
    let t = trim(trigger);
    if starts_with(section_key, "unity") {
        let s = trim_start_matches(t.as_str(), ':');
        if starts_with(s.as_str(), "U") {
            s
        } else {
            let mut r = String::new();
            r.append("U");
            r.append(s.as_str());
            r
        }
    } else {
        t
    }
}

/// One entry of a catalog section.
pub struct CatalogEntry {
    pub trigger: String,
    pub replacement: String,
}

pub struct EntryView {
    pub trigger: Seq<char>,
    pub replacement: Seq<char>,
}

impl DeepView for CatalogEntry {
    type V = EntryView;

    open spec fn deep_view(&self) -> EntryView {
        EntryView { trigger: self.trigger@, replacement: self.replacement@ }
    }
}

/// A section of the catalog source: its key and its entries in order.
pub struct CatalogSection {
    pub key: String,
    pub entries: Vec<CatalogEntry>,
}

pub struct SectionView {
    pub key: Seq<char>,
    pub entries: Seq<EntryView>,
}

impl DeepView for CatalogSection {
    type V = SectionView;

    open spec fn deep_view(&self) -> SectionView {
        SectionView { key: self.key@, entries: self.entries.deep_view() }
    }
}

/// Where reading the catalog source stands: the sections closed so far and the open one.
pub struct ParseState {
    pub sections: Seq<SectionView>,
    pub current: Option<SectionView>,
}

/// Reading one line: blank lines are skipped; a `## ` heading closes the open section and
/// opens the one it names (or none, for an unknown heading); an entry line joins the open
/// section; any other line, or a line outside a section, is skipped.
pub open spec fn parse_step(st: ParseState, line: Seq<char>) -> ParseState {
    let t = trim_ws(line);
    if t.len() == 0 {
        st
    } else if has_prefix(t, "## "@) {
        let closed = match st.current {
            Some(c) => st.sections.push(c),
            None => st.sections,
        };
        ParseState {
            sections: closed,
            current: match heading_section(t.skip("## "@.len() as int)) {
                Some(k) => Some(SectionView { key: k, entries: Seq::empty() }),
                None => None,
            },
        }
    } else {
        match st.current {
            None => st,
            Some(c) => match catalog_line(t) {
                None => st,
                Some((tr, rep)) => ParseState {
                    sections: st.sections,
                    current: Some(
                        SectionView {
                            key: c.key,
                            entries: c.entries.push(EntryView { trigger: tr, replacement: rep }),
                        },
                    ),
                },
            },
        }
    }
}

/// The state after reading the lines in order.
pub open spec fn parse_lines(ls: Seq<Seq<char>>) -> ParseState
    decreases ls.len(),
{
    if ls.len() == 0 {
        ParseState { sections: Seq::empty(), current: None }
    } else {
        parse_step(parse_lines(ls.drop_last()), ls.last())
    }
}

/// The sections of a catalog source, the last open one closed at the end.
pub open spec fn catalog_sections(source: Seq<char>) -> Seq<SectionView> {
    let st = parse_lines(lines_of(source));
    match st.current {
        Some(c) => st.sections.push(c),
        None => st.sections,
    }
}

/// Reads the sections of a catalog source.
pub fn parse_catalog(source: &str) -> (r: Vec<CatalogSection>)
    ensures
        r.deep_view() == catalog_sections(source@),
{
    let ls = lines(source);
    let mut sections: Vec<CatalogSection> = Vec::new();
    let mut current: Option<CatalogSection> = None;
    let mut i: usize = 0;
    assert(ls.deep_view().take(0) =~= Seq::<Seq<char>>::empty());
    assert(sections.deep_view() =~= Seq::<SectionView>::empty());
    proof {
        reveal_strlit("## ");
    }
    while i < ls.len()
        invariant
            i <= ls.len(),
            "## "@.len() == 3,
            parse_lines(ls.deep_view().take(i as int)) == (ParseState {
                sections: sections.deep_view(),
                current: current.deep_view(),
            }),
        decreases ls.len() - i,
    {
        let ghost st = parse_lines(ls.deep_view().take(i as int));
        let ghost pre = ls.deep_view().take(i + 1);
        assert(pre.drop_last() =~= ls.deep_view().take(i as int));
        assert(pre.last() == ls[i as int]@);
        let t = trim(ls[i].as_str());
        if t.as_str().is_empty() {
        } else if starts_with(t.as_str(), "## ") {
            let tv = chars_of(t.as_str());
            let heading = string_from(&tv, 3, tv.len());
            assert(heading@ =~= t@.skip("## "@.len() as int));
            let ghost before = sections.deep_view();
            match current {
                Some(c) => {
                    let ghost cv = c.deep_view();
                    sections.push(c);
                    assert(sections.deep_view() =~= before.push(cv));
                },
                None => {},
            }
            current = match heading_to_section_key(heading.as_str()) {
                Some(k) => {
                    let sec = CatalogSection { key: k, entries: Vec::new() };
                    assert(sec.entries.deep_view() =~= Seq::<EntryView>::empty());
                    Some(sec)
                },
                None => None,
            };
            assert(current.deep_view() == parse_step(st, pre.last()).current);
        } else {
            match current {
                None => {},
                Some(c) => {
                    let mut c = c;
                    match parse_catalog_line(t.as_str()) {
                        None => {},
                        Some((tr, rep)) => {
                            let ghost before = c.entries.deep_view();
                            let e = CatalogEntry { trigger: tr, replacement: rep };
                            let ghost ev = e.deep_view();
                            c.entries.push(e);
                            assert(c.entries.deep_view() =~= before.push(ev));
                        },
                    }
                    current = Some(c);
                },
            }
        }
        i += 1;
    }
    assert(ls.deep_view().take(ls.len() as int) =~= ls.deep_view());
    let ghost before = sections.deep_view();
    match current {
        Some(c) => {
            let ghost cv = c.deep_view();
            sections.push(c);
            assert(sections.deep_view() =~= before.push(cv));
        },
        None => {},
    }
    sections
}

} // verus!
