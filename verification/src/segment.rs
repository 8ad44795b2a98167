//! Grapheme-cluster operations on the typed-text buffer, built on `unicode_segmentation`.

use crate::text::{has_prefix, has_suffix};
use unicode_segmentation::UnicodeSegmentation;
use vstd::prelude::*;

verus! {

/// The extended grapheme clusters of a string, as `graphemes(true)` of
/// `unicode_segmentation` yields them.
pub uninterp spec fn spec_graphemes(s: Seq<char>) -> Seq<Seq<char>>;

/// `UnicodeSegmentation::graphemes(s, true)`, collected.  Its source yields the slices
/// `s[start..next]` between consecutive boundaries from the start of the string to its
/// end, so the clusters are non-empty and concatenate to `s`; the clusters themselves are
/// only named.
#[verifier::external_body]
pub(crate) fn graphemes_of(s: &str) -> (r: Vec<String>)
    ensures
        r.deep_view() == spec_graphemes(s@),
        r.deep_view().flatten() == s@,
        forall|i: int| 0 <= i < r.len() ==> (#[trigger] r@[i])@.len() > 0,
{
    s.graphemes(true).map(String::from).collect()
}

/// The string made of the last `keep` grapheme clusters of `s` (all of them when there
/// are no more than `keep`).
pub open spec fn keep_last_graphemes(s: Seq<char>, keep: nat) -> Seq<char> {
    let g = spec_graphemes(s);
    if g.len() <= keep {
        s
    } else {
        g.skip(g.len() - keep).flatten()
    }
}

/// The string without its last grapheme cluster (empty if it has none).
pub open spec fn drop_last_grapheme(s: Seq<char>) -> Seq<char> {
    let g = spec_graphemes(s);
    if g.len() > 0 {
        g.drop_last().flatten()
    } else {
        Seq::empty()
    }
}

/// The string made of the clusters `g[lo..hi]`.
fn concat_range(g: &Vec<String>, lo: usize, hi: usize) -> (r: String)
    requires
        lo <= hi <= g.len(),
    ensures
        r@ == g.deep_view().subrange(lo as int, hi as int).flatten(),
{
    let mut r = String::new();
    let mut i = lo;
    proof {
        assert(g.deep_view().subrange(lo as int, lo as int) =~= Seq::<Seq<char>>::empty());
    }
    while i < hi
        invariant
            lo <= i <= hi <= g.len(),
            r@ == g.deep_view().subrange(lo as int, i as int).flatten(),
        decreases hi - i,
    {
        r.append(g[i].as_str());
        proof {
            let d = g.deep_view();
            assert(d.subrange(lo as int, i + 1) =~= d.subrange(lo as int, i as int).push(d[i as int]));
            d.subrange(lo as int, i as int).lemma_flatten_push(d[i as int]);
        }
        i += 1;
    }
    r
}

/// The number of grapheme clusters of a trigger.
pub fn trigger_grapheme_count(trigger: &str) -> (r: usize)
    ensures
        r == spec_graphemes(trigger@).len(),
{
    let g = graphemes_of(trigger);
    g.len()
}

/// Keeps only the last `keep_last` grapheme clusters of `text`.
pub fn strip_front_graphemes(text: &mut String, keep_last: usize)
    ensures
        final(text)@ == keep_last_graphemes(old(text)@, keep_last as nat),
        has_suffix(old(text)@, final(text)@),
{
    let g = graphemes_of(text.as_str());
    let total = g.len();
    if total <= keep_last {
        assert(text@.subrange(0, 0) + text@ =~= text@);
        assert(text@.subrange(text@.len() - text@.len(), text@.len() as int) =~= text@);
        return;
    }
    let drop_count = total - keep_last;
    let kept = concat_range(&g, drop_count, total);
    proof {
        let d = g.deep_view();
        assert(d.subrange(drop_count as int, total as int) =~= d.skip(drop_count as int));
        assert(d =~= d.take(drop_count as int) + d.skip(drop_count as int));
        vstd::seq_lib::lemma_flatten_concat(d.take(drop_count as int), d.skip(drop_count as int));
        let a = d.take(drop_count as int).flatten();
        let b = d.skip(drop_count as int).flatten();
        assert(text@ == a + b);
        assert((a + b).subrange(a.len() as int, (a + b).len() as int) =~= b);
    }
    *text = kept;
}

/// Removes the last grapheme cluster of the buffer (what Backspace does).
pub fn backspace_buffer(buffer: &mut String)
    ensures
        final(buffer)@ == drop_last_grapheme(old(buffer)@),
        has_prefix(old(buffer)@, final(buffer)@),
{
    let g = graphemes_of(buffer.as_str());
    if g.len() > 0 {
        let kept = concat_range(&g, 0, g.len() - 1);
        proof {
            let d = g.deep_view();
            assert(d.subrange(0, g.len() - 1) =~= d.drop_last());
            assert(d =~= d.drop_last() + seq![d.last()]);
            vstd::seq_lib::lemma_flatten_concat(d.drop_last(), seq![d.last()]);
            let a = d.drop_last().flatten();
            let b = seq![d.last()].flatten();
            assert(buffer@ == a + b);
            assert((a + b).subrange(0, a.len() as int) =~= a);
        }
        *buffer = kept;
    } else {
        assert(buffer@.subrange(0, 0) =~= Seq::<char>::empty());
        *buffer = String::new();
    }
}

/// Empties the buffer.
pub fn clear_buffer(buffer: &mut String)
    ensures
        final(buffer)@ == Seq::<char>::empty(),
{
    *buffer = String::new();
}

} // verus!
