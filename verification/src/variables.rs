//! Dynamic variables in replacements: `{{date}}`, `{{time}}`, `{{datetime}}`,
//! `{{clipboard}}`, `{{uuid}}`, `{{random:a-b}}` and their Turkish names.

use crate::numeric::{i64_text, i64_to_text, parse_i64, parse_i64_spec};
use crate::sources::{
    date_text, gen_range_inclusive, is_uuid_text, local_now_formatted, new_uuid_text, thread_rng,
    time_text,
};
use crate::text::{
    chars_of, first_char, first_from, has_prefix, lemma_first_from, split_once_char, starts_with,
    str_equals, string_from, trim, trim_ws, find_from,
};
use vstd::prelude::*;

verus! {

/// A piece of a replacement text: literal text, or the (trimmed) name inside `{{` `}}`.
pub enum Segment {
    Literal(Seq<char>),
    Token(Seq<char>),
}

pub open spec fn open_braces() -> Seq<char> {
    seq!['{', '{']
}

pub open spec fn close_braces() -> Seq<char> {
    seq!['}', '}']
}

/// A token written back as it was: `{{token}}`.
pub open spec fn braced(t: Seq<char>) -> Seq<char> {
    open_braces() + t + close_braces()
}

/// The pieces of `s` from position `i` on: the text up to the next `{{`, then the name up
/// to the next `}}` after it, and so on; an opening `{{` without a closing `}}` is text.
pub open spec fn segments_from(s: Seq<char>, i: int) -> Seq<Segment>
    decreases s.len() - i,
{
    match first_from(s, open_braces(), i) {
        None => seq![Segment::Literal(s.subrange(i, s.len() as int))],
        Some(st) => match first_from(s, close_braces(), st + 2) {
            None => seq![Segment::Literal(s.subrange(i, s.len() as int))],
            Some(e) => {
                proof {
                    lemma_first_from(s, open_braces(), i);
                    lemma_first_from(s, close_braces(), st + 2);
                }
                seq![
                    Segment::Literal(s.subrange(i, st)),
                    Segment::Token(trim_ws(s.subrange(st + 2, e))),
                ] + segments_from(s, e + 2)
            },
        },
    }
}

/// The values that the variables stand for at the moment of expansion.
pub struct VariableContext {
    pub date: String,
    pub time: String,
    pub datetime: String,
    pub clipboard: String,
}

pub struct ContextView {
    pub date: Seq<char>,
    pub time: Seq<char>,
    pub datetime: Seq<char>,
    pub clipboard: Seq<char>,
}

impl View for VariableContext {
    type V = ContextView;

    open spec fn view(&self) -> ContextView {
        ContextView {
            date: self.date@,
            time: self.time@,
            datetime: self.datetime@,
            clipboard: self.clipboard@,
        }
    }
}

/// The bounds of a `random:a-b` token: the text after `random:` split at its first `-`,
/// both sides trimmed and parsed as `i64`, smaller bound first.
pub open spec fn random_bounds(t: Seq<char>) -> Option<(i64, i64)> {
    if !has_prefix(t, "random:"@) {
        None
    } else {
        let rest = t.skip("random:"@.len() as int);
        match first_char(rest, '-') {
            None => None,
            Some(k) => match (
                parse_i64_spec(trim_ws(rest.take(k))),
                parse_i64_spec(trim_ws(rest.skip(k + 1))),
            ) {
                (Some(a), Some(b)) => if a <= b {
                    Some((a, b))
                } else {
                    Some((b, a))
                },
                _ => None,
            },
        }
    }
}

/// `val` is a value that the token `t` may be replaced with: the context's text for the
/// date, time, date-and-time and clipboard names, a fresh UUID for `uuid`, the decimal
/// text of a number within the bounds for a well-formed `random:a-b`, and the token
/// written back in braces otherwise.
pub open spec fn token_value_ok(t: Seq<char>, ctx: ContextView, val: Seq<char>) -> bool {
    if t == "date"@ || t == "tarih"@ {
        val == ctx.date
    } else if t == "time"@ || t == "saat"@ {
        val == ctx.time
    } else if t == "datetime"@ || t == "tarihSaat"@ || t == "tarih-saat"@ {
        val == ctx.datetime
    } else if t == "clipboard"@ || t == "pano"@ {
        val == ctx.clipboard
    } else if t == "uuid"@ {
        is_uuid_text(val)
    } else if has_prefix(t, "random:"@) && random_bounds(t) is Some {
        let (lo, hi) = random_bounds(t)->0;
        exists|x: i64| lo <= x <= hi && val == i64_text(x)
    } else {
        val == braced(t)
    }
}

/// The Turkish names of the variables stand for the same values as the English ones:
/// `tarih` and `date` are the date, `saat` and `time` the time, `tarihSaat`, `tarih-saat`
/// and `datetime` the date and time, `pano` and `clipboard` the clipboard text.
pub proof fn lemma_variable_names(ctx: ContextView, v: Seq<char>)
    ensures
        token_value_ok("date"@, ctx, v) <==> v == ctx.date,
        token_value_ok("tarih"@, ctx, v) <==> v == ctx.date,
        token_value_ok("time"@, ctx, v) <==> v == ctx.time,
        token_value_ok("saat"@, ctx, v) <==> v == ctx.time,
        token_value_ok("datetime"@, ctx, v) <==> v == ctx.datetime,
        token_value_ok("tarihSaat"@, ctx, v) <==> v == ctx.datetime,
        token_value_ok("tarih-saat"@, ctx, v) <==> v == ctx.datetime,
        token_value_ok("clipboard"@, ctx, v) <==> v == ctx.clipboard,
        token_value_ok("pano"@, ctx, v) <==> v == ctx.clipboard,
{
    reveal_strlit("date");
    reveal_strlit("tarih");
    reveal_strlit("time");
    reveal_strlit("saat");
    reveal_strlit("datetime");
    reveal_strlit("tarihSaat");
    reveal_strlit("tarih-saat");
    reveal_strlit("clipboard");
    reveal_strlit("pano");
    assert("saat"@[0] != "date"@[0]);
    assert("time"@[0] != "date"@[0]);
    assert("time"@.len() != "tarih"@.len());
    assert("saat"@.len() != "tarih"@.len());
    assert("datetime"@.len() != "date"@.len() && "datetime"@.len() != "tarih"@.len());
    assert("datetime"@.len() != "time"@.len() && "datetime"@.len() != "saat"@.len());
    assert("tarihSaat"@.len() != "date"@.len() && "tarihSaat"@.len() != "tarih"@.len());
    assert("tarihSaat"@.len() != "time"@.len() && "tarihSaat"@.len() != "saat"@.len());
    assert("tarih-saat"@.len() != "date"@.len() && "tarih-saat"@.len() != "tarih"@.len());
    assert("tarih-saat"@.len() != "time"@.len() && "tarih-saat"@.len() != "saat"@.len());
    assert("clipboard"@.len() != "date"@.len() && "clipboard"@.len() != "tarih"@.len());
    assert("clipboard"@.len() != "time"@.len() && "clipboard"@.len() != "saat"@.len());
    assert("clipboard"@.len() != "datetime"@.len() && "clipboard"@[0] != "tarihSaat"@[0]);
    assert("clipboard"@.len() != "tarih-saat"@.len());
    assert("pano"@[0] != "date"@[0] && "pano"@.len() != "tarih"@.len());
    assert("pano"@[0] != "time"@[0] && "pano"@[0] != "saat"@[0]);
    assert("pano"@.len() != "datetime"@.len() && "pano"@.len() != "tarihSaat"@.len());
    assert("pano"@.len() != "tarih-saat"@.len());
}

/// `val` is what a piece becomes.
pub open spec fn segment_ok(seg: Segment, ctx: ContextView, val: Seq<char>) -> bool {
    match seg {
        Segment::Literal(l) => val == l,
        Segment::Token(t) => token_value_ok(t, ctx, val),
    }
}

/// `out` is a resolution of `text`: its pieces, each replaced by a value it may take,
/// in order.
pub open spec fn resolves(text: Seq<char>, ctx: ContextView, out: Seq<char>) -> bool {
    let segs = segments_from(text, 0);
    exists|vals: Seq<Seq<char>>|
        vals.len() == segs.len() && out == vals.flatten() && forall|i: int|
            0 <= i < segs.len() ==> segment_ok(segs[i], ctx, #[trigger] vals[i])
}

/// The value of a `random:a-b` token: a random number within the bounds, as decimal
/// text; `None` when the token is not well formed.
pub fn resolve_random(token: &str) -> (r: Option<String>)
    ensures
        match random_bounds(token@) {
            Some((lo, hi)) => r matches Some(v) && exists|x: i64| lo <= x <= hi && v@ == i64_text(x),
            None => r is None,
        },
{
    if !starts_with(token, "random:") {
        return None;
    }
    proof {
        reveal_strlit("random:");
    }
    let v = chars_of(token);
    let rest = string_from(&v, 7, v.len());
    assert(rest@ =~= token@.skip("random:"@.len() as int));
    match split_once_char(rest.as_str(), '-') {
        None => None,
        Some((a, b)) => {
            assert(a@ =~= rest@.take(first_char(rest@, '-')->0));
            let start = parse_i64(trim(a.as_str()).as_str());
            let end = parse_i64(trim(b.as_str()).as_str());
            match (start, end) {
                (Some(s), Some(e)) => {
                    let (lo, hi) = if s <= e {
                        (s, e)
                    } else {
                        (e, s)
                    };
                    let mut rng = thread_rng();
                    let x = gen_range_inclusive(&mut rng, lo, hi);
                    Some(i64_to_text(x))
                },
                _ => None,
            }
        },
    }
}

/// `{{token}}`.
fn braced_text(token: &str) -> (r: String)
    ensures
        r@ == braced(token@),
{
    let mut r = String::new();
    r.append("{{");
    r.append(token);
    r.append("}}");
    proof {
        reveal_strlit("{{");
        reveal_strlit("}}");
    }
    assert(r@ =~= braced(token@));
    r
}

/// The value of one token.
pub fn resolve_token(token: &str, ctx: &VariableContext) -> (r: String)
    ensures
        token_value_ok(token@, ctx@, r@),
{
    if str_equals(token, "date") || str_equals(token, "tarih") {
        ctx.date.clone()
    } else if str_equals(token, "time") || str_equals(token, "saat") {
        ctx.time.clone()
    } else if str_equals(token, "datetime") || str_equals(token, "tarihSaat") || str_equals(
        token,
        "tarih-saat",
    ) {
        ctx.datetime.clone()
    } else if str_equals(token, "clipboard") || str_equals(token, "pano") {
        ctx.clipboard.clone()
    } else if str_equals(token, "uuid") {
        new_uuid_text()
    } else if starts_with(token, "random:") {
        match resolve_random(token) {
            Some(v) => v,
            None => braced_text(token),
        }
    } else {
        braced_text(token)
    }
}

/// Replaces each `{{name}}` of `text` by its value in the context.
pub fn resolve_dynamic_variables_with(text: &str, ctx: &VariableContext) -> (r: String)
    ensures
        resolves(text@, ctx@, r@),
{
    let v = chars_of(text);
    let n = v.len();
    let open = vec!['{', '{'];
    let close = vec!['}', '}'];
    assert(open@ =~= open_braces());
    assert(close@ =~= close_braces());
    let mut out = String::new();
    let mut i: usize = 0;
    let mut finished = false;
    let ghost mut vals: Seq<Seq<char>> = Seq::empty();
    let ghost mut done: Seq<Segment> = Seq::empty();
    assert(done + segments_from(v@, 0) =~= segments_from(v@, 0));
    while !finished
        invariant
            i <= n,
            n == v@.len(),
            v@ == text@,
            open@ == open_braces(),
            close@ == close_braces(),
            vals.len() == done.len(),
            out@ == vals.flatten(),
            forall|k: int| 0 <= k < done.len() ==> segment_ok(done[k], ctx@, #[trigger] vals[k]),
            !finished ==> segments_from(v@, 0) == done + segments_from(v@, i as int),
            finished ==> segments_from(v@, 0) == done,
        decreases (if finished {
            0
        } else {
            n + 1 - i
        }),
    {
        let ghost before = done;
        match find_from(&v, &open, i) {
            None => {
                let lit = string_from(&v, i, n);
                out.append(lit.as_str());
                proof {
                    vals.lemma_flatten_push(lit@);
                    vals = vals.push(lit@);
                    done = done.push(Segment::Literal(v@.subrange(i as int, n as int)));
                    assert(before + segments_from(v@, i as int) =~= done);
                }
                finished = true;
            },
            Some(st) => {
                match find_from(&v, &close, st + 2) {
                    None => {
                        let lit = string_from(&v, i, n);
                        out.append(lit.as_str());
                        proof {
                            vals.lemma_flatten_push(lit@);
                            vals = vals.push(lit@);
                            done = done.push(Segment::Literal(v@.subrange(i as int, n as int)));
                            assert(before + segments_from(v@, i as int) =~= done);
                        }
                        finished = true;
                    },
                    Some(e) => {
                        let lit = string_from(&v, i, st);
                        let name = string_from(&v, st + 2, e);
                        let token = trim(name.as_str());
                        let value = resolve_token(token.as_str(), ctx);
                        out.append(lit.as_str());
                        out.append(value.as_str());
                        proof {
                            vals.lemma_flatten_push(lit@);
                            vals.push(lit@).lemma_flatten_push(value@);
                            vals = vals.push(lit@).push(value@);
                            let pair = seq![
                                Segment::Literal(v@.subrange(i as int, st as int)),
                                Segment::Token(trim_ws(v@.subrange(st + 2, e as int))),
                            ];
                            done = done.push(pair[0]).push(pair[1]);
                            assert(done =~= before + pair);
                            assert(before + segments_from(v@, i as int) =~= done
                                + segments_from(v@, e + 2));
                        }
                        i = e + 2;
                    },
                }
            },
        }
    }
    out
}

/// The context of one reading of the clock: a date and a time in the forms chrono
/// prints them, the date-and-time text made of the two, and the given clipboard text.
pub open spec fn clock_context(ctx: ContextView, clipboard: Seq<char>) -> bool {
    &&& ctx.clipboard == clipboard
    &&& date_text(ctx.date)
    &&& time_text(ctx.time)
    &&& ctx.datetime == ctx.date + seq![' '] + ctx.time
}

/// `out` is a resolution of `text` for the date and time of some reading of the clock and
/// the given clipboard text.
pub open spec fn resolves_with_clipboard(text: Seq<char>, clipboard: Seq<char>, out: Seq<char>) -> bool {
    exists|ctx: ContextView| #[trigger] clock_context(ctx, clipboard) && resolves(text, ctx, out)
}

/// Replaces each `{{name}}` of `text` by its value, with the local clock's date and time
/// and the given clipboard text.
pub fn resolve_dynamic_variables(text: &str, clipboard_text: &str) -> (r: String)
    ensures
        resolves_with_clipboard(text@, clipboard_text@, r@),
{
    proof {
        reveal_strlit("%d.%m.%Y");
        reveal_strlit("%H:%M:%S");
        reveal_strlit("%d.%m.%Y %H:%M:%S");
    }
    let (date, time, datetime) = local_now_formatted("%d.%m.%Y", "%H:%M:%S", "%d.%m.%Y %H:%M:%S");
    assert("%H:%M:%S"@[1] != "%d.%m.%Y"@[1]);
    assert(date_text(date@));
    assert(time_text(time@));
    let ctx = VariableContext { date, time, datetime, clipboard: clipboard_text.to_string() };
    let r = resolve_dynamic_variables_with(text, &ctx);
    assert(clock_context(ctx@, clipboard_text@));
    r
}

} // verus!
