//! The text of a tool card in the transcript: the call's name and a one-line
//! summary of its arguments, a short preview of the result, and the rows of an
//! inline diff. Overlong values are cut with `…`. Colours and spans are the
//! renderer's; this module decides every character.

use vstd::prelude::*;

use crate::json::{lemma_members_view_index, lemma_members_view_len, members_view, Json, JsonV};
use crate::text::{
    byte_len, byte_len_chars, chars_of, decimal, extend_chars, extend_str, join_comma, lex_less,
    lex_lt, lines, lines_of, push_decimal, push_join_comma, string_of, views,
};
use super::width::{char_width, str_width, unicode_char_width, unicode_str_width};

verus! {

/// Longest argument summary in a call header.
pub const MAX_ARGS_CHARS: usize = 60;

/// Result lines shown under a call.
pub const MAX_RESULT_LINES: usize = 2;

/// Longest result line.
pub const MAX_RESULT_LINE_CHARS: usize = 80;

/// Longest member value (in bytes) shown in an object summary.
pub const SUMMARISED_VALUE_MAX_CHARS: usize = 24;

/// Most diff rows shown.
pub const MAX_DIFF_LINES: usize = 50;

/// Widest diff row content, in columns.
pub const MAX_DIFF_CONTENT_COLS: usize = 76;

/// The single-character ellipsis.
pub open spec fn ell() -> Seq<char> {
    seq!['…']
}

/// The first line of `s` (empty when `s` has no lines).
pub open spec fn first_line(s: Seq<char>) -> Seq<char> {
    if lines(s).len() > 0 {
        lines(s)[0]
    } else {
        Seq::empty()
    }
}

/// `s` cut to its first line and at most `max_chars` characters; when
/// anything was cut (a further line, or characters), the kept part is
/// followed by `…` so the total stays at `max_chars`. With `max_chars == 0`
/// the result is `…`.
pub open spec fn spec_truncate_one_line(s: Seq<char>, max_chars: nat) -> Seq<char> {
    let first = first_line(s);
    if max_chars == 0 {
        ell()
    } else if lines(s).len() <= 1 && first.len() <= max_chars {
        first
    } else {
        first.take(
            if first.len() < max_chars - 1 {
                first.len() as int
            } else {
                max_chars - 1
            },
        ) + ell()
    }
}

fn take_prefix(s: &[char], n: usize) -> (r: Vec<char>)
    ensures
        r@ == s@.take(if s@.len() < n { s@.len() as int } else { n as int }),
{
    let end = if s.len() < n {
        s.len()
    } else {
        n
    };
    let mut r: Vec<char> = Vec::new();
    let mut i: usize = 0;
    while i < end
        invariant
            end <= s@.len(),
            i <= end,
            r@ == s@.take(i as int),
        decreases end - i,
    {
        r.push(s[i]);
        assert(r@ =~= s@.take(i + 1));
        i += 1;
    }
    r
}

/// Truncate `s` to its first line and at most `max_chars` characters,
/// replacing the last kept character with `…` when anything was cut.
pub fn truncate_one_line(s: &str, max_chars: usize) -> (r: String)
    ensures
        r@ == spec_truncate_one_line(s@, max_chars as nat),
{
    proof {
        reveal_strlit("…");
    }
    if max_chars == 0 {
        return string_of(&chars_of("…"));
    }
    let ls = lines_of(&chars_of(s));
    let first: Vec<char> = if ls.len() > 0 {
        proof {
            assert(views(ls@)[0] == ls@[0]@);
        }
        ls[0].clone()
    } else {
        Vec::new()
    };
    if ls.len() <= 1 && first.len() <= max_chars {
        return string_of(&first);
    }
    let mut cut = take_prefix(&first, max_chars - 1);
    extend_str(&mut cut, "…");
    string_of(&cut)
}

/// Number of decimal digits in `n` (at least one).
pub fn decimal_width(n: u64) -> (r: usize)
    ensures
        r == decimal(n as nat).len(),
    decreases n,
{
    if n < 10 {
        1
    } else {
        let w = decimal_width(n / 10);
        proof {
            assert(pow10(20) == 100_000_000_000_000_000_000) by {
                reveal_with_fuel(pow10, 21);
            }
            lemma_decimal_len_pow((n / 10) as nat, 20);
        }
        w + 1
    }
}

/// `10^k` as a natural number.
pub open spec fn pow10(k: nat) -> nat
    decreases k,
{
    if k == 0 {
        1
    } else {
        10 * pow10((k - 1) as nat)
    }
}

proof fn lemma_decimal_len_pow(n: nat, k: nat)
    requires
        k >= 1,
        n < pow10(k),
    ensures
        decimal(n).len() <= k,
    decreases k,
{
    if n >= 10 {
        assert(k >= 2) by {
            if k == 1 {
                assert(pow10(0) == 1);
            }
        }
        assert(n / 10 < pow10((k - 1) as nat)) by {
            assert(pow10(k) == 10 * pow10((k - 1) as nat));
        }
        lemma_decimal_len_pow(n / 10, (k - 1) as nat);
    }
}

/// Columns a character takes when clipping: its width, or zero for a control
/// character.
pub open spec fn cols(c: char) -> nat {
    match unicode_char_width(c) {
        Some(w) => w,
        None => 0,
    }
}

/// How many leading characters of `s` fit in `budget` columns, taking
/// characters while they fit.
pub open spec fn fitting_prefix(s: Seq<char>, budget: nat) -> nat
    decreases s.len(),
{
    if s.len() == 0 {
        0
    } else if cols(s[0]) > budget {
        0
    } else {
        1 + fitting_prefix(s.drop_first(), (budget - cols(s[0])) as nat)
    }
}

/// `s` clipped to at most `max` display columns: unchanged when it fits,
/// otherwise the characters that fit in `max - 1` columns followed by `…`.
pub open spec fn spec_display_clip(s: Seq<char>, max: nat) -> Seq<char> {
    if unicode_str_width(s) <= max {
        s
    } else {
        s.take(fitting_prefix(s, if max == 0 { 0 } else { (max - 1) as nat }) as int) + ell()
    }
}

proof fn lemma_fitting_prefix_step(s: Seq<char>, budget: nat, i: int, used: nat)
    requires
        0 <= i < s.len(),
        used <= budget,
        fitting_prefix(s, budget) == i + fitting_prefix(s.skip(i), (budget - used) as nat),
    ensures
        cols(s[i]) > budget - used ==> fitting_prefix(s, budget) == i,
        cols(s[i]) <= budget - used ==> fitting_prefix(s, budget) == i + 1 + fitting_prefix(
            s.skip(i + 1),
            (budget - used - cols(s[i])) as nat,
        ),
{
    assert(s.skip(i)[0] == s[i]);
    assert(s.skip(i).drop_first() =~= s.skip(i + 1));
}

/// Clip `s` to at most `max` display columns, appending `…` if cut.
pub fn display_clip(s: &str, max: usize) -> (r: String)
    ensures
        r@ == spec_display_clip(s@, max as nat),
{
    proof {
        reveal_strlit("…");
    }
    if str_width(s) <= max {
        return string_of(&chars_of(s));
    }
    let budget: usize = if max == 0 {
        0
    } else {
        max - 1
    };
    let cs = chars_of(s);
    let mut width: usize = 0;
    let mut i: usize = 0;
    proof {
        assert(cs@.skip(0) =~= cs@);
    }
    let mut stopped = false;
    while i < cs.len() && !stopped
        invariant
            cs@ == s@,
            i <= cs@.len(),
            width <= budget,
            fitting_prefix(cs@, budget as nat) == i + fitting_prefix(
                cs@.skip(i as int),
                (budget - width) as nat,
            ),
            stopped ==> fitting_prefix(cs@, budget as nat) == i,
        decreases cs@.len() - i + (if stopped { 0int } else { 1int }),
    {
        let cw: usize = match char_width(cs[i]) {
            Some(w) => w,
            None => 0,
        };
        proof {
            lemma_fitting_prefix_step(cs@, budget as nat, i as int, width as nat);
        }
        if cw > budget - width {
            stopped = true;
        } else {
            width = width + cw;
            i += 1;
        }
    }
    proof {
        if !stopped {
            assert(cs@.skip(i as int).len() == 0);
        }
    }
    let mut out = take_prefix(&cs, i);
    extend_str(&mut out, "…");
    string_of(&out)
}

/// `n` spaces.
pub open spec fn spaces(n: nat) -> Seq<char> {
    Seq::new(n, |i: int| ' ')
}

fn push_spaces(out: &mut Vec<char>, n: usize)
    ensures
        final(out)@ == old(out)@ + spaces(n as nat),
{
    let mut i: usize = 0;
    while i < n
        invariant
            i <= n,
            out@ == old(out)@ + spaces(i as nat),
        decreases n - i,
    {
        out.push(' ');
        assert(old(out)@ + spaces((i + 1) as nat) =~= old(out)@ + spaces(i as nat) + seq![' ']);
        i += 1;
    }
}

/// `s` right-padded with spaces to `width` display columns; unchanged when
/// it is already that wide.
pub open spec fn spec_pad_display(s: Seq<char>, width: nat) -> Seq<char> {
    if unicode_str_width(s) >= width {
        s
    } else {
        s + spaces((width - unicode_str_width(s)) as nat)
    }
}

/// Right-pad `s` with spaces to `width` display columns.
pub fn pad_display(s: &str, width: usize) -> (r: String)
    ensures
        r@ == spec_pad_display(s@, width as nat),
{
    let w = str_width(s);
    let mut out = chars_of(s);
    if w >= width {
        return string_of(&out);
    }
    push_spaces(&mut out, width - w);
    string_of(&out)
}

/// The text of a standalone result header: `▸ name ok` or `▸ name error`.
pub open spec fn spec_result_header(name: Seq<char>, is_error: bool) -> Seq<char> {
    "▸ "@ + name + " "@ + (if is_error {
        "error"@
    } else {
        "ok"@
    })
}

/// Text of the `▸` header for a standalone tool result.
pub fn tool_result_header_text(name: &str, is_error: bool) -> (r: String)
    ensures
        r@ == spec_result_header(name@, is_error),
{
    let mut out = chars_of("▸ ");
    extend_str(&mut out, name);
    extend_str(&mut out, " ");
    if is_error {
        extend_str(&mut out, "error");
    } else {
        extend_str(&mut out, "ok");
    }
    string_of(&out)
}

/// `true` or `false`.
pub open spec fn bool_text(b: bool) -> Seq<char> {
    if b {
        "true"@
    } else {
        "false"@
    }
}

/// `[n item]` or `[n items]`.
pub open spec fn items_label(n: nat) -> Seq<char> {
    "["@ + decimal(n) + " item"@ + (if n == 1 {
        ""@
    } else {
        "s"@
    }) + "]"@
}

/// One member of an object summary: the key alone when the value summarises
/// to nothing, `key: …` when the value's summary is longer than
/// [`SUMMARISED_VALUE_MAX_CHARS`] bytes, otherwise `key: value`.
pub open spec fn member_part(k: Seq<char>, vs: Seq<char>) -> Seq<char> {
    if vs.len() == 0 {
        k
    } else if byte_len(vs) > SUMMARISED_VALUE_MAX_CHARS {
        k + ": "@ + ell()
    } else {
        k + ": "@ + vs
    }
}

/// `x` inserted into `s` before the first element it sorts strictly before.
pub open spec fn insert_sorted(s: Seq<Seq<char>>, x: Seq<char>) -> Seq<Seq<char>>
    decreases s.len(),
{
    if s.len() == 0 {
        seq![x]
    } else if lex_lt(x, s[0]) {
        seq![x] + s
    } else {
        seq![s[0]] + insert_sorted(s.drop_first(), x)
    }
}

/// `parts` in ascending order.
pub open spec fn sort_parts(parts: Seq<Seq<char>>) -> Seq<Seq<char>>
    decreases parts.len(),
{
    if parts.len() == 0 {
        Seq::empty()
    } else {
        insert_sorted(sort_parts(parts.drop_last()), parts.last())
    }
}

/// Compact one-line summary of a JSON value: scalars as they are (strings
/// without quotes), arrays as `[n items]`, objects as `{k: v, ...}` with the
/// members sorted, `null` as nothing.
pub open spec fn spec_summarise(v: JsonV) -> Seq<char>
    decreases v, 0int,
{
    match v {
        JsonV::Null => Seq::empty(),
        JsonV::Bool(b) => bool_text(b),
        JsonV::Number(n) => n,
        JsonV::Str(s) => s,
        JsonV::Array(a) => items_label(a.len()),
        JsonV::Object(ms) => "{"@ + join_comma(sort_parts(member_parts(ms))) + "}"@,
    }
}

/// The summary part of each member, in order.
pub open spec fn member_parts(ms: Seq<(Seq<char>, JsonV)>) -> Seq<Seq<char>>
    decreases ms, 1int,
{
    if ms.len() == 0 {
        Seq::empty()
    } else {
        member_parts(ms.drop_last()).push(member_part(ms.last().0, spec_summarise(ms.last().1)))
    }
}

proof fn lemma_insert_sorted_at(s: Seq<Seq<char>>, x: Seq<char>, pos: int)
    requires
        0 <= pos <= s.len(),
        forall|j: int| 0 <= j < pos ==> !lex_lt(x, #[trigger] s[j]),
        pos < s.len() ==> lex_lt(x, s[pos]),
    ensures
        insert_sorted(s, x) == s.take(pos) + seq![x] + s.skip(pos),
    decreases s.len(),
{
    if s.len() == 0 {
        assert(s.take(pos) + seq![x] + s.skip(pos) =~= seq![x]);
    } else if pos == 0 {
        assert(s.take(0) + seq![x] + s.skip(0) =~= seq![x] + s);
    } else {
        assert(!lex_lt(x, s[0]));
        let t = s.drop_first();
        assert forall|j: int| 0 <= j < pos - 1 implies !lex_lt(x, #[trigger] t[j]) by {
            assert(t[j] == s[j + 1]);
        }
        lemma_insert_sorted_at(t, x, pos - 1);
        assert(seq![s[0]] + (t.take(pos - 1) + seq![x] + t.skip(pos - 1)) =~= s.take(pos)
            + seq![x] + s.skip(pos));
    }
}

fn insert_in_order(sorted: &mut Vec<Vec<char>>, x: Vec<char>)
    ensures
        views(final(sorted)@) == insert_sorted(views(old(sorted)@), x@),
{
    let ghost sv = views(sorted@);
    let mut pos: usize = 0;
    while pos < sorted.len() && !lex_less(&x, &sorted[pos])
        invariant
            pos <= sorted@.len(),
            sv == views(sorted@),
            *sorted == *old(sorted),
            forall|j: int| 0 <= j < pos ==> !lex_lt(x@, #[trigger] sv[j]),
        decreases sorted@.len() - pos,
    {
        pos += 1;
    }
    proof {
        lemma_insert_sorted_at(sv, x@, pos as int);
    }
    let ghost xv = x@;
    sorted.insert(pos, x);
    proof {
        assert(views(sorted@) =~= sv.take(pos as int) + seq![xv] + sv.skip(pos as int));
    }
}

fn push_bool_text(out: &mut Vec<char>, b: bool)
    ensures
        final(out)@ == old(out)@ + bool_text(b),
{
    if b {
        extend_str(out, "true");
    } else {
        extend_str(out, "false");
    }
}

/// Compact one-line summary of a JSON value.
pub fn summarise_json(v: &Json) -> (r: String)
    ensures
        r@ == spec_summarise(v@),
{
    string_of(&summarise_chars(v))
}

fn summarise_chars(v: &Json) -> (r: Vec<char>)
    ensures
        r@ == spec_summarise(v@),
    decreases v,
{
    proof {
        reveal_strlit("…");
    }
    match v {
        Json::Null => Vec::new(),
        Json::Bool(b) => {
            let mut out: Vec<char> = Vec::new();
            push_bool_text(&mut out, *b);
            out
        },
        Json::Number(n) => chars_of(n.as_str()),
        Json::Str(s) => chars_of(s.as_str()),
        Json::Array(items) => {
            let mut out = chars_of("[");
            push_decimal(&mut out, items.len() as u64);
            extend_str(&mut out, " item");
            if items.len() != 1 {
                extend_str(&mut out, "s");
            } else {
                extend_str(&mut out, "");
            }
            extend_str(&mut out, "]");
            proof {
                crate::json::lemma_items_view_index_all(items@);
            }
            out
        },
        Json::Object(members) => {
            let ghost mv = members_view(members@);
            let mut sorted: Vec<Vec<char>> = Vec::new();
            let mut i: usize = 0;
            proof {
                assert(mv.take(0) =~= Seq::<(Seq<char>, JsonV)>::empty());
                assert(views(sorted@) =~= Seq::<Seq<char>>::empty());
            }
            while i < members.len()
                invariant
                    *v == Json::Object(*members),
                    mv == members_view(members@),
                    i <= members@.len(),
                    views(sorted@) == sort_parts(member_parts(mv.take(i as int))),
                decreases members@.len() - i,
            {
                let (k, val) = &members[i];
                proof {
                    assert(decreases_to!(*members => members[i as int])) by {
                        broadcast use vstd::std_specs::vec::axiom_vec_index_decreases;
                    }
                    assert((*v)->Object_0 == *members);
                    assert(decreases_to!(*v => (*v)->Object_0));
                    assert(decreases_to!(members[i as int] => members[i as int].1));
                    assert(decreases_to!(*v => members[i as int].1));
                    lemma_members_view_index(members@, i as int);
                    lemma_members_view_len(members@);
                    assert(mv.take(i + 1).drop_last() =~= mv.take(i as int));
                }
                let vs = summarise_chars(val);
                let mut part = chars_of(k.as_str());
                if vs.len() == 0 {
                } else if byte_len_chars(&vs) > SUMMARISED_VALUE_MAX_CHARS {
                    extend_str(&mut part, ": …");
                } else {
                    extend_str(&mut part, ": ");
                    extend_chars(&mut part, &vs);
                }
                proof {
                    reveal_strlit(": …");
                    reveal_strlit(": ");
                    assert(": "@ + ell() =~= ": …"@);
                    assert(part@ == member_part(mv[i as int].0, spec_summarise(mv[i as int].1)));
                    let t = mv.take(i + 1);
                    assert(t.last() == mv[i as int]);
                    assert(member_parts(t) == member_parts(mv.take(i as int)).push(
                        member_part(mv[i as int].0, spec_summarise(mv[i as int].1)),
                    ));
                    assert(member_parts(t).drop_last() =~= member_parts(mv.take(i as int)));
                }
                insert_in_order(&mut sorted, part);
                i += 1;
            }
            proof {
                lemma_members_view_len(members@);
                assert(mv.take(members@.len() as int) =~= mv);
            }
            let mut out = chars_of("{");
            push_join_comma(&mut out, &sorted);
            extend_str(&mut out, "}");
            out
        },
    }
}

/// A call header's text after its icon: `name(args)`, the arguments
/// summarised on one line of at most [`MAX_ARGS_CHARS`] characters.
pub open spec fn spec_call_label(name: Seq<char>, input: JsonV) -> Seq<char> {
    name + "("@ + spec_truncate_one_line(spec_summarise(input), MAX_ARGS_CHARS as nat) + ")"@
}

/// Text of a tool call's header (after the icon).
pub fn tool_call_label(name: &str, input: &Json) -> (r: String)
    ensures
        r@ == spec_call_label(name@, input@),
{
    let args = truncate_one_line(summarise_json(input).as_str(), MAX_ARGS_CHARS);
    let mut out = chars_of(name);
    extend_str(&mut out, "(");
    extend_str(&mut out, args.as_str());
    extend_str(&mut out, ")");
    string_of(&out)
}

/// Prefix of result line `i`: the first line says whether it is an error.
pub open spec fn body_prefix(i: int, is_error: bool) -> Seq<char> {
    if i == 0 {
        if is_error {
            "⎿ error: "@
        } else {
            "⎿ "@
        }
    } else {
        "  "@
    }
}

/// The result preview under a call: nothing when the output summarises to
/// nothing; otherwise its first [`MAX_RESULT_LINES`] lines, each cut to
/// [`MAX_RESULT_LINE_CHARS`], the last shown line marked with `…` when lines
/// were left out.
pub open spec fn spec_result_body(output: JsonV, is_error: bool) -> Seq<Seq<char>> {
    let summary = spec_summarise(output);
    let ls = lines(summary);
    let truncated = ls.len() > MAX_RESULT_LINES;
    let n = if truncated {
        MAX_RESULT_LINES as nat
    } else {
        ls.len()
    };
    if summary.len() == 0 {
        Seq::empty()
    } else {
        Seq::new(
            n,
            |i: int|
                body_prefix(i, is_error) + spec_truncate_one_line(
                    if truncated && i == MAX_RESULT_LINES - 1 {
                        ls[i] + ell()
                    } else {
                        ls[i]
                    },
                    MAX_RESULT_LINE_CHARS as nat,
                ),
        )
    }
}

/// The result preview lines shown under a tool call.
pub fn tool_result_body_lines(output: &Json, is_error: bool) -> (r: Vec<String>)
    ensures
        crate::text::string_views(r@) == spec_result_body(output@, is_error),
{
    proof {
        reveal_strlit("…");
    }
    let summary = summarise_chars(output);
    let mut out: Vec<String> = Vec::new();
    if summary.len() == 0 {
        proof {
            assert(crate::text::string_views(out@) =~= Seq::<Seq<char>>::empty());
        }
        return out;
    }
    let ls = lines_of(&summary);
    let ghost lv = views(ls@);
    let truncated = ls.len() > MAX_RESULT_LINES;
    let n = if truncated {
        MAX_RESULT_LINES
    } else {
        ls.len()
    };
    let ghost want = spec_result_body(output@, is_error);
    let mut i: usize = 0;
    while i < n
        invariant
            lv == views(ls@),
            lv == lines(spec_summarise(output@)),
            spec_summarise(output@).len() > 0,
            truncated == (ls@.len() > MAX_RESULT_LINES),
            n == (if truncated { MAX_RESULT_LINES as nat } else { ls@.len() }),
            n <= ls@.len(),
            i <= n,
            want == spec_result_body(output@, is_error),
            out@.len() == i,
            forall|j: int| 0 <= j < i ==> #[trigger] out@[j]@ == want[j],
        decreases n - i,
    {
        let mut raw: Vec<char> = Vec::new();
        extend_chars(&mut raw, &ls[i]);
        assert(raw@ =~= ls@[i as int]@);
        if truncated && i == MAX_RESULT_LINES - 1 {
            extend_str(&mut raw, "…");
        }
        let text = truncate_one_line(string_of(&raw).as_str(), MAX_RESULT_LINE_CHARS);
        let mut line = if i == 0 {
            if is_error {
                chars_of("⎿ error: ")
            } else {
                chars_of("⎿ ")
            }
        } else {
            chars_of("  ")
        };
        extend_str(&mut line, text.as_str());
        proof {
            assert(lv[i as int] == ls@[i as int]@);
            let src = if truncated && i == MAX_RESULT_LINES - 1 {
                lv[i as int] + ell()
            } else {
                lv[i as int]
            };
            reveal_strlit("…");
            assert(raw@ =~= src);
            assert(want[i as int] == body_prefix(i as int, is_error) + spec_truncate_one_line(
                src,
                MAX_RESULT_LINE_CHARS as nat,
            ));
            assert(line@ == want[i as int]);
        }
        out.push(string_of(&line));
        i += 1;
    }
    proof {
        assert(crate::text::string_views(out@) =~= want);
    }
    out
}

/// Kind of one line of a line diff.
#[derive(Debug, Clone, Copy, PartialEq, Eq, Structural)]
pub enum ChangeKind {
    Equal,
    Delete,
    Insert,
}

/// One line of a line diff: its kind, its index on the old and new side (when
/// it has one there), and its text (with its line ending).
#[derive(Debug)]
pub struct LineChange {
    pub kind: ChangeKind,
    pub old_index: Option<usize>,
    pub new_index: Option<usize>,
    pub value: String,
}

/// An optional index as a natural number.
pub open spec fn opt_nat(o: Option<usize>) -> Option<nat> {
    match o {
        Some(i) => Some(i as nat),
        None => None,
    }
}

/// The value of a list of line changes.
pub open spec fn changes_view(cs: Seq<LineChange>) -> Seq<
    (ChangeKind, Option<nat>, Option<nat>, Seq<char>),
> {
    Seq::new(
        cs.len(),
        |i: int| (cs[i].kind, opt_nat(cs[i].old_index), opt_nat(cs[i].new_index), cs[i].value@),
    )
}

/// The line-by-line changes from `old` to `new`, in order, that
/// `similar::TextDiff::from_lines(old, new).iter_all_changes()` yields.
pub uninterp spec fn line_diff(old: Seq<char>, new: Seq<char>) -> Seq<
    (ChangeKind, Option<nat>, Option<nat>, Seq<char>),
>;

/// Calls `similar::TextDiff::from_lines` and copies out every change; the
/// result is named, not stated.
#[verifier::external_body]
fn diff_lines(old: &str, new: &str) -> (r: Vec<LineChange>)
    ensures
        changes_view(r@) == line_diff(old@, new@),
{
    let diff = similar::TextDiff::from_lines(old, new);
    let mut out = Vec::new();
    for c in diff.iter_all_changes() {
        let kind = match c.tag() {
            similar::ChangeTag::Equal => ChangeKind::Equal,
            similar::ChangeTag::Delete => ChangeKind::Delete,
            similar::ChangeTag::Insert => ChangeKind::Insert,
        };
        let value = c.value().to_string();
        out.push(LineChange { kind, old_index: c.old_index(), new_index: c.new_index(), value });
    }
    out
}

/// A tool's render-only description of a file edit.
#[derive(Debug)]
pub struct DiffDisplay {
    pub path: String,
    pub old: String,
    pub new: String,
    /// Line number of the first line of `old`/`new` (1 when absent).
    pub start_line: Option<u64>,
    /// The tool already cut the diff.
    pub truncated: bool,
}

/// `s` without its trailing `'\n'` and `'\r'` characters.
pub open spec fn trim_line_end(s: Seq<char>) -> Seq<char>
    decreases s.len(),
{
    if s.len() > 0 && (s.last() == '\n' || s.last() == '\r') {
        trim_line_end(s.drop_last())
    } else {
        s
    }
}

/// The line number a changed line is shown with: `base` plus its index on
/// its own side (the new side for an insertion, the old for a deletion).
pub open spec fn change_line_no(c: (ChangeKind, Option<nat>, Option<nat>, Seq<char>), base: nat) -> nat {
    base + match (if c.0 == ChangeKind::Insert {
        c.2
    } else {
        c.1
    }) {
        Some(i) => i,
        None => 0,
    }
}

/// The rows of a diff: one per inserted or deleted line, in order, as
/// (added, line number, text without its line ending).
pub open spec fn diff_rows(cs: Seq<(ChangeKind, Option<nat>, Option<nat>, Seq<char>)>, base: nat) -> Seq<
    (bool, nat, Seq<char>),
>
    decreases cs.len(),
{
    if cs.len() == 0 {
        Seq::empty()
    } else {
        let c = cs.last();
        let prev = diff_rows(cs.drop_last(), base);
        if c.0 == ChangeKind::Equal {
            prev
        } else {
            prev.push((c.0 == ChangeKind::Insert, change_line_no(c, base), trim_line_end(c.3)))
        }
    }
}

/// How many rows are insertions (`added`) or deletions.
pub open spec fn count_rows(rows: Seq<(bool, nat, Seq<char>)>, added: bool) -> nat
    decreases rows.len(),
{
    if rows.len() == 0 {
        0
    } else {
        count_rows(rows.drop_last(), added) + if rows.last().0 == added {
            1nat
        } else {
            0nat
        }
    }
}

/// Widest line number among `rows`, in digits (1 when there are none).
pub open spec fn widest_line_no(rows: Seq<(bool, nat, Seq<char>)>) -> nat
    decreases rows.len(),
{
    if rows.len() == 0 {
        1
    } else {
        let w = decimal(rows.last().1).len();
        let prev = widest_line_no(rows.drop_last());
        if w > prev {
            w
        } else {
            prev
        }
    }
}

/// Widest content among `rows`, in columns, each capped at
/// [`MAX_DIFF_CONTENT_COLS`] (0 when there are none).
pub open spec fn widest_content(rows: Seq<(bool, nat, Seq<char>)>) -> nat
    decreases rows.len(),
{
    if rows.len() == 0 {
        0
    } else {
        let w = unicode_str_width(rows.last().2);
        let capped = if w < MAX_DIFF_CONTENT_COLS {
            w
        } else {
            MAX_DIFF_CONTENT_COLS as nat
        };
        let prev = widest_content(rows.drop_last());
        if capped > prev {
            capped
        } else {
            prev
        }
    }
}

/// The gutter of a row: the line number right-aligned to `width`, with a
/// space on each side.
pub open spec fn gutter_text(line_no: nat, width: nat) -> Seq<char> {
    let d = decimal(line_no);
    " "@ + spaces(if d.len() < width {
        (width - d.len()) as nat
    } else {
        0
    }) + d + " "@
}

/// The body of a row: the marker, the content clipped to
/// [`MAX_DIFF_CONTENT_COLS`] and padded to `width`, and a trailing space.
pub open spec fn row_body(added: bool, content: Seq<char>, width: nat) -> Seq<char> {
    (if added {
        "+"@
    } else {
        "-"@
    }) + " "@ + spec_pad_display(spec_display_clip(content, MAX_DIFF_CONTENT_COLS as nat), width)
        + " "@
}

/// Every changed line's number fits in a `u64`.
pub open spec fn line_numbers_fit(
    cs: Seq<(ChangeKind, Option<nat>, Option<nat>, Seq<char>)>,
    base: nat,
) -> bool {
    forall|i: int|
        0 <= i < cs.len() && cs[i].0 != ChangeKind::Equal ==> change_line_no(#[trigger] cs[i], base)
            <= u64::MAX
}

/// One shown row of a diff card.
#[derive(Debug)]
pub struct DiffRowText {
    pub added: bool,
    pub gutter: String,
    pub body: String,
}

/// The text of an inline diff card.
#[derive(Debug)]
pub struct DiffCard {
    /// The path, clipped to [`MAX_RESULT_LINE_CHARS`] columns.
    pub path: String,
    pub adds: usize,
    pub dels: usize,
    /// At most [`MAX_DIFF_LINES`] rows, gutters and bodies each of one width.
    pub rows: Vec<DiffRowText>,
    /// Rows were left out, here or by the tool: an ellipsis line follows.
    pub elided: bool,
}

/// `card` is the diff card for `changes` of the file `path`, numbered from
/// `base`, already cut by the tool when `truncated`.
pub open spec fn is_diff_card(
    card: DiffCard,
    path: Seq<char>,
    changes: Seq<(ChangeKind, Option<nat>, Option<nat>, Seq<char>)>,
    base: nat,
    truncated: bool,
) -> bool {
    let rows = diff_rows(changes, base);
    let shown = if rows.len() > MAX_DIFF_LINES {
        rows.take(MAX_DIFF_LINES as int)
    } else {
        rows
    };
    let gw = if widest_line_no(shown) < 2 {
        2
    } else {
        widest_line_no(shown)
    };
    let cw = widest_content(shown);
    &&& card.path@ == spec_display_clip(path, MAX_RESULT_LINE_CHARS as nat)
    &&& card.adds == count_rows(rows, true)
    &&& card.dels == count_rows(rows, false)
    &&& card.elided == (rows.len() > MAX_DIFF_LINES || truncated)
    &&& card.rows@.len() == shown.len()
    &&& forall|i: int|
        0 <= i < shown.len() ==> (#[trigger] card.rows@[i]).added == shown[i].0
            && card.rows@[i].gutter@ == gutter_text(shown[i].1, gw) && card.rows@[i].body@
            == row_body(shown[i].0, shown[i].2, cw)
}

/// The value of the rows built so far.
pub open spec fn rows_view(v: Seq<(bool, u64, Vec<char>)>) -> Seq<(bool, nat, Seq<char>)> {
    Seq::new(v.len(), |i: int| (v[i].0, v[i].1 as nat, v[i].2@))
}

fn trim_line_end_chars(s: &str) -> (r: Vec<char>)
    ensures
        r@ == trim_line_end(s@),
{
    let cs = chars_of(s);
    let mut hi: usize = cs.len();
    proof {
        assert(cs@.take(cs@.len() as int) =~= cs@);
    }
    while hi > 0 && (cs[hi - 1] == '\n' || cs[hi - 1] == '\r')
        invariant
            hi <= cs@.len(),
            trim_line_end(cs@) == trim_line_end(cs@.take(hi as int)),
        decreases hi,
    {
        proof {
            assert(cs@.take(hi as int).drop_last() =~= cs@.take(hi - 1));
        }
        hi -= 1;
    }
    let mut r: Vec<char> = Vec::new();
    let mut i: usize = 0;
    while i < hi
        invariant
            hi <= cs@.len(),
            i <= hi,
            r@ == cs@.take(i as int),
        decreases hi - i,
    {
        r.push(cs[i]);
        assert(r@ =~= cs@.take(i + 1));
        i += 1;
    }
    r
}

proof fn lemma_count_rows_le(rows: Seq<(bool, nat, Seq<char>)>, added: bool)
    ensures
        count_rows(rows, added) <= rows.len(),
    decreases rows.len(),
{
    if rows.len() > 0 {
        lemma_count_rows_le(rows.drop_last(), added);
    }
}

/// The text of an inline diff card for `changes` of the file `path`, numbered
/// from `start_line` (1 when absent). `None` when a line number does not fit
/// in a `u64`.
pub fn diff_card(path: &str, changes: &Vec<LineChange>, start_line: Option<u64>, truncated: bool) -> (r:
    Option<DiffCard>)
    ensures
        ({
            let base: nat = match start_line {
                Some(b) => b as nat,
                None => 1,
            };
            match r {
                Some(card) => line_numbers_fit(changes_view(changes@), base) && is_diff_card(
                    card,
                    path@,
                    changes_view(changes@),
                    base,
                    truncated,
                ),
                None => !line_numbers_fit(changes_view(changes@), base),
            }
        }),
{
    let base: u64 = match start_line {
        Some(b) => b,
        None => 1,
    };
    let ghost base_n: nat = match start_line {
        Some(b) => b as nat,
        None => 1,
    };
    assert(base as nat == base_n);
    let ghost ch = changes_view(changes@);
    let mut rows: Vec<(bool, u64, Vec<char>)> = Vec::new();
    let mut adds: usize = 0;
    let mut dels: usize = 0;
    let mut i: usize = 0;
    while i < changes.len()
        invariant
            ch == changes_view(changes@),
            base as nat == base_n,
            base_n == (match start_line {
                Some(b) => b as nat,
                None => 1,
            }),
            i <= changes@.len(),
            rows_view(rows@) == diff_rows(ch.take(i as int), base as nat),
            line_numbers_fit(ch.take(i as int), base as nat),
            adds == count_rows(rows_view(rows@), true),
            dels == count_rows(rows_view(rows@), false),
            rows@.len() <= i,
        decreases changes@.len() - i,
    {
        let c = &changes[i];
        let ghost t = ch.take(i + 1);
        proof {
            assert(t.drop_last() =~= ch.take(i as int));
            assert(t.last() == ch[i as int]);
        }
        match c.kind {
            ChangeKind::Equal => {
                proof {
                    assert forall|j: int| 0 <= j < t.len() && t[j].0 != ChangeKind::Equal implies
                        change_line_no(#[trigger] t[j], base as nat) <= u64::MAX by {
                        assert(t[j] == ch.take(i as int)[j]);
                    }
                }
            },
            _ => {
                let idx: usize = match (if c.kind == ChangeKind::Insert {
                    c.new_index
                } else {
                    c.old_index
                }) {
                    Some(k) => k,
                    None => 0,
                };
                let added = c.kind == ChangeKind::Insert;
                let line_no = match base.checked_add(idx as u64) {
                    Some(n) => n,
                    None => {
                        proof {
                            assert(ch[i as int].0 != ChangeKind::Equal);
                            assert(change_line_no(ch[i as int], base as nat) > u64::MAX);
                            assert(!line_numbers_fit(ch, base as nat));
                        }
                        return None;
                    },
                };
                let content = trim_line_end_chars(c.value.as_str());
                let ghost before = rows@;
                rows.push((added, line_no, content));
                proof {
                    assert(rows_view(rows@) =~= rows_view(before).push(
                        (added, line_no as nat, content@),
                    ));
                    assert(rows_view(rows@).drop_last() =~= rows_view(before));
                    lemma_count_rows_le(rows_view(before), true);
                    lemma_count_rows_le(rows_view(before), false);
                    assert forall|j: int| 0 <= j < t.len() && t[j].0 != ChangeKind::Equal implies
                        change_line_no(#[trigger] t[j], base as nat) <= u64::MAX by {
                        if j < i {
                            assert(t[j] == ch.take(i as int)[j]);
                        }
                    }
                }
                if added {
                    adds = adds + 1;
                } else {
                    dels = dels + 1;
                }
            },
        }
        i += 1;
    }
    proof {
        assert(ch.take(changes@.len() as int) =~= ch);
    }
    let ghost all = rows_view(rows@);
    let elided = rows.len() > MAX_DIFF_LINES;
    let n = if elided {
        MAX_DIFF_LINES
    } else {
        rows.len()
    };
    let ghost shown = if all.len() > MAX_DIFF_LINES {
        all.take(MAX_DIFF_LINES as int)
    } else {
        all
    };
    proof {
        assert(shown.len() == n);
        assert forall|j: int| 0 <= j < n implies #[trigger] shown[j] == all[j] by {}
    }
    // Widest line number and content among the shown rows.
    let mut gw: usize = 1;
    let mut cw: usize = 0;
    let mut k: usize = 0;
    while k < n
        invariant
            n <= rows@.len(),
            all == rows_view(rows@),
            shown.len() == n,
            forall|j: int| 0 <= j < n ==> #[trigger] shown[j] == all[j],
            k <= n,
            gw == widest_line_no(shown.take(k as int)),
            cw == widest_content(shown.take(k as int)),
        decreases n - k,
    {
        proof {
            assert(shown.take(k + 1).drop_last() =~= shown.take(k as int));
            assert(shown.take(k + 1).last() == all[k as int]);
        }
        let d = decimal_width(rows[k].1);
        if d > gw {
            gw = d;
        }
        let w = str_width(string_of(&rows[k].2).as_str());
        let capped = if w < MAX_DIFF_CONTENT_COLS {
            w
        } else {
            MAX_DIFF_CONTENT_COLS
        };
        if capped > cw {
            cw = capped;
        }
        k += 1;
    }
    proof {
        assert(shown.take(n as int) =~= shown);
    }
    if gw < 2 {
        gw = 2;
    }
    let mut out_rows: Vec<DiffRowText> = Vec::new();
    let mut k: usize = 0;
    while k < n
        invariant
            n <= rows@.len(),
            all == rows_view(rows@),
            shown.len() == n,
            forall|j: int| 0 <= j < n ==> #[trigger] shown[j] == all[j],
            k <= n,
            gw == (if widest_line_no(shown) < 2 { 2 } else { widest_line_no(shown) }),
            cw == widest_content(shown),
            out_rows@.len() == k,
            forall|j: int|
                0 <= j < k ==> (#[trigger] out_rows@[j]).added == shown[j].0
                    && out_rows@[j].gutter@ == gutter_text(shown[j].1, gw as nat)
                    && out_rows@[j].body@ == row_body(shown[j].0, shown[j].2, cw as nat),
        decreases n - k,
    {
        let row = &rows[k];
        let mut gutter = chars_of(" ");
        let dw = decimal_width(row.1);
        if dw < gw {
            push_spaces(&mut gutter, gw - dw);
        } else {
            push_spaces(&mut gutter, 0);
        }
        push_decimal(&mut gutter, row.1);
        extend_str(&mut gutter, " ");
        let mut body = if row.0 {
            chars_of("+")
        } else {
            chars_of("-")
        };
        extend_str(&mut body, " ");
        let clipped = display_clip(string_of(&row.2).as_str(), MAX_DIFF_CONTENT_COLS);
        let padded = pad_display(clipped.as_str(), cw);
        extend_str(&mut body, padded.as_str());
        extend_str(&mut body, " ");
        proof {
            assert(shown[k as int] == all[k as int]);
            assert(gutter@ =~= gutter_text(shown[k as int].1, gw as nat));
            assert(body@ =~= row_body(shown[k as int].0, shown[k as int].2, cw as nat));
        }
        out_rows.push(DiffRowText { added: row.0, gutter: string_of(&gutter), body: string_of(&body) });
        k += 1;
    }
    Some(
        DiffCard {
            path: display_clip(path, MAX_RESULT_LINE_CHARS),
            adds,
            dels,
            rows: out_rows,
            elided: elided || truncated,
        },
    )
}

/// Diff card for a tool's render-only diff: the line diff of `old` and `new`
/// as `similar` computes it, shown from `start_line`. `None` when a line
/// number does not fit in a `u64`.
pub fn render_diff(diff: &DiffDisplay) -> (r: Option<DiffCard>)
    ensures
        ({
            let base: nat = match diff.start_line {
                Some(b) => b as nat,
                None => 1,
            };
            let changes = line_diff(diff.old@, diff.new@);
            match r {
                Some(card) => line_numbers_fit(changes, base) && is_diff_card(
                    card,
                    diff.path@,
                    changes,
                    base,
                    diff.truncated,
                ),
                None => !line_numbers_fit(changes, base),
            }
        }),
{
    let changes = diff_lines(diff.old.as_str(), diff.new.as_str());
    diff_card(diff.path.as_str(), &changes, diff.start_line, diff.truncated)
}

} // verus!
