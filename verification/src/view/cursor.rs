//! Marking the editor cursor in the composer's text, so the renderer can find
//! the cell where a wrapped paragraph puts it.

use vstd::prelude::*;

use crate::text::{chars_of, extend_chars, string_of};
use crate::text::string_views;

verus! {

/// The private-use character that marks the cursor.
pub const CURSOR_MARKER: char = '\u{E000}';

/// Lines joined by `'\n'`.
pub open spec fn join_lines(lines: Seq<Seq<char>>) -> Seq<char>
    decreases lines.len(),
{
    if lines.len() == 0 {
        Seq::empty()
    } else if lines.len() == 1 {
        lines[0]
    } else {
        join_lines(lines.drop_last()) + seq!['\n'] + lines.last()
    }
}

/// `line` with the marker before character `col`, or at its end when `col`
/// is past it.
pub open spec fn marked_line(line: Seq<char>, col: nat) -> Seq<char> {
    let c = if col < line.len() {
        col as int
    } else {
        line.len() as int
    };
    line.take(c) + seq![CURSOR_MARKER] + line.skip(c)
}

/// The editor's lines joined by `'\n'` with the marker at the cursor: in row
/// `row` at column `col` (clamped to the row's end), or after all the text
/// when `row` is past the last line.
pub open spec fn spec_text_with_cursor_marker(lines: Seq<Seq<char>>, row: nat, col: nat) -> Seq<
    char,
> {
    if row < lines.len() {
        join_lines(lines.update(row as int, marked_line(lines[row as int], col)))
    } else {
        join_lines(lines) + seq![CURSOR_MARKER]
    }
}

fn marked_line_chars(line: &str, col: usize) -> (r: Vec<char>)
    ensures
        r@ == marked_line(line@, col as nat),
{
    let cs = chars_of(line);
    let c = if col < cs.len() {
        col
    } else {
        cs.len()
    };
    let mut out: Vec<char> = Vec::new();
    let mut i: usize = 0;
    while i < cs.len()
        invariant
            i <= cs@.len(),
            c <= cs@.len(),
            out@ == (if i <= c {
                cs@.take(i as int)
            } else {
                cs@.take(c as int) + seq![CURSOR_MARKER] + cs@.subrange(c as int, i as int)
            }),
        decreases cs@.len() - i,
    {
        if i == c {
            out.push(CURSOR_MARKER);
        }
        out.push(cs[i]);
        proof {
            if i < c {
                assert(out@ =~= cs@.take(i + 1));
            } else {
                assert(out@ =~= cs@.take(c as int) + seq![CURSOR_MARKER] + cs@.subrange(
                    c as int,
                    i + 1,
                ));
            }
        }
        i += 1;
    }
    if c == cs.len() {
        out.push(CURSOR_MARKER);
    }
    proof {
        assert(cs@.subrange(c as int, cs@.len() as int) =~= cs@.skip(c as int));
        assert(cs@.take(cs@.len() as int) =~= cs@);
        assert(cs@.skip(cs@.len() as int) =~= Seq::<char>::empty());
        assert(out@ =~= cs@.take(c as int) + seq![CURSOR_MARKER] + cs@.skip(c as int));
    }
    out
}

proof fn lemma_join_lines_step(lines: Seq<Seq<char>>, k: int)
    requires
        0 <= k < lines.len(),
    ensures
        join_lines(lines.take(k + 1)) == if k == 0 {
            lines[0]
        } else {
            join_lines(lines.take(k)) + seq!['\n'] + lines[k]
        },
{
    assert(lines.take(k + 1).drop_last() =~= lines.take(k));
    assert(lines.take(k + 1).last() == lines[k]);
    if k == 0 {
        assert(lines.take(1)[0] == lines[0]);
    }
}

/// The composer text with the cursor marker inserted at the cursor.
pub fn text_with_cursor_marker(lines: &Vec<String>, cursor_row: usize, cursor_col: usize) -> (r:
    String)
    ensures
        r@ == spec_text_with_cursor_marker(
            string_views(lines@),
            cursor_row as nat,
            cursor_col as nat,
        ),
{
    let ghost lv = string_views(lines@);
    let ghost target = if (cursor_row as nat) < lv.len() {
        lv.update(cursor_row as int, marked_line(lv[cursor_row as int], cursor_col as nat))
    } else {
        lv
    };
    let mut text: Vec<char> = Vec::new();
    let mut k: usize = 0;
    while k < lines.len()
        invariant
            lv == string_views(lines@),
            target.len() == lv.len(),
            target == (if (cursor_row as nat) < lv.len() {
                lv.update(cursor_row as int, marked_line(lv[cursor_row as int], cursor_col as nat))
            } else {
                lv
            }),
            k <= lines@.len(),
            text@ == join_lines(target.take(k as int)),
        decreases lines@.len() - k,
    {
        proof {
            lemma_join_lines_step(target, k as int);
        }
        if k > 0 {
            text.push('\n');
        }
        if k == cursor_row {
            let m = marked_line_chars(lines[k].as_str(), cursor_col);
            extend_chars(&mut text, &m);
        } else {
            let cs = chars_of(lines[k].as_str());
            extend_chars(&mut text, &cs);
        }
        proof {
            assert(target[k as int] == if k == cursor_row {
                marked_line(lines@[k as int]@, cursor_col as nat)
            } else {
                lines@[k as int]@
            });
            if k == 0 {
                assert(text@ =~= target[0]);
            } else {
                assert(text@ =~= join_lines(target.take(k as int)) + seq!['\n'] + target[k as int]);
            }
        }
        k += 1;
    }
    proof {
        assert(target.take(lines@.len() as int) =~= target);
    }
    if cursor_row >= lines.len() {
        text.push(CURSOR_MARKER);
    }
    string_of(&text)
}

} // verus!
