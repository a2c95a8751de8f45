//! Composer layout: the queued-message header and the leading skill chip.

use vstd::prelude::*;

use crate::text::{chars_eq, chars_of, string_of, words, words_of};

verus! {

/// Queued messages shown above the composer before the overflow row.
pub const MAX_QUEUE_ROWS: usize = 3;

/// Rows needed by the composer header: one separator row, up to
/// [`MAX_QUEUE_ROWS`] queued messages, and an overflow row when more are queued.
pub fn queue_display_height(queued: usize) -> (r: u16)
    ensures
        r == 1 + (if queued < MAX_QUEUE_ROWS {
            queued
        } else {
            MAX_QUEUE_ROWS
        }) + (if queued > MAX_QUEUE_ROWS {
            1int
        } else {
            0int
        }),
{
    let shown = if queued < MAX_QUEUE_ROWS {
        queued
    } else {
        MAX_QUEUE_ROWS
    };
    let overflow_row: u16 = if queued > MAX_QUEUE_ROWS {
        1
    } else {
        0
    };
    1 + shown as u16 + overflow_row
}

/// The skill named by the first word of `line` after a leading `/`, when that
/// name is one of `skills`.
pub open spec fn spec_leading_skill(line: Seq<char>, skills: Option<Seq<Seq<char>>>) -> Option<
    Seq<char>,
> {
    if line.len() > 0 && line[0] == '/' && words(line.drop_first()).len() > 0 {
        let name = words(line.drop_first())[0];
        match skills {
            Some(names) => if names.contains(name) {
                Some(name)
            } else {
                None
            },
            None => None,
        }
    } else {
        None
    }
}

/// The leading `/skill-name` of a composer line, when it names a loaded skill.
pub fn leading_skill_name(line: &str, skills: Option<&Vec<String>>) -> (r: Option<String>)
    ensures
        r matches Some(s) ==> spec_leading_skill(
            line@,
            match skills {
                Some(v) => Some(Seq::new(v@.len(), |i: int| v@[i]@)),
                None => None,
            },
        ) == Some(s@),
        r is None ==> spec_leading_skill(
            line@,
            match skills {
                Some(v) => Some(Seq::new(v@.len(), |i: int| v@[i]@)),
                None => None,
            },
        ) is None,
{
    let cs = chars_of(line);
    if cs.len() == 0 || cs[0] != '/' {
        return None;
    }
    let mut rest: Vec<char> = Vec::new();
    let mut i: usize = 1;
    while i < cs.len()
        invariant
            1 <= i <= cs@.len(),
            rest@ == cs@.subrange(1, i as int),
        decreases cs@.len() - i,
    {
        rest.push(cs[i]);
        assert(rest@ =~= cs@.subrange(1, i + 1));
        i += 1;
    }
    assert(rest@ =~= line@.drop_first());
    let ws = words_of(&rest);
    if ws.len() == 0 {
        return None;
    }
    let name = &ws[0];
    assert(name@ == words(line@.drop_first())[0]);
    match skills {
        None => None,
        Some(names) => {
            let ghost nv = Seq::new(names@.len(), |i: int| names@[i]@);
            let mut k: usize = 0;
            while k < names.len()
                invariant
                    k <= names@.len(),
                    nv == Seq::new(names@.len(), |i: int| names@[i]@),
                    line@.len() > 0,
                    line@[0] == '/',
                    words(line@.drop_first()).len() > 0,
                    name@ == words(line@.drop_first())[0],
                    skills == Some(names),
                    forall|j: int| 0 <= j < k ==> nv[j] != name@,
                decreases names@.len() - k,
            {
                if chars_eq(&chars_of(names[k].as_str()), name) {
                    assert(nv[k as int] == name@);
                    assert(nv.contains(name@));
                    return Some(string_of(name));
                }
                k += 1;
            }
            assert(!nv.contains(name@));
            None
        },
    }
}

} // verus!
