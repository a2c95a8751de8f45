//! Selecting the user prompt for a turn: the latest user message, the files
//! it mentions, and the prompt with those files' contents in front of it.
//!
//! Reading directories and files is the host's part; these functions decide
//! which paths to read, and how the results read into the prompt.

use vstd::prelude::*;

use crate::message::{messages_view, text_of, text_of_parts, Message, MessagePart, MessageV, PartV, Role};
use crate::text::{
    chars_of, extend_str, lex_lt, sort_dedup, string_of, string_views,
    strictly_sorted, words, words_of,
};

verus! {

/// Most files expanded into a prompt.
pub const MAX_REFERENCED_FILES: usize = 10;

/// Most bytes read from one referenced file.
pub const MAX_REFERENCED_FILE_BYTES: u64 = 51200;

/// Index of the last user message, if any.
pub open spec fn last_user_index(ms: Seq<MessageV>) -> Option<int>
    decreases ms.len(),
{
    if ms.len() == 0 {
        None
    } else if ms.last().role == Role::User {
        Some(ms.len() - 1)
    } else {
        last_user_index(ms.drop_last())
    }
}

/// Text of the most recent user message, or `None` when there is none.
pub open spec fn spec_last_user_text(ms: Seq<MessageV>) -> Option<Seq<char>> {
    match last_user_index(ms) {
        Some(i) => Some(text_of_parts(ms[i].parts)),
        None => None,
    }
}

proof fn lemma_last_user_index(ms: Seq<MessageV>, k: int)
    requires
        0 <= k <= ms.len(),
        forall|j: int| k <= j < ms.len() ==> #[trigger] ms[j].role != Role::User,
    ensures
        last_user_index(ms) == last_user_index(ms.take(k)),
    decreases ms.len() - k,
{
    if k < ms.len() {
        assert(ms.drop_last().take(k) =~= ms.take(k));
        lemma_last_user_index(ms.drop_last(), k);
    } else {
        assert(ms.take(k) =~= ms);
    }
}

fn find_last_user(messages: &[Message]) -> (r: Option<usize>)
    ensures
        match r {
            Some(i) => i < messages@.len() && last_user_index(messages_view(messages@)) == Some(
                i as int,
            ),
            None => last_user_index(messages_view(messages@)) is None,
        },
{
    let ghost mv = messages_view(messages@);
    let mut k: usize = messages.len();
    while k > 0
        invariant
            mv == messages_view(messages@),
            k <= messages@.len(),
            forall|j: int| k <= j < mv.len() ==> #[trigger] mv[j].role != Role::User,
        decreases k,
    {
        if messages[k - 1].role == Role::User {
            proof {
                lemma_last_user_index(mv, k as int);
                assert(mv.take(k as int).last() == mv[k - 1]);
            }
            return Some(k - 1);
        }
        k -= 1;
    }
    proof {
        lemma_last_user_index(mv, 0);
    }
    None
}

/// Text of the most recent user message, or `None` when the history holds
/// no user message.
pub fn last_user_text(messages: &[Message]) -> (r: Option<String>)
    ensures
        match r {
            Some(s) => spec_last_user_text(messages_view(messages@)) == Some(s@),
            None => spec_last_user_text(messages_view(messages@)) is None,
        },
{
    match find_last_user(messages) {
        Some(i) => Some(string_of(&text_of(&messages[i]))),
        None => None,
    }
}

/// The user text a turn starts from: the latest user message, or the error a
/// history without one is refused with.
pub fn turn_user_text(messages: &[Message]) -> (r: Result<String, crate::error::EngineError>)
    ensures
        match spec_last_user_text(messages_view(messages@)) {
            Some(t) => r matches Ok(s) && s@ == t,
            None => r matches Err(crate::error::EngineError::Other(m)) && m@
                == "no user message in chat history"@,
        },
{
    match last_user_text(messages) {
        Some(t) => Ok(t),
        None => Err(crate::error::EngineError::Other(string_of(&chars_of("no user message in chat history")))),
    }
}

/// Punctuation dropped from the end of a mention.
pub open spec fn is_mention_punct(c: char) -> bool {
    c == ',' || c == '.' || c == ':' || c == ';'
}

/// `s` without trailing mention punctuation.
pub open spec fn trim_mention_end(s: Seq<char>) -> Seq<char>
    decreases s.len(),
{
    if s.len() > 0 && is_mention_punct(s.last()) {
        trim_mention_end(s.drop_last())
    } else {
        s
    }
}

/// The paths mentioned by the words `ws`: each word starting with `@`, without
/// the `@` and trailing punctuation, when something is left.
pub open spec fn mention_paths(ws: Seq<Seq<char>>) -> Seq<Seq<char>>
    decreases ws.len(),
{
    if ws.len() == 0 {
        Seq::empty()
    } else {
        let w = ws.last();
        let prev = mention_paths(ws.drop_last());
        if w.len() > 0 && w[0] == '@' && trim_mention_end(w.drop_first()).len() > 0 {
            prev.push(trim_mention_end(w.drop_first()))
        } else {
            prev
        }
    }
}

fn mention_of(w: &[char]) -> (r: Option<Vec<char>>)
    ensures
        match r {
            Some(p) => w@.len() > 0 && w@[0] == '@' && trim_mention_end(w@.drop_first()).len() > 0
                && p@ == trim_mention_end(w@.drop_first()),
            None => !(w@.len() > 0 && w@[0] == '@' && trim_mention_end(w@.drop_first()).len()
                > 0),
        },
{
    if w.len() == 0 || w[0] != '@' {
        return None;
    }
    let ghost body = w@.drop_first();
    let mut hi: usize = w.len();
    proof {
        assert(w@.subrange(1, w@.len() as int) =~= body);
    }
    while hi > 1 && (w[hi - 1] == ',' || w[hi - 1] == '.' || w[hi - 1] == ':' || w[hi - 1]
        == ';')
        invariant
            1 <= hi <= w@.len(),
            body == w@.drop_first(),
            trim_mention_end(body) == trim_mention_end(w@.subrange(1, hi as int)),
        decreases hi,
    {
        proof {
            assert(w@.subrange(1, hi as int).drop_last() =~= w@.subrange(1, hi - 1));
        }
        hi -= 1;
    }
    if hi == 1 {
        proof {
            assert(w@.subrange(1, 1) =~= Seq::<char>::empty());
        }
        return None;
    }
    let mut p: Vec<char> = Vec::new();
    let mut i: usize = 1;
    while i < hi
        invariant
            1 <= i <= hi,
            hi <= w@.len(),
            p@ == w@.subrange(1, i as int),
        decreases hi - i,
    {
        p.push(w[i]);
        assert(p@ =~= w@.subrange(1, i + 1));
        i += 1;
    }
    Some(p)
}

/// The paths `text` mentions with `@path` words, in order.
pub fn mentioned_paths(text: &str) -> (r: Vec<String>)
    ensures
        string_views(r@) == mention_paths(words(text@)),
{
    let ws = words_of(&chars_of(text));
    let ghost wv = crate::text::views(ws@);
    let mut out: Vec<String> = Vec::new();
    let mut i: usize = 0;
    while i < ws.len()
        invariant
            wv == crate::text::views(ws@),
            wv == words(text@),
            i <= ws@.len(),
            string_views(out@) == mention_paths(wv.take(i as int)),
        decreases ws@.len() - i,
    {
        proof {
            assert(wv.take(i + 1).drop_last() =~= wv.take(i as int));
            assert(wv.take(i + 1).last() == ws@[i as int]@);
        }
        match mention_of(&ws[i]) {
            Some(p) => {
                let ghost before = string_views(out@);
                out.push(string_of(&p));
                proof {
                    assert(string_views(out@) =~= before.push(p@));
                }
            },
            None => {},
        }
        i += 1;
    }
    proof {
        assert(wv.take(ws@.len() as int) =~= wv);
    }
    out
}

/// The paths of the file-mention parts among `parts`, in order.
pub open spec fn file_mentions(parts: Seq<PartV>) -> Seq<Seq<char>>
    decreases parts.len(),
{
    if parts.len() == 0 {
        Seq::empty()
    } else {
        let prev = file_mentions(parts.drop_last());
        match parts.last() {
            PartV::FileMention(p) => prev.push(p),
            _ => prev,
        }
    }
}

/// What the latest user message asks to have read: its text, and the paths
/// it mentions (`@path` words and file-mention parts), sorted and without
/// repeats. `None` when there is no user message.
pub fn mention_request(messages: &[Message]) -> (r: Option<(String, Vec<String>)>)
    ensures
        match last_user_index(messages_view(messages@)) {
            None => r is None,
            Some(i) => r matches Some((text, paths)) && text@ == text_of_parts(
                messages_view(messages@)[i].parts,
            ) && strictly_sorted(string_views(paths@)) && string_views(paths@).to_set() == (
            mention_paths(words(text@)) + file_mentions(messages_view(messages@)[i].parts)).to_set(),
        },
{
    let i = match find_last_user(messages) {
        Some(i) => i,
        None => return None,
    };
    let msg = &messages[i];
    let text = string_of(&text_of(msg));
    let mut paths = mentioned_paths(text.as_str());
    let ghost first = string_views(paths@);
    let ghost pv = msg@.parts;
    let mut k: usize = 0;
    while k < msg.parts.len()
        invariant
            pv == msg@.parts,
            k <= msg.parts@.len(),
            string_views(paths@) == first + file_mentions(pv.take(k as int)),
        decreases msg.parts@.len() - k,
    {
        proof {
            assert(pv.take(k + 1).drop_last() =~= pv.take(k as int));
            assert(pv.take(k + 1).last() == msg.parts@[k as int]@);
        }
        match &msg.parts[k] {
            MessagePart::FileMention { path } => {
                let ghost before = string_views(paths@);
                paths.push(path.clone());
                proof {
                    assert(string_views(paths@) =~= before.push(path@));
                }
            },
            _ => {},
        }
        k += 1;
    }
    proof {
        assert(pv.take(msg.parts@.len() as int) =~= pv);
        assert(messages_view(messages@)[i as int] == msg@);
    }
    let sorted = sort_dedup(&paths);
    Some((text, sorted))
}

/// The directory a mention names when it ends with `/`: the mention without
/// its trailing slashes.
pub open spec fn spec_dir_mention(path: Seq<char>) -> Option<Seq<char>>
    decreases path.len(),
{
    if path.len() > 0 && path.last() == '/' {
        Some(trim_slashes(path))
    } else {
        None
    }
}

/// `s` without trailing `/`.
pub open spec fn trim_slashes(s: Seq<char>) -> Seq<char>
    decreases s.len(),
{
    if s.len() > 0 && s.last() == '/' {
        trim_slashes(s.drop_last())
    } else {
        s
    }
}

/// The directory to expand for a mention ending with `/`; `None` for a file
/// mention.
pub fn dir_mention(path: &str) -> (r: Option<String>)
    ensures
        match r {
            Some(d) => spec_dir_mention(path@) == Some(d@),
            None => spec_dir_mention(path@) is None,
        },
{
    let cs = chars_of(path);
    if cs.len() == 0 || cs[cs.len() - 1] != '/' {
        return None;
    }
    let mut hi: usize = cs.len();
    proof {
        assert(cs@.take(cs@.len() as int) =~= cs@);
    }
    while hi > 0 && cs[hi - 1] == '/'
        invariant
            hi <= cs@.len(),
            trim_slashes(cs@) == trim_slashes(cs@.take(hi as int)),
        decreases hi,
    {
        proof {
            assert(cs@.take(hi as int).drop_last() =~= cs@.take(hi - 1));
        }
        hi -= 1;
    }
    let mut d: Vec<char> = Vec::new();
    let mut i: usize = 0;
    while i < hi
        invariant
            hi <= cs@.len(),
            i <= hi,
            d@ == cs@.take(i as int),
        decreases hi - i,
    {
        d.push(cs[i]);
        assert(d@ =~= cs@.take(i + 1));
        i += 1;
    }
    Some(string_of(&d))
}

/// `r` is the first [`MAX_REFERENCED_FILES`] of `paths` in ascending order,
/// without repeats.
pub open spec fn is_referenced_files(r: Seq<Seq<char>>, paths: Seq<Seq<char>>) -> bool {
    &&& strictly_sorted(r)
    &&& r.len() <= MAX_REFERENCED_FILES
    &&& forall|k: int| 0 <= k < r.len() ==> paths.contains(#[trigger] r[k])
    &&& forall|p: Seq<char>|
        paths.contains(p) && !r.contains(p) ==> r.len() == MAX_REFERENCED_FILES && forall|k: int|
            0 <= k < r.len() ==> lex_lt(#[trigger] r[k], p)
}

/// The files to read: the expanded paths sorted, without repeats, and cut to
/// [`MAX_REFERENCED_FILES`].
pub fn referenced_files(expanded: &Vec<String>) -> (r: Vec<String>)
    ensures
        is_referenced_files(string_views(r@), string_views(expanded@)),
{
    let sorted = sort_dedup(expanded);
    let ghost sv = string_views(sorted@);
    let ghost ev = string_views(expanded@);
    let n = if sorted.len() < MAX_REFERENCED_FILES {
        sorted.len()
    } else {
        MAX_REFERENCED_FILES
    };
    let mut out: Vec<String> = Vec::new();
    let mut i: usize = 0;
    while i < n
        invariant
            sv == string_views(sorted@),
            n <= sorted@.len(),
            i <= n,
            out@.len() == i,
            forall|j: int| 0 <= j < i ==> #[trigger] out@[j]@ == sv[j],
        decreases n - i,
    {
        out.push(sorted[i].clone());
        i += 1;
    }
    proof {
        assert(string_views(out@) =~= sv.take(n as int));
        let rv = string_views(out@);
        assert forall|k: int| 0 <= k < rv.len() implies ev.contains(#[trigger] rv[k]) by {
            assert(rv[k] == sv[k]);
            assert(sv.to_set().contains(sv[k]));
        }
        assert forall|p: Seq<char>| ev.contains(p) && !rv.contains(p) implies rv.len()
            == MAX_REFERENCED_FILES && forall|k: int| 0 <= k < rv.len() ==> lex_lt(#[trigger] rv[k], p) by {
            assert(ev.to_set().contains(p));
            assert(sv.to_set().contains(p));
            let j = choose|j: int| 0 <= j < sv.len() && sv[j] == p;
            if j < n {
                assert(rv[j] == p);
            }
            assert forall|k: int| 0 <= k < rv.len() implies lex_lt(#[trigger] rv[k], p) by {
                assert(rv[k] == sv[k]);
            }
        }
    }
    out
}

/// How one referenced file reads into the prompt: its path and fenced content
/// (with a `[truncated]` line when it was cut), or why it was not loaded.
pub open spec fn spec_file_context(path: Seq<char>, read: Result<(Seq<char>, bool), Seq<char>>) -> Seq<
    char,
> {
    match read {
        Ok((content, truncated)) => "\n@"@ + path + "\n```\n"@ + content + (if truncated {
            "\n[truncated]"@
        } else {
            ""@
        }) + "\n```\n"@,
        Err(e) => "\n@"@ + path + "\n[not loaded: "@ + e + "]\n"@,
    }
}

/// The prompt section for one referenced file, given how reading it went:
/// its content and whether it was cut at [`MAX_REFERENCED_FILE_BYTES`], or
/// the error.
pub fn format_file_context(path: &str, read: &Result<(String, bool), String>) -> (r: String)
    ensures
        r@ == spec_file_context(
            path@,
            match read {
                Ok((c, t)) => Ok((c@, *t)),
                Err(e) => Err(e@),
            },
        ),
{
    let mut out = chars_of("\n@");
    extend_str(&mut out, path);
    match read {
        Ok((content, truncated)) => {
            extend_str(&mut out, "\n```\n");
            extend_str(&mut out, content.as_str());
            if *truncated {
                extend_str(&mut out, "\n[truncated]");
            } else {
                extend_str(&mut out, "");
            }
            extend_str(&mut out, "\n```\n");
        },
        Err(e) => {
            extend_str(&mut out, "\n[not loaded: ");
            extend_str(&mut out, e.as_str());
            extend_str(&mut out, "]\n");
        },
    }
    string_of(&out)
}

/// The sections concatenated.
pub open spec fn concat_all(parts: Seq<Seq<char>>) -> Seq<char>
    decreases parts.len(),
{
    if parts.len() == 0 {
        Seq::empty()
    } else {
        concat_all(parts.drop_last()) + parts.last()
    }
}

/// The user prompt with the referenced files' sections in front: the text
/// alone when there are none.
pub open spec fn spec_with_file_context(text: Seq<char>, sections: Seq<Seq<char>>) -> Seq<char> {
    if sections.len() == 0 {
        text
    } else {
        "Referenced files:\n"@ + concat_all(sections) + "\nUser message:\n"@ + text
    }
}

/// Put the referenced files' sections (see `format_file_context`) in front of
/// the user's text.
pub fn user_text_with_file_context(text: &str, sections: &Vec<String>) -> (r: String)
    ensures
        r@ == spec_with_file_context(text@, string_views(sections@)),
{
    if sections.len() == 0 {
        return string_of(&chars_of(text));
    }
    let ghost sv = string_views(sections@);
    let mut out = chars_of("Referenced files:\n");
    let ghost head = out@;
    let mut i: usize = 0;
    while i < sections.len()
        invariant
            sv == string_views(sections@),
            i <= sections@.len(),
            out@ == head + concat_all(sv.take(i as int)),
        decreases sections@.len() - i,
    {
        proof {
            assert(sv.take(i + 1).drop_last() =~= sv.take(i as int));
        }
        extend_str(&mut out, sections[i].as_str());
        proof {
            assert(out@ =~= head + concat_all(sv.take(i + 1)));
        }
        i += 1;
    }
    proof {
        assert(sv.take(sections@.len() as int) =~= sv);
    }
    extend_str(&mut out, "\nUser message:\n");
    extend_str(&mut out, text);
    string_of(&out)
}

/// Total length of the sections.
pub open spec fn total_len(parts: Seq<Seq<char>>) -> int
    decreases parts.len(),
{
    if parts.len() == 0 {
        0
    } else {
        total_len(parts.drop_last()) + parts.last().len()
    }
}

proof fn lemma_concat_all_places(parts: Seq<Seq<char>>)
    ensures
        concat_all(parts).len() == total_len(parts),
        forall|i: int|
            0 <= i < parts.len() ==> concat_all(parts).subrange(
                total_len(parts.take(i)),
                total_len(parts.take(i)) + parts[i].len(),
            ) == #[trigger] parts[i],
    decreases parts.len(),
{
    if parts.len() > 0 {
        let init = parts.drop_last();
        lemma_concat_all_places(init);
        let c = concat_all(parts);
        assert(c == concat_all(init) + parts.last());
        assert forall|i: int| 0 <= i < parts.len() implies concat_all(parts).subrange(
            total_len(parts.take(i)),
            total_len(parts.take(i)) + parts[i].len(),
        ) == #[trigger] parts[i] by {
            if i < parts.len() - 1 {
                assert(parts.take(i) =~= init.take(i));
                assert(init[i] == parts[i]);
                lemma_total_len_prefix(init, i);
                assert(c.subrange(total_len(parts.take(i)), total_len(parts.take(i)) + parts[i].len())
                    =~= concat_all(init).subrange(
                    total_len(init.take(i)),
                    total_len(init.take(i)) + init[i].len(),
                ));
            } else {
                assert(parts.take(i) =~= init);
                assert(c.subrange(total_len(init), total_len(init) + parts[i].len()) =~= parts.last());
            }
        }
    }
}

proof fn lemma_total_len_nonneg(parts: Seq<Seq<char>>)
    ensures
        total_len(parts) >= 0,
    decreases parts.len(),
{
    if parts.len() > 0 {
        lemma_total_len_nonneg(parts.drop_last());
    }
}

proof fn lemma_total_len_prefix(parts: Seq<Seq<char>>, i: int)
    requires
        0 <= i < parts.len(),
    ensures
        0 <= total_len(parts.take(i)),
        total_len(parts.take(i)) + parts[i].len() <= total_len(parts),
    decreases parts.len(),
{
    lemma_total_len_nonneg(parts.take(i));
    if i < parts.len() - 1 {
        assert(parts.drop_last().take(i) =~= parts.take(i));
        lemma_total_len_prefix(parts.drop_last(), i);
    } else {
        assert(parts.take(i) =~= parts.drop_last());
    }
}

/// With at least one section, the prompt is the header, then every section
/// in order, each at the offset given by the lengths of those before it, then
/// the user-message header and the text: nothing is dropped, reordered or
/// added.
pub proof fn lemma_every_section_is_kept(text: Seq<char>, sections: Seq<Seq<char>>)
    requires
        sections.len() > 0,
    ensures
        spec_with_file_context(text, sections).len() == "Referenced files:\n"@.len() + total_len(
            sections,
        ) + "\nUser message:\n"@.len() + text.len(),
        spec_with_file_context(text, sections).take("Referenced files:\n"@.len() as int)
            == "Referenced files:\n"@,
        spec_with_file_context(text, sections).skip(
            spec_with_file_context(text, sections).len() - text.len(),
        ) == text,
        forall|i: int|
            0 <= i < sections.len() ==> spec_with_file_context(text, sections).subrange(
                "Referenced files:\n"@.len() + total_len(sections.take(i)),
                "Referenced files:\n"@.len() + total_len(sections.take(i)) + sections[i].len(),
            ) == #[trigger] sections[i],
{
    lemma_concat_all_places(sections);
    let h = "Referenced files:\n"@;
    let f = "\nUser message:\n"@;
    let c = concat_all(sections);
    let r = spec_with_file_context(text, sections);
    assert(r == h + c + f + text);
    assert(r.take(h.len() as int) =~= h);
    assert(r.skip(r.len() - text.len()) =~= text);
    assert forall|i: int| 0 <= i < sections.len() implies r.subrange(
        h.len() + total_len(sections.take(i)),
        h.len() + total_len(sections.take(i)) + sections[i].len(),
    ) == #[trigger] sections[i] by {
        lemma_total_len_prefix(sections, i);
        assert(r.subrange(
            h.len() + total_len(sections.take(i)),
            h.len() + total_len(sections.take(i)) + sections[i].len(),
        ) =~= c.subrange(
            total_len(sections.take(i)),
            total_len(sections.take(i)) + sections[i].len(),
        ));
    }
}

} // verus!
