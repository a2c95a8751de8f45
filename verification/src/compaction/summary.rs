//! Compaction summary schema: the four-section shape a summary must have
//! before it may replace history, and its chunked delivery.

use vstd::prelude::*;

use crate::agent::stream::StreamItem;
use crate::error::EngineError;
use crate::json::Json;
use crate::message::{text_of, Message, MessageV, Role};
use crate::text::{extend_str};
use crate::text::{
    byte_len, chars_of, ends_with, ends_with_chars, lines, lines_of, starts_with,
    starts_with_chars, str_byte_len, string_of, trim, trim_chars, views, chars_eq,
};

verus! {

/// Largest accepted summary, in bytes.
pub const MAX_COMPACTION_SUMMARY_BYTES: usize = 16384;

/// Characters per streamed summary chunk.
pub const COMPACTION_STREAM_CHUNK_CHARS: usize = 24;

/// The `k`-th required section heading.
pub open spec fn heading(k: int) -> Seq<char> {
    if k == 0 {
        "**Objective**"@
    } else if k == 1 {
        "**State**"@
    } else if k == 2 {
        "**Constraints**"@
    } else {
        "**Next**"@
    }
}

/// A line wrapped in `**`: a heading, or something shaped like one.
pub open spec fn is_bold(line: Seq<char>) -> bool {
    starts_with(line, seq!['*', '*']) && ends_with(line, seq!['*', '*'])
}

/// The trimmed, non-blank lines of a text, in order.
pub open spec fn significant(ls: Seq<Seq<char>>) -> Seq<Seq<char>>
    decreases ls.len(),
{
    if ls.len() == 0 {
        Seq::empty()
    } else if trim(ls.last()).len() == 0 {
        significant(ls.drop_last())
    } else {
        significant(ls.drop_last()).push(trim(ls.last()))
    }
}

/// Indices of the bold lines of `ls`, in increasing order.
pub open spec fn bold_positions(ls: Seq<Seq<char>>) -> Seq<int>
    decreases ls.len(),
{
    if ls.len() == 0 {
        Seq::empty()
    } else if is_bold(ls.last()) {
        bold_positions(ls.drop_last()).push(ls.len() - 1)
    } else {
        bold_positions(ls.drop_last())
    }
}

/// The significant lines form exactly the four sections, in order: the bold
/// lines are precisely the headings `**Objective**`, `**State**`,
/// `**Constraints**`, `**Next**`, the first line is the first heading, and
/// every heading is followed by at least one content line.
pub open spec fn sections_well_formed(ls: Seq<Seq<char>>) -> bool {
    let b = bold_positions(ls);
    &&& b.len() == 4
    &&& b[0] == 0
    &&& forall|m: int| 0 <= m < 4 ==> ls[b[m]] == heading(m)
    &&& b[0] + 2 <= b[1]
    &&& b[1] + 2 <= b[2]
    &&& b[2] + 2 <= b[3]
    &&& b[3] + 2 <= ls.len()
}

/// A summary is accepted when it fits the byte budget and its significant
/// lines form the four required sections.
pub open spec fn spec_has_required_sections(summary: Seq<char>) -> bool {
    byte_len(summary) <= MAX_COMPACTION_SUMMARY_BYTES && sections_well_formed(
        significant(lines(summary)),
    )
}

proof fn lemma_headings()
    ensures
        forall|m: int| 0 <= m < 4 ==> #[trigger] is_bold(heading(m)),
        forall|m: int, n: int| 0 <= m < 4 && 0 <= n < 4 && m != n ==> heading(m) != heading(n),
{
    reveal_strlit("**Objective**");
    reveal_strlit("**State**");
    reveal_strlit("**Constraints**");
    reveal_strlit("**Next**");
    assert(heading(0).take(2) =~= seq!['*', '*']);
    assert(heading(1).take(2) =~= seq!['*', '*']);
    assert(heading(2).take(2) =~= seq!['*', '*']);
    assert(heading(3).take(2) =~= seq!['*', '*']);
    assert(heading(0).skip(heading(0).len() - 2) =~= seq!['*', '*']);
    assert(heading(1).skip(heading(1).len() - 2) =~= seq!['*', '*']);
    assert(heading(2).skip(heading(2).len() - 2) =~= seq!['*', '*']);
    assert(heading(3).skip(heading(3).len() - 2) =~= seq!['*', '*']);
}

/// Facts about the bold positions of a prefix of `ls`.
proof fn lemma_bold_positions(ls: Seq<Seq<char>>, k: int)
    requires
        0 <= k <= ls.len(),
    ensures
        ({
            let p = bold_positions(ls.take(k));
            let b = bold_positions(ls);
            &&& p.len() <= b.len()
            &&& forall|m: int| 0 <= m < p.len() ==> b[m] == p[m]
            &&& forall|m: int| p.len() <= m < b.len() ==> b[m] >= k
            &&& (k < ls.len() && is_bold(ls[k]) ==> p.len() < b.len() && b[p.len() as int] == k)
            &&& (k < ls.len() && !is_bold(ls[k]) ==> bold_positions(ls.take(k + 1)) == p)
            &&& (k < ls.len() && is_bold(ls[k]) ==> bold_positions(ls.take(k + 1)) == p.push(k))
        }),
    decreases ls.len() - k,
{
    if k < ls.len() {
        assert(ls.take(k + 1).drop_last() =~= ls.take(k));
        lemma_bold_positions(ls, k + 1);
    } else {
        assert(ls.take(k) =~= ls);
    }
}

proof fn lemma_bold_positions_facts(ls: Seq<Seq<char>>)
    ensures
        forall|m: int|
            0 <= m < bold_positions(ls).len() ==> 0 <= #[trigger] bold_positions(ls)[m] < ls.len()
                && is_bold(ls[bold_positions(ls)[m]]),
        forall|m: int, n: int|
            0 <= m < n < bold_positions(ls).len() ==> bold_positions(ls)[m] < bold_positions(
                ls,
            )[n],
    decreases ls.len(),
{
    if ls.len() > 0 {
        lemma_bold_positions_facts(ls.drop_last());
        let r = bold_positions(ls.drop_last());
        assert forall|m: int| 0 <= m < r.len() implies ls[r[m]] == ls.drop_last()[r[m]] by {}
    }
}

/// The trimmed, non-blank lines of `s`.
fn significant_lines(s: &[char]) -> (r: Vec<Vec<char>>)
    ensures
        views(r@) == significant(lines(s@)),
{
    let ls = lines_of(s);
    let mut r: Vec<Vec<char>> = Vec::new();
    let mut i: usize = 0;
    while i < ls.len()
        invariant
            i <= ls@.len(),
            views(r@) == significant(views(ls@).take(i as int)),
        decreases ls@.len() - i,
    {
        let t = trim_chars(&ls[i]);
        proof {
            let v = views(ls@);
            assert(v.take(i + 1).drop_last() =~= v.take(i as int));
            assert(v.take(i + 1).last() == ls@[i as int]@);
        }
        if t.len() > 0 {
            let ghost before = r@;
            r.push(t);
            assert(views(r@) =~= views(before).push(r@.last()@));
        }
        i += 1;
    }
    assert(views(ls@).take(ls@.len() as int) =~= views(ls@));
    r
}

/// Which heading, if any, `line` is.
fn heading_index(line: &[char]) -> (r: Option<usize>)
    ensures
        r is Some ==> r->0 < 4 && heading(r->0 as int) == line@,
        r is None ==> forall|m: int| 0 <= m < 4 ==> heading(m) != line@,
{
    if chars_eq(line, &chars_of("**Objective**")) {
        Some(0)
    } else if chars_eq(line, &chars_of("**State**")) {
        Some(1)
    } else if chars_eq(line, &chars_of("**Constraints**")) {
        Some(2)
    } else if chars_eq(line, &chars_of("**Next**")) {
        Some(3)
    } else {
        None
    }
}

/// Whether `line` is wrapped in `**`.
fn bold_exec(line: &[char]) -> (r: bool)
    ensures
        r == is_bold(line@),
{
    let stars = vec!['*', '*'];
    proof {
        assert(stars@ =~= seq!['*', '*']);
    }
    starts_with_chars(line, &stars) && ends_with_chars(line, &stars)
}

/// Whether `summary` is a usable compaction summary: at most
/// [`MAX_COMPACTION_SUMMARY_BYTES`] bytes, and its non-blank trimmed lines are
/// the four sections `**Objective**`, `**State**`, `**Constraints**`, `**Next**`
/// in that order, each with at least one content line and no other bold line.
pub fn has_required_summary_sections(summary: &str) -> (r: bool)
    ensures
        r == spec_has_required_sections(summary@),
{
    if str_byte_len(summary) > MAX_COMPACTION_SUMMARY_BYTES {
        return false;
    }
    let cs = chars_of(summary);
    let ls = significant_lines(&cs);
    let ghost v = views(ls@);
    proof {
        lemma_headings();
        lemma_bold_positions_facts(v);
    }
    let mut next: usize = 0;
    let mut has_content = false;
    let ghost mut hs: Seq<int> = Seq::empty();
    let mut k: usize = 0;
    while k < ls.len()
        invariant
            v == views(ls@),
            v == significant(lines(cs@)),
            cs@ == summary@,
            byte_len(summary@) <= MAX_COMPACTION_SUMMARY_BYTES,
            k <= v.len(),
            next <= 4,
            hs.len() == next,
            hs == bold_positions(v.take(k as int)),
            next == 0 ==> k == 0,
            next > 0 ==> hs[0] == 0,
            forall|m: int| 0 <= m < next ==> 0 <= #[trigger] hs[m] < k && v[hs[m]] == heading(m),
            forall|m: int| 0 < m < next ==> hs[m - 1] + 2 <= #[trigger] hs[m],
            next > 0 ==> has_content == (hs[next - 1] + 1 < k),
            forall|m: int| 0 <= m < 4 ==> #[trigger] is_bold(heading(m)),
            forall|m: int, n: int|
                0 <= m < 4 && 0 <= n < 4 && m != n ==> heading(m) != heading(n),
            forall|m: int|
                0 <= m < bold_positions(v).len() ==> 0 <= #[trigger] bold_positions(v)[m] < v.len()
                    && is_bold(v[bold_positions(v)[m]]),
        decreases v.len() - k,
    {
        let line = &ls[k];
        proof {
            lemma_bold_positions(v, k as int);
            assert(v[k as int] == line@);
            assert(v.take(k + 1).drop_last() =~= v.take(k as int));
        }
        match heading_index(line) {
            Some(section) => {
                if section != next || (next > 0 && !has_content) {
                    proof {
                        let b = bold_positions(v);
                        if sections_well_formed(v) {
                            assert(is_bold(heading(section as int)));
                            assert(is_bold(v[k as int]));
                            assert(b[next as int] == k);
                            assert(v[b[next as int]] == heading(next as int));
                            assert(section == next);
                            assert(hs[next - 1] == b[next - 1]);
                            if next == 1 {
                                assert(b[0] + 2 <= b[1]);
                            } else if next == 2 {
                                assert(b[1] + 2 <= b[2]);
                            } else {
                                assert(b[2] + 2 <= b[3]);
                            }
                        }
                    }
                    return false;
                }
                proof {
                    assert(is_bold(v[k as int]));
                    hs = hs.push(k as int);
                }
                next += 1;
                has_content = false;
                proof {
                    assert(hs[next - 1] == k);
                }
            },
            None => {
                let bold = bold_exec(line);
                if next == 0 || bold {
                    proof {
                        let b = bold_positions(v);
                        if sections_well_formed(v) {
                            if bold {
                                assert(is_bold(v[k as int]));
                                assert(bold_positions(v.take(k as int)).len() == next);
                                assert(b[next as int] == k);
                                assert(v[b[next as int]] == heading(next as int));
                            } else {
                                assert(b[0] == 0);
                                assert(is_bold(v[b[0]]));
                            }
                        }
                    }
                    return false;
                }
                has_content = true;
                proof {
                    assert(hs[next - 1] < k);
                }
            },
        }
        k += 1;
    }
    proof {
        assert(v.take(k as int) =~= v);
    }
    next == 4 && has_content
}

/// Split `summary` into chunks of at most `chunk_chars` characters each
/// (at least one), preserving order and content.
pub open spec fn spec_chunks(summary: Seq<char>, size: nat) -> Seq<Seq<char>>
    decreases summary.len(),
{
    if summary.len() == 0 || size == 0 {
        Seq::empty()
    } else if summary.len() <= size {
        seq![summary]
    } else {
        seq![summary.take(size as int)] + spec_chunks(summary.skip(size as int), size)
    }
}

/// Streaming a summary loses and reorders nothing: its chunks, concatenated
/// in order, are the summary, and each chunk is non-empty and at most `size`
/// characters long.
pub proof fn lemma_chunks_reassemble(summary: Seq<char>, size: nat)
    requires
        size > 0,
    ensures
        spec_chunks(summary, size).flatten() == summary,
        forall|i: int|
            0 <= i < spec_chunks(summary, size).len() ==> 0 < (#[trigger] spec_chunks(
                summary,
                size,
            )[i]).len() <= size,
    decreases summary.len(),
{
    let c = spec_chunks(summary, size);
    if summary.len() == 0 {
        assert(c.flatten() =~= summary);
    } else if summary.len() <= size {
        c.lemma_flatten_one_element();
    } else {
        let rest = summary.skip(size as int);
        lemma_chunks_reassemble(rest, size);
        assert(c.first() == summary.take(size as int));
        assert(c.drop_first() =~= spec_chunks(rest, size));
        assert(summary.take(size as int) + rest =~= summary);
        assert forall|i: int| 0 <= i < c.len() implies 0 < (#[trigger] c[i]).len() <= size by {
            if i > 0 {
                assert(c[i] == spec_chunks(rest, size)[i - 1]);
            }
        }
    }
}

/// The chunk size actually used: `chunk_chars`, or 1 when it is 0.
pub open spec fn effective_chunk(chunk_chars: usize) -> nat {
    if chunk_chars == 0 {
        1
    } else {
        chunk_chars as nat
    }
}

/// Split `summary` into UTF-8-safe chunks of at most `chunk_chars` characters
/// each, preserving order and full content when concatenated.
pub fn chunk_summary_for_streaming(summary: &str, chunk_chars: usize) -> (r: Vec<String>)
    ensures
        r@.len() == spec_chunks(summary@, effective_chunk(chunk_chars)).len(),
        forall|i: int|
            0 <= i < r@.len() ==> #[trigger] r@[i]@ == spec_chunks(
                summary@,
                effective_chunk(chunk_chars),
            )[i],
{
    let size = if chunk_chars == 0 {
        1
    } else {
        chunk_chars
    };
    let cs = chars_of(summary);
    let mut out: Vec<String> = Vec::new();
    let mut start: usize = 0;
    let ghost total = spec_chunks(summary@, size as nat);
    proof {
        assert(cs@.skip(0) =~= cs@);
        assert(views_of_strings(out@) + spec_chunks(cs@.skip(0), size as nat) =~= spec_chunks(
            cs@.skip(0),
            size as nat,
        ));
    }
    while start < cs.len()
        invariant
            size >= 1,
            size == effective_chunk(chunk_chars),
            cs@ == summary@,
            start <= cs@.len(),
            total == spec_chunks(summary@, size as nat),
            spec_chunks(summary@, size as nat) == views_of_strings(out@) + spec_chunks(
                cs@.skip(start as int),
                size as nat,
            ),
        decreases cs@.len() - start,
    {
        let end = if cs.len() - start <= size {
            cs.len()
        } else {
            start + size
        };
        let mut piece: Vec<char> = Vec::new();
        let mut j = start;
        while j < end
            invariant
                start <= j <= end <= cs@.len(),
                piece@ == cs@.subrange(start as int, j as int),
            decreases end - j,
        {
            piece.push(cs[j]);
            assert(piece@ =~= cs@.subrange(start as int, j + 1));
            j += 1;
        }
        let ghost rest = cs@.skip(start as int);
        let ghost before = out@;
        out.push(string_of(&piece));
        proof {
            if rest.len() <= size {
                assert(piece@ =~= rest);
                assert(cs@.skip(end as int).len() == 0);
                assert(spec_chunks(cs@.skip(end as int), size as nat) =~= Seq::empty());
                assert(spec_chunks(rest, size as nat) == seq![rest]);
            } else {
                assert(piece@ =~= rest.take(size as int));
                assert(rest.skip(size as int) =~= cs@.skip(end as int));
            }
            assert(views_of_strings(out@) =~= views_of_strings(before).push(piece@));
            assert(views_of_strings(out@) + spec_chunks(cs@.skip(end as int), size as nat)
                =~= views_of_strings(before) + spec_chunks(rest, size as nat));
        }
        start = end;
    }
    proof {
        assert(cs@.skip(start as int).len() == 0);
        assert(spec_chunks(cs@.skip(start as int), size as nat) =~= Seq::empty());
        assert(views_of_strings(out@) =~= total);
    }
    out
}

/// The character views of a sequence of strings.
pub open spec fn views_of_strings(v: Seq<String>) -> Seq<Seq<char>> {
    Seq::new(v.len(), |i: int| v[i]@)
}

/// The chunks that are streamed for a validated summary, or the schema error.
pub fn summary_deltas(summary: &str) -> (r: Result<Vec<String>, EngineError>)
    ensures
        r is Ok <==> spec_has_required_sections(summary@),
        r matches Ok(chunks) ==> views_of_strings(chunks@) == spec_chunks(
            summary@,
            COMPACTION_STREAM_CHUNK_CHARS as nat,
        ),
        r matches Err(e) ==> e matches EngineError::Other(m) && m@
            == "compaction agent returned an invalid summary schema"@,
{
    if !has_required_summary_sections(summary) {
        return Err(
            EngineError::Other(string_of(&chars_of("compaction agent returned an invalid summary schema"))),
        );
    }
    let chunks = chunk_summary_for_streaming(summary, COMPACTION_STREAM_CHUNK_CHARS);
    assert(views_of_strings(chunks@) =~= spec_chunks(summary@, COMPACTION_STREAM_CHUNK_CHARS as nat));
    Ok(chunks)
}

/// Whether `s` is blank after trimming.
pub open spec fn is_blank(s: Seq<char>) -> bool {
    trim(s).len() == 0
}

/// The final response is the authoritative summary; streamed text is kept for
/// diagnostics only. A missing or blank final response is an error.
pub fn select_authoritative_summary(_streamed_text: String, final_response: Option<String>) -> (r:
    Result<String, EngineError>)
    ensures
        r is Ok <==> (final_response is Some && !is_blank(final_response->0@)),
        r matches Ok(s) ==> s == final_response->0,
        r matches Err(e) ==> e matches EngineError::Other(m) && m@
            == "compaction agent returned no final response"@,
{
    match final_response {
        Some(summary) => {
            let cs = chars_of(summary.as_str());
            if trim_chars(&cs).len() > 0 {
                Ok(summary)
            } else {
                Err(EngineError::Other(string_of(&chars_of("compaction agent returned no final response"))))
            }
        },
        None => Err(
            EngineError::Other(string_of(&chars_of("compaction agent returned no final response"))),
        ),
    }
}

/// Result of a compaction operation.
#[derive(Debug, Clone)]
pub struct CompactionResult {
    /// Model-generated summary of the compacted history.
    pub summary: String,
    /// Wall-clock duration of the compaction call in milliseconds.
    pub thought_duration_ms: u64,
    /// Number of tokens in the session before compaction.
    pub tokens_before: u64,
    /// Model context limit that triggered compaction.
    pub context_limit: u64,
}


/// The outcome of a summariser's stream: the first failure stops it;
/// otherwise the last final response is the summary, when it is not blank.
/// Text streamed before the final response is not part of the summary.
pub open spec fn spec_collect_summary(items: Seq<StreamItem>, last: Option<Seq<char>>) -> Result<
    Seq<char>,
    Seq<char>,
>
    decreases items.len(),
{
    if items.len() == 0 {
        match last {
            Some(t) => if is_blank(t) {
                Err("compaction agent returned no final response"@)
            } else {
                Ok(t)
            },
            None => Err("compaction agent returned no final response"@),
        }
    } else {
        match items[0] {
            StreamItem::Failed(m) => Err("compaction agent failed: "@ + m@),
            StreamItem::FinalResponse(t) => spec_collect_summary(items.drop_first(), Some(t@)),
            _ => spec_collect_summary(items.drop_first(), last),
        }
    }
}

/// Collect a summariser's stream into the summary it returned, without
/// publishing anything: the final response is authoritative.
pub fn collect_summary(items: &Vec<StreamItem>) -> (r: Result<String, EngineError>)
    ensures
        match spec_collect_summary(items@, None) {
            Ok(t) => r matches Ok(s) && s@ == t,
            Err(m) => r matches Err(EngineError::Other(e)) && e@ == m,
        },
{
    let mut last: Option<String> = None;
    let mut i: usize = 0;
    proof {
        assert(items@.skip(0) =~= items@);
    }
    while i < items.len()
        invariant
            i <= items@.len(),
            spec_collect_summary(items@, None) == spec_collect_summary(
                items@.skip(i as int),
                match last {
                    Some(s) => Some(s@),
                    None => None,
                },
            ),
        decreases items@.len() - i,
    {
        proof {
            assert(items@.skip(i as int)[0] == items@[i as int]);
            assert(items@.skip(i as int).drop_first() =~= items@.skip(i + 1));
        }
        match &items[i] {
            StreamItem::Failed(m) => {
                let mut out = chars_of("compaction agent failed: ");
                extend_str(&mut out, m.as_str());
                return Err(EngineError::Other(string_of(&out)));
            },
            StreamItem::FinalResponse(t) => {
                last = Some(t.clone());
            },
            _ => {},
        }
        i += 1;
    }
    proof {
        assert(items@.skip(i as int).len() == 0);
    }
    select_authoritative_summary(String::new(), last)
}

/// What a summariser's stream comes to: the collected summary when it passes
/// the schema check, or the error that stopped it.
pub open spec fn spec_compaction_summary(items: Seq<StreamItem>) -> Result<Seq<char>, Seq<char>> {
    match spec_collect_summary(items, None) {
        Ok(s) => if spec_has_required_sections(s) {
            Ok(s)
        } else {
            Err("compaction agent returned an invalid summary schema"@)
        },
        Err(m) => Err(m),
    }
}

/// The summary step of a compaction: collect the summariser's stream, check
/// the summary's schema, and only then cut it into the chunks that are
/// streamed to the client. On success the result carries the summary, the
/// measured duration, the session's tokens before compaction and the model's
/// context limit; on failure no chunk is produced.
pub fn compaction_outcome(
    items: &Vec<StreamItem>,
    thought_duration_ms: u64,
    tokens_before: u64,
    context_limit: u64,
) -> (r: Result<(CompactionResult, Vec<String>), EngineError>)
    ensures
        r is Ok <==> spec_compaction_summary(items@) is Ok,
        r matches Ok((res, chunks)) ==> {
            &&& spec_compaction_summary(items@) == Ok::<Seq<char>, Seq<char>>(res.summary@)
            &&& res.thought_duration_ms == thought_duration_ms
            &&& res.tokens_before == tokens_before
            &&& res.context_limit == context_limit
            &&& views_of_strings(chunks@) == spec_chunks(
                res.summary@,
                COMPACTION_STREAM_CHUNK_CHARS as nat,
            )
        },
        r matches Err(e) ==> e matches EngineError::Other(m) && spec_compaction_summary(items@)
            == Err::<Seq<char>, Seq<char>>(m@),
{
    let summary = match collect_summary(items) {
        Ok(s) => s,
        Err(e) => {
            return Err(e);
        },
    };
    let chunks = match summary_deltas(summary.as_str()) {
        Ok(c) => c,
        Err(e) => {
            return Err(e);
        },
    };
    Ok((CompactionResult { summary, thought_duration_ms, tokens_before, context_limit }, chunks))
}

/// The request that closes the summariser's prompt.
pub const COMPACTION_REQUEST: &'static str =
    "Compact the records above now. Return only the required four-section summary.";

/// The summariser's prompt around the JSON text of its records (the memory
/// and the history records).
pub open spec fn spec_compaction_prompt(records_json: Seq<char>) -> Seq<char> {
    "Untrusted records (JSON):\n"@ + records_json + "\n\nRequest:\n"@ + COMPACTION_REQUEST@
}

/// Frame the records' JSON text as the summariser's prompt.
pub fn build_compaction_prompt(records_json: &str) -> (r: String)
    ensures
        r@ == spec_compaction_prompt(records_json@),
{
    let mut out = chars_of("Untrusted records (JSON):\n");
    extend_str(&mut out, records_json);
    extend_str(&mut out, "\n\nRequest:\n");
    extend_str(&mut out, COMPACTION_REQUEST);
    let r = string_of(&out);
    proof {
        assert(r@ =~= spec_compaction_prompt(records_json@));
    }
    r
}

/// The role name a history record carries.
pub open spec fn role_name(role: Role) -> Seq<char> {
    match role {
        Role::User => "user"@,
        Role::Assistant => "assistant"@,
        Role::Tool => "tool"@,
    }
}

/// A `{"role": ..., "content": ...}` record.
pub open spec fn record(role: Seq<char>, content: Seq<char>) -> crate::json::JsonV {
    crate::json::JsonV::Object(
        seq![("role"@, crate::json::JsonV::Str(role)), ("content"@, crate::json::JsonV::Str(content))],
    )
}

/// The records the summariser is given: the previous summary (when there
/// is one) as a `previous_summary` record, then each message's role and text.
pub open spec fn spec_compaction_records(head: Seq<MessageV>, previous: Option<Seq<char>>) -> Seq<
    crate::json::JsonV,
> {
    let first = match previous {
        Some(p) => seq![record("previous_summary"@, p)],
        None => Seq::empty(),
    };
    first + Seq::new(
        head.len(),
        |i: int| record(role_name(head[i].role), crate::message::text_of_parts(head[i].parts)),
    )
}

fn make_record(role: &str, content: String) -> (r: Json)
    ensures
        r@ == record(role@, content@),
{
    let members: Vec<(String, Json)> = vec![
        (string_of(&chars_of("role")), Json::Str(string_of(&chars_of(role)))),
        (string_of(&chars_of("content")), Json::Str(content)),
    ];
    proof {
        crate::json::lemma_members_view_index_all(members@);
        assert(crate::json::members_view(members@) =~= seq![
            ("role"@, crate::json::JsonV::Str(role@)),
            ("content"@, crate::json::JsonV::Str(content@)),
        ]);
    }
    Json::Object(members)
}

/// The history records handed to the summariser for `head`, after the
/// previous summary when there is one.
pub fn compaction_records(head: &[Message], existing_summary: Option<&str>) -> (r: Vec<Json>)
    ensures
        crate::json::items_view(r@) == spec_compaction_records(
            crate::message::messages_view(head@),
            match existing_summary {
                Some(s) => Some(s@),
                None => None,
            },
        ),
{
    let ghost hv = crate::message::messages_view(head@);
    let mut out: Vec<Json> = Vec::new();
    match existing_summary {
        Some(prior) => {
            out.push(make_record("previous_summary", string_of(&chars_of(prior))));
        },
        None => {},
    }
    let ghost first = crate::json::items_view(out@);
    proof {
        crate::json::lemma_items_view_index_all(out@);
    }
    let mut i: usize = 0;
    while i < head.len()
        invariant
            hv == crate::message::messages_view(head@),
            i <= head@.len(),
            out@.len() == first.len() + i,
            first.len() <= 1,
            forall|j: int| 0 <= j < first.len() ==> #[trigger] out@[j]@ == first[j],
            forall|j: int|
                0 <= j < i ==> #[trigger] out@[first.len() + j]@ == record(
                    role_name(hv[j].role),
                    crate::message::text_of_parts(hv[j].parts),
                ),
        decreases head@.len() - i,
    {
        let m = &head[i];
        let role = match m.role {
            Role::User => "user",
            Role::Assistant => "assistant",
            Role::Tool => "tool",
        };
        let rec = make_record(role, string_of(&text_of(m)));
        proof {
            assert(hv[i as int] == m@);
        }
        out.push(rec);
        i += 1;
    }
    proof {
        crate::json::lemma_items_view_index_all(out@);
        let want = spec_compaction_records(
            hv,
            match existing_summary {
                Some(s) => Some(s@),
                None => None,
            },
        );
        assert(first =~= match existing_summary {
            Some(p) => seq![record("previous_summary"@, p@)],
            None => Seq::<crate::json::JsonV>::empty(),
        });
        let iv = crate::json::items_view(out@);
        assert(iv.len() == want.len());
        assert forall|k: int| 0 <= k < iv.len() implies iv[k] == want[k] by {
            if k < first.len() {
                assert(out@[k]@ == first[k]);
            } else {
                let j = k - first.len();
                assert(out@[first.len() + j]@ == record(
                    role_name(hv[j].role),
                    crate::message::text_of_parts(hv[j].parts),
                ));
            }
        }
        assert(iv =~= want);
    }
    out
}

} // verus!
