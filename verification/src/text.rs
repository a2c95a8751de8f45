//! Character-level string model shared by the whole library.
//!
//! Strings are viewed as `Seq<char>`. This module states, as spec functions,
//! the std string operations the library relies on (`str::lines`,
//! `str::split_whitespace`, `str::trim`, byte length of the UTF-8 encoding)
//! and provides verified executable counterparts working on `Vec<char>`.

use vstd::prelude::*;
use vstd::utf8::*;
use vstd::std_specs::iter::IteratorSpec;
use vstd::string::StringSliceAdditionalSpecFns;

verus! {

broadcast use vstd::string::group_string_axioms;

// ---------------------------------------------------------------------------
// Character classes
// ---------------------------------------------------------------------------

/// Unicode `White_Space`, the property behind `char::is_whitespace`.
pub open spec fn is_ws(c: char) -> bool {
    let u = c as u32;
    ||| 0x09 <= u <= 0x0D
    ||| u == 0x20
    ||| u == 0x85
    ||| u == 0xA0
    ||| u == 0x1680
    ||| 0x2000 <= u <= 0x200A
    ||| u == 0x2028
    ||| u == 0x2029
    ||| u == 0x202F
    ||| u == 0x205F
    ||| u == 0x3000
}

/// `char::is_whitespace`.
pub fn is_whitespace(c: char) -> (b: bool)
    ensures
        b == is_ws(c),
{
    let u = c as u32;
    (0x09 <= u && u <= 0x0D) || u == 0x20 || u == 0x85 || u == 0xA0 || u == 0x1680 || (0x2000
        <= u && u <= 0x200A) || u == 0x2028 || u == 0x2029 || u == 0x202F || u == 0x205F || u
        == 0x3000
}

/// `char::is_ascii_alphanumeric`.
pub open spec fn is_ascii_alnum(c: char) -> bool {
    ||| ('0' <= c && c <= '9')
    ||| ('a' <= c && c <= 'z')
    ||| ('A' <= c && c <= 'Z')
}

// ---------------------------------------------------------------------------
// UTF-8 byte length
// ---------------------------------------------------------------------------

/// Number of bytes in the UTF-8 encoding of `c` (`char::len_utf8`).
pub open spec fn utf8_width(c: char) -> nat {
    let u = c as u32;
    if u <= 0x7F {
        1
    } else if u <= 0x7FF {
        2
    } else if u <= 0xFFFF {
        3
    } else {
        4
    }
}

/// Number of bytes in the UTF-8 encoding of `s` (`str::len`).
pub open spec fn byte_len(s: Seq<char>) -> nat
    decreases s.len(),
{
    if s.len() == 0 {
        0
    } else {
        byte_len(s.drop_last()) + utf8_width(s.last())
    }
}

pub proof fn lemma_byte_len_concat(a: Seq<char>, b: Seq<char>)
    ensures
        byte_len(a + b) == byte_len(a) + byte_len(b),
    decreases b.len(),
{
    if b.len() == 0 {
        assert(a + b =~= a);
    } else {
        lemma_byte_len_concat(a, b.drop_last());
        assert((a + b).drop_last() =~= a + b.drop_last());
    }
}

pub proof fn lemma_byte_len_push(a: Seq<char>, c: char)
    ensures
        byte_len(a.push(c)) == byte_len(a) + utf8_width(c),
{
    assert(a.push(c).drop_last() =~= a);
}

pub proof fn lemma_byte_len_ge_len(s: Seq<char>)
    ensures
        byte_len(s) >= s.len(),
    decreases s.len(),
{
    if s.len() > 0 {
        lemma_byte_len_ge_len(s.drop_last());
    }
}

pub proof fn lemma_byte_len_prefix(s: Seq<char>, k: int)
    requires
        0 <= k <= s.len(),
    ensures
        byte_len(s.take(k)) <= byte_len(s),
{
    lemma_byte_len_concat(s.take(k), s.skip(k));
    assert(s.take(k) + s.skip(k) =~= s);
}

proof fn lemma_encode_scalar_len(c: char)
    ensures
        encode_scalar(c as u32).len() == utf8_width(c),
{
    broadcast use vstd::utf8::char_is_scalar;

}

/// The UTF-8 encoding of `s` has `byte_len(s)` bytes.
pub proof fn lemma_encode_utf8_len(s: Seq<char>)
    ensures
        encode_utf8(s).len() == byte_len(s),
    decreases s.len(),
{
    if s.len() > 0 {
        lemma_encode_utf8_len(s.drop_first());
        lemma_encode_scalar_len(s[0]);
        lemma_byte_len_concat(seq![s[0]], s.drop_first());
        assert(seq![s[0]] + s.drop_first() =~= s);
        assert(seq![s[0]].drop_last() =~= Seq::<char>::empty());
        assert(byte_len(Seq::<char>::empty()) == 0);
        assert(seq![s[0]].last() == s[0]);
        assert(byte_len(seq![s[0]]) == utf8_width(s[0]));
    }
}

/// Byte length of a `&str`, stated over its characters. A string held in
/// memory always has a byte length that fits in `usize`.
pub fn str_byte_len(s: &str) -> (n: usize)
    ensures
        n == byte_len(s@),
{
    proof {
        lemma_encode_utf8_len(s@);
        assert(s.spec_bytes() == encode_utf8(s@));
    }
    let b = s.as_bytes();
    b.len()
}

/// `char::len_utf8`.
pub fn char_utf8_width(c: char) -> (n: usize)
    ensures
        n == utf8_width(c),
{
    let u = c as u32;
    if u <= 0x7F {
        1
    } else if u <= 0x7FF {
        2
    } else if u <= 0xFFFF {
        3
    } else {
        4
    }
}

// ---------------------------------------------------------------------------
// Conversions between `str`/`String` and `Vec<char>`
// ---------------------------------------------------------------------------

/// The characters of `s`, in order.
pub fn chars_of(s: &str) -> (v: Vec<char>)
    ensures
        v@ == s@,
{
    let mut v: Vec<char> = Vec::new();
    for c in it: s.chars()
        invariant
            v@ == it.seq().take(it.index() as int),
    {
        v.push(c);
        assert(v@ =~= it.seq().take(it.index() + 1));
    }
    assert(v@ =~= s@);
    v
}

/// Appends one character (`String::push`).
#[verifier::external_body]
pub(crate) fn push_char(s: &mut String, c: char)
    ensures
        final(s)@ == old(s)@.push(c),
{
    s.push(c);
}

/// The string whose characters are `v`.
pub fn string_of(v: &[char]) -> (s: String)
    ensures
        s@ == v@,
{
    let mut s = String::new();
    let mut i: usize = 0;
    while i < v.len()
        invariant
            i <= v@.len(),
            s@ == v@.take(i as int),
        decreases v@.len() - i,
    {
        push_char(&mut s, v[i]);
        assert(v@.take(i + 1) =~= v@.take(i as int).push(v@[i as int]));
        i += 1;
    }
    assert(v@.take(v@.len() as int) =~= v@);
    s
}

// ---------------------------------------------------------------------------
// Prefixes, suffixes, substrings
// ---------------------------------------------------------------------------

/// `str::starts_with`.
pub open spec fn starts_with(s: Seq<char>, p: Seq<char>) -> bool {
    p.len() <= s.len() && s.take(p.len() as int) == p
}

/// `str::ends_with`.
pub open spec fn ends_with(s: Seq<char>, p: Seq<char>) -> bool {
    p.len() <= s.len() && s.skip(s.len() - p.len()) == p
}

/// `p` occurs in `s` starting at index `i`.
pub open spec fn occurs_at(s: Seq<char>, p: Seq<char>, i: int) -> bool {
    0 <= i && i + p.len() <= s.len() && s.subrange(i, i + p.len()) == p
}

/// `str::contains`.
pub open spec fn contains(s: Seq<char>, p: Seq<char>) -> bool {
    exists|i: int| occurs_at(s, p, i)
}

/// Equality of two character vectors.
pub fn chars_eq(a: &[char], b: &[char]) -> (r: bool)
    ensures
        r == (a@ == b@),
{
    if a.len() != b.len() {
        return false;
    }
    let mut i: usize = 0;
    while i < a.len()
        invariant
            a@.len() == b@.len(),
            i <= a@.len(),
            forall|j: int| 0 <= j < i ==> a@[j] == b@[j],
        decreases a@.len() - i,
    {
        if a[i] != b[i] {
            return false;
        }
        i += 1;
    }
    assert(a@ =~= b@);
    true
}

/// Whether `p` occurs in `s` at index `at`.
pub fn occurs_at_exec(s: &[char], p: &[char], at: usize) -> (r: bool)
    ensures
        r == occurs_at(s@, p@, at as int),
{
    if at > s.len() || p.len() > s.len() - at {
        return false;
    }
    let mut i: usize = 0;
    while i < p.len()
        invariant
            at + p.len() <= s.len(),
            i <= p@.len(),
            forall|j: int| 0 <= j < i ==> s@[at + j] == p@[j],
        decreases p@.len() - i,
    {
        if s[at + i] != p[i] {
            assert(s@.subrange(at as int, at + p@.len())[i as int] != p@[i as int]);
            return false;
        }
        i += 1;
    }
    assert(s@.subrange(at as int, at + p@.len()) =~= p@);
    true
}

/// `str::starts_with` on characters.
pub fn starts_with_chars(s: &[char], p: &[char]) -> (r: bool)
    ensures
        r == starts_with(s@, p@),
{
    let r = occurs_at_exec(s, p, 0);
    proof {
        assert(s@.subrange(0, p@.len() as int) == s@.take(p@.len() as int));
    }
    r
}

/// `str::ends_with` on characters.
pub fn ends_with_chars(s: &[char], p: &[char]) -> (r: bool)
    ensures
        r == ends_with(s@, p@),
{
    if p.len() > s.len() {
        return false;
    }
    let r = occurs_at_exec(s, p, s.len() - p.len());
    proof {
        assert(s@.subrange(s@.len() - p@.len(), s@.len() as int) =~= s@.skip(
            s@.len() - p@.len(),
        ));
    }
    r
}

/// `str::contains` on characters.
pub fn contains_chars(s: &[char], p: &[char]) -> (r: bool)
    ensures
        r == contains(s@, p@),
{
    if p.len() > s.len() {
        assert forall|i: int| !occurs_at(s@, p@, i) by {}
        return false;
    }
    let limit = s.len() - p.len();
    let mut at: usize = 0;
    loop
        invariant
            limit == s@.len() - p@.len(),
            at <= limit,
            forall|i: int| 0 <= i < at ==> !occurs_at(s@, p@, i),
        decreases limit - at,
    {
        if occurs_at_exec(s, p, at) {
            return true;
        }
        if at == limit {
            assert forall|i: int| !occurs_at(s@, p@, i) by {
                if 0 <= i && i + p@.len() <= s@.len() {
                    assert(i <= at);
                }
            }
            return false;
        }
        at += 1;
    }
}

// ---------------------------------------------------------------------------
// Trimming
// ---------------------------------------------------------------------------

/// `str::trim_start`.
pub open spec fn trim_start(s: Seq<char>) -> Seq<char>
    decreases s.len(),
{
    if s.len() > 0 && is_ws(s[0]) {
        trim_start(s.drop_first())
    } else {
        s
    }
}

/// `str::trim_end`.
pub open spec fn trim_end(s: Seq<char>) -> Seq<char>
    decreases s.len(),
{
    if s.len() > 0 && is_ws(s.last()) {
        trim_end(s.drop_last())
    } else {
        s
    }
}

/// `str::trim`.
pub open spec fn trim(s: Seq<char>) -> Seq<char> {
    trim_end(trim_start(s))
}

proof fn lemma_trim_start_skip(s: Seq<char>, i: int)
    requires
        0 <= i <= s.len(),
        forall|j: int| 0 <= j < i ==> is_ws(s[j]),
    ensures
        trim_start(s) == trim_start(s.skip(i)),
    decreases i,
{
    if i > 0 {
        assert(s.skip(1) =~= s.drop_first());
        lemma_trim_start_skip(s.drop_first(), i - 1);
        assert(s.drop_first().skip(i - 1) =~= s.skip(i));
    } else {
        assert(s.skip(0) =~= s);
    }
}

proof fn lemma_trim_end_take(s: Seq<char>, i: int)
    requires
        0 <= i <= s.len(),
        forall|j: int| i <= j < s.len() ==> is_ws(s[j]),
    ensures
        trim_end(s) == trim_end(s.take(i)),
    decreases s.len() - i,
{
    if i < s.len() {
        lemma_trim_end_take(s.drop_last(), i);
        assert(s.drop_last().take(i) =~= s.take(i));
    } else {
        assert(s.take(i) =~= s);
    }
}

/// `str::trim` on characters.
pub fn trim_chars(s: &[char]) -> (r: Vec<char>)
    ensures
        r@ == trim(s@),
{
    let mut lo: usize = 0;
    while lo < s.len() && is_whitespace(s[lo])
        invariant
            lo <= s@.len(),
            forall|j: int| 0 <= j < lo ==> is_ws(s@[j]),
        decreases s@.len() - lo,
    {
        lo += 1;
    }
    let mut hi: usize = s.len();
    while hi > lo && is_whitespace(s[hi - 1])
        invariant
            lo <= hi <= s@.len(),
            forall|j: int| hi <= j < s@.len() ==> is_ws(s@[j]),
        decreases hi,
    {
        hi -= 1;
    }
    let mut r: Vec<char> = Vec::new();
    let mut k: usize = lo;
    while k < hi
        invariant
            lo <= k <= hi <= s@.len(),
            r@ == s@.subrange(lo as int, k as int),
        decreases hi - k,
    {
        r.push(s[k]);
        assert(r@ =~= s@.subrange(lo as int, k + 1));
        k += 1;
    }
    proof {
        lemma_trim_start_skip(s@, lo as int);
        let t = s@.skip(lo as int);
        if lo < s@.len() {
            assert(!is_ws(t[0]));
        }
        assert(trim_start(t) == t);
        lemma_trim_end_take(t, hi - lo);
        let u = t.take(hi - lo);
        assert(u =~= s@.subrange(lo as int, hi as int));
        if hi > lo {
            assert(!is_ws(u.last()));
        }
        assert(trim_end(u) == u);
    }
    r
}

// ---------------------------------------------------------------------------
// Splitting
// ---------------------------------------------------------------------------

/// `str::split(sep)` for a single character: the pieces between separators.
pub open spec fn split_on(s: Seq<char>, sep: char) -> Seq<Seq<char>>
    decreases s.len(),
{
    if s.len() == 0 {
        seq![Seq::<char>::empty()]
    } else {
        let r = split_on(s.drop_last(), sep);
        if s.last() == sep {
            r.push(Seq::<char>::empty())
        } else {
            r.update(r.len() - 1, r.last().push(s.last()))
        }
    }
}

pub proof fn lemma_split_on_nonempty(s: Seq<char>, sep: char)
    ensures
        split_on(s, sep).len() >= 1,
    decreases s.len(),
{
    if s.len() > 0 {
        lemma_split_on_nonempty(s.drop_last(), sep);
    }
}

/// Drops one trailing `'\r'`.
pub open spec fn strip_cr(line: Seq<char>) -> Seq<char> {
    if line.len() > 0 && line.last() == '\r' {
        line.drop_last()
    } else {
        line
    }
}

/// `str::lines`: pieces between `'\n'`; a final line ending is optional, and a
/// `'\r'` directly before a `'\n'` is not part of the line.
pub open spec fn lines(s: Seq<char>) -> Seq<Seq<char>> {
    let p = split_on(s, '\n');
    let full = if s.len() == 0 || s.last() == '\n' {
        p.drop_last()
    } else {
        p
    };
    Seq::new(
        full.len(),
        |i: int|
            if i < p.len() - 1 {
                strip_cr(full[i])
            } else {
                full[i]
            },
    )
}

/// The view of a vector of character vectors.
pub open spec fn views(v: Seq<Vec<char>>) -> Seq<Seq<char>> {
    Seq::new(v.len(), |i: int| v[i]@)
}

/// `str::split(sep)` on characters.
pub fn split_chars(s: &[char], sep: char) -> (r: Vec<Vec<char>>)
    ensures
        views(r@) == split_on(s@, sep),
{
    let mut done: Vec<Vec<char>> = Vec::new();
    let mut cur: Vec<char> = Vec::new();
    let mut i: usize = 0;
    while i < s.len()
        invariant
            i <= s@.len(),
            split_on(s@.take(i as int), sep) == views(done@).push(cur@),
        decreases s@.len() - i,
    {
        let c = s[i];
        proof {
            assert(s@.take(i + 1).drop_last() =~= s@.take(i as int));
            assert(s@.take(i + 1).last() == c);
        }
        if c == sep {
            let ghost old_done = done@;
            let piece = cur;
            cur = Vec::new();
            done.push(piece);
            assert(views(done@) =~= views(old_done).push(piece@));
            assert(split_on(s@.take(i + 1), sep) =~= views(done@).push(cur@));
        } else {
            cur.push(c);
            assert(split_on(s@.take(i + 1), sep) =~= views(done@).push(cur@));
        }
        i += 1;
    }
    assert(s@.take(s@.len() as int) =~= s@);
    let ghost before = done@;
    done.push(cur);
    assert(views(done@) =~= views(before).push(done@.last()@));
    done
}

/// Drops one trailing `'\r'` from a character vector.
fn strip_cr_exec(line: Vec<char>) -> (r: Vec<char>)
    ensures
        r@ == strip_cr(line@),
{
    if line.len() > 0 && line[line.len() - 1] == '\r' {
        let mut out = line;
        out.pop();
        out
    } else {
        line
    }
}

/// `str::lines` on characters.
pub fn lines_of(s: &[char]) -> (r: Vec<Vec<char>>)
    ensures
        views(r@) == lines(s@),
{
    let pieces = split_chars(s, '\n');
    proof {
        lemma_split_on_nonempty(s@, '\n');
    }
    let n = pieces.len();
    let keep = if s.len() == 0 || s[s.len() - 1] == '\n' {
        n - 1
    } else {
        n
    };
    let mut r: Vec<Vec<char>> = Vec::new();
    let mut i: usize = 0;
    while i < keep
        invariant
            keep <= n == pieces@.len(),
            n >= 1,
            views(pieces@) == split_on(s@, '\n'),
            i <= keep,
            r@.len() == i,
            forall|j: int|
                0 <= j < i ==> #[trigger] r@[j]@ == (if j < n - 1 {
                    strip_cr(pieces@[j]@)
                } else {
                    pieces@[j]@
                }),
        decreases keep - i,
    {
        let piece = pieces[i].clone();
        if i < n - 1 {
            r.push(strip_cr_exec(piece));
        } else {
            r.push(piece);
        }
        i += 1;
    }
    proof {
        let p = split_on(s@, '\n');
        assert(views(r@) =~= lines(s@)) by {
            assert(views(pieces@)[0] == pieces@[0]@);
        }
    }
    r
}

// ---------------------------------------------------------------------------
// Words
// ---------------------------------------------------------------------------

/// `str::split_whitespace`: the maximal runs of non-whitespace characters.
pub open spec fn words(s: Seq<char>) -> Seq<Seq<char>>
    decreases s.len(),
{
    if s.len() == 0 {
        Seq::empty()
    } else {
        let r = words(s.drop_last());
        let c = s.last();
        if is_ws(c) {
            r
        } else if s.len() == 1 || is_ws(s[s.len() - 2]) {
            r.push(seq![c])
        } else {
            r.update(r.len() - 1, r.last().push(c))
        }
    }
}

/// `str::split_whitespace` on characters.
pub fn words_of(s: &[char]) -> (r: Vec<Vec<char>>)
    ensures
        views(r@) == words(s@),
{
    let mut done: Vec<Vec<char>> = Vec::new();
    let mut cur: Vec<char> = Vec::new();
    let mut in_word = false;
    let mut i: usize = 0;
    while i < s.len()
        invariant
            i <= s@.len(),
            in_word == (i > 0 && !is_ws(s@[i - 1])),
            !in_word ==> cur@.len() == 0,
            words(s@.take(i as int)) == (if in_word {
                views(done@).push(cur@)
            } else {
                views(done@)
            }),
        decreases s@.len() - i,
    {
        let c = s[i];
        proof {
            assert(s@.take(i + 1).drop_last() =~= s@.take(i as int));
            assert(s@.take(i + 1).last() == c);
            if i > 0 {
                assert(s@.take(i + 1)[i - 1] == s@[i - 1]);
            }
        }
        if is_whitespace(c) {
            if in_word {
                let ghost old_done = done@;
                let piece = cur;
                cur = Vec::new();
                done.push(piece);
                assert(views(done@) =~= views(old_done).push(piece@));
            }
            in_word = false;
        } else {
            cur.push(c);
            if !in_word {
                assert(cur@ =~= seq![c]);
            }
            in_word = true;
            assert(words(s@.take(i + 1)) =~= views(done@).push(cur@));
        }
        i += 1;
    }
    assert(s@.take(s@.len() as int) =~= s@);
    if in_word {
        let ghost before = done@;
        done.push(cur);
        assert(views(done@) =~= views(before).push(done@.last()@));
    }
    done
}

// ---------------------------------------------------------------------------
// Decimal formatting
// ---------------------------------------------------------------------------

/// The ASCII digit for `d < 10`.
pub open spec fn digit(d: nat) -> char {
    ((d + 48) as u32) as char
}

/// Decimal representation of `n` (`u64::to_string`).
pub open spec fn decimal(n: nat) -> Seq<char>
    decreases n,
{
    if n < 10 {
        seq![digit(n)]
    } else {
        decimal(n / 10).push(digit(n % 10))
    }
}

/// Appends the decimal representation of `n` to `out`.
pub fn push_decimal(out: &mut Vec<char>, n: u64)
    ensures
        final(out)@ == old(out)@ + decimal(n as nat),
    decreases n,
{
    if n >= 10 {
        push_decimal(out, n / 10);
    }
    let d = (n % 10) as u32;
    let c = char_from_digit(d);
    out.push(c);
    proof {
        if n >= 10 {
            assert(old(out)@ + decimal(n as nat) =~= old(out)@ + decimal((n / 10) as nat) + seq![
                digit((n % 10) as nat),
            ]);
        } else {
            assert(old(out)@ + decimal(n as nat) =~= old(out)@.push(c));
        }
    }
}

/// The ASCII digit for `d < 10`.
pub fn char_from_digit(d: u32) -> (c: char)
    requires
        d < 10,
    ensures
        c == digit(d as nat),
{
    match d {
        0 => '0',
        1 => '1',
        2 => '2',
        3 => '3',
        4 => '4',
        5 => '5',
        6 => '6',
        7 => '7',
        8 => '8',
        _ => '9',
    }
}

/// Appends all of `b` to `a`.
pub fn extend_chars(a: &mut Vec<char>, b: &[char])
    ensures
        final(a)@ == old(a)@ + b@,
{
    let mut i: usize = 0;
    while i < b.len()
        invariant
            i <= b@.len(),
            a@ == old(a)@ + b@.take(i as int),
        decreases b@.len() - i,
    {
        a.push(b[i]);
        assert(old(a)@ + b@.take(i + 1) =~= old(a)@ + b@.take(i as int) + seq![b@[i as int]]);
        i += 1;
    }
    assert(b@.take(b@.len() as int) =~= b@);
}

/// Appends the characters of `s` to `a`.
pub fn extend_str(a: &mut Vec<char>, s: &str)
    ensures
        final(a)@ == old(a)@ + s@,
{
    let cs = chars_of(s);
    extend_chars(a, &cs);
}

/// Pieces joined by `", "`.
pub open spec fn join_comma(parts: Seq<Seq<char>>) -> Seq<char>
    decreases parts.len(),
{
    if parts.len() == 0 {
        Seq::empty()
    } else if parts.len() == 1 {
        parts[0]
    } else {
        join_comma(parts.drop_last()) + ", "@ + parts.last()
    }
}

/// Appends `parts` joined by `", "` to `out`.
pub fn push_join_comma(out: &mut Vec<char>, parts: &Vec<Vec<char>>)
    ensures
        final(out)@ == old(out)@ + join_comma(views(parts@)),
{
    let ghost pv = views(parts@);
    let ghost prefix = out@;
    let mut k: usize = 0;
    while k < parts.len()
        invariant
            k <= parts@.len(),
            pv == views(parts@),
            prefix == old(out)@,
            out@ == prefix + join_comma(pv.take(k as int)),
        decreases parts@.len() - k,
    {
        proof {
            assert(pv.take(k + 1).drop_last() =~= pv.take(k as int));
        }
        if k > 0 {
            extend_str(out, ", ");
        }
        extend_chars(out, &parts[k]);
        proof {
            if k == 0 {
                assert(pv.take(1) =~= seq![pv[0]]);
                assert(join_comma(pv.take(0)) =~= Seq::<char>::empty());
            }
            assert(out@ =~= prefix + join_comma(pv.take(k + 1)));
        }
        k += 1;
    }
    proof {
        assert(pv.take(parts@.len() as int) =~= pv);
    }
}

/// `a` sorts strictly before `b`: character by character, a proper prefix
/// first (the order of `str` and `String`).
pub open spec fn lex_lt(a: Seq<char>, b: Seq<char>) -> bool
    decreases a.len(),
{
    if a.len() == 0 {
        b.len() > 0
    } else if b.len() == 0 {
        false
    } else if a[0] != b[0] {
        (a[0] as u32) < (b[0] as u32)
    } else {
        lex_lt(a.drop_first(), b.drop_first())
    }
}

/// Nothing sorts before itself.
pub proof fn lemma_lex_lt_irreflexive(a: Seq<char>)
    ensures
        !lex_lt(a, a),
    decreases a.len(),
{
    if a.len() > 0 {
        lemma_lex_lt_irreflexive(a.drop_first());
    }
}

/// Of two different strings, one sorts before the other, and not both ways.
pub proof fn lemma_lex_lt_total(a: Seq<char>, b: Seq<char>)
    ensures
        a != b ==> (lex_lt(a, b) || lex_lt(b, a)),
        !(lex_lt(a, b) && lex_lt(b, a)),
    decreases a.len(),
{
    if a.len() > 0 && b.len() > 0 {
        if a[0] == b[0] {
            lemma_lex_lt_total(a.drop_first(), b.drop_first());
            if a.drop_first() == b.drop_first() {
                assert(a =~= seq![a[0]] + a.drop_first());
                assert(b =~= seq![b[0]] + b.drop_first());
            }
        } else {
            vstd::utf8::char_u32_cast(a[0], a[0] as u32);
            vstd::utf8::char_u32_cast(b[0], b[0] as u32);
            assert((a[0] as u32) != (b[0] as u32));
        }
    } else if a.len() == 0 && b.len() == 0 {
        assert(a =~= b);
    }
}

/// Sorting before is transitive.
pub proof fn lemma_lex_lt_transitive(a: Seq<char>, b: Seq<char>, c: Seq<char>)
    requires
        lex_lt(a, b),
        lex_lt(b, c),
    ensures
        lex_lt(a, c),
    decreases a.len(),
{
    if a.len() > 0 && b.len() > 0 && c.len() > 0 {
        if a[0] == b[0] && b[0] == c[0] {
            lemma_lex_lt_transitive(a.drop_first(), b.drop_first(), c.drop_first());
        }
    }
}

/// Whether `a` sorts strictly before `b`.
pub fn lex_less(a: &[char], b: &[char]) -> (r: bool)
    ensures
        r == lex_lt(a@, b@),
{
    let mut i: usize = 0;
    proof {
        assert(a@.skip(0) =~= a@);
        assert(b@.skip(0) =~= b@);
    }
    while i < a.len() && i < b.len() && a[i] == b[i]
        invariant
            i <= a@.len(),
            i <= b@.len(),
            lex_lt(a@, b@) == lex_lt(a@.skip(i as int), b@.skip(i as int)),
        decreases a@.len() - i,
    {
        proof {
            assert(a@.skip(i as int).drop_first() =~= a@.skip(i + 1));
            assert(b@.skip(i as int).drop_first() =~= b@.skip(i + 1));
        }
        i += 1;
    }
    if i == a.len() {
        i < b.len()
    } else if i == b.len() {
        false
    } else {
        (a[i] as u32) < (b[i] as u32)
    }
}

/// Strictly ascending: sorted with no repeats.
pub open spec fn strictly_sorted(s: Seq<Seq<char>>) -> bool {
    forall|i: int, j: int| 0 <= i < j < s.len() ==> lex_lt(s[i], s[j])
}

/// The strings of `v`, sorted ascending with repeats removed.
pub fn sort_dedup(v: &Vec<String>) -> (r: Vec<String>)
    ensures
        strictly_sorted(string_views(r@)),
        string_views(r@).to_set() == string_views(v@).to_set(),
{
    let ghost vv = string_views(v@);
    let mut out: Vec<String> = Vec::new();
    let mut i: usize = 0;
    while i < v.len()
        invariant
            vv == string_views(v@),
            i <= v@.len(),
            strictly_sorted(string_views(out@)),
            string_views(out@).to_set() == vv.take(i as int).to_set(),
        decreases v@.len() - i,
    {
        let x = chars_of(v[i].as_str());
        let ghost ov = string_views(out@);
        let mut pos: usize = 0;
        while pos < out.len() && lex_less(&chars_of(out[pos].as_str()), &x)
            invariant
                pos <= out@.len(),
                ov == string_views(out@),
                x@ == vv[i as int],
                forall|j: int| 0 <= j < pos ==> lex_lt(#[trigger] ov[j], x@),
            decreases out@.len() - pos,
        {
            pos += 1;
        }
        proof {
            assert(vv.take(i + 1) =~= vv.take(i as int).push(vv[i as int]));
        }
        if pos < out.len() && chars_eq(&chars_of(out[pos].as_str()), &x) {
            proof {
                assert(ov[pos as int] == x@);
                assert(ov.contains(x@));
                ov.take(i as int).lemma_push_to_set_commute(x@);
                vv.take(i as int).lemma_push_to_set_commute(vv[i as int]);
                assert(string_views(out@).to_set() =~= vv.take(i + 1).to_set());
            }
        } else {
            proof {
                if pos < ov.len() {
                    lemma_lex_lt_total(ov[pos as int], x@);
                }
                assert forall|j: int| pos <= j < ov.len() implies lex_lt(x@, #[trigger] ov[j]) by {
                    if j > pos {
                        lemma_lex_lt_transitive(x@, ov[pos as int], ov[j]);
                    }
                }
            }
            out.insert(pos, v[i].clone());
            proof {
                let nv = string_views(out@);
                assert(nv =~= ov.take(pos as int).push(x@) + ov.skip(pos as int));
                assert forall|a: int, b: int| 0 <= a < b < nv.len() implies lex_lt(nv[a], nv[b]) by {
                    if b < pos {
                    } else if b == pos {
                    } else if a < pos {
                        assert(nv[b] == ov[b - 1]);
                        if a < b - 1 {
                        }
                    } else if a == pos {
                        assert(nv[b] == ov[b - 1]);
                    } else {
                        assert(nv[a] == ov[a - 1]);
                        assert(nv[b] == ov[b - 1]);
                    }
                }
                assert forall|y: Seq<char>| nv.contains(y) <==> (ov.contains(y) || y == x@) by {
                    if nv.contains(y) {
                        let k = choose|k: int| 0 <= k < nv.len() && nv[k] == y;
                        if k < pos {
                            assert(ov[k] == y);
                        } else if k > pos {
                            assert(ov[k - 1] == y);
                        }
                    }
                    if ov.contains(y) {
                        let k = choose|k: int| 0 <= k < ov.len() && ov[k] == y;
                        if k < pos {
                            assert(nv[k] == y);
                        } else {
                            assert(nv[k + 1] == y);
                        }
                    }
                    if y == x@ {
                        assert(nv[pos as int] == y);
                    }
                }
                assert(nv.to_set() =~= ov.to_set().insert(x@));
                vv.take(i as int).lemma_push_to_set_commute(vv[i as int]);
                assert(vv.take(i + 1).to_set() =~= vv.take(i as int).to_set().insert(vv[i as int]));
            }
        }
        i += 1;
    }
    proof {
        assert(vv.take(v@.len() as int) =~= vv);
    }
    out
}

/// The views of a list of strings.
pub open spec fn string_views(v: Seq<String>) -> Seq<Seq<char>> {
    Seq::new(v.len(), |i: int| v[i]@)
}

/// `byte_len(s)`, or `usize::MAX` when it does not fit.
pub open spec fn byte_len_sat(s: Seq<char>) -> nat {
    if byte_len(s) <= usize::MAX {
        byte_len(s)
    } else {
        usize::MAX as nat
    }
}

/// Byte length of the UTF-8 encoding of `s`, saturating at `usize::MAX`.
pub fn byte_len_chars(s: &[char]) -> (n: usize)
    ensures
        n == byte_len_sat(s@),
{
    let mut n: usize = 0;
    let mut i: usize = 0;
    while i < s.len()
        invariant
            i <= s@.len(),
            n == byte_len_sat(s@.take(i as int)),
        decreases s@.len() - i,
    {
        proof {
            lemma_byte_len_push(s@.take(i as int), s@[i as int]);
            assert(s@.take(i + 1) =~= s@.take(i as int).push(s@[i as int]));
        }
        n = n.saturating_add(char_utf8_width(s[i]));
        i += 1;
    }
    assert(s@.take(s@.len() as int) =~= s@);
    n
}

/// `str::trim_end` on characters.
pub fn trim_end_chars(s: &[char]) -> (r: Vec<char>)
    ensures
        r@ == trim_end(s@),
{
    let mut hi: usize = s.len();
    while hi > 0 && is_whitespace(s[hi - 1])
        invariant
            hi <= s@.len(),
            forall|j: int| hi <= j < s@.len() ==> is_ws(s@[j]),
        decreases hi,
    {
        hi -= 1;
    }
    let mut r: Vec<char> = Vec::new();
    let mut k: usize = 0;
    while k < hi
        invariant
            k <= hi <= s@.len(),
            r@ == s@.take(k as int),
        decreases hi - k,
    {
        r.push(s[k]);
        assert(r@ =~= s@.take(k + 1));
        k += 1;
    }
    proof {
        lemma_trim_end_take(s@, hi as int);
        if hi > 0 {
            assert(!is_ws(s@.take(hi as int).last()));
        }
    }
    r
}

} // verus!
