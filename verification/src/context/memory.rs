//! Durable memory: one markdown file per profile under `<data_dir>/memories/`,
//! injected into the system prompt as a `<memory>` section.
//!
//! Paths are held as their components; the host joins them into a file path
//! and performs the reads and writes.

use vstd::prelude::*;

use crate::text::{chars_of, extend_chars, extend_str, string_of, trim, trim_chars};

verus! {

/// Directory (under the data dir) that holds memory profiles.
pub const MEMORIES_DIR: &'static str = "memories";

/// Profile used when no project is known.
pub const DEFAULT_PROFILE: &'static str = "default";

/// A durable fact store backed by a single markdown file.
#[derive(Debug)]
pub struct MemoryStore {
    path: Vec<String>,
}

/// Component views of a path.
pub open spec fn components(p: Seq<String>) -> Seq<Seq<char>> {
    Seq::new(p.len(), |i: int| p[i]@)
}

/// `<data_dir>/memories/<profile>.md`.
pub open spec fn profile_path(data_dir: Seq<Seq<char>>, profile: Seq<char>) -> Seq<Seq<char>> {
    data_dir.push("memories"@).push(profile + ".md"@)
}

fn copy_components(data_dir: &Vec<String>) -> (r: Vec<String>)
    ensures
        components(r@) == components(data_dir@),
{
    let mut r: Vec<String> = Vec::new();
    let mut i: usize = 0;
    while i < data_dir.len()
        invariant
            i <= data_dir@.len(),
            r@.len() == i,
            forall|j: int| 0 <= j < i ==> #[trigger] r@[j]@ == data_dir@[j]@,
        decreases data_dir@.len() - i,
    {
        r.push(data_dir[i].clone());
        i += 1;
    }
    assert(components(r@) =~= components(data_dir@));
    r
}

impl MemoryStore {
    /// The file's path components.
    pub closed spec fn spec_path(&self) -> Seq<Seq<char>> {
        components(self.path@)
    }

    /// Build a store for a specific profile name under `data_dir/memories/`.
    pub fn with_profile(data_dir: &Vec<String>, profile: &str) -> (r: Self)
        ensures
            r.spec_path() == profile_path(components(data_dir@), profile@),
    {
        let mut path = copy_components(data_dir);
        let ghost base = path@;
        path.push(string_of(&chars_of(MEMORIES_DIR)));
        let mut file = chars_of(profile);
        extend_str(&mut file, ".md");
        path.push(string_of(&file));
        let r = Self { path };
        assert(r.spec_path() =~= profile_path(components(data_dir@), profile@));
        r
    }

    /// Build a store rooted at `data_dir/memories/` for the default profile.
    pub fn new(data_dir: &Vec<String>) -> (r: Self)
        ensures
            r.spec_path() == profile_path(components(data_dir@), "default"@),
    {
        Self::with_profile(data_dir, DEFAULT_PROFILE)
    }

    /// The path components of the memory file.
    pub fn path(&self) -> (r: &Vec<String>)
        ensures
            components(r@) == self.spec_path(),
    {
        &self.path
    }

    /// The root data directory this store's file lives under (two levels up
    /// from the `.md` file); `None` when the path is too shallow.
    pub fn data_dir(&self) -> (r: Option<Vec<String>>)
        ensures
            self.spec_path().len() >= 2 ==> (r matches Some(d) && components(d@)
                == self.spec_path().take(self.spec_path().len() - 2)),
            self.spec_path().len() < 2 ==> r is None,
    {
        let n = self.path.len();
        if n < 2 {
            return None;
        }
        let mut r: Vec<String> = Vec::new();
        let mut i: usize = 0;
        while i < n - 2
            invariant
                n == self.path@.len(),
                n >= 2,
                i <= n - 2,
                r@.len() == i,
                forall|j: int| 0 <= j < i ==> #[trigger] r@[j]@ == self.path@[j]@,
            decreases n - 2 - i,
        {
            r.push(self.path[i].clone());
            i += 1;
        }
        assert(components(r@) =~= self.spec_path().take(self.spec_path().len() - 2));
        Some(r)
    }
}

/// The system-prompt section for memory text `body`: `None` when it is blank,
/// otherwise `"<memory>\n" + trim(body) + "\n</memory>"`.
pub open spec fn spec_memory_section(body: Seq<char>) -> Option<Seq<char>> {
    if trim(body).len() == 0 {
        None
    } else {
        Some("<memory>\n"@ + trim(body) + "\n</memory>"@)
    }
}

impl MemoryStore {
    /// Format memory content as a system-prompt section; `None` when the memory
    /// is empty. `body` is the content of the file at `self.path()`, as read by
    /// the host (empty when the file is absent).
    pub fn format(&self, body: &str) -> (r: Option<String>)
        ensures
            match r {
                Some(s) => spec_memory_section(body@) == Some(s@),
                None => spec_memory_section(body@) is None,
            },
    {
        let t = trim_chars(&chars_of(body));
        if t.len() == 0 {
            return None;
        }
        let mut out = chars_of("<memory>\n");
        extend_chars(&mut out, &t);
        extend_str(&mut out, "\n</memory>");
        Some(string_of(&out))
    }
}

/// A store built for `data_dir` reports `data_dir` back as its data directory.
pub proof fn lemma_data_dir_round_trip(data_dir: Seq<Seq<char>>, profile: Seq<char>)
    ensures
        profile_path(data_dir, profile).len() >= 2,
        profile_path(data_dir, profile).take(profile_path(data_dir, profile).len() - 2)
            == data_dir,
{
    assert(profile_path(data_dir, profile).take(profile_path(data_dir, profile).len() - 2)
        =~= data_dir);
}


/// Whether `char::is_alphanumeric` holds for `c` (Unicode `Alphabetic` or
/// `Numeric`).
pub uninterp spec fn unicode_alphanumeric(c: char) -> bool;

/// Calls `char::is_alphanumeric`; the result is named, not stated.
#[verifier::external_body]
fn is_alphanumeric(c: char) -> (r: bool)
    ensures
        r == unicode_alphanumeric(c),
{
    c.is_alphanumeric()
}

/// A character kept in a profile name; every other becomes `-`.
pub open spec fn profile_char(c: char) -> char {
    if unicode_alphanumeric(c) || c == '-' || c == '_' {
        c
    } else {
        '-'
    }
}

/// `s` without leading `-`.
pub open spec fn trim_leading_dashes(s: Seq<char>) -> Seq<char>
    decreases s.len(),
{
    if s.len() > 0 && s[0] == '-' {
        trim_leading_dashes(s.drop_first())
    } else {
        s
    }
}

/// The lowercase hex digit for `d < 16`.
pub open spec fn hex_digit(d: nat) -> char {
    if d < 10 {
        ((d + 48) as u32) as char
    } else {
        ((d + 87) as u32) as char
    }
}

/// `n` as 16 lowercase hex digits (`{:016x}`).
pub open spec fn hex16(n: u64) -> Seq<char> {
    Seq::new(16, |i: int| hex_digit(((n as nat) / pow16((15 - i) as nat)) % 16))
}

/// `16^k`.
pub open spec fn pow16(k: nat) -> nat
    decreases k,
{
    if k == 0 {
        1
    } else {
        16 * pow16((k - 1) as nat)
    }
}

/// The memory profile of a project: its directory name with characters other
/// than alphanumerics, `-` and `_` replaced by `-` and leading dashes dropped
/// (`project` when nothing is left or there is no name), then `-` and the
/// path's hash in hex. A project whose path cannot be resolved falls back to
/// the global `default` profile.
pub open spec fn spec_project_profile(resolved: bool, dir_name: Option<Seq<char>>, hash: u64) -> Seq<
    char,
> {
    if resolved {
        let raw = match dir_name {
            Some(n) => if n.len() == 0 {
                "project"@
            } else {
                n
            },
            None => "project"@,
        };
        let cleaned = trim_leading_dashes(Seq::new(raw.len(), |i: int| profile_char(raw[i])));
        (if cleaned.len() == 0 {
            "project"@
        } else {
            cleaned
        }) + "-"@ + hex16(hash)
    } else {
        DEFAULT_PROFILE@
    }
}

pub(crate) fn hex_char(d: u64) -> (c: char)
    requires
        d < 16,
    ensures
        c == hex_digit(d as nat),
{
    match d {
        0 => '0',
        1 => '1',
        2 => '2',
        3 => '3',
        4 => '4',
        5 => '5',
        6 => '6',
        7 => '7',
        8 => '8',
        9 => '9',
        10 => 'a',
        11 => 'b',
        12 => 'c',
        13 => 'd',
        14 => 'e',
        _ => 'f',
    }
}

pub(crate) proof fn lemma_pow16_step(k: nat)
    ensures
        pow16(k + 1) == 16 * pow16(k),
        pow16(k) >= 1,
    decreases k,
{
    if k > 0 {
        lemma_pow16_step((k - 1) as nat);
    }
}

fn push_hex16(out: &mut Vec<char>, n: u64)
    ensures
        final(out)@ == old(out)@ + hex16(n),
{
    let mut digits: Vec<char> = Vec::new();
    let mut rest: u64 = n;
    let mut k: usize = 0;
    proof {
        assert(pow16(0) == 1);
        assert((n as nat) / 1 == n as nat);
    }
    while k < 16
        invariant
            k <= 16,
            digits@.len() == k,
            rest as nat == (n as nat) / pow16(k as nat),
            forall|j: int| 0 <= j < k ==> #[trigger] digits@[j] == hex_digit(((n as nat) / pow16(j as nat)) % 16),
        decreases 16 - k,
    {
        proof {
            lemma_pow16_step(k as nat);
            vstd::arithmetic::div_mod::lemma_div_denominator((n as nat) as int, pow16(k as nat) as int, 16);
            assert(pow16(k as nat) * 16 == 16 * pow16(k as nat)) by (nonlinear_arith);
        }
        digits.push(hex_char(rest % 16));
        rest = rest / 16;
        k += 1;
    }
    let mut j: usize = 16;
    while j > 0
        invariant
            j <= 16,
            digits@.len() == 16,
            forall|t: int| 0 <= t < 16 ==> #[trigger] digits@[t] == hex_digit(((n as nat) / pow16(t as nat)) % 16),
            out@ == old(out)@ + hex16(n).take(16 - j),
        decreases j,
    {
        out.push(digits[j - 1]);
        proof {
            assert(hex16(n)[16 - j] == digits@[j - 1]);
            assert(hex16(n).take(16 - j + 1) =~= hex16(n).take(16 - j).push(hex16(n)[16 - j]));
        }
        j -= 1;
    }
    assert(hex16(n).take(16) =~= hex16(n));
}

/// The profile name for a project (see `spec_project_profile`); `hash` is the
/// host's hash of the project path, `dir_name` the last component of its
/// canonical path.
pub fn project_profile(resolved: bool, dir_name: Option<&str>, hash: u64) -> (r: String)
    ensures
        r@ == spec_project_profile(
            resolved,
            match dir_name {
                Some(n) => Some(n@),
                None => None,
            },
            hash,
        ),
{
    if !resolved {
        return DEFAULT_PROFILE.to_owned();
    }
    let raw = match dir_name {
        Some(n) => {
            let cs = chars_of(n);
            if cs.len() == 0 {
                chars_of("project")
            } else {
                cs
            }
        },
        None => chars_of("project"),
    };
    let mut mapped: Vec<char> = Vec::new();
    let mut i: usize = 0;
    while i < raw.len()
        invariant
            i <= raw@.len(),
            mapped@ == Seq::new(i as nat, |t: int| profile_char(raw@[t])),
        decreases raw@.len() - i,
    {
        let c = raw[i];
        let keep = is_alphanumeric(c) || c == '-' || c == '_';
        mapped.push(if keep { c } else { '-' });
        assert(mapped@ =~= Seq::new((i + 1) as nat, |t: int| profile_char(raw@[t])));
        i += 1;
    }
    let mut lo: usize = 0;
    proof {
        assert(mapped@.skip(0) =~= mapped@);
    }
    while lo < mapped.len() && mapped[lo] == '-'
        invariant
            lo <= mapped@.len(),
            trim_leading_dashes(mapped@) == trim_leading_dashes(mapped@.skip(lo as int)),
        decreases mapped@.len() - lo,
    {
        proof {
            assert(mapped@.skip(lo as int).drop_first() =~= mapped@.skip(lo + 1));
        }
        lo += 1;
    }
    let mut cleaned: Vec<char> = Vec::new();
    let mut k: usize = lo;
    while k < mapped.len()
        invariant
            lo <= k <= mapped@.len(),
            cleaned@ == mapped@.subrange(lo as int, k as int),
        decreases mapped@.len() - k,
    {
        cleaned.push(mapped[k]);
        assert(cleaned@ =~= mapped@.subrange(lo as int, k + 1));
        k += 1;
    }
    proof {
        assert(cleaned@ =~= mapped@.skip(lo as int));
    }
    let mut out = if cleaned.len() == 0 {
        chars_of("project")
    } else {
        cleaned
    };
    extend_str(&mut out, "-");
    push_hex16(&mut out, hash);
    string_of(&out)
}

impl MemoryStore {
    /// The store of a project: its profile (see `project_profile`) under
    /// `data_dir/memories/`.
    pub fn for_project(data_dir: &Vec<String>, resolved: bool, dir_name: Option<&str>, hash: u64) -> (r:
        Self)
        ensures
            r.spec_path() == profile_path(
                components(data_dir@),
                spec_project_profile(
                    resolved,
                    match dir_name {
                        Some(n) => Some(n@),
                        None => None,
                    },
                    hash,
                ),
            ),
    {
        let profile = project_profile(resolved, dir_name, hash);
        Self::with_profile(data_dir, profile.as_str())
    }
}

} // verus!
