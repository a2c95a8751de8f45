//! Skill catalog: the system-prompt block that lists installed skills within a
//! byte budget, and the skill lists shown to the model and to the user.

use vstd::prelude::*;

use crate::text::{byte_len, byte_len_chars, chars_of, decimal, extend_chars, extend_str, push_decimal, string_of};

verus! {

/// Byte budget for the catalog's entry list (header excluded).
pub const CATALOG_BUDGET_CHARS: usize = 8000;

/// Longest description kept verbatim in a shortened catalog entry.
pub const MAX_CATALOG_DESCRIPTION_CHARS: usize = 120;

/// A skill as loaded into the registry, with the two catalog lines it renders
/// to: the full entry, and the entry with its description shortened to
/// [`MAX_CATALOG_DESCRIPTION_CHARS`].
#[derive(Debug)]
pub struct LoadedSkill {
    pub name: String,
    pub description: String,
    /// Where it was loaded from (`bundled`, `project`, `external`, ...).
    pub source: String,
    /// Sub-files inside the skill bundle, relative to its root.
    pub assets: Vec<String>,
    /// Hidden from the model when set.
    pub disable_model_invocation: bool,
    /// Shown in the user's `/skills` picker when set.
    pub user_invocable: bool,
    pub catalog_entry: String,
    pub catalog_entry_truncated: String,
}

/// The installed skills, in catalog order.
#[derive(Debug)]
pub struct SkillRegistry {
    pub skills: Vec<LoadedSkill>,
}

/// One entry returned by the skill-list endpoints.
#[derive(Debug)]
pub struct SkillListEntry {
    pub name: String,
    pub description: String,
    pub source: String,
    pub assets: Vec<String>,
}

/// The static catalog header.
pub open spec fn catalog_header_text() -> Seq<char> {
    "\n<skills>\nThe following skills are installed. Each is a bundle of specialised instructions for a particular kind of task. To read a skill's full instructions before proceeding, call `skill_view(name=\"<name>\")`. To read a sub-file (e.g. `references/foo.md`), call `skill_view(name=\"<name>\", path=\"references/foo.md\")`. Do not invent skill names — only use the ones listed below.\n\n"@
}

/// Static catalog header: heading plus how to read a skill body or sub-file.
pub fn catalog_header() -> (r: &'static str)
    ensures
        r@ == catalog_header_text(),
{
    "\n<skills>\nThe following skills are installed. Each is a bundle of specialised instructions for a particular kind of task. To read a skill's full instructions before proceeding, call `skill_view(name=\"<name>\")`. To read a sub-file (e.g. `references/foo.md`), call `skill_view(name=\"<name>\", path=\"references/foo.md\")`. Do not invent skill names — only use the ones listed below.\n\n"
}

/// The skills visible to the model, in order.
pub open spec fn model_visible(skills: Seq<LoadedSkill>) -> Seq<LoadedSkill>
    decreases skills.len(),
{
    if skills.len() == 0 {
        Seq::empty()
    } else if skills.last().disable_model_invocation {
        model_visible(skills.drop_last())
    } else {
        model_visible(skills.drop_last()).push(skills.last())
    }
}

/// The skills visible to the user, in order.
pub open spec fn user_visible(skills: Seq<LoadedSkill>) -> Seq<LoadedSkill>
    decreases skills.len(),
{
    if skills.len() == 0 {
        Seq::empty()
    } else if skills.last().user_invocable {
        user_visible(skills.drop_last()).push(skills.last())
    } else {
        user_visible(skills.drop_last())
    }
}

/// Bytes charged for entries: each entry plus its newline.
pub open spec fn charged(entries: Seq<Seq<char>>) -> nat
    decreases entries.len(),
{
    if entries.len() == 0 {
        0
    } else {
        charged(entries.drop_last()) + byte_len(entries.last()) + 1
    }
}

/// Greedy packing of `entries` into `budget` bytes, in order: an entry that
/// fits (with its newline) is emitted and charged, one that does not is
/// counted as omitted. Returns `(text, remaining budget, omitted count)`.
pub open spec fn pack(entries: Seq<Seq<char>>, budget: nat) -> (Seq<char>, nat, nat)
    decreases entries.len(),
{
    if entries.len() == 0 {
        (Seq::empty(), budget, 0)
    } else {
        let (text, remaining, omitted) = pack(entries.drop_last(), budget);
        let e = entries.last();
        if byte_len(e) + 1 > remaining {
            (text, remaining, omitted + 1)
        } else {
            (text + e + seq!['\n'], (remaining - (byte_len(e) + 1)) as nat, omitted)
        }
    }
}

/// Budget left for entries after the header.
pub open spec fn entry_budget() -> nat {
    if byte_len(catalog_header_text()) <= CATALOG_BUDGET_CHARS {
        (CATALOG_BUDGET_CHARS - byte_len(catalog_header_text())) as nat
    } else {
        0
    }
}

/// The catalog: empty when no skill is visible to the model; otherwise the
/// header, the packed entries (full entries when they all fit, else the
/// shortened ones), a `+N more` line when entries were dropped, and the footer.
pub open spec fn spec_catalog(skills: Seq<LoadedSkill>) -> Seq<char> {
    let loaded = model_visible(skills);
    if loaded.len() == 0 {
        Seq::empty()
    } else {
        let full = Seq::new(loaded.len(), |i: int| loaded[i].catalog_entry@);
        let short = Seq::new(loaded.len(), |i: int| loaded[i].catalog_entry_truncated@);
        let entries = if charged(full) > entry_budget() {
            short
        } else {
            full
        };
        let (text, _, omitted) = pack(entries, entry_budget());
        catalog_header_text() + text + (if omitted > 0 {
            "… +"@ + decimal(omitted) + " more skills installed. Run `skills_list()` for the full catalog.\n"@
        } else {
            Seq::empty()
        }) + "</skills>\n"@
    }
}

/// The entries visible to the model, full or shortened.
fn visible_entries(skills: &Vec<LoadedSkill>, short: bool) -> (r: Vec<Vec<char>>)
    ensures
        r@.len() == model_visible(skills@).len(),
        forall|i: int|
            0 <= i < r@.len() ==> #[trigger] r@[i]@ == (if short {
                model_visible(skills@)[i].catalog_entry_truncated@
            } else {
                model_visible(skills@)[i].catalog_entry@
            }),
{
    let mut r: Vec<Vec<char>> = Vec::new();
    let mut i: usize = 0;
    while i < skills.len()
        invariant
            i <= skills@.len(),
            r@.len() == model_visible(skills@.take(i as int)).len(),
            forall|j: int|
                0 <= j < r@.len() ==> #[trigger] r@[j]@ == (if short {
                    model_visible(skills@.take(i as int))[j].catalog_entry_truncated@
                } else {
                    model_visible(skills@.take(i as int))[j].catalog_entry@
                }),
        decreases skills@.len() - i,
    {
        proof {
            assert(skills@.take(i + 1).drop_last() =~= skills@.take(i as int));
            assert(skills@.take(i + 1).last() == skills@[i as int]);
        }
        let s = &skills[i];
        if !s.disable_model_invocation {
            let e = if short {
                chars_of(s.catalog_entry_truncated.as_str())
            } else {
                chars_of(s.catalog_entry.as_str())
            };
            r.push(e);
        }
        i += 1;
    }
    assert(skills@.take(skills@.len() as int) =~= skills@);
    r
}

impl SkillRegistry {
    /// Render the system-prompt catalog (`""` when no skill is visible to the
    /// model). The entry list is budgeted at [`CATALOG_BUDGET_CHARS`] bytes:
    /// overflow switches to shortened descriptions, then drops entries that do
    /// not fit, then appends a `+N more` line.
    pub fn catalog_for_system_prompt(&self) -> (r: String)
        ensures
            r@ == spec_catalog(self.skills@),
    {
        let full = visible_entries(&self.skills, false);
        if full.len() == 0 {
            return String::new();
        }
        let ghost loaded = model_visible(self.skills@);
        let header = catalog_header();
        let header_len = byte_len_chars(&chars_of(header));
        let budget = CATALOG_BUDGET_CHARS.saturating_sub(header_len);
        proof {
            crate::text::lemma_byte_len_ge_len(catalog_header_text());
            assert(budget == entry_budget());
        }
        let mut total: usize = 0;
        let mut i: usize = 0;
        while i < full.len()
            invariant
                i <= full@.len(),
                total == (if charged(views_of(full@).take(i as int)) <= usize::MAX {
                    charged(views_of(full@).take(i as int))
                } else {
                    usize::MAX as nat
                }),
            decreases full@.len() - i,
        {
            proof {
                assert(views_of(full@).take(i + 1).drop_last() =~= views_of(full@).take(i as int));
            }
            total = total.saturating_add(byte_len_chars(&full[i])).saturating_add(1);
            i += 1;
        }
        proof {
            assert(views_of(full@).take(full@.len() as int) =~= views_of(full@));
            assert(views_of(full@) =~= Seq::new(loaded.len(), |i: int| loaded[i].catalog_entry@));
        }
        let entries = if total > budget {
            let s = visible_entries(&self.skills, true);
            assert(views_of(s@) =~= Seq::new(
                loaded.len(),
                |i: int| loaded[i].catalog_entry_truncated@,
            ));
            s
        } else {
            full
        };
        let mut out = chars_of(header);
        let mut remaining = budget;
        let mut omitted: u64 = 0;
        let mut k: usize = 0;
        while k < entries.len()
            invariant
                k <= entries@.len(),
                budget <= CATALOG_BUDGET_CHARS,
                remaining <= budget,
                ({
                    let (t, rem, om) = pack(views_of(entries@).take(k as int), budget as nat);
                    out@ == catalog_header_text() + t && remaining == rem && omitted == om
                }),
                omitted <= k,
            decreases entries@.len() - k,
        {
            proof {
                assert(views_of(entries@).take(k + 1).drop_last() =~= views_of(entries@).take(
                    k as int,
                ));
                assert(views_of(entries@).take(k + 1).last() == entries@[k as int]@);
            }
            let n = byte_len_chars(&entries[k]).saturating_add(1);
            proof {
                let (t, rem, om) = pack(views_of(entries@).take(k as int), budget as nat);
                assert(rem == remaining);
                assert((n > remaining) == (byte_len(entries@[k as int]@) + 1 > rem));
            }
            if n > remaining {
                omitted += 1;
            } else {
                extend_chars(&mut out, &entries[k]);
                out.push('\n');
                remaining -= n;
                proof {
                    let (t, rem, om) = pack(views_of(entries@).take(k as int), budget as nat);
                    assert(out@ =~= catalog_header_text() + (t + entries@[k as int]@ + seq!['\n']));
                }
            }
            k += 1;
        }
        proof {
            assert(views_of(entries@).take(entries@.len() as int) =~= views_of(entries@));
        }
        let ghost packed = out@;
        if omitted > 0 {
            extend_str(&mut out, "… +");
            push_decimal(&mut out, omitted);
            extend_str(&mut out, " more skills installed. Run `skills_list()` for the full catalog.\n");
        }
        extend_str(&mut out, "</skills>\n");
        string_of(&out)
    }

    /// Catalog for the model-facing skill list: every skill the model may
    /// invoke, in order.
    pub fn list_for_tool(&self) -> (r: Vec<SkillListEntry>)
        ensures
            r@.len() == model_visible(self.skills@).len(),
            forall|i: int|
                0 <= i < r@.len() ==> #[trigger] entry_of(r@[i], model_visible(self.skills@)[i]),
    {
        let mut r: Vec<SkillListEntry> = Vec::new();
        let mut i: usize = 0;
        while i < self.skills.len()
            invariant
                i <= self.skills@.len(),
                r@.len() == model_visible(self.skills@.take(i as int)).len(),
                forall|j: int|
                    0 <= j < r@.len() ==> #[trigger] entry_of(
                        r@[j],
                        model_visible(self.skills@.take(i as int))[j],
                    ),
            decreases self.skills@.len() - i,
        {
            proof {
                assert(self.skills@.take(i + 1).drop_last() =~= self.skills@.take(i as int));
                assert(self.skills@.take(i + 1).last() == self.skills@[i as int]);
            }
            if !self.skills[i].disable_model_invocation {
                r.push(to_entry(&self.skills[i]));
            }
            i += 1;
        }
        assert(self.skills@.take(self.skills@.len() as int) =~= self.skills@);
        r
    }

    /// Catalog for the user-facing skill picker: every user-invocable skill,
    /// in order.
    pub fn list_for_user(&self) -> (r: Vec<SkillListEntry>)
        ensures
            r@.len() == user_visible(self.skills@).len(),
            forall|i: int|
                0 <= i < r@.len() ==> #[trigger] entry_of(r@[i], user_visible(self.skills@)[i]),
    {
        let mut r: Vec<SkillListEntry> = Vec::new();
        let mut i: usize = 0;
        while i < self.skills.len()
            invariant
                i <= self.skills@.len(),
                r@.len() == user_visible(self.skills@.take(i as int)).len(),
                forall|j: int|
                    0 <= j < r@.len() ==> #[trigger] entry_of(
                        r@[j],
                        user_visible(self.skills@.take(i as int))[j],
                    ),
            decreases self.skills@.len() - i,
        {
            proof {
                assert(self.skills@.take(i + 1).drop_last() =~= self.skills@.take(i as int));
                assert(self.skills@.take(i + 1).last() == self.skills@[i as int]);
            }
            if self.skills[i].user_invocable {
                r.push(to_entry(&self.skills[i]));
            }
            i += 1;
        }
        assert(self.skills@.take(self.skills@.len() as int) =~= self.skills@);
        r
    }
}

/// The character views of a vector of character vectors.
pub open spec fn views_of(v: Seq<Vec<char>>) -> Seq<Seq<char>> {
    Seq::new(v.len(), |i: int| v[i]@)
}

/// `e` lists skill `s`.
pub open spec fn entry_of(e: SkillListEntry, s: LoadedSkill) -> bool {
    &&& e.name@ == s.name@
    &&& e.description@ == s.description@
    &&& e.source@ == s.source@
    &&& e.assets@.len() == s.assets@.len()
    &&& forall|i: int| 0 <= i < e.assets@.len() ==> #[trigger] e.assets@[i]@ == s.assets@[i]@
}

/// The list entry for one skill.
pub fn to_entry(loaded: &LoadedSkill) -> (r: SkillListEntry)
    ensures
        entry_of(r, *loaded),
{
    let mut assets: Vec<String> = Vec::new();
    let mut i: usize = 0;
    while i < loaded.assets.len()
        invariant
            i <= loaded.assets@.len(),
            assets@.len() == i,
            forall|j: int| 0 <= j < i ==> #[trigger] assets@[j]@ == loaded.assets@[j]@,
        decreases loaded.assets@.len() - i,
    {
        assets.push(loaded.assets[i].clone());
        i += 1;
    }
    SkillListEntry {
        name: loaded.name.clone(),
        description: loaded.description.clone(),
        source: loaded.source.clone(),
        assets,
    }
}

} // verus!
