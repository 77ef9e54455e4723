//! The catalog of skills: shown and copied from, never run from here.

use vstd::prelude::*;

use crate::model::select::{
    law_listed_rows_hold, law_listed_rows_keep_their_order, matching_rows, move_in, moved,
    row_texts, rows_holding,
};
use crate::text::{cat, has_infix, lowercase, texts, to_lowercase, trim, trimmed};

verus! {

/// A skill.
#[derive(Debug, Clone, PartialEq, Eq)]
pub struct SkillEntry {
    pub name: String,
    pub description: String,
    pub when_to_use: Option<String>,
    pub model_invocable: bool,
}

/// The panel of the skills.
#[derive(Debug, Clone, PartialEq, Eq)]
pub struct SkillsCatalogState {
    pub visible: bool,
    pub items: Vec<SkillEntry>,
    pub selected: usize,
    pub query: String,
    pub loading: bool,
    pub last_error_code: Option<String>,
}

/// Whether the panel is as at the start.
pub open spec fn is_blank_catalog(s: SkillsCatalogState) -> bool {
    &&& !s.visible
    &&& s.items@.len() == 0
    &&& s.selected == 0
    &&& s.query@.len() == 0
    &&& !s.loading
    &&& s.last_error_code is None
}

/// The texts by which skills are found: name and description, in small letters.
pub open spec fn skill_fields(v: Seq<SkillEntry>) -> Seq<Seq<Seq<char>>> {
    v.map_values(|e: SkillEntry| seq![lowercase(e.name@), lowercase(e.description@)])
}

/// The positions of the skills that the query leaves.
pub open spec fn skill_rows(s: SkillsCatalogState) -> Seq<int> {
    rows_holding(skill_fields(s.items@), lowercase(trimmed(s.query@)), s.items@.len() as int)
}

impl Default for SkillsCatalogState {
    fn default() -> (r: Self)
        ensures
            is_blank_catalog(r),
    {
        SkillsCatalogState {
            visible: false,
            items: Vec::new(),
            selected: 0,
            query: String::new(),
            loading: false,
            last_error_code: None,
        }
    }
}

impl SkillsCatalogState {
    /// Opens the panel while the catalog is fetched.
    pub fn open(&mut self)
        ensures
            *final(self) == (SkillsCatalogState {
                visible: true,
                loading: true,
                last_error_code: None,
                ..*old(self)
            }),
    {
        self.visible = true;
        self.loading = true;
        self.last_error_code = None;
    }

    /// Closes the panel and forgets it.
    pub fn close(&mut self)
        ensures
            is_blank_catalog(*final(self)),
    {
        *self = SkillsCatalogState::default();
    }

    /// Takes the catalog; the selection stays within it.
    pub fn set_items(&mut self, items: Vec<SkillEntry>)
        ensures
            *final(self) == (SkillsCatalogState {
                items,
                loading: false,
                selected: if items@.len() > 0 && old(self).selected >= items@.len() {
                    (items@.len() - 1) as usize
                } else {
                    old(self).selected
                },
                ..*old(self)
            }),
    {
        let n: usize = items.len();
        self.items = items;
        self.loading = false;
        if n > 0 && self.selected >= n {
            self.selected = n - 1;
        }
    }

    /// Moves the selection in the catalog.
    pub fn move_selection(&mut self, delta: isize)
        ensures
            *final(self) == (SkillsCatalogState {
                selected: if old(self).items@.len() == 0 {
                    old(self).selected
                } else {
                    moved(
                        old(self).selected as int,
                        delta as int,
                        old(self).items@.len() as int,
                    ) as usize
                },
                ..*old(self)
            }),
    {
        if self.items.len() == 0 {
            return;
        }
        self.selected = move_in(self.selected, delta, self.items.len());
    }

    fn fields(&self) -> (r: Vec<Vec<String>>)
        ensures
            row_texts(r@) == skill_fields(self.items@),
    {
        let mut r: Vec<Vec<String>> = Vec::new();
        let mut i: usize = 0;
        let ghost want = skill_fields(self.items@);
        assert(row_texts(r@) =~= want.take(0));
        while i < self.items.len()
            invariant
                i <= self.items@.len(),
                want == skill_fields(self.items@),
                row_texts(r@) == want.take(i as int),
            decreases self.items@.len() - i,
        {
            let mut row: Vec<String> = Vec::new();
            row.push(to_lowercase(self.items[i].name.as_str()));
            row.push(to_lowercase(self.items[i].description.as_str()));
            assert(texts(row@) =~= want[i as int]);
            let ghost before = row_texts(r@);
            r.push(row);
            assert(row_texts(r@) =~= before.push(want[i as int]));
            assert(want.take(i + 1) =~= want.take(i as int).push(want[i as int]));
            i = i + 1;
        }
        assert(want.take(i as int) =~= want);
        r
    }

    /// The positions of the skills that the query leaves.
    fn matches(&self) -> (at: Vec<usize>)
        ensures
            at@.map_values(|i: usize| i as int) == skill_rows(*self),
            forall|j: int| 0 <= j < at@.len() ==> #[trigger] at@[j] < self.items@.len(),
    {
        let q = to_lowercase(trim(self.query.as_str()).as_str());
        let fields = self.fields();
        assert(row_texts(fields@).len() == fields@.len());
        assert(skill_fields(self.items@).len() == self.items@.len());
        matching_rows(&fields, q.as_str())
    }

    /// The skills that the query leaves, in their order.
    pub fn filtered(&self) -> (r: Vec<&SkillEntry>)
        ensures
            r@.map_values(|e: &SkillEntry| *e) == skill_rows(*self).map_values(
                |i: int| self.items@[i],
            ),
    {
        let at = self.matches();
        let mut r: Vec<&SkillEntry> = Vec::new();
        let mut k: usize = 0;
        let ghost want = skill_rows(*self).map_values(|i: int| self.items@[i]);
        assert(r@.map_values(|e: &SkillEntry| *e) =~= want.take(0));
        while k < at.len()
            invariant
                k <= at@.len(),
                want == skill_rows(*self).map_values(|i: int| self.items@[i]),
                at@.map_values(|i: usize| i as int) == skill_rows(*self),
                forall|j: int| 0 <= j < at@.len() ==> #[trigger] at@[j] < self.items@.len(),
                r@.map_values(|e: &SkillEntry| *e) == want.take(k as int),
            decreases at@.len() - k,
        {
            assert(at@.map_values(|i: usize| i as int)[k as int] == at@[k as int]);
            let ghost before = r@.map_values(|e: &SkillEntry| *e);
            r.push(&self.items[at[k]]);
            assert(r@.map_values(|e: &SkillEntry| *e) =~= before.push(want[k as int]));
            assert(want.take(k + 1) =~= want.take(k as int).push(want[k as int]));
            k = k + 1;
        }
        assert(at@.map_values(|i: usize| i as int).len() == at@.len());
        assert(want.take(k as int) =~= want);
        r
    }

    /// The text that refers to the selected skill, where there is one.
    pub fn copy_ref(&self) -> (r: Option<String>)
        ensures
            match r {
                Some(t) => self.selected < skill_rows(*self).len() && t@ == "/"@
                    + self.items@[skill_rows(*self)[self.selected as int]].name@,
                None => self.selected >= skill_rows(*self).len(),
            },
    {
        let rows = self.filtered();
        let ghost want = skill_rows(*self).map_values(|i: int| self.items@[i]);
        assert(rows@.map_values(|e: &SkillEntry| *e).len() == rows@.len());
        assert(want.len() == skill_rows(*self).len());
        if self.selected < rows.len() {
            let k: usize = self.selected;
            assert(rows@.map_values(|e: &SkillEntry| *e)[k as int] == *rows@[k as int]);
            assert(want[k as int] == self.items@[skill_rows(*self)[k as int]]);
            Some(cat("/", rows[k].name.as_str()))
        } else {
            None
        }
    }
}

/// A skill is found by a text that its name or its description holds, letter
/// case and the space around it aside; every skill is found by nothing.
pub proof fn law_skills_are_found_by_name_and_description(s: SkillsCatalogState, i: int)
    requires
        0 <= i < s.items@.len(),
    ensures
        ({
            let q = lowercase(trimmed(s.query@));
            skill_rows(s).contains(i) <==> q.len() == 0 || has_infix(
                lowercase(s.items@[i].name@),
                q,
            ) || has_infix(lowercase(s.items@[i].description@), q)
        }),
{
    let q = lowercase(trimmed(s.query@));
    let rows = skill_fields(s.items@);
    law_listed_rows_hold(rows, q, s.items@.len() as int, i);
    let fields = rows[i];
    assert(fields[0] == lowercase(s.items@[i].name@));
    assert(fields[1] == lowercase(s.items@[i].description@));
    assert(fields.len() == 2);
}

/// The skills that are found keep their order, each once.
pub proof fn law_found_skills_keep_their_order(s: SkillsCatalogState, a: int, b: int)
    requires
        0 <= a < b < skill_rows(s).len(),
    ensures
        0 <= skill_rows(s)[a] < skill_rows(s)[b] < s.items@.len(),
{
    let q = lowercase(trimmed(s.query@));
    let rows = skill_fields(s.items@);
    let n = s.items@.len() as int;
    law_listed_rows_keep_their_order(rows, q, n, a, b);
    assert(skill_rows(s).contains(skill_rows(s)[a]));
    assert(skill_rows(s).contains(skill_rows(s)[b]));
    law_listed_rows_hold(rows, q, n, skill_rows(s)[a]);
    law_listed_rows_hold(rows, q, n, skill_rows(s)[b]);
}

} // verus!
