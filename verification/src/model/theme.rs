//! Colours and keys that the user chose.

use vstd::prelude::*;

use crate::text::same;

verus! {

/// Texts by name.
pub open spec fn pairs(v: Seq<(String, String)>) -> Seq<(Seq<char>, Seq<char>)> {
    v.map_values(|p: (String, String)| (p.0@, p.1@))
}

/// The first text with a name.
pub open spec fn named(v: Seq<(Seq<char>, Seq<char>)>, name: Seq<char>) -> Option<Seq<char>>
    decreases v.len(),
{
    if v.len() == 0 {
        None
    } else if v[0].0 == name {
        Some(v[0].1)
    } else {
        named(v.skip(1), name)
    }
}

/// The first text with a name.
pub fn find_named<'a>(v: &'a Vec<(String, String)>, name: &str) -> (r: Option<&'a String>)
    ensures
        match r {
            Some(t) => named(pairs(v@), name@) == Some(t@),
            None => named(pairs(v@), name@) is None,
        },
{
    let ghost all = pairs(v@);
    let mut i: usize = 0;
    assert(all.skip(0) =~= all);
    while i < v.len()
        invariant
            i <= v@.len(),
            all == pairs(v@),
            named(all.skip(i as int), name@) == named(all, name@),
        decreases v@.len() - i,
    {
        assert(all.skip(i as int)[0] == (v@[i as int].0@, v@[i as int].1@));
        if same(v[i].0.as_str(), name) {
            return Some(&v[i].1);
        }
        assert(all.skip(i as int).skip(1) =~= all.skip(i + 1));
        i = i + 1;
    }
    None
}

/// What the user chose.
#[derive(Debug, Clone, PartialEq, Eq)]
pub struct ThemeKeymapConfig {
    pub theme: String,
    /// Colours by role.
    pub palette: Vec<(String, String)>,
    /// Keys by command, for each mode.
    pub keymap: Vec<(String, Vec<(String, String)>)>,
    pub drafts_enabled: bool,
    pub drafts_clear: bool,
}

impl Default for ThemeKeymapConfig {
    fn default() -> (r: Self)
        ensures
            r.theme@.len() == 0,
            r.palette@.len() == 0,
            r.keymap@.len() == 0,
            !r.drafts_enabled,
            !r.drafts_clear,
    {
        ThemeKeymapConfig {
            theme: String::new(),
            palette: Vec::new(),
            keymap: Vec::new(),
            drafts_enabled: false,
            drafts_clear: false,
        }
    }
}

impl ThemeKeymapConfig {
    /// The colour of a role: the user's, else the built-in one.
    pub fn color_for<'a>(&'a self, role: &str, builtin: &'a Vec<(String, String)>) -> (r: Option<
        &'a String,
    >)
        ensures
            match r {
                Some(c) => Some(c@) == if named(pairs(self.palette@), role@) is Some {
                    named(pairs(self.palette@), role@)
                } else {
                    named(pairs(builtin@), role@)
                },
                None => named(pairs(self.palette@), role@) is None && named(
                    pairs(builtin@),
                    role@,
                ) is None,
            },
    {
        match find_named(&self.palette, role) {
            Some(c) => Some(c),
            None => find_named(builtin, role),
        }
    }
}

/// A name stands for the text of the first pair that has it, and for nothing
/// where none does.
pub proof fn law_first_name_counts(v: Seq<(Seq<char>, Seq<char>)>, name: Seq<char>, k: int)
    ensures
        0 <= k < v.len() && v[k].0 == name && (forall|i: int|
            0 <= i < k ==> (#[trigger] v[i]).0 != name) ==> named(v, name) == Some(v[k].1),
        (forall|i: int| 0 <= i < v.len() ==> (#[trigger] v[i]).0 != name) ==> named(v, name)
            is None,
    decreases v.len(),
{
    if v.len() > 0 {
        let rest = v.skip(1);
        law_first_name_counts(rest, name, k - 1);
        assert forall|i: int| 0 <= i < rest.len() implies rest[i] == #[trigger] v[i + 1] by {}
        if k > 0 && k < v.len() && v[k].0 == name && (forall|i: int|
            0 <= i < k ==> (#[trigger] v[i]).0 != name) {
            assert(v[0].0 != name);
            assert forall|i: int| 0 <= i < k - 1 implies (#[trigger] rest[i]).0 != name by {
                assert(rest[i] == v[i + 1]);
            }
            assert(rest[k - 1] == v[k]);
        }
        if forall|i: int| 0 <= i < v.len() ==> (#[trigger] v[i]).0 != name {
            assert forall|i: int| 0 <= i < rest.len() implies (#[trigger] rest[i]).0 != name by {
                assert(rest[i] == v[i + 1]);
            }
            assert(v[0].0 != name);
        }
    }
}

} // verus!
