//! Mentions: candidates for what a draft can refer to, files and sessions,
//! narrowed as the user types.

use vstd::prelude::*;

use crate::model::select::{
    law_listed_rows_hold, law_listed_rows_keep_their_order, matching_rows, move_in, moved,
    row_texts, rows_holding,
};
use crate::text::{cat, has_infix, lowercase, texts, to_lowercase};

verus! {

/// A file that can be mentioned.
#[derive(Debug, Clone, PartialEq, Eq)]
pub struct FileReferenceCandidate {
    pub path: String,
    pub kind: String,
}

/// A session that can be mentioned.
#[derive(Debug, Clone, PartialEq, Eq)]
pub struct SessionReferenceMentionCandidate {
    pub session_id: String,
    pub label: String,
    pub cwd: Option<String>,
    pub same_workspace: bool,
    pub created_at: Option<i64>,
    pub mention: String,
}

/// What a mention refers to.
#[derive(Debug, Clone, Copy, PartialEq, Eq, Structural)]
pub enum MentionKind {
    File,
    Session,
}

/// A row of the mention list: what is shown, and what is put into the draft.
#[derive(Debug, Clone, PartialEq, Eq)]
pub struct MentionCandidate {
    pub kind: MentionKind,
    pub display: String,
    pub insert: String,
}

/// The contents of a row.
#[verifier::ext_equal]
pub struct MentionView {
    pub kind: MentionKind,
    pub display: Seq<char>,
    pub insert: Seq<char>,
}

impl View for MentionCandidate {
    type V = MentionView;

    open spec fn view(&self) -> MentionView {
        MentionView { kind: self.kind, display: self.display@, insert: self.insert@ }
    }
}

/// The row for a file.
pub open spec fn file_row(c: FileReferenceCandidate) -> MentionView {
    MentionView { kind: MentionKind::File, display: c.path@, insert: c.path@ }
}

/// The row for a session: shown by its label, put in by its mention text.
pub open spec fn session_row(c: SessionReferenceMentionCandidate) -> MentionView {
    MentionView {
        kind: MentionKind::Session,
        display: if c.label@.len() == 0 {
            c.session_id@
        } else {
            c.label@ + " ("@ + c.session_id@ + ")"@
        },
        insert: if c.mention@.len() == 0 {
            "@"@ + c.session_id@
        } else {
            c.mention@
        },
    }
}

/// The rows of a list.
pub open spec fn rows_of(v: Seq<MentionCandidate>) -> Seq<MentionView> {
    v.map_values(|c: MentionCandidate| c@)
}

impl MentionCandidate {
    /// The row for a file.
    pub fn from_file(c: &FileReferenceCandidate) -> (r: MentionCandidate)
        ensures
            r@ == file_row(*c),
    {
        MentionCandidate { kind: MentionKind::File, display: c.path.clone(), insert: c.path.clone() }
    }

    /// The row for a session.
    pub fn from_session(c: &SessionReferenceMentionCandidate) -> (r: MentionCandidate)
        ensures
            r@ == session_row(*c),
    {
        let display = if c.label.as_str().is_empty() {
            c.session_id.clone()
        } else {
            let mut d = cat(c.label.as_str(), " (");
            d.append(c.session_id.as_str());
            d.append(")");
            d
        };
        let insert = if c.mention.as_str().is_empty() {
            cat("@", c.session_id.as_str())
        } else {
            c.mention.clone()
        };
        MentionCandidate { kind: MentionKind::Session, display, insert }
    }
}

/// The mention list.
#[derive(Debug, Clone, PartialEq, Eq)]
pub struct MentionState {
    pub active: bool,
    pub query: String,
    pub candidates: Vec<MentionCandidate>,
    pub selected: usize,
    pub loading: bool,
    /// Number of the last request; an answer to an earlier one is dropped.
    pub generation: u64,
    pub last_error_code: Option<String>,
}

/// Whether the list is as at the start.
pub open spec fn is_blank_mention(m: MentionState) -> bool {
    &&& !m.active
    &&& m.query@.len() == 0
    &&& m.candidates@.len() == 0
    &&& m.selected == 0
    &&& !m.loading
    &&& m.generation == 0
    &&& m.last_error_code is None
}

/// The texts by which candidates are found: what each shows, in small letters.
pub open spec fn mention_fields(v: Seq<MentionCandidate>) -> Seq<Seq<Seq<char>>> {
    v.map_values(|c: MentionCandidate| seq![lowercase(c.display@)])
}

/// The positions of the candidates that the query leaves.
pub open spec fn mention_rows(m: MentionState) -> Seq<int> {
    rows_holding(mention_fields(m.candidates@), lowercase(m.query@), m.candidates@.len() as int)
}

impl Default for MentionState {
    fn default() -> (r: Self)
        ensures
            is_blank_mention(r),
    {
        MentionState {
            active: false,
            query: String::new(),
            candidates: Vec::new(),
            selected: 0,
            loading: false,
            generation: 0,
            last_error_code: None,
        }
    }
}

impl MentionState {
    /// Opens the list, empty; a request under way is still awaited.
    pub fn activate(&mut self)
        ensures
            final(self).active,
            final(self).query@.len() == 0,
            final(self).candidates@.len() == 0,
            final(self).selected == 0,
            final(self).last_error_code is None,
            final(self).loading == old(self).loading,
            final(self).generation == old(self).generation,
    {
        self.active = true;
        self.query = String::new();
        self.candidates = Vec::new();
        self.selected = 0;
        self.last_error_code = None;
    }

    /// Closes the list and forgets it.
    pub fn deactivate(&mut self)
        ensures
            is_blank_mention(*final(self)),
    {
        *self = MentionState::default();
    }

    /// Takes what the user typed; the selection goes to the first row.
    pub fn set_query(&mut self, q: String)
        ensures
            *final(self) == (MentionState { query: q, selected: 0, ..*old(self) }),
    {
        self.query = q;
        self.selected = 0;
    }

    /// Takes the answer to a request: files first, then sessions. The answer to
    /// an earlier request changes nothing.
    pub fn set_candidates(
        &mut self,
        generation: u64,
        files: &Vec<FileReferenceCandidate>,
        sessions: &Vec<SessionReferenceMentionCandidate>,
    )
        ensures
            generation != old(self).generation ==> *final(self) == *old(self),
            generation == old(self).generation ==> {
                &&& rows_of(final(self).candidates@) == files@.map_values(
                    |c: FileReferenceCandidate| file_row(c),
                ) + sessions@.map_values(|c: SessionReferenceMentionCandidate| session_row(c))
                &&& *final(self) == (MentionState {
                    candidates: final(self).candidates,
                    selected: 0,
                    loading: false,
                    ..*old(self)
                })
            },
    {
        if generation != self.generation {
            return;
        }
        let ghost f = files@.map_values(|c: FileReferenceCandidate| file_row(c));
        let ghost s = sessions@.map_values(|c: SessionReferenceMentionCandidate| session_row(c));
        let mut out: Vec<MentionCandidate> = Vec::new();
        let mut i: usize = 0;
        assert(rows_of(out@) =~= f.take(0));
        while i < files.len()
            invariant
                i <= files@.len(),
                f == files@.map_values(|c: FileReferenceCandidate| file_row(c)),
                rows_of(out@) == f.take(i as int),
            decreases files@.len() - i,
        {
            let c = MentionCandidate::from_file(&files[i]);
            out.push(c);
            assert(rows_of(out@) =~= f.take(i as int).push(c@));
            assert(f.take(i + 1) =~= f.take(i as int).push(f[i as int]));
            i = i + 1;
        }
        assert(f.take(i as int) =~= f);
        let mut k: usize = 0;
        assert(rows_of(out@) =~= f + s.take(0));
        while k < sessions.len()
            invariant
                k <= sessions@.len(),
                s == sessions@.map_values(
                    |c: SessionReferenceMentionCandidate| session_row(c),
                ),
                rows_of(out@) == f + s.take(k as int),
            decreases sessions@.len() - k,
        {
            let c = MentionCandidate::from_session(&sessions[k]);
            let ghost before = rows_of(out@);
            out.push(c);
            assert(rows_of(out@) =~= before.push(c@));
            assert(f + s.take(k + 1) =~= (f + s.take(k as int)).push(s[k as int]));
            k = k + 1;
        }
        assert(s.take(k as int) =~= s);
        self.loading = false;
        self.candidates = out;
        self.selected = 0;
    }

    /// A request goes out.
    pub fn mark_loading(&mut self)
        requires
            old(self).generation < u64::MAX,
        ensures
            *final(self) == (MentionState {
                loading: true,
                generation: (old(self).generation + 1) as u64,
                ..*old(self)
            }),
    {
        self.loading = true;
        self.generation = self.generation + 1;
    }

    /// A request failed: what was there stays.
    pub fn fail(&mut self, code: String)
        ensures
            *final(self) == (MentionState {
                loading: false,
                last_error_code: Some(code),
                ..*old(self)
            }),
    {
        self.loading = false;
        self.last_error_code = Some(code);
    }

    fn fields(&self) -> (r: Vec<Vec<String>>)
        ensures
            row_texts(r@) == mention_fields(self.candidates@),
    {
        let mut r: Vec<Vec<String>> = Vec::new();
        let mut i: usize = 0;
        let ghost want = mention_fields(self.candidates@);
        assert(row_texts(r@) =~= want.take(0));
        while i < self.candidates.len()
            invariant
                i <= self.candidates@.len(),
                want == mention_fields(self.candidates@),
                row_texts(r@) == want.take(i as int),
            decreases self.candidates@.len() - i,
        {
            let mut row: Vec<String> = Vec::new();
            row.push(to_lowercase(self.candidates[i].display.as_str()));
            assert(texts(row@) =~= want[i as int]);
            let ghost before = row_texts(r@);
            r.push(row);
            assert(row_texts(r@) =~= before.push(want[i as int]));
            assert(want.take(i + 1) =~= want.take(i as int).push(want[i as int]));
            i = i + 1;
        }
        assert(want.take(i as int) =~= want);
        r
    }

    /// The candidates that the query leaves, in their order.
    pub fn filtered(&self) -> (r: Vec<&MentionCandidate>)
        ensures
            r@.map_values(|c: &MentionCandidate| *c) == mention_rows(*self).map_values(
                |i: int| self.candidates@[i],
            ),
    {
        let q = to_lowercase(self.query.as_str());
        let fields = self.fields();
        assert(row_texts(fields@).len() == fields@.len());
        assert(mention_fields(self.candidates@).len() == self.candidates@.len());
        let at = matching_rows(&fields, q.as_str());
        let mut r: Vec<&MentionCandidate> = Vec::new();
        let mut k: usize = 0;
        let ghost want = mention_rows(*self).map_values(|i: int| self.candidates@[i]);
        assert(r@.map_values(|c: &MentionCandidate| *c) =~= want.take(0));
        while k < at.len()
            invariant
                k <= at@.len(),
                want == mention_rows(*self).map_values(|i: int| self.candidates@[i]),
                at@.map_values(|i: usize| i as int) == mention_rows(*self),
                forall|j: int| 0 <= j < at@.len() ==> #[trigger] at@[j] < self.candidates@.len(),
                r@.map_values(|c: &MentionCandidate| *c) == want.take(k as int),
            decreases at@.len() - k,
        {
            assert(at@.map_values(|i: usize| i as int)[k as int] == at@[k as int]);
            let ghost before = r@.map_values(|c: &MentionCandidate| *c);
            r.push(&self.candidates[at[k]]);
            assert(r@.map_values(|c: &MentionCandidate| *c) =~= before.push(want[k as int]));
            assert(want.take(k + 1) =~= want.take(k as int).push(want[k as int]));
            k = k + 1;
        }
        assert(at@.map_values(|i: usize| i as int).len() == at@.len());
        assert(want.take(k as int) =~= want);
        r
    }

    /// Moves the selection among the candidates that the query leaves.
    pub fn move_selection(&mut self, delta: isize)
        ensures
            *final(self) == (MentionState {
                selected: if mention_rows(*old(self)).len() == 0 {
                    old(self).selected
                } else {
                    moved(
                        old(self).selected as int,
                        delta as int,
                        mention_rows(*old(self)).len() as int,
                    ) as usize
                },
                ..*old(self)
            }),
    {
        let rows = self.filtered();
        let n: usize = rows.len();
        assert(n == mention_rows(*self).len()) by {
            assert(rows@.map_values(|c: &MentionCandidate| *c).len() == rows@.len());
        }
        if n == 0 {
            return;
        }
        self.selected = move_in(self.selected, delta, n);
    }
}

/// A file is shown and put in by its path. A session is shown by its label and
/// its id, or by its id alone, and put in by its mention, or by its id.
pub proof fn law_mentions_name_what_they_mean(
    f: FileReferenceCandidate,
    s: SessionReferenceMentionCandidate,
)
    ensures
        file_row(f).kind == MentionKind::File,
        file_row(f).display == f.path@ && file_row(f).insert == f.path@,
        session_row(s).kind == MentionKind::Session,
        s.label@.len() == 0 ==> session_row(s).display == s.session_id@,
        s.label@.len() > 0 ==> s.label@.is_prefix_of(session_row(s).display) && session_row(
            s,
        ).display == s.label@ + " ("@ + s.session_id@ + ")"@,
        s.mention@.len() > 0 ==> session_row(s).insert == s.mention@,
        s.mention@.len() == 0 ==> session_row(s).insert == "@"@ + s.session_id@,
{
    if s.label@.len() > 0 {
        let d = session_row(s).display;
        assert(s.label@ =~= d.take(s.label@.len() as int));
    }
}

/// The query leaves exactly the candidates whose text holds it, letter case
/// aside, in their order.
pub proof fn law_query_leaves_what_holds_it(m: MentionState, i: int, a: int, b: int)
    ensures
        mention_rows(m).contains(i) <==> 0 <= i < m.candidates@.len() && (lowercase(
            m.query@,
        ).len() == 0 || has_infix(lowercase(m.candidates@[i].display@), lowercase(m.query@))),
        0 <= a < b < mention_rows(m).len() ==> mention_rows(m)[a] < mention_rows(m)[b],
{
    let n = m.candidates@.len() as int;
    let fields = mention_fields(m.candidates@);
    let q = lowercase(m.query@);
    law_listed_rows_hold(fields, q, n, i);
    law_listed_rows_keep_their_order(fields, q, n, a, b);
    if 0 <= i < n {
        assert(fields[i] == seq![lowercase(m.candidates@[i].display@)]);
        assert(fields[i][0] == lowercase(m.candidates@[i].display@));
    }
}

} // verus!
