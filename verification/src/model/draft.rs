//! Drafts of the sessions and the history of what was sent. Both live in
//! memory only.

use vstd::prelude::*;

use crate::text::{is_blank, opt_str, opt_text, same, texts, trimmed, whitespace};
use crate::text_laws::law_blank_texts_are_whitespace;
use crate::wire::SessionId;

verus! {

/// The draft of a session.
#[derive(Debug, Clone, PartialEq, Eq)]
pub struct DraftState {
    pub text: String,
    /// Place of the cursor, in characters.
    pub cursor: usize,
    pub bound_session: SessionId,
}

/// The draft of a session, with texts as characters.
pub struct DraftView {
    pub text: Seq<char>,
    pub cursor: usize,
    pub session: Seq<char>,
}

impl View for DraftState {
    type V = DraftView;

    open spec fn view(&self) -> DraftView {
        DraftView { text: self.text@, cursor: self.cursor, session: self.bound_session@ }
    }
}

/// The views of a list of drafts.
pub open spec fn drafts_view(v: Seq<DraftState>) -> Seq<DraftView> {
    v.map_values(|d: DraftState| d@)
}

/// Place of the first draft of a session; the length where there is none.
pub open spec fn draft_index(v: Seq<DraftView>, sid: Seq<char>) -> nat
    decreases v.len(),
{
    if v.len() == 0 || v[0].session == sid {
        0
    } else {
        1 + draft_index(v.skip(1), sid)
    }
}

proof fn lemma_draft_index(v: Seq<DraftView>, sid: Seq<char>, i: int)
    requires
        0 <= i <= v.len(),
        forall|j: int| 0 <= j < i ==> (#[trigger] v[j]).session != sid,
        i < v.len() ==> v[i].session == sid,
    ensures
        draft_index(v, sid) == i,
    decreases v.len(),
{
    if i > 0 {
        assert(v[0].session != sid);
        assert forall|j: int| 0 <= j < i - 1 implies (#[trigger] v.skip(1)[j]).session != sid by {
            assert(v[j + 1].session != sid);
        }
        lemma_draft_index(v.skip(1), sid, i - 1);
    }
}

proof fn lemma_draft_found(v: Seq<DraftView>, sid: Seq<char>)
    ensures
        draft_index(v, sid) <= v.len(),
        draft_index(v, sid) < v.len() ==> v[draft_index(v, sid) as int].session == sid,
        forall|j: int| 0 <= j < draft_index(v, sid) ==> (#[trigger] v[j]).session != sid,
    decreases v.len(),
{
    if v.len() > 0 && v[0].session != sid {
        let rest = v.skip(1);
        lemma_draft_found(rest, sid);
        assert forall|j: int| 0 <= j < draft_index(v, sid) implies (#[trigger] v[j]).session
            != sid by {
            if j > 0 {
                assert(rest[j - 1].session != sid);
            }
        }
    }
}

/// The drafts without that of a session.
pub open spec fn without(v: Seq<DraftView>, sid: Seq<char>) -> Seq<DraftView> {
    let i = draft_index(v, sid);
    if i < v.len() {
        v.remove(i as int)
    } else {
        v
    }
}

/// The drafts after one was stored: it is the latest; of too many the oldest
/// goes.
pub open spec fn stored(v: Seq<DraftView>, d: DraftView, cap: int) -> Seq<DraftView> {
    let all = without(v, d.session).push(d);
    if all.len() > cap {
        all.skip(1)
    } else {
        all
    }
}

/// Whether no session has two drafts.
pub open spec fn one_each(v: Seq<DraftView>) -> bool {
    forall|i: int, j: int|
        0 <= i < j < v.len() ==> (#[trigger] v[i]).session != (#[trigger] v[j]).session
}

/// The drafts of the sessions, the latest last: at most as many as the
/// registry was made for.
#[derive(Debug, Clone)]
pub struct DraftRegistry {
    drafts: Vec<DraftState>,
    cap: usize,
}

impl View for DraftRegistry {
    type V = Seq<DraftView>;

    closed spec fn view(&self) -> Seq<DraftView> {
        drafts_view(self.drafts@)
    }
}

impl DraftRegistry {
    /// How many drafts are kept.
    pub closed spec fn limit(&self) -> int {
        self.cap as int
    }

    /// What holds of every registry: one draft at most for each session, and no
    /// more drafts than the registry was made for.
    pub open spec fn wf(&self) -> bool {
        &&& one_each(self@)
        &&& self.limit() >= 1
        &&& self@.len() <= self.limit()
    }

    /// A registry for `cap` drafts, one at least.
    pub fn new(cap: usize) -> (r: DraftRegistry)
        ensures
            r.wf(),
            r@ == Seq::<DraftView>::empty(),
            r.limit() == if cap == 0 {
                1
            } else {
                cap as int
            },
    {
        let r = DraftRegistry {
            drafts: Vec::new(),
            cap: if cap == 0 {
                1
            } else {
                cap
            },
        };
        assert(r@ =~= Seq::<DraftView>::empty());
        r
    }

    fn position(&self, sid: &str) -> (r: usize)
        ensures
            r == draft_index(self@, sid@),
            r <= self.drafts@.len(),
    {
        let ghost v = drafts_view(self.drafts@);
        let mut i: usize = 0;
        while i < self.drafts.len()
            invariant
                i <= self.drafts@.len(),
                v == drafts_view(self.drafts@),
                forall|j: int| 0 <= j < i ==> (#[trigger] v[j]).session != sid@,
            decreases self.drafts@.len() - i,
        {
            assert(v[i as int].session == self.drafts@[i as int].bound_session@);
            if same(self.drafts[i].bound_session.0.as_str(), sid) {
                proof {
                    lemma_draft_index(v, sid@, i as int);
                }
                return i;
            }
            i = i + 1;
        }
        proof {
            lemma_draft_index(v, sid@, i as int);
        }
        i
    }

    /// The draft of a session.
    pub fn get(&self, sid: &SessionId) -> (r: Option<&DraftState>)
        ensures
            match r {
                Some(d) => draft_index(self@, sid@) < self@.len() && d@ == self@[draft_index(
                    self@,
                    sid@,
                ) as int],
                None => draft_index(self@, sid@) >= self@.len(),
            },
    {
        let i: usize = self.position(sid.0.as_str());
        if i < self.drafts.len() {
            Some(&self.drafts[i])
        } else {
            None
        }
    }

    /// Stores a draft as the latest, in place of what its session had; of too
    /// many drafts the oldest is dropped.
    pub fn set(&mut self, draft: DraftState)
        requires
            old(self)@.len() < usize::MAX,
        ensures
            final(self)@ == stored(old(self)@, draft@, old(self).limit()),
            final(self).limit() == old(self).limit(),
            old(self).wf() ==> final(self).wf(),
    {
        proof {
            if self.wf() {
                law_stored_draft_is_read_back(self@, draft@, self.limit());
            }
        }
        let ghost before = self@;
        let ghost d = draft@;
        let i: usize = self.position(draft.bound_session.0.as_str());
        if i < self.drafts.len() {
            self.drafts.remove(i);
            assert(self@ =~= before.remove(i as int));
        }
        let ghost rest = self@;
        self.drafts.push(draft);
        assert(self@ =~= rest.push(d));
        let ghost all = self@;
        if self.drafts.len() > self.cap {
            self.drafts.remove(0);
            assert(self@ =~= all.skip(1));
        }
    }

    /// Removes the draft of a session and hands it out.
    pub fn take(&mut self, sid: &SessionId) -> (r: Option<DraftState>)
        ensures
            final(self)@ == without(old(self)@, sid@),
            final(self).limit() == old(self).limit(),
            old(self).wf() ==> final(self).wf(),
            match r {
                Some(d) => draft_index(old(self)@, sid@) < old(self)@.len() && d@ == old(
                    self,
                )@[draft_index(old(self)@, sid@) as int],
                None => draft_index(old(self)@, sid@) >= old(self)@.len(),
            },
    {
        let ghost before = self@;
        proof {
            if self.wf() {
                lemma_without_one_each(before, sid@);
            }
        }
        let i: usize = self.position(sid.0.as_str());
        if i < self.drafts.len() {
            let d = self.drafts.remove(i);
            assert(self@ =~= before.remove(i as int));
            Some(d)
        } else {
            None
        }
    }

    /// Removes the draft of a session.
    pub fn clear(&mut self, sid: &SessionId)
        ensures
            final(self)@ == without(old(self)@, sid@),
            final(self).limit() == old(self).limit(),
            old(self).wf() ==> final(self).wf(),
    {
        self.take(sid);
    }

    /// Number of drafts.
    pub fn len(&self) -> (r: usize)
        ensures
            r == self@.len(),
    {
        self.drafts.len()
    }

    /// Whether there is no draft.
    pub fn is_empty(&self) -> (r: bool)
        ensures
            r == (self@.len() == 0),
    {
        self.drafts.len() == 0
    }

    /// The sessions that have a draft, the latest last.
    pub fn session_ids(&self) -> (r: Vec<SessionId>)
        ensures
            r@.map_values(|s: SessionId| s@) == self@.map_values(|d: DraftView| d.session),
    {
        let mut r: Vec<SessionId> = Vec::new();
        let mut i: usize = 0;
        while i < self.drafts.len()
            invariant
                i <= self.drafts@.len(),
                r@.len() == i,
                forall|k: int|
                    0 <= k < i ==> (#[trigger] r@[k])@ == self.drafts@[k].bound_session@,
            decreases self.drafts@.len() - i,
        {
            r.push(self.drafts[i].bound_session.clone());
            i = i + 1;
        }
        assert(r@.map_values(|s: SessionId| s@) =~= self@.map_values(|d: DraftView| d.session));
        r
    }

    /// Drops every draft.
    pub fn clear_all(&mut self)
        ensures
            final(self)@ == Seq::<DraftView>::empty(),
            final(self).limit() == old(self).limit(),
            old(self).wf() ==> final(self).wf(),
    {
        self.drafts.clear();
        assert(self@ =~= Seq::<DraftView>::empty());
    }
}

impl Default for DraftRegistry {
    fn default() -> (r: Self)
        ensures
            r@ == Seq::<DraftView>::empty(),
            r.limit() == 20,
            r.wf(),
    {
        DraftRegistry::new(20)
    }
}

/// Without the draft of a session there is still one at most for each.
proof fn lemma_without_one_each(v: Seq<DraftView>, sid: Seq<char>)
    requires
        one_each(v),
    ensures
        one_each(without(v, sid)),
        without(v, sid).len() <= v.len(),
{
    let i = draft_index(v, sid);
    let rest = without(v, sid);
    if i < v.len() {
        assert forall|a: int, b: int| 0 <= a < b < rest.len() implies (#[trigger] rest[a]).session
            != (#[trigger] rest[b]).session by {
            let x = if a < i {
                a
            } else {
                a + 1
            };
            let y = if b < i {
                b
            } else {
                b + 1
            };
            assert(v[x].session != v[y].session);
        }
    }
}

/// Storing keeps one draft for each session, bounds their number, and a read
/// of the session gives the stored draft back.
pub proof fn law_stored_draft_is_read_back(v: Seq<DraftView>, d: DraftView, cap: int)
    requires
        one_each(v),
        cap >= 1,
        v.len() <= cap,
    ensures
        one_each(stored(v, d, cap)),
        stored(v, d, cap).len() <= cap,
        draft_index(stored(v, d, cap), d.session) < stored(v, d, cap).len(),
        stored(v, d, cap)[draft_index(stored(v, d, cap), d.session) as int] == d,
{
    lemma_draft_found(v, d.session);
    let rest = without(v, d.session);
    let i = draft_index(v, d.session);
    assert forall|a: int| 0 <= a < rest.len() implies (#[trigger] rest[a]).session != d.session by {
        if i < v.len() {
            if a < i {
                assert(v[a].session != d.session);
            } else {
                assert(v[i as int].session != v[a + 1].session);
            }
        } else {
            assert(v[a].session != d.session);
        }
    }
    assert forall|a: int, b: int| 0 <= a < b < rest.len() implies (#[trigger] rest[a]).session != (
    #[trigger] rest[b]).session by {
        if i < v.len() {
            let x = if a < i {
                a
            } else {
                a + 1
            };
            let y = if b < i {
                b
            } else {
                b + 1
            };
            assert(v[x].session != v[y].session);
        } else {
            assert(v[a].session != v[b].session);
        }
    }
    let all = rest.push(d);
    let s = stored(v, d, cap);
    let last = s.len() - 1;
    assert(s[last] == d);
    assert forall|a: int| 0 <= a < last implies (#[trigger] s[a]).session != d.session by {
        if all.len() > cap {
            assert(s[a] == rest[a + 1]);
        } else {
            assert(s[a] == rest[a]);
        }
    }
    lemma_draft_index(s, d.session, last);
    assert forall|a: int, b: int| 0 <= a < b < s.len() implies (#[trigger] s[a]).session != (
    #[trigger] s[b]).session by {
        if b == last {
        } else if all.len() > cap {
            assert(rest[a + 1].session != rest[b + 1].session);
        } else {
            assert(rest[a].session != rest[b].session);
        }
    }
}

/// What a history holds.
#[verifier::ext_equal]
pub struct HistoryView {
    /// What was sent, the latest last.
    pub entries: Seq<Seq<char>>,
    pub cap: int,
    /// The entry that is shown; none while nothing is looked up.
    pub cursor: Option<int>,
    /// What was being written when the look-up began.
    pub original: Option<Seq<char>>,
}

impl HistoryView {
    /// Whether the history holds no more than it was made for, and the entry
    /// that is shown exists.
    pub open spec fn wf(self) -> bool {
        &&& self.entries.len() <= self.cap
        &&& self.cursor matches Some(c) ==> 0 <= c <= self.entries.len()
    }

    /// After a text was sent: blank texts and immediate repeats are not kept,
    /// nor more than the history was made for.
    pub open spec fn pushed(self, text: Seq<char>) -> HistoryView {
        if trimmed(text).len() == 0 || (self.entries.len() > 0 && self.entries.last() == text) {
            self
        } else {
            let all = self.entries.push(text);
            HistoryView {
                entries: if all.len() > self.cap {
                    all.skip(all.len() - self.cap)
                } else {
                    all
                },
                ..self
            }
        }
    }

    /// Where a look-up stands, or begins.
    pub open spec fn at(self) -> int {
        match self.cursor {
            Some(c) => c,
            None => self.entries.len() as int,
        }
    }

    /// After a step back.
    pub open spec fn back(self, current: Seq<char>) -> HistoryView {
        HistoryView {
            original: if self.cursor is None {
                Some(current)
            } else {
                self.original
            },
            cursor: Some(
                if self.at() > 0 {
                    self.at() - 1
                } else {
                    0
                },
            ),
            ..self
        }
    }

    /// What a step back shows: the entry before, at the oldest that one again.
    pub open spec fn shown_back(self) -> Option<Seq<char>> {
        if self.entries.len() == 0 {
            None
        } else if self.at() > 0 {
            Some(self.entries[self.at() - 1])
        } else {
            Some(self.entries[0])
        }
    }

    /// After a step forward.
    pub open spec fn forward(self) -> HistoryView {
        match self.cursor {
            None => self,
            Some(c) => if c + 1 >= self.entries.len() {
                HistoryView { cursor: None, ..self }
            } else {
                HistoryView { cursor: Some(c + 1), ..self }
            },
        }
    }

    /// What a step forward shows: the entry behind, past the latest what was
    /// being written.
    pub open spec fn shown_forward(self) -> Option<Seq<char>> {
        match self.cursor {
            None => None,
            Some(c) => if c + 1 >= self.entries.len() {
                self.original
            } else {
                Some(self.entries[c + 1])
            },
        }
    }
}

/// The history of what was sent.
#[derive(Debug, Clone)]
pub struct InputHistory {
    entries: Vec<String>,
    cap: usize,
    cursor: Option<usize>,
    original: Option<String>,
}

impl View for InputHistory {
    type V = HistoryView;

    closed spec fn view(&self) -> HistoryView {
        HistoryView {
            entries: texts(self.entries@),
            cap: self.cap as int,
            cursor: match self.cursor {
                Some(c) => Some(c as int),
                None => None,
            },
            original: opt_text(self.original),
        }
    }
}

impl Default for InputHistory {
    fn default() -> (r: Self)
        ensures
            r@ == (HistoryView { entries: Seq::empty(), cap: 0, cursor: None, original: None }),
            r@.wf(),
    {
        let r = InputHistory { entries: Vec::new(), cap: 0, cursor: None, original: None };
        assert(r@ =~= (HistoryView { entries: Seq::empty(), cap: 0, cursor: None, original: None }));
        r
    }
}

impl InputHistory {
    /// A history of `cap` entries, one at least.
    pub fn new(cap: usize) -> (r: InputHistory)
        ensures
            r@.entries == Seq::<Seq<char>>::empty(),
            r@.cap == if cap == 0 {
                1
            } else {
                cap as int
            },
            r@.cursor is None,
            r@.original is None,
            r@.wf(),
    {
        let r = InputHistory {
            entries: Vec::new(),
            cap: if cap == 0 {
                1
            } else {
                cap
            },
            cursor: None,
            original: None,
        };
        assert(r@.entries =~= Seq::<Seq<char>>::empty());
        r
    }

    /// Records a text that was sent.
    pub fn push(&mut self, text: &str)
        ensures
            final(self)@ == old(self)@.pushed(text@),
            old(self)@.wf() ==> final(self)@.wf(),
    {
        if is_blank(text) {
            return;
        }
        let n: usize = self.entries.len();
        if n > 0 && same(self.entries[n - 1].as_str(), text) {
            return;
        }
        let ghost before = self@;
        self.entries.push(text.to_owned());
        let ghost all = before.entries.push(text@);
        assert(texts(self.entries@) =~= all);
        assert(all.skip(0) =~= all);
        let ghost mut gone: int = 0;
        while self.entries.len() > self.cap
            invariant
                0 <= gone <= all.len(),
                self.entries@.len() == all.len() - gone,
                texts(self.entries@) == all.skip(gone),
                all.len() - gone >= before.cap || gone == 0,
                self.cap == before.cap,
                self@.cursor == before.cursor,
                self@.original == before.original,
            decreases self.entries@.len(),
        {
            let ghost was = texts(self.entries@);
            self.entries.remove(0);
            assert(texts(self.entries@) =~= was.skip(1));
            assert(all.skip(gone).skip(1) =~= all.skip(gone + 1));
            proof {
                gone = gone + 1;
            }
        }
        assert(self@ =~= before.pushed(text@));
    }

    /// Steps back in the history; what was being written is kept when the
    /// look-up begins.
    pub fn prev(&mut self, current: &str) -> (r: Option<&str>)
        requires
            old(self)@.wf(),
        ensures
            final(self)@ == old(self)@.back(current@),
            final(self)@.wf(),
            opt_str(r) == old(self)@.shown_back(),
    {
        let ghost before = self@;
        if self.cursor.is_none() {
            self.original = Some(current.to_owned());
            self.cursor = Some(self.entries.len());
        }
        let cur: usize = match self.cursor {
            Some(c) => c,
            None => self.entries.len(),
        };
        let next: usize = if cur > 0 {
            cur - 1
        } else {
            0
        };
        self.cursor = Some(next);
        assert(self@ =~= before.back(current@));
        if self.entries.len() == 0 {
            None
        } else {
            assert(before.entries[next as int] == self.entries@[next as int]@);
            Some(self.entries[next].as_str())
        }
    }

    /// Steps forward in the history; past the latest entry what was being
    /// written comes back.
    pub fn next_entry(&mut self) -> (r: Option<&str>)
        requires
            old(self)@.wf(),
        ensures
            final(self)@ == old(self)@.forward(),
            final(self)@.wf(),
            opt_str(r) == old(self)@.shown_forward(),
    {
        let ghost before = self@;
        match self.cursor {
            None => None,
            Some(c) => {
                let n: usize = self.entries.len();
                if n == 0 || c >= n - 1 {
                    self.cursor = None;
                    assert(self@ =~= before.forward());
                    match &self.original {
                        Some(o) => Some(o.as_str()),
                        None => None,
                    }
                } else {
                    self.cursor = Some(c + 1);
                    assert(self@ =~= before.forward());
                    assert(before.entries[c + 1] == self.entries@[c + 1]@);
                    Some(self.entries[c + 1].as_str())
                }
            },
        }
    }

    /// Ends a look-up.
    pub fn reset_nav(&mut self)
        ensures
            final(self)@ == (HistoryView { cursor: None, original: None, ..old(self)@ }),
            old(self)@.wf() ==> final(self)@.wf(),
    {
        self.cursor = None;
        self.original = None;
        assert(self@ =~= (HistoryView { cursor: None, original: None, ..old(self)@ }));
    }

    /// Number of entries.
    pub fn len(&self) -> (r: usize)
        ensures
            r == self@.entries.len(),
    {
        self.entries.len()
    }

    /// Whether there is no entry.
    pub fn is_empty(&self) -> (r: bool)
        ensures
            r == (self@.entries.len() == 0),
    {
        self.entries.len() == 0
    }
}

/// A history never holds more than it was made for, nor the same text twice
/// in a row by one push.
pub proof fn law_history_stays_bounded(h: HistoryView, text: Seq<char>)
    requires
        h.cap >= 1,
        h.wf(),
    ensures
        h.pushed(text).entries.len() <= h.cap,
        h.pushed(text).wf(),
        h.pushed(text).pushed(text) == h.pushed(text),
{
}

/// A step back from what is being written and a step forward bring it back.
pub proof fn law_look_up_restores_draft(h: HistoryView, current: Seq<char>)
    requires
        h.wf(),
        h.cursor is None,
    ensures
        h.back(current).shown_forward() == Some(current),
        h.back(current).forward().cursor is None,
{
}

/// Storing a draft keeps those of the other sessions in their order, behind
/// which it stands as it was given. Only where its session is new and there is
/// no room the oldest goes.
pub proof fn law_storing_keeps_the_other_drafts(
    v: Seq<DraftView>,
    d: DraftView,
    cap: int,
    k: int,
)
    requires
        v.len() <= cap,
        cap >= 1,
        0 <= k <= v.len(),
        forall|j: int| 0 <= j < k ==> (#[trigger] v[j]).session != d.session,
        k < v.len() ==> v[k].session == d.session,
    ensures
        ({
            let out = stored(v, d, cap);
            &&& out.last() == d
            &&& k < v.len() ==> {
                &&& out.len() == v.len()
                &&& forall|j: int| 0 <= j < k ==> out[j] == #[trigger] v[j]
                &&& forall|j: int| k < j < v.len() ==> out[j - 1] == #[trigger] v[j]
            }
            &&& k == v.len() && v.len() < cap ==> {
                &&& out.len() == v.len() + 1
                &&& forall|j: int| 0 <= j < v.len() ==> out[j] == #[trigger] v[j]
            }
            &&& k == v.len() && v.len() == cap ==> {
                &&& out.len() == v.len()
                &&& forall|j: int| 0 < j < v.len() ==> out[j - 1] == #[trigger] v[j]
            }
        }),
{
    lemma_draft_index(v, d.session, k);
}

/// The draft of a session is found where it is, and taking it leaves the
/// others in their order; the session has none then.
pub proof fn law_taking_leaves_the_other_drafts(v: Seq<DraftView>, sid: Seq<char>, k: int)
    requires
        one_each(v),
        0 <= k <= v.len(),
        forall|j: int| 0 <= j < k ==> (#[trigger] v[j]).session != sid,
        k < v.len() ==> v[k].session == sid,
    ensures
        draft_index(v, sid) == k,
        k == v.len() ==> without(v, sid) == v,
        k < v.len() ==> {
            &&& without(v, sid).len() == v.len() - 1
            &&& forall|j: int| 0 <= j < k ==> without(v, sid)[j] == #[trigger] v[j]
            &&& forall|j: int| k < j < v.len() ==> without(v, sid)[j - 1] == #[trigger] v[j]
        },
        forall|j: int|
            0 <= j < without(v, sid).len() ==> (#[trigger] without(v, sid)[j]).session != sid,
{
    lemma_draft_index(v, sid, k);
    if k < v.len() {
        assert forall|j: int| 0 <= j < without(v, sid).len() implies (
        #[trigger] without(v, sid)[j]).session != sid by {
            if j < k {
                assert(v[j].session != sid);
            } else {
                assert(v[k].session != v[j + 1].session);
            }
        }
    }
}

/// What was sent is remembered as the latest, behind the earlier texts; the
/// oldest goes where there is no room. A blank text and an immediate repeat
/// are not remembered. A look-up that is under way is not disturbed.
pub proof fn law_sent_texts_are_remembered(h: HistoryView, text: Seq<char>)
    requires
        h.wf(),
        h.cap >= 1,
    ensures
        ({
            let blank = forall|k: int| 0 <= k < text.len() ==> whitespace(#[trigger] text[k]);
            let repeat = h.entries.len() > 0 && h.entries.last() == text;
            let out = h.pushed(text);
            &&& blank || repeat ==> out == h
            &&& !blank && !repeat ==> {
                &&& out.entries.last() == text
                &&& h.entries.len() < h.cap ==> out.entries.len() == h.entries.len() + 1
                    && forall|j: int|
                    0 <= j < h.entries.len() ==> out.entries[j] == #[trigger] h.entries[j]
                &&& h.entries.len() == h.cap ==> out.entries.len() == h.entries.len()
                    && forall|j: int|
                    0 < j < h.entries.len() ==> out.entries[j - 1] == #[trigger] h.entries[j]
            }
            &&& out.cap == h.cap
            &&& out.cursor == h.cursor
            &&& out.original == h.original
        }),
{
    law_blank_texts_are_whitespace(text);
}

/// A look-up walks back entry by entry from the latest and stays at the
/// oldest; forward it walks the same way, and past the latest what was being
/// written comes back.
pub proof fn law_look_up_walks_the_history(h: HistoryView, current: Seq<char>, c: int)
    requires
        h.wf(),
        h.entries.len() > 0,
    ensures
        h.cursor is None ==> h.shown_back() == Some(h.entries.last()) && h.back(current).cursor
            == Some(h.entries.len() - 1) && h.back(current).original == Some(current),
        h.cursor == Some(c) && c > 0 ==> h.shown_back() == Some(h.entries[c - 1]) && h.back(
            current,
        ).cursor == Some(c - 1) && h.back(current).original == h.original,
        h.cursor == Some(0int) ==> h.shown_back() == Some(h.entries[0]) && h.back(current).cursor
            == Some(0int),
        h.cursor == Some(c) && c + 1 < h.entries.len() ==> h.shown_forward() == Some(
            h.entries[c + 1],
        ) && h.forward().cursor == Some(c + 1),
        h.cursor == Some(c) && c + 1 >= h.entries.len() ==> h.shown_forward() == h.original
            && h.forward().cursor is None,
        h.cursor is None ==> h.shown_forward() is None && h.forward() == h,
        h.back(current).entries == h.entries,
        h.forward().entries == h.entries,
        h.forward().original == h.original,
{
}

/// A step back and a step forward inside the history undo each other.
pub proof fn law_steps_undo_each_other(h: HistoryView, current: Seq<char>, c: int)
    requires
        h.wf(),
        h.cursor == Some(c),
        0 < c < h.entries.len(),
    ensures
        h.back(current).forward() == h,
        h.back(current).shown_forward() == Some(h.entries[c]),
        c + 1 < h.entries.len() ==> h.forward().back(current) == h,
{
}

} // verus!
