//! The sessions that the search knows of.

use vstd::prelude::*;

use crate::text::same;
use crate::wire::SessionId;

verus! {

/// The identities of sessions, as characters.
pub open spec fn ids(v: Seq<SessionId>) -> Seq<Seq<char>> {
    v.map_values(|s: SessionId| s@)
}

/// The sessions with one more, where it is not there yet.
pub open spec fn with_session(v: Seq<Seq<char>>, id: Seq<char>) -> Seq<Seq<char>> {
    if v.contains(id) {
        v
    } else {
        v.push(id)
    }
}

/// The sessions that the search knows of, in the order in which they came.
#[derive(Debug)]
pub struct SearchIndex {
    sessions: Vec<SessionId>,
}

impl View for SearchIndex {
    type V = Seq<Seq<char>>;

    closed spec fn view(&self) -> Seq<Seq<char>> {
        ids(self.sessions@)
    }
}

impl SearchIndex {
    /// An index without sessions.
    pub fn new() -> (r: SearchIndex)
        ensures
            r@ == Seq::<Seq<char>>::empty(),
    {
        let r = SearchIndex { sessions: Vec::new() };
        assert(r@ =~= Seq::<Seq<char>>::empty());
        r
    }

    /// Adds a session, once.
    pub fn upsert(&mut self, id: SessionId)
        ensures
            final(self)@ == with_session(old(self)@, id@),
    {
        let ghost before = self@;
        let mut i: usize = 0;
        while i < self.sessions.len()
            invariant
                i <= self.sessions@.len(),
                before == ids(self.sessions@),
                self@ == before,
                forall|k: int| 0 <= k < i ==> #[trigger] before[k] != id@,
            decreases self.sessions@.len() - i,
        {
            assert(before[i as int] == self.sessions@[i as int]@);
            if same(self.sessions[i].0.as_str(), id.0.as_str()) {
                return;
            }
            i = i + 1;
        }
        let ghost text = id@;
        self.sessions.push(id);
        assert(self@ =~= before.push(text));
    }

    /// The sessions, in the order in which they came.
    pub fn session_ids(&self) -> (r: &Vec<SessionId>)
        ensures
            ids(r@) == self@,
    {
        &self.sessions
    }

    /// Number of sessions.
    pub fn len(&self) -> (r: usize)
        ensures
            r == self@.len(),
    {
        self.sessions.len()
    }

    /// Whether there is no session.
    pub fn is_empty(&self) -> (r: bool)
        ensures
            r == (self@.len() == 0),
    {
        self.sessions.len() == 0
    }
}

/// A session that is added is known; adding it again changes nothing, and no
/// session is ever known twice.
pub proof fn law_sessions_are_known_once(v: Seq<Seq<char>>, id: Seq<char>)
    ensures
        with_session(v, id).contains(id),
        with_session(with_session(v, id), id) == with_session(v, id),
        v.no_duplicates() ==> with_session(v, id).no_duplicates(),
        forall|other: Seq<char>| v.contains(other) ==> #[trigger] with_session(v, id).contains(other),
{
    let w = with_session(v, id);
    if !v.contains(id) {
        assert(w[v.len() as int] == id);
        assert forall|other: Seq<char>| v.contains(other) implies #[trigger] w.contains(other) by {
            let k = choose|k: int| 0 <= k < v.len() && v[k] == other;
            assert(w[k] == other);
        }
        if v.no_duplicates() {
            assert forall|i: int, j: int| 0 <= i < j < w.len() implies w[i] != w[j] by {
                if j == v.len() {
                    assert(v.contains(v[i]));
                }
            }
        }
    }
}

/// A new session joins behind the others, which keep their order.
pub proof fn law_new_sessions_join_last(v: Seq<Seq<char>>, id: Seq<char>)
    ensures
        v.contains(id) ==> with_session(v, id) == v,
        !v.contains(id) ==> with_session(v, id).len() == v.len() + 1 && with_session(v, id).last()
            == id,
        forall|i: int| 0 <= i < v.len() ==> with_session(v, id)[i] == #[trigger] v[i],
{
}

} // verus!
