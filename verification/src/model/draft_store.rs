//! The drafts that are kept over restarts, one for each session, and their
//! TOML document.

use vstd::prelude::*;

use crate::text::{
    cat3, is_before, lemma_sorts_total, lemma_sorts_transitive, same, sorts_before,
};
use crate::toml_doc::{
    countable, find_member, keys_in_order, lemma_table_view, member, member_index, member_views,
    parse, plain, print, printable, reads_as, toml_parsed, toml_text, write_view, Toml, TomlView,
    LEVELS,
};

verus! {

/// Drafts by session.
#[derive(Debug, PartialEq, Eq)]
pub struct DraftStore {
    /// Sessions with their drafts, in the order of the sessions.
    pub drafts: Vec<(String, String)>,
}

/// Sessions with their drafts.
pub open spec fn entries(v: Seq<(String, String)>) -> Seq<(Seq<char>, Seq<char>)> {
    v.map_values(|e: (String, String)| (e.0@, e.1@))
}

/// Whether sessions are in order, each once.
pub open spec fn ordered(es: Seq<(Seq<char>, Seq<char>)>) -> bool {
    forall|i: int, j: int|
        0 <= i < j < es.len() ==> sorts_before((#[trigger] es[i]).0, (#[trigger] es[j]).0)
}

/// Whether a session has a draft at a place.
pub open spec fn at(es: Seq<(Seq<char>, Seq<char>)>, k: Seq<char>, i: int) -> bool {
    0 <= i < es.len() && es[i].0 == k
}

/// The drafts by session.
pub open spec fn as_map(es: Seq<(Seq<char>, Seq<char>)>) -> Map<Seq<char>, Seq<char>> {
    Map::new(
        |k: Seq<char>| exists|i: int| at(es, k, i),
        |k: Seq<char>| es[choose|i: int| at(es, k, i)].1,
    )
}

impl View for DraftStore {
    type V = Map<Seq<char>, Seq<char>>;

    open spec fn view(&self) -> Map<Seq<char>, Seq<char>> {
        as_map(entries(self.drafts@))
    }
}

proof fn lemma_at(es: Seq<(Seq<char>, Seq<char>)>, k: Seq<char>, i: int)
    requires
        ordered(es),
        at(es, k, i),
    ensures
        as_map(es).dom().contains(k),
        as_map(es)[k] == es[i].1,
{
    let j = choose|j: int| at(es, k, j);
    lemma_sorts_total(k, k);
    if i < j {
        assert(sorts_before(es[i].0, es[j].0));
    }
    if j < i {
        assert(sorts_before(es[j].0, es[i].0));
    }
}

/// The place of a session: that of the first that does not stand before it.
pub open spec fn slot(es: Seq<(Seq<char>, Seq<char>)>, k: Seq<char>) -> int
    decreases es.len(),
{
    if es.len() == 0 || !sorts_before(es[0].0, k) {
        0
    } else {
        1 + slot(es.skip(1), k)
    }
}

proof fn lemma_slot(es: Seq<(Seq<char>, Seq<char>)>, k: Seq<char>, i: int)
    requires
        0 <= i <= es.len(),
        forall|j: int| 0 <= j < i ==> sorts_before((#[trigger] es[j]).0, k),
        i < es.len() ==> !sorts_before(es[i].0, k),
    ensures
        slot(es, k) == i,
    decreases es.len(),
{
    if i > 0 {
        assert(sorts_before(es[0].0, k));
        assert forall|j: int| 0 <= j < i - 1 implies sorts_before((#[trigger] es.skip(1)[j]).0, k) by {
            assert(es.skip(1)[j] == es[j + 1]);
        }
        lemma_slot(es.skip(1), k, i - 1);
    }
}

/// The drafts with one of a session put in its place.
pub open spec fn stored(es: Seq<(Seq<char>, Seq<char>)>, k: Seq<char>, t: Seq<char>) -> Seq<
    (Seq<char>, Seq<char>),
> {
    let p = slot(es, k);
    if p < es.len() && es[p].0 == k {
        es.update(p, (k, t))
    } else {
        es.insert(p, (k, t))
    }
}

/// The drafts without that of a session.
pub open spec fn dropped(es: Seq<(Seq<char>, Seq<char>)>, k: Seq<char>) -> Seq<
    (Seq<char>, Seq<char>),
> {
    let p = slot(es, k);
    if p < es.len() && es[p].0 == k {
        es.remove(p)
    } else {
        es
    }
}

proof fn lemma_slot_facts(es: Seq<(Seq<char>, Seq<char>)>, k: Seq<char>)
    ensures
        0 <= slot(es, k) <= es.len(),
        forall|j: int| 0 <= j < slot(es, k) ==> sorts_before((#[trigger] es[j]).0, k),
        slot(es, k) < es.len() ==> !sorts_before(es[slot(es, k)].0, k),
    decreases es.len(),
{
    if es.len() > 0 && sorts_before(es[0].0, k) {
        lemma_slot_facts(es.skip(1), k);
        assert forall|j: int| 0 <= j < slot(es, k) implies sorts_before((#[trigger] es[j]).0, k) by {
            if j > 0 {
                assert(es.skip(1)[j - 1] == es[j]);
            }
        }
    }
}

proof fn lemma_behind_slot(es: Seq<(Seq<char>, Seq<char>)>, k: Seq<char>, j: int)
    requires
        ordered(es),
        slot(es, k) <= j < es.len(),
        j > slot(es, k) || es[j].0 != k,
    ensures
        sorts_before(k, es[j].0),
{
    lemma_slot_facts(es, k);
    let p = slot(es, k);
    lemma_sorts_total(k, es[p].0);
    if j > p {
        assert(sorts_before(es[p].0, es[j].0));
        if es[p].0 != k {
            lemma_sorts_transitive(k, es[p].0, es[j].0);
        }
    }
}

proof fn lemma_stored(es: Seq<(Seq<char>, Seq<char>)>, k: Seq<char>, t: Seq<char>)
    requires
        ordered(es),
    ensures
        ordered(stored(es, k, t)),
        as_map(stored(es, k, t)) == as_map(es).insert(k, t),
{
    lemma_slot_facts(es, k);
    let p = slot(es, k);
    let r = stored(es, k, t);
    let found = p < es.len() && es[p].0 == k;
    assert forall|i: int, j: int| 0 <= i < j < r.len() implies sorts_before(
        (#[trigger] r[i]).0,
        (#[trigger] r[j]).0,
    ) by {
        let a = if found || i < p {
            i
        } else {
            i - 1
        };
        let b = if found || j < p {
            j
        } else {
            j - 1
        };
        if i != p {
            assert(r[i] == es[a]);
        }
        if j != p {
            assert(r[j] == es[b]);
        }
        if i != p && j != p {
            assert(sorts_before(es[a].0, es[b].0));
        } else if i == p {
            lemma_behind_slot(es, k, b);
        }
    }
    assert(r[p] == (k, t));
    assert(at(r, k, p));
    lemma_at(r, k, p);
    assert forall|x: Seq<char>| x != k implies #[trigger] as_map(r).dom().contains(x) == as_map(
        es,
    ).dom().contains(x) && (as_map(es).dom().contains(x) ==> as_map(r)[x] == as_map(es)[x]) by {
        if as_map(es).dom().contains(x) {
            let i = choose|i: int| at(es, x, i);
            let j = if found || i < p {
                i
            } else {
                i + 1
            };
            assert(r[j] == es[i]);
            assert(at(r, x, j));
            lemma_at(es, x, i);
            lemma_at(r, x, j);
        }
        if as_map(r).dom().contains(x) {
            let j = choose|j: int| at(r, x, j);
            let i = if found || j < p {
                j
            } else {
                j - 1
            };
            assert(r[j] == es[i]);
            assert(at(es, x, i));
        }
    }
    assert(as_map(r).dom() =~= as_map(es).dom().insert(k));
    assert(as_map(r) =~= as_map(es).insert(k, t));
}

proof fn lemma_dropped(es: Seq<(Seq<char>, Seq<char>)>, k: Seq<char>)
    requires
        ordered(es),
    ensures
        ordered(dropped(es, k)),
        as_map(dropped(es, k)) == as_map(es).remove(k),
{
    lemma_slot_facts(es, k);
    let p = slot(es, k);
    let r = dropped(es, k);
    let found = p < es.len() && es[p].0 == k;
    lemma_sorts_total(k, k);
    assert forall|i: int, j: int| 0 <= i < j < r.len() implies sorts_before(
        (#[trigger] r[i]).0,
        (#[trigger] r[j]).0,
    ) by {
        let a = if !found || i < p {
            i
        } else {
            i + 1
        };
        let b = if !found || j < p {
            j
        } else {
            j + 1
        };
        assert(r[i] == es[a] && r[j] == es[b]);
        assert(sorts_before(es[a].0, es[b].0));
    }
    assert forall|x: Seq<char>| #[trigger] as_map(r).dom().contains(x) == (x != k && as_map(
        es,
    ).dom().contains(x)) && (as_map(r).dom().contains(x) ==> as_map(r)[x] == as_map(es)[x]) by {
        if as_map(es).dom().contains(x) && x != k {
            let i = choose|i: int| at(es, x, i);
            let j = if !found || i < p {
                i
            } else {
                i - 1
            };
            assert(r[j] == es[i]);
            assert(at(r, x, j));
            lemma_at(es, x, i);
            lemma_at(r, x, j);
        }
        if as_map(r).dom().contains(x) {
            let j = choose|j: int| at(r, x, j);
            let i = if !found || j < p {
                j
            } else {
                j + 1
            };
            assert(r[j] == es[i]);
            assert(at(es, x, i));
            if x == k {
                if i < p {
                    assert(sorts_before(es[i].0, k));
                } else {
                    lemma_behind_slot(es, k, i);
                }
            }
        }
    }
    assert(as_map(r).dom() =~= as_map(es).dom().remove(k));
    assert(as_map(r) =~= as_map(es).remove(k));
}

impl Default for DraftStore {
    fn default() -> (r: Self)
        ensures
            r.wf(),
            r.drafts@.len() == 0,
            r@ == Map::<Seq<char>, Seq<char>>::empty(),
    {
        let r = DraftStore { drafts: Vec::new() };
        assert(r@ =~= Map::<Seq<char>, Seq<char>>::empty());
        r
    }
}

impl DraftStore {
    /// Whether the sessions are in order, each once.
    pub open spec fn wf(self) -> bool {
        ordered(entries(self.drafts@))
    }

    fn find(&self, session_id: &str) -> (r: (usize, bool))
        ensures
            r.0 == slot(entries(self.drafts@), session_id@),
            r.0 <= self.drafts@.len(),
            r.1 == (r.0 < self.drafts@.len() && self.drafts@[r.0 as int].0@ == session_id@),
    {
        let ghost es = entries(self.drafts@);
        let mut i: usize = 0;
        while i < self.drafts.len() && is_before(self.drafts[i].0.as_str(), session_id)
            invariant
                i <= self.drafts@.len(),
                es == entries(self.drafts@),
                forall|j: int| 0 <= j < i ==> sorts_before((#[trigger] es[j]).0, session_id@),
            decreases self.drafts@.len() - i,
        {
            i = i + 1;
        }
        proof {
            lemma_slot(es, session_id@, i as int);
        }
        let found = i < self.drafts.len() && same(self.drafts[i].0.as_str(), session_id);
        (i, found)
    }

    /// The draft of a session.
    pub fn get(&self, session_id: &str) -> (r: Option<&str>)
        requires
            self.wf(),
        ensures
            match r {
                Some(t) => self@.dom().contains(session_id@) && self@[session_id@] == t@,
                None => !self@.dom().contains(session_id@),
            },
    {
        let (i, found) = self.find(session_id);
        let ghost es = entries(self.drafts@);
        if found {
            proof {
                assert(at(es, session_id@, i as int));
                lemma_at(es, session_id@, i as int);
            }
            Some(self.drafts[i].1.as_str())
        } else {
            proof {
                lemma_slot_facts(es, session_id@);
                lemma_sorts_total(session_id@, session_id@);
                assert forall|j: int| !at(es, session_id@, j) by {
                    if at(es, session_id@, j) {
                        if j >= i {
                            lemma_behind_slot(es, session_id@, j);
                        } else {
                            assert(sorts_before(es[j].0, session_id@));
                        }
                    }
                }
            }
            None
        }
    }

    fn put(&mut self, session_id: &str, text: &str)
        requires
            old(self).wf(),
        ensures
            final(self).wf(),
            entries(final(self).drafts@) == stored(
                entries(old(self).drafts@),
                session_id@,
                text@,
            ),
            final(self)@ == old(self)@.insert(session_id@, text@),
    {
        let (i, found) = self.find(session_id);
        let ghost es = entries(self.drafts@);
        if found {
            self.drafts.set(i, (session_id.to_owned(), text.to_owned()));
        } else {
            self.drafts.insert(i, (session_id.to_owned(), text.to_owned()));
        }
        proof {
            assert(entries(self.drafts@) =~= stored(es, session_id@, text@));
            lemma_stored(es, session_id@, text@);
        }
    }

    /// Keeps the draft of a session; an empty one is dropped.
    pub fn set(&mut self, session_id: &str, text: &str)
        requires
            old(self).wf(),
        ensures
            final(self).wf(),
            final(self)@ == if text@.len() == 0 {
                old(self)@.remove(session_id@)
            } else {
                old(self)@.insert(session_id@, text@)
            },
    {
        if text.is_empty() {
            let (i, found) = self.find(session_id);
            let ghost es = entries(self.drafts@);
            if found {
                self.drafts.remove(i);
            }
            proof {
                assert(entries(self.drafts@) =~= dropped(es, session_id@));
                lemma_dropped(es, session_id@);
            }
        } else {
            self.put(session_id, text);
        }
    }

    /// Drops all drafts.
    pub fn clear_all(&mut self)
        ensures
            final(self).wf(),
            final(self)@ == Map::<Seq<char>, Seq<char>>::empty(),
            final(self).drafts@.len() == 0,
    {
        self.drafts = Vec::new();
        assert(self@ =~= Map::<Seq<char>, Seq<char>>::empty());
    }

    /// How many sessions have a draft.
    pub fn len(&self) -> (r: usize)
        requires
            self.wf(),
        ensures
            r == self@.dom().len(),
            self@.dom().finite(),
    {
        proof {
            lemma_size(entries(self.drafts@));
        }
        self.drafts.len()
    }

    /// Whether no session has a draft.
    pub fn is_empty(&self) -> (r: bool)
        ensures
            r == (self@ == Map::<Seq<char>, Seq<char>>::empty()),
    {
        proof {
            if self.drafts@.len() == 0 {
                assert(self@ =~= Map::<Seq<char>, Seq<char>>::empty());
            } else {
                let es = entries(self.drafts@);
                assert(at(es, es[0].0, 0));
                assert(self@.dom().contains(es[0].0));
            }
        }
        self.drafts.len() == 0
    }
}

proof fn lemma_size(es: Seq<(Seq<char>, Seq<char>)>)
    requires
        ordered(es),
    ensures
        as_map(es).dom().finite(),
        as_map(es).dom().len() == es.len(),
    decreases es.len(),
{
    if es.len() == 0 {
        assert(as_map(es).dom() =~= Set::<Seq<char>>::empty());
    } else {
        let front = es.drop_last();
        let k = es.last().0;
        assert(ordered(front)) by {
            assert forall|i: int, j: int| 0 <= i < j < front.len() implies sorts_before(
                (#[trigger] front[i]).0,
                (#[trigger] front[j]).0,
            ) by {
                assert(sorts_before(es[i].0, es[j].0));
            }
        }
        lemma_size(front);
        assert forall|x: Seq<char>| as_map(es).dom().contains(x) == as_map(
            front,
        ).dom().insert(k).contains(x) by {
            if as_map(es).dom().contains(x) {
                let i = choose|i: int| at(es, x, i);
                if i < front.len() {
                    assert(at(front, x, i));
                }
            }
            if as_map(front).dom().contains(x) {
                let i = choose|i: int| at(front, x, i);
                assert(at(es, x, i));
            }
            if x == k {
                assert(at(es, k, es.len() - 1));
            }
        }
        assert(as_map(es).dom() =~= as_map(front).dom().insert(k));
        assert(!as_map(front).dom().contains(k)) by {
            lemma_sorts_total(k, k);
            if as_map(front).dom().contains(k) {
                let i = choose|i: int| at(front, k, i);
                assert(sorts_before(es[i].0, es[es.len() - 1].0));
            }
        }
    }
}

/// Why drafts cannot be read.
#[derive(Debug, Clone, PartialEq, Eq)]
pub enum DraftStoreError {
    /// The document is not TOML, in the words of the reader.
    Toml(String),
    /// The drafts are no table.
    NotATable,
    /// The draft of a session is no text.
    NotAText(String),
}

/// Why drafts cannot be read.
pub enum ErrorView {
    Toml(Seq<char>),
    NotATable,
    NotAText(Seq<char>),
}

impl View for DraftStoreError {
    type V = ErrorView;

    open spec fn view(&self) -> ErrorView {
        match *self {
            DraftStoreError::Toml(m) => ErrorView::Toml(m@),
            DraftStoreError::NotATable => ErrorView::NotATable,
            DraftStoreError::NotAText(k) => ErrorView::NotAText(k@),
        }
    }
}

impl DraftStoreError {
    /// The words for an error.
    pub fn message(&self) -> (r: String)
        ensures
            r@ == match self@ {
                ErrorView::Toml(m) => m,
                ErrorView::NotATable => "drafts: expected a table"@,
                ErrorView::NotAText(k) => "drafts."@ + k + ": expected a string"@,
            },
    {
        match self {
            DraftStoreError::Toml(m) => m.clone(),
            DraftStoreError::NotATable => "drafts: expected a table".to_owned(),
            DraftStoreError::NotAText(k) => cat3("drafts.", k.as_str(), ": expected a string"),
        }
    }
}

/// The drafts that the first `n` members of a table say; the key of one that is
/// no text.
pub open spec fn drafts_of(es: Seq<(Seq<char>, TomlView)>, n: int) -> Result<
    Seq<(Seq<char>, Seq<char>)>,
    Seq<char>,
>
    decreases n,
{
    if n <= 0 {
        Ok(Seq::empty())
    } else {
        match drafts_of(es, n - 1) {
            Err(k) => Err(k),
            Ok(s) => match es[n - 1].1 {
                TomlView::Text(t) => Ok(stored(s, es[n - 1].0, t)),
                _ => Err(es[n - 1].0),
            },
        }
    }
}

/// The drafts that a document says: its table of drafts, none where it has no
/// such table.
pub open spec fn drafts_in(v: TomlView) -> Result<Seq<(Seq<char>, Seq<char>)>, ErrorView> {
    match v {
        TomlView::Table(root) => match member(root, "drafts"@) {
            None => Ok(Seq::empty()),
            Some(TomlView::Table(es)) => match drafts_of(es, es.len() as int) {
                Ok(s) => Ok(s),
                Err(k) => Err(ErrorView::NotAText(k)),
            },
            Some(_) => Err(ErrorView::NotATable),
        },
        _ => Err(ErrorView::NotATable),
    }
}

/// A result of reading drafts, by its contents.
pub open spec fn store_view(r: Result<DraftStore, DraftStoreError>) -> Result<
    Seq<(Seq<char>, Seq<char>)>,
    ErrorView,
> {
    match r {
        Ok(s) => Ok(entries(s.drafts@)),
        Err(e) => Err(e@),
    }
}

/// The members of the table of drafts.
pub open spec fn draft_members(es: Seq<(Seq<char>, Seq<char>)>) -> Seq<(Seq<char>, TomlView)> {
    es.map_values(|e: (Seq<char>, Seq<char>)| (e.0, TomlView::Text(e.1)))
}

/// The document of drafts.
pub open spec fn document(es: Seq<(Seq<char>, Seq<char>)>) -> TomlView {
    TomlView::Table(seq![("drafts"@, TomlView::Table(draft_members(es)))])
}

/// What a document of drafts says is what was put into it.
pub proof fn law_stored_drafts_are_read_back(es: Seq<(Seq<char>, Seq<char>)>)
    requires
        ordered(es),
    ensures
        match drafts_in(document(es)) {
            Ok(s) => s == es,
            Err(_) => false,
        },
{
    let root = document(es)->Table_0;
    assert(root[0].0 == "drafts"@);
    assert(member_index(root, "drafts"@) == 0);
    lemma_drafts_of(es, es.len() as int);
    assert(es.take(es.len() as int) =~= es);
}

proof fn lemma_drafts_of(es: Seq<(Seq<char>, Seq<char>)>, n: int)
    requires
        ordered(es),
        0 <= n <= es.len(),
    ensures
        match drafts_of(draft_members(es), n) {
            Ok(s) => s == es.take(n),
            Err(_) => false,
        },
    decreases n,
{
    if n > 0 {
        lemma_drafts_of(es, n - 1);
        let front = es.take(n - 1);
        let (k, t) = es[n - 1];
        assert forall|j: int| 0 <= j < n - 1 implies sorts_before((#[trigger] front[j]).0, k) by {
            assert(sorts_before(es[j].0, es[n - 1].0));
        }
        lemma_slot(front, k, n - 1);
        assert(front.insert(n - 1, (k, t)) =~= es.take(n));
    } else {
        assert(es.take(0) =~= Seq::empty());
    }
}

/// Whether the drafts can be written: none has too many quotes in a row.
pub open spec fn writable(es: Seq<(Seq<char>, Seq<char>)>) -> bool {
    forall|i: int| 0 <= i < es.len() ==> countable((#[trigger] es[i]).1)
}

/// Whether no session has the name that `toml` keeps for dates.
pub open spec fn names_no_date(es: Seq<(Seq<char>, Seq<char>)>) -> bool {
    forall|i: int| 0 <= i < es.len() ==> (#[trigger] es[i]).0 != "$__toml_private_datetime"@
}

proof fn lemma_document(es: Seq<(Seq<char>, Seq<char>)>)
    ensures
        writable(es) ==> printable(document(es)),
        writable(es) && ordered(es) && names_no_date(es) ==> plain(document(es), LEVELS as nat),
{
    let root = document(es)->Table_0;
    let ms = draft_members(es);
    reveal_with_fuel(printable, 3);
    reveal_with_fuel(plain, 3);
    reveal_strlit("drafts");
    reveal_strlit("$__toml_private_datetime");
    assert("drafts"@.len() == 6 && "$__toml_private_datetime"@.len() == 24);
    assert(root[0] == ("drafts"@, TomlView::Table(ms)));
    assert forall|i: int| 0 <= i < ms.len() implies (#[trigger] ms[i]) == (
        es[i].0,
        TomlView::Text(es[i].1),
    ) by {}
    if writable(es) {
        assert forall|i: int| 0 <= i < ms.len() implies printable((#[trigger] ms[i]).1) by {
            assert(countable(es[i].1));
        }
        assert(printable(TomlView::Table(ms)));
        assert(printable(document(es)));
        if ordered(es) && names_no_date(es) {
            assert forall|i: int| 0 <= i < ms.len() implies (#[trigger] ms[i]).0
                != "$__toml_private_datetime"@ && plain(ms[i].1, (LEVELS - 2) as nat) by {
                assert(countable(es[i].1));
                assert(es[i].0 != "$__toml_private_datetime"@);
            }
            assert forall|i: int, j: int| 0 <= i < j < ms.len() implies sorts_before(
                (#[trigger] ms[i]).0,
                (#[trigger] ms[j]).0,
            ) by {
                assert(sorts_before(es[i].0, es[j].0));
            }
            assert(keys_in_order(ms));
            assert(plain(TomlView::Table(ms), (LEVELS - 1) as nat));
            assert(keys_in_order(root));
            assert(plain(document(es), LEVELS as nat));
        }
    }
}

impl DraftStore {
    /// The document of the drafts.
    pub fn to_value(&self) -> (r: Toml)
        ensures
            r@ == document(entries(self.drafts@)),
    {
        let ghost want = draft_members(entries(self.drafts@));
        let mut table: Vec<(String, Toml)> = Vec::new();
        let mut i: usize = 0;
        assert(member_views(table@) =~= want.take(0));
        while i < self.drafts.len()
            invariant
                i <= self.drafts@.len(),
                want == draft_members(entries(self.drafts@)),
                member_views(table@) == want.take(i as int),
            decreases self.drafts@.len() - i,
        {
            let ghost before = member_views(table@);
            table.push((self.drafts[i].0.clone(), Toml::Text(self.drafts[i].1.clone())));
            assert(member_views(table@) =~= before.push(want[i as int]));
            assert(want.take(i + 1) =~= want.take(i as int).push(want[i as int]));
            i = i + 1;
        }
        assert(want.take(i as int) =~= want);
        let mut root: Vec<(String, Toml)> = Vec::new();
        proof {
            lemma_table_view(table);
        }
        root.push(("drafts".to_owned(), Toml::Table(table)));
        proof {
            lemma_table_view(root);
            assert(member_views(root@) =~= document(entries(self.drafts@))->Table_0);
        }
        Toml::Table(root)
    }

    /// The text of the drafts, from which they can be read back.
    pub fn to_toml(&self) -> (r: Result<String, String>)
        requires
            writable(entries(self.drafts@)),
        ensures
            write_view(r) == toml_text(document(entries(self.drafts@))),
            self.wf() && names_no_date(entries(self.drafts@)) ==> {
                &&& r is Ok
                &&& reads_as(r->Ok_0@, document(entries(self.drafts@)))
            },
    {
        let doc = self.to_value();
        proof {
            lemma_document(entries(self.drafts@));
        }
        print(&doc)
    }

    /// The drafts that a document says.
    pub fn from_value(doc: &Toml) -> (r: Result<DraftStore, DraftStoreError>)
        ensures
            store_view(r) == drafts_in(doc@),
            r is Ok ==> r->Ok_0.wf(),
    {
        match doc {
            Toml::Table(root) => {
                proof {
                    lemma_table_view(*root);
                }
                let at: usize = find_member(root, "drafts");
                if at >= root.len() {
                    let r = DraftStore::default();
                    assert(entries(r.drafts@) =~= Seq::empty());
                    return Ok(r);
                }
                let found = &root[at].1;
                match found {
                    Toml::Table(es) => {
                        proof {
                            lemma_table_view(*es);
                        }
                        let ghost views = member_views(es@);
                        let mut r = DraftStore::default();
                        assert(entries(r.drafts@) =~= Seq::empty());
                        let mut i: usize = 0;
                        while i < es.len()
                            invariant
                                i <= es@.len(),
                                views == member_views(es@),
                                r.wf(),
                                match drafts_of(views, i as int) {
                                    Ok(s) => s == entries(r.drafts@),
                                    Err(_) => false,
                                },
                                drafts_in(doc@) == match drafts_of(views, es@.len() as int) {
                                    Ok(s) => Ok::<_, ErrorView>(s),
                                    Err(k) => Err(ErrorView::NotAText(k)),
                                },
                            decreases es@.len() - i,
                        {
                            assert(views[i as int] == (es@[i as int].0@, es@[i as int].1@));
                            match &es[i].1 {
                                Toml::Text(t) => {
                                    r.put(es[i].0.as_str(), t.as_str());
                                },
                                _ => {
                                    proof {
                                        lemma_first_fault(views, i + 1, es@.len() as int);
                                    }
                                    return Err(DraftStoreError::NotAText(es[i].0.clone()));
                                },
                            }
                            i = i + 1;
                        }
                        Ok(r)
                    },
                    _ => Err(DraftStoreError::NotATable),
                }
            },
            _ => Err(DraftStoreError::NotATable),
        }
    }

    /// The drafts that a text says; an error where it is not TOML, or its
    /// drafts are not texts.
    pub fn from_toml(input: &str) -> (r: Result<DraftStore, DraftStoreError>)
        ensures
            store_view(r) == match toml_parsed(input@) {
                Ok(v) => drafts_in(v),
                Err(m) => Err(ErrorView::Toml(m)),
            },
            r is Ok ==> r->Ok_0.wf(),
    {
        match parse(input) {
            Ok(doc) => DraftStore::from_value(&doc),
            Err(m) => Err(DraftStoreError::Toml(m)),
        }
    }
}

proof fn lemma_first_fault(es: Seq<(Seq<char>, TomlView)>, i: int, n: int)
    requires
        0 <= i <= n,
        drafts_of(es, i) is Err,
    ensures
        drafts_of(es, n) == drafts_of(es, i),
    decreases n,
{
    if i < n {
        lemma_first_fault(es, i, n - 1);
    }
}

/// Drafts that were written are read back from any text that denotes their
/// document.
pub proof fn law_drafts_survive(text: Seq<char>, es: Seq<(Seq<char>, Seq<char>)>)
    requires
        ordered(es),
        reads_as(text, document(es)),
    ensures
        toml_parsed(text) is Ok,
        drafts_in(toml_parsed(text)->Ok_0) is Ok,
        drafts_in(toml_parsed(text)->Ok_0)->Ok_0 == es,
{
    law_stored_drafts_are_read_back(es);
}

/// Every session with a draft is found with the draft that was kept last, and
/// dropping one leaves the others.
pub proof fn law_drafts_are_kept_by_session(
    es: Seq<(Seq<char>, Seq<char>)>,
    k: Seq<char>,
    t: Seq<char>,
    x: Seq<char>,
)
    requires
        ordered(es),
    ensures
        ordered(stored(es, k, t)),
        as_map(stored(es, k, t)).dom().contains(k),
        as_map(stored(es, k, t))[k] == t,
        x != k ==> (as_map(stored(es, k, t)).dom().contains(x) <==> as_map(es).dom().contains(x)),
        x != k && as_map(es).dom().contains(x) ==> as_map(stored(es, k, t))[x] == as_map(es)[x],
        ordered(dropped(es, k)),
        !as_map(dropped(es, k)).dom().contains(k),
        x != k ==> (as_map(dropped(es, k)).dom().contains(x) <==> as_map(es).dom().contains(x)),
        x != k && as_map(es).dom().contains(x) ==> as_map(dropped(es, k))[x] == as_map(es)[x],
{
    lemma_stored(es, k, t);
    lemma_dropped(es, k);
}

/// A draft that stands in the list is the draft of its session.
pub proof fn law_listed_drafts_are_of_their_session(es: Seq<(Seq<char>, Seq<char>)>, i: int)
    requires
        ordered(es),
        0 <= i < es.len(),
    ensures
        as_map(es).dom().contains(es[i].0),
        as_map(es)[es[i].0] == es[i].1,
{
    lemma_at(es, es[i].0, i);
}

/// A document without drafts has none; one whose drafts are no table, or are
/// not all texts, is refused.
pub proof fn law_other_documents_are_refused(
    root: Seq<(Seq<char>, TomlView)>,
    es: Seq<(Seq<char>, TomlView)>,
    i: int,
)
    ensures
        member(root, "drafts"@) is None ==> drafts_in(TomlView::Table(root)) == Ok::<
            Seq<(Seq<char>, Seq<char>)>,
            ErrorView,
        >(Seq::empty()),
        member(root, "drafts"@) is Some && !(member(root, "drafts"@)->0 is Table) ==> drafts_in(
            TomlView::Table(root),
        ) is Err,
        member(root, "drafts"@) == Some(TomlView::Table(es)) && 0 <= i < es.len() && !(
        es[i].1 is Text) ==> drafts_in(TomlView::Table(root)) is Err,
        member(root, "drafts"@) == Some(TomlView::Table(es)) && (forall|j: int|
            0 <= j < es.len() ==> (#[trigger] es[j]).1 is Text) ==> drafts_in(
            TomlView::Table(root),
        ) is Ok,
{
    lemma_texts_are_read(es, es.len() as int, i);
}

proof fn lemma_texts_are_read(es: Seq<(Seq<char>, TomlView)>, n: int, i: int)
    requires
        0 <= n <= es.len(),
    ensures
        0 <= i < n && !(es[i].1 is Text) ==> drafts_of(es, n) is Err,
        (forall|j: int| 0 <= j < n ==> (#[trigger] es[j]).1 is Text) ==> drafts_of(es, n) is Ok,
    decreases n,
{
    if n > 0 {
        lemma_texts_are_read(es, n - 1, i);
    }
}

} // verus!
