//! The queue of approvals: requests wait in line, one at a time is decided.
//!
//! At most one request is active. A request that arrives meanwhile only joins
//! the line. A request that was granted is remembered, so that a second
//! delivery of it is never granted again. A request whose reply failed is kept
//! and can be retried while the line goes on. A dangerous request needs a
//! second confirmation before it may be allowed.

use vstd::prelude::*;

use crate::json::{Json, JsonView};
use crate::text::{same, texts};

verus! {

/// How many granted requests are remembered.
pub const GRANTED_CAP: usize = 256;

/// A request for approval.
#[derive(Debug, PartialEq, Eq)]
pub struct ApprovalEvent {
    pub client_id: String,
    pub event_id: String,
    pub raw: Json,
}

/// A request for approval, with texts as characters.
pub struct ApprovalEventView {
    pub client_id: Seq<char>,
    pub event_id: Seq<char>,
    pub raw: JsonView,
}

impl View for ApprovalEvent {
    type V = ApprovalEventView;

    open spec fn view(&self) -> ApprovalEventView {
        ApprovalEventView {
            client_id: self.client_id@,
            event_id: self.event_id@,
            raw: self.raw@,
        }
    }
}

impl Clone for ApprovalEvent {
    fn clone(&self) -> (r: Self)
        ensures
            r@ == self@,
    {
        ApprovalEvent {
            client_id: self.client_id.clone(),
            event_id: self.event_id.clone(),
            raw: self.raw.dup(),
        }
    }
}

/// A request in the queue and what was decided of it here.
#[derive(Debug, PartialEq, Eq)]
pub struct ApprovalItem {
    pub event: ApprovalEvent,
    /// Whether the request needs a second confirmation before it is allowed.
    pub danger: bool,
    /// Whether the second confirmation was given.
    pub acked: bool,
}

/// A request in the queue, with texts as characters.
pub struct ApprovalItemView {
    pub event: ApprovalEventView,
    pub danger: bool,
    pub acked: bool,
}

impl View for ApprovalItem {
    type V = ApprovalItemView;

    open spec fn view(&self) -> ApprovalItemView {
        ApprovalItemView { event: self.event@, danger: self.danger, acked: self.acked }
    }
}

/// The views of a list of requests.
pub open spec fn items(v: Seq<ApprovalItem>) -> Seq<ApprovalItemView> {
    v.map_values(|i: ApprovalItem| i@)
}

/// The view of an optional request.
pub open spec fn opt_item(o: Option<ApprovalItem>) -> Option<ApprovalItemView> {
    match o {
        Some(i) => Some(i@),
        None => None,
    }
}

/// The view of an optional event.
pub open spec fn opt_event(o: Option<ApprovalEvent>) -> Option<ApprovalEventView> {
    match o {
        Some(e) => Some(e@),
        None => None,
    }
}

/// Counts for a status line.
#[derive(Debug, Clone, Copy, PartialEq, Eq, Structural)]
pub struct ApprovalSummary {
    pub pending: usize,
    pub failed: usize,
    pub has_active: bool,
}

impl Default for ApprovalSummary {
    fn default() -> (r: Self)
        ensures
            r == (ApprovalSummary { pending: 0, failed: 0, has_active: false }),
    {
        ApprovalSummary { pending: 0, failed: 0, has_active: false }
    }
}

/// The state of the queue.
#[verifier::ext_equal]
pub struct QueueView {
    /// Requests that wait, in the order in which they arrived.
    pub queue: Seq<ApprovalItemView>,
    /// The request that is being decided.
    pub active: Option<ApprovalItemView>,
    /// Requests whose reply failed, in the order in which they failed.
    pub failed: Seq<ApprovalItemView>,
    /// Identities of the requests that were granted, oldest first.
    pub granted: Seq<Seq<char>>,
}

/// Whether a list holds a request with an identity.
pub open spec fn holds(v: Seq<ApprovalItemView>, id: Seq<char>) -> bool {
    exists|i: int| 0 <= i < v.len() && (#[trigger] v[i]).event.event_id == id
}

/// Whether no identity occurs twice in a list.
pub open spec fn distinct(v: Seq<ApprovalItemView>) -> bool {
    forall|i: int, j: int|
        0 <= i < j < v.len() ==> (#[trigger] v[i]).event.event_id != (
        #[trigger] v[j]).event.event_id
}

/// Place of the first request with an identity; the length where there is none.
pub open spec fn item_index(v: Seq<ApprovalItemView>, id: Seq<char>) -> nat
    decreases v.len(),
{
    if v.len() == 0 || v[0].event.event_id == id {
        0
    } else {
        1 + item_index(v.skip(1), id)
    }
}

proof fn lemma_item_index(v: Seq<ApprovalItemView>, id: Seq<char>, i: int)
    requires
        0 <= i <= v.len(),
        forall|j: int| 0 <= j < i ==> (#[trigger] v[j]).event.event_id != id,
        i < v.len() ==> v[i].event.event_id == id,
    ensures
        item_index(v, id) == i,
    decreases v.len(),
{
    if i > 0 {
        assert(v[0].event.event_id != id);
        assert forall|j: int| 0 <= j < i - 1 implies (#[trigger] v.skip(1)[j]).event.event_id
            != id by {
            assert(v[j + 1].event.event_id != id);
        }
        lemma_item_index(v.skip(1), id, i - 1);
    }
}

proof fn lemma_item_found(v: Seq<ApprovalItemView>, id: Seq<char>)
    ensures
        item_index(v, id) <= v.len(),
        item_index(v, id) < v.len() <==> holds(v, id),
        item_index(v, id) < v.len() ==> v[item_index(v, id) as int].event.event_id == id,
    decreases v.len(),
{
    if v.len() > 0 && v[0].event.event_id != id {
        let rest = v.skip(1);
        lemma_item_found(rest, id);
        if holds(v, id) {
            let i = choose|i: int| 0 <= i < v.len() && (#[trigger] v[i]).event.event_id == id;
            assert(rest[i - 1].event.event_id == id);
        }
    }
}

impl QueueView {
    /// Whether a request with an identity waits, is active or has failed.
    pub open spec fn knows(self, id: Seq<char>) -> bool {
        ||| holds(self.queue, id)
        ||| self.active matches Some(a) && a.event.event_id == id
        ||| holds(self.failed, id)
    }

    /// Whether each request stands in one place only and the memory of granted
    /// requests is bounded.
    pub open spec fn wf(self) -> bool {
        &&& distinct(self.queue)
        &&& distinct(self.failed)
        &&& forall|i: int, j: int|
            0 <= i < self.queue.len() && 0 <= j < self.failed.len() ==> (
            #[trigger] self.queue[i]).event.event_id != (#[trigger] self.failed[j]).event.event_id
        &&& self.active matches Some(a) ==> !holds(self.queue, a.event.event_id) && !holds(
            self.failed,
            a.event.event_id,
        )
        &&& self.granted.len() <= 256
        &&& self.granted.no_duplicates()
    }

    /// Whether an arriving request joins the line: it is neither known nor was
    /// it granted.
    pub open spec fn admits(self, id: Seq<char>) -> bool {
        !self.granted.contains(id) && !self.knows(id)
    }

    /// After an arrival.
    pub open spec fn enqueued(self, e: ApprovalEventView, danger: bool) -> QueueView {
        if self.admits(e.event_id) {
            QueueView {
                queue: self.queue.push(ApprovalItemView { event: e, danger, acked: false }),
                ..self
            }
        } else {
            self
        }
    }

    /// After the oldest waiting request became active, where none was.
    pub open spec fn promoted(self) -> QueueView {
        if self.active is Some || self.queue.len() == 0 {
            self
        } else {
            QueueView { queue: self.queue.skip(1), active: Some(self.queue[0]), ..self }
        }
    }

    /// After a request was remembered as granted.
    pub open spec fn remembered(self, id: Seq<char>) -> QueueView {
        if self.granted.contains(id) {
            self
        } else if self.granted.len() >= 256 {
            QueueView { granted: self.granted.skip(1).push(id), ..self }
        } else {
            QueueView { granted: self.granted.push(id), ..self }
        }
    }

    /// After the active request was settled and the next one taken up.
    pub open spec fn settled(self, granted: bool) -> QueueView {
        match self.active {
            Some(a) => {
                let idle = QueueView { active: None, ..self };
                if granted {
                    idle.remembered(a.event.event_id).promoted()
                } else {
                    idle.promoted()
                }
            },
            None => self.promoted(),
        }
    }

    /// After the reply to the active request failed and the next one was taken
    /// up.
    pub open spec fn reply_failed(self) -> QueueView {
        match self.active {
            Some(a) => {
                let item = ApprovalItemView { acked: false, ..a };
                QueueView {
                    active: None,
                    failed: if holds(self.failed, a.event.event_id) {
                        self.failed
                    } else {
                        self.failed.push(item)
                    },
                    ..self
                }.promoted()
            },
            None => self,
        }
    }

    /// After a failed request was taken up again, where none is active.
    pub open spec fn retried(self, id: Seq<char>) -> QueueView {
        let i = item_index(self.failed, id);
        if self.active is Some || i >= self.failed.len() {
            self
        } else {
            QueueView {
                active: Some(ApprovalItemView { acked: false, ..self.failed[i as int] }),
                failed: self.failed.remove(i as int),
                ..self
            }
        }
    }

    /// After the second confirmation of the active request.
    pub open spec fn confirmed(self) -> QueueView {
        match self.active {
            Some(a) => if a.danger {
                QueueView { active: Some(ApprovalItemView { acked: true, ..a }), ..self }
            } else {
                self
            },
            None => self,
        }
    }

    /// After everything but the memory of granted requests was dropped.
    pub open spec fn cleared(self) -> QueueView {
        QueueView { queue: Seq::empty(), active: None, failed: Seq::empty(), ..self }
    }

    /// The requests as they are listed: the active one, those that wait, those
    /// that failed.
    pub open spec fn listing(self) -> Seq<ApprovalItemView> {
        match self.active {
            Some(a) => seq![a] + self.queue + self.failed,
            None => self.queue + self.failed,
        }
    }
}

/// The queue of approvals.
#[derive(Debug, PartialEq, Eq)]
pub struct ApprovalQueue {
    queue: Vec<ApprovalItem>,
    active: Option<ApprovalItem>,
    failed: Vec<ApprovalItem>,
    granted: Vec<String>,
}

impl View for ApprovalQueue {
    type V = QueueView;

    closed spec fn view(&self) -> QueueView {
        QueueView {
            queue: items(self.queue@),
            active: opt_item(self.active),
            failed: items(self.failed@),
            granted: texts(self.granted@),
        }
    }
}

impl Default for ApprovalQueue {
    fn default() -> (r: Self)
        ensures
            r@ == (QueueView {
                queue: Seq::empty(),
                active: None,
                failed: Seq::empty(),
                granted: Seq::empty(),
            }),
    {
        ApprovalQueue::new()
    }
}

/// Place of the first request with an identity.
fn position(v: &Vec<ApprovalItem>, id: &str) -> (r: usize)
    ensures
        r == item_index(items(v@), id@),
        r <= v@.len(),
        r < v@.len() <==> holds(items(v@), id@),
{
    let ghost all = items(v@);
    let mut i: usize = 0;
    while i < v.len()
        invariant
            i <= v@.len(),
            all == items(v@),
            forall|j: int| 0 <= j < i ==> (#[trigger] all[j]).event.event_id != id@,
        decreases v@.len() - i,
    {
        assert(all[i as int] == v@[i as int]@);
        if same(v[i].event.event_id.as_str(), id) {
            proof {
                lemma_item_index(all, id@, i as int);
                lemma_item_found(all, id@);
            }
            return i;
        }
        i = i + 1;
    }
    proof {
        lemma_item_index(all, id@, i as int);
        lemma_item_found(all, id@);
    }
    i
}

impl ApprovalQueue {
    /// An empty queue.
    pub fn new() -> (r: ApprovalQueue)
        ensures
            r@ == (QueueView {
                queue: Seq::empty(),
                active: None,
                failed: Seq::empty(),
                granted: Seq::empty(),
            }),
    {
        let r = ApprovalQueue {
            queue: Vec::new(),
            active: None,
            failed: Vec::new(),
            granted: Vec::new(),
        };
        assert(r@ =~= (QueueView {
            queue: Seq::empty(),
            active: None,
            failed: Seq::empty(),
            granted: Seq::empty(),
        }));
        r
    }

    /// Adds an arriving request to the line. One that is known already or was
    /// granted before is refused.
    pub fn enqueue(&mut self, event: ApprovalEvent, danger: bool) -> (r: bool)
        ensures
            r == old(self)@.admits(event@.event_id),
            final(self)@ == old(self)@.enqueued(event@, danger),
    {
        let known = {
            let id = event.event_id.as_str();
            self.is_granted(id) || position(&self.queue, id) < self.queue.len() || position(
                &self.failed,
                id,
            ) < self.failed.len() || (match &self.active {
                Some(a) => same(a.event.event_id.as_str(), id),
                None => false,
            })
        };
        if known {
            return false;
        }
        let ghost before = self@;
        let ghost item = ApprovalItemView { event: event@, danger, acked: false };
        self.queue.push(ApprovalItem { event, danger, acked: false });
        assert(self@ =~= (QueueView { queue: before.queue.push(item), ..before }));
        true
    }

    /// The request that is being decided.
    pub fn active(&self) -> (r: Option<&ApprovalItem>)
        ensures
            match r {
                Some(a) => self@.active == Some(a@),
                None => self@.active is None,
            },
    {
        self.active.as_ref()
    }

    /// Whether a request is being decided.
    pub fn has_active(&self) -> (r: bool)
        ensures
            r == (self@.active is Some),
    {
        self.active.is_some()
    }

    /// Takes up the oldest waiting request, where none is active; the request
    /// that was taken up.
    pub fn promote(&mut self) -> (r: Option<ApprovalEvent>)
        ensures
            final(self)@ == old(self)@.promoted(),
            opt_event(r) == if old(self)@.active is Some || old(self)@.queue.len() == 0 {
                None
            } else {
                Some(old(self)@.queue[0].event)
            },
    {
        if self.active.is_some() || self.queue.len() == 0 {
            return None;
        }
        let ghost before = self@;
        let item = self.queue.remove(0);
        let event = item.event.clone();
        self.active = Some(item);
        assert(self@ =~= before.promoted());
        Some(event)
    }

    /// The event of the request that is being decided.
    pub fn active_event(&self) -> (r: Option<ApprovalEvent>)
        ensures
            opt_event(r) == match self@.active {
                Some(a) => Some(a.event),
                None => None,
            },
    {
        match &self.active {
            Some(a) => Some(a.event.clone()),
            None => None,
        }
    }

    /// Settles the active request once its outcome was delivered, and takes up
    /// the next one. A granted request is remembered.
    pub fn settle(&mut self, granted: bool)
        ensures
            final(self)@ == old(self)@.settled(granted),
    {
        let ghost before = self@;
        let mut taken: Option<ApprovalItem> = None;
        std::mem::swap(&mut taken, &mut self.active);
        match taken {
            Some(item) => {
                assert(self@ =~= (QueueView { active: None, ..before }));
                if granted {
                    self.remember_granted(item.event.event_id);
                }
            },
            None => {
                assert(self@ =~= before);
            },
        }
        self.promote();
    }

    /// Whether a request was granted.
    pub fn is_granted(&self, id: &str) -> (r: bool)
        ensures
            r == self@.granted.contains(id@),
    {
        let ghost all = texts(self.granted@);
        let mut i: usize = 0;
        while i < self.granted.len()
            invariant
                i <= self.granted@.len(),
                all == texts(self.granted@),
                forall|j: int| 0 <= j < i ==> #[trigger] all[j] != id@,
            decreases self.granted@.len() - i,
        {
            assert(all[i as int] == self.granted@[i as int]@);
            if same(self.granted[i].as_str(), id) {
                return true;
            }
            i = i + 1;
        }
        false
    }

    /// Keeps the active request as failed, to be retried, and takes up the
    /// next one; the request that failed.
    pub fn fail_active(&mut self) -> (r: Option<ApprovalEvent>)
        ensures
            final(self)@ == old(self)@.reply_failed(),
            opt_event(r) == match old(self)@.active {
                Some(a) => Some(a.event),
                None => None,
            },
    {
        let ghost before = self@;
        let mut taken: Option<ApprovalItem> = None;
        std::mem::swap(&mut taken, &mut self.active);
        match taken {
            Some(item) => {
                let event = item.event.clone();
                let kept = ApprovalItem { event: item.event, danger: item.danger, acked: false };
                let ghost k = kept@;
                if position(&self.failed, kept.event.event_id.as_str()) >= self.failed.len() {
                    self.failed.push(kept);
                    assert(items(self.failed@) =~= before.failed.push(k));
                }
                self.promote();
                Some(event)
            },
            None => {
                assert(self@ =~= before);
                None
            },
        }
    }

    /// Takes up a failed request again, where none is active; the request that
    /// was taken up.
    pub fn retry_failed(&mut self, event_id: &str) -> (r: Option<ApprovalEvent>)
        ensures
            final(self)@ == old(self)@.retried(event_id@),
            opt_event(r) == if old(self)@.active is Some || !holds(
                old(self)@.failed,
                event_id@,
            ) {
                None
            } else {
                Some(
                    old(self)@.failed[item_index(old(self)@.failed, event_id@) as int].event,
                )
            },
    {
        if self.active.is_some() {
            return None;
        }
        let ghost before = self@;
        let i: usize = position(&self.failed, event_id);
        if i >= self.failed.len() {
            return None;
        }
        let item = self.failed.remove(i);
        let event = item.event.clone();
        self.active = Some(
            ApprovalItem { event: item.event, danger: item.danger, acked: false },
        );
        assert(self@ =~= before.retried(event_id@));
        Some(event)
    }

    /// Gives the second confirmation of the active request; whether it was
    /// asked for and not given before.
    pub fn ack_active(&mut self) -> (r: bool)
        ensures
            final(self)@ == old(self)@.confirmed(),
            r == (old(self)@.active matches Some(a) && a.danger && !a.acked),
    {
        let ghost before = self@;
        let mut taken: Option<ApprovalItem> = None;
        std::mem::swap(&mut taken, &mut self.active);
        let mut given = false;
        match taken {
            Some(mut item) => {
                if item.danger && !item.acked {
                    item.acked = true;
                    given = true;
                }
                self.active = Some(item);
            },
            None => {},
        }
        assert(self@ =~= before.confirmed());
        given
    }

    /// Whether the active request may not be allowed before it is confirmed.
    pub fn head_requires_ack(&self) -> (r: bool)
        ensures
            r == (self@.active matches Some(a) && a.danger && !a.acked),
    {
        match &self.active {
            Some(a) => a.danger && !a.acked,
            None => false,
        }
    }

    /// Whether the active request was confirmed.
    pub fn head_acked(&self) -> (r: bool)
        ensures
            r == (self@.active matches Some(a) && a.acked),
    {
        match &self.active {
            Some(a) => a.acked,
            None => false,
        }
    }

    /// Whether the reply to a request failed.
    pub fn is_failed(&self, id: &str) -> (r: bool)
        ensures
            r == holds(self@.failed, id@),
    {
        position(&self.failed, id) < self.failed.len()
    }

    /// Drops every request; what was granted stays remembered.
    pub fn clear(&mut self)
        ensures
            final(self)@ == old(self)@.cleared(),
    {
        let ghost before = self@;
        self.queue.clear();
        self.active = None;
        self.failed.clear();
        assert(self@ =~= before.cleared());
    }

    /// Counts for a status line.
    pub fn summary(&self) -> (r: ApprovalSummary)
        ensures
            r.pending == self@.queue.len(),
            r.failed == self@.failed.len(),
            r.has_active == (self@.active is Some),
    {
        ApprovalSummary {
            pending: self.queue.len(),
            failed: self.failed.len(),
            has_active: self.active.is_some(),
        }
    }

    /// The requests as they are listed.
    pub fn list(&self) -> (r: Vec<&ApprovalItem>)
        ensures
            r@.map_values(|i: &ApprovalItem| i@) == self@.listing(),
    {
        let mut out: Vec<&ApprovalItem> = Vec::new();
        let ghost view = |i: &ApprovalItem| i@;
        let ghost head = match self@.active {
            Some(a) => seq![a],
            None => Seq::empty(),
        };
        if let Some(a) = &self.active {
            out.push(a);
        }
        assert(out@.map_values(view) =~= head);
        let mut i: usize = 0;
        while i < self.queue.len()
            invariant
                i <= self.queue@.len(),
                view == (|i: &ApprovalItem| i@),
                out@.map_values(view) == head + self@.queue.take(i as int),
            decreases self.queue@.len() - i,
        {
            let ghost before = out@;
            out.push(&self.queue[i]);
            assert(out@.map_values(view) =~= before.map_values(view).push(self.queue@[i as int]@));
            assert(self@.queue.take(i + 1) =~= self@.queue.take(i as int).push(
                self.queue@[i as int]@,
            ));
            i = i + 1;
        }
        assert(self@.queue.take(i as int) =~= self@.queue);
        let mut j: usize = 0;
        assert(head + self@.queue =~= head + self@.queue + self@.failed.take(0));
        while j < self.failed.len()
            invariant
                j <= self.failed@.len(),
                view == (|i: &ApprovalItem| i@),
                out@.map_values(view) == head + self@.queue + self@.failed.take(j as int),
            decreases self.failed@.len() - j,
        {
            let ghost before = out@;
            out.push(&self.failed[j]);
            assert(out@.map_values(view) =~= before.map_values(view).push(
                self.failed@[j as int]@,
            ));
            assert(self@.failed.take(j + 1) =~= self@.failed.take(j as int).push(
                self.failed@[j as int]@,
            ));
            j = j + 1;
        }
        assert(self@.failed.take(j as int) =~= self@.failed);
        assert(head + self@.queue + self@.failed =~= self@.listing());
        out
    }

    /// Number of requests.
    pub fn len(&self) -> (r: usize)
        requires
            self@.listing().len() <= usize::MAX,
        ensures
            r == self@.listing().len(),
    {
        let head: usize = if self.active.is_some() {
            1
        } else {
            0
        };
        head + self.queue.len() + self.failed.len()
    }

    /// Whether there is no request.
    pub fn is_empty(&self) -> (r: bool)
        ensures
            r == (self@.listing().len() == 0),
    {
        self.active.is_none() && self.queue.len() == 0 && self.failed.len() == 0
    }

    fn remember_granted(&mut self, id: String)
        ensures
            final(self)@ == old(self)@.remembered(id@),
    {
        if self.is_granted(id.as_str()) {
            return;
        }
        let ghost before = self@;
        if self.granted.len() >= GRANTED_CAP {
            self.granted.remove(0);
        }
        let ghost mid = texts(self.granted@);
        let ghost text = id@;
        self.granted.push(id);
        assert(texts(self.granted@) =~= mid.push(text));
        assert(before.granted.len() >= 256 ==> mid =~= before.granted.skip(1));
        assert(before.granted.len() < 256 ==> mid =~= before.granted);
        assert(self@ =~= before.remembered(text));
    }
}

/// An arrival changes neither the active request nor those that failed, and
/// keeps every request in one place.
pub proof fn law_arrivals_only_join_the_line(q: QueueView, e: ApprovalEventView, danger: bool)
    requires
        q.wf(),
    ensures
        q.enqueued(e, danger).wf(),
        q.enqueued(e, danger).active == q.active,
        q.enqueued(e, danger).failed == q.failed,
        q.queue.is_prefix_of(q.enqueued(e, danger).queue),
{
}

/// Every other operation keeps each request in one place and the memory of
/// granted requests bounded.
pub proof fn law_operations_keep_queue(q: QueueView, granted: bool, id: Seq<char>)
    requires
        q.wf(),
    ensures
        q.promoted().wf(),
        q.settled(granted).wf(),
        q.reply_failed().wf(),
        q.retried(id).wf(),
        q.confirmed().wf(),
        q.cleared().wf(),
{
    lemma_promoted_wf(q);
    match q.active {
        Some(a) => {
            let idle = QueueView { active: None, ..q };
            lemma_promoted_wf(idle);
            lemma_remembered_wf(idle, a.event.event_id);
            lemma_promoted_wf(idle.remembered(a.event.event_id));
            let item = ApprovalItemView { acked: false, ..a };
            let kept = QueueView { active: None, failed: q.failed.push(item), ..q };
            assert(distinct(kept.failed)) by {
                assert forall|i: int, j: int| 0 <= i < j < kept.failed.len() implies (
                #[trigger] kept.failed[i]).event.event_id != (
                #[trigger] kept.failed[j]).event.event_id by {
                    if j == q.failed.len() {
                        assert(q.failed[i].event.event_id != a.event.event_id);
                    }
                }
            }
            assert(kept.wf()) by {
                assert forall|i: int, j: int|
                    0 <= i < kept.queue.len() && 0 <= j < kept.failed.len() implies (
                #[trigger] kept.queue[i]).event.event_id != (
                #[trigger] kept.failed[j]).event.event_id by {
                    if j == q.failed.len() {
                        assert(q.queue[i].event.event_id != a.event.event_id);
                    }
                }
            }
            lemma_promoted_wf(kept);
        },
        None => {
            lemma_item_found(q.failed, id);
            let i = item_index(q.failed, id);
            if i < q.failed.len() {
                let r = q.retried(id);
                assert forall|a: int, b: int| 0 <= a < b < r.failed.len() implies (
                #[trigger] r.failed[a]).event.event_id != (
                #[trigger] r.failed[b]).event.event_id by {
                    let x = if a < i {
                        a
                    } else {
                        a + 1
                    };
                    let y = if b < i {
                        b
                    } else {
                        b + 1
                    };
                    assert(q.failed[x].event.event_id != q.failed[y].event.event_id);
                }
                assert(!holds(r.failed, id)) by {
                    if holds(r.failed, id) {
                        let b = choose|b: int|
                            0 <= b < r.failed.len() && (#[trigger] r.failed[b]).event.event_id
                                == id;
                        let y = if b < i {
                            b
                        } else {
                            b + 1
                        };
                        assert(q.failed[y].event.event_id == id);
                        if y < i {
                            assert(q.failed[y].event.event_id
                                != q.failed[i as int].event.event_id);
                        } else {
                            assert(q.failed[i as int].event.event_id
                                != q.failed[y].event.event_id);
                        }
                    }
                }
                assert(!holds(r.queue, id)) by {
                    if holds(r.queue, id) {
                        let a = choose|a: int|
                            0 <= a < r.queue.len() && (#[trigger] r.queue[a]).event.event_id == id;
                        assert(q.queue[a].event.event_id != q.failed[i as int].event.event_id);
                    }
                }
                assert forall|a: int, b: int|
                    0 <= a < r.queue.len() && 0 <= b < r.failed.len() implies (
                #[trigger] r.queue[a]).event.event_id != (
                #[trigger] r.failed[b]).event.event_id by {
                    let y = if b < i {
                        b
                    } else {
                        b + 1
                    };
                    assert(q.queue[a].event.event_id != q.failed[y].event.event_id);
                }
            }
        },
    }
}

proof fn lemma_promoted_wf(q: QueueView)
    requires
        q.wf(),
    ensures
        q.promoted().wf(),
{
    if q.active is None && q.queue.len() > 0 {
        let r = q.promoted();
        let id = q.queue[0].event.event_id;
        assert forall|i: int, j: int| 0 <= i < j < r.queue.len() implies (
        #[trigger] r.queue[i]).event.event_id != (#[trigger] r.queue[j]).event.event_id by {
            assert(q.queue[i + 1].event.event_id != q.queue[j + 1].event.event_id);
        }
        assert(!holds(r.queue, id)) by {
            if holds(r.queue, id) {
                let i = choose|i: int|
                    0 <= i < r.queue.len() && (#[trigger] r.queue[i]).event.event_id == id;
                assert(q.queue[0].event.event_id != q.queue[i + 1].event.event_id);
            }
        }
        assert(!holds(r.failed, id)) by {
            if holds(r.failed, id) {
                let j = choose|j: int|
                    0 <= j < r.failed.len() && (#[trigger] r.failed[j]).event.event_id == id;
                assert(q.queue[0].event.event_id != q.failed[j].event.event_id);
            }
        }
        assert forall|i: int, j: int|
            0 <= i < r.queue.len() && 0 <= j < r.failed.len() implies (
        #[trigger] r.queue[i]).event.event_id != (#[trigger] r.failed[j]).event.event_id by {
            assert(q.queue[i + 1].event.event_id != q.failed[j].event.event_id);
        }
    }
}

proof fn lemma_remembered_wf(q: QueueView, id: Seq<char>)
    requires
        q.wf(),
    ensures
        q.remembered(id).wf(),
        q.remembered(id).granted.contains(id),
{
    let r = q.remembered(id);
    if !q.granted.contains(id) {
        assert(r.granted[r.granted.len() - 1] == id);
    }
}

/// A request that was granted is remembered, and a second delivery of it
/// changes nothing.
pub proof fn law_granted_is_never_asked_again(q: QueueView, e: ApprovalEventView, danger: bool)
    requires
        q.wf(),
        q.active is Some,
        q.active->0.event.event_id == e.event_id,
    ensures
        q.settled(true).granted.contains(e.event_id),
        q.settled(true).enqueued(e, danger) == q.settled(true),
{
    let idle = QueueView { active: None, ..q };
    lemma_remembered_wf(idle, e.event_id);
}

/// Nothing but a grant makes a request count as granted.
pub proof fn law_only_grants_grant(q: QueueView, e: ApprovalEventView, danger: bool, id: Seq<char>)
    ensures
        q.enqueued(e, danger).granted == q.granted,
        q.promoted().granted == q.granted,
        q.settled(false).granted == q.granted,
        q.reply_failed().granted == q.granted,
        q.retried(id).granted == q.granted,
        q.confirmed().granted == q.granted,
        q.cleared().granted == q.granted,
{
}

/// A failed request stays until it is retried, and comes back unconfirmed.
pub proof fn law_failed_request_stays_retryable(q: QueueView)
    requires
        q.wf(),
        q.active is Some,
    ensures
        holds(q.reply_failed().failed, q.active->0.event.event_id),
        q.reply_failed().active is None ==> {
            let back = q.reply_failed().retried(q.active->0.event.event_id).active;
            back is Some && back->0.event.event_id == q.active->0.event.event_id && !back->0.acked
        },
{
    let a = q.active->0;
    let f = q.reply_failed().failed;
    assert(f[f.len() - 1].event.event_id == a.event.event_id);
    lemma_item_found(f, a.event.event_id);
    let i = item_index(f, a.event.event_id);
    assert(f[i as int].event.event_id == a.event.event_id);
}

/// Settling goes on with the line, granted or not: the oldest request that
/// waited is taken up as it stands, the others move up in their order, and
/// nothing is active only where nothing waited. What failed stays.
pub proof fn law_settling_takes_up_the_oldest(q: QueueView, granted: bool)
    requires
        q.active is Some,
    ensures
        q.queue.len() > 0 ==> q.settled(granted).active == Some(q.queue[0]),
        q.queue.len() > 0 ==> q.settled(granted).queue.len() == q.queue.len() - 1,
        forall|i: int|
            0 < i < q.queue.len() ==> q.settled(granted).queue[i - 1] == #[trigger] q.queue[i],
        q.queue.len() == 0 ==> q.settled(granted).active is None && q.settled(
            granted,
        ).queue.len() == 0,
        q.settled(granted).failed == q.failed,
{
}

/// A grant is remembered beside the earlier ones; only where the memory is
/// full the oldest of them is forgotten for it. Settling without a grant
/// changes nothing of what is remembered.
pub proof fn law_grants_are_remembered(q: QueueView, id: Seq<char>)
    requires
        q.wf(),
        q.active is Some,
    ensures
        q.settled(true).granted.contains(q.active->0.event.event_id),
        q.granted.contains(id) && (q.granted.len() < 256 || id != q.granted[0]
            || q.granted.contains(q.active->0.event.event_id)) ==> q.settled(
            true,
        ).granted.contains(id),
        q.settled(true).granted.contains(id) ==> id == q.active->0.event.event_id
            || q.granted.contains(id),
        q.settled(false).granted.contains(id) <==> q.granted.contains(id),
{
    let a = q.active->0.event.event_id;
    let idle = QueueView { active: None, ..q };
    lemma_remembered_wf(idle, a);
    let out = q.settled(true).granted;
    if q.granted.contains(id) && !q.granted.contains(a) {
        let i = choose|i: int| 0 <= i < q.granted.len() && q.granted[i] == id;
        if q.granted.len() < 256 {
            assert(out[i] == id);
        } else if i > 0 {
            assert(out[i - 1] == id);
        }
    }
    if out.contains(id) && !q.granted.contains(a) && id != a {
        let i = choose|i: int| 0 <= i < out.len() && out[i] == id;
        if q.granted.len() < 256 {
            assert(q.granted[i] == id);
        } else {
            assert(q.granted[i + 1] == id);
        }
    }
}

/// A request that is neither waiting, active, failed nor granted joins the end
/// of the line as it came, with its danger and unconfirmed; any other arrival
/// changes nothing.
pub proof fn law_new_request_joins_last(q: QueueView, e: ApprovalEventView, danger: bool)
    ensures
        ({
            let known = q.granted.contains(e.event_id) || (q.active is Some
                && q.active->0.event.event_id == e.event_id) || (exists|i: int|
                0 <= i < q.queue.len() && (#[trigger] q.queue[i]).event.event_id == e.event_id)
                || (exists|i: int|
                0 <= i < q.failed.len() && (#[trigger] q.failed[i]).event.event_id == e.event_id);
            let r = q.enqueued(e, danger);
            &&& known ==> r == q
            &&& !known ==> {
                &&& r.queue.len() == q.queue.len() + 1
                &&& r.queue.last().event == e
                &&& r.queue.last().danger == danger
                &&& !r.queue.last().acked
                &&& forall|i: int| 0 <= i < q.queue.len() ==> r.queue[i] == #[trigger] q.queue[i]
                &&& r.active == q.active
                &&& r.failed == q.failed
                &&& r.granted == q.granted
            }
        }),
{
}

/// Taking up the next request: where none is active, the oldest that waits
/// becomes active and the others keep their order; else nothing changes.
pub proof fn law_promotion_is_in_order(q: QueueView)
    ensures
        q.active is Some ==> q.promoted() == q,
        q.queue.len() == 0 ==> q.promoted() == q,
        q.active is None && q.queue.len() > 0 ==> {
            &&& q.promoted().active == Some(q.queue[0])
            &&& q.promoted().queue.len() == q.queue.len() - 1
            &&& forall|i: int|
                0 < i < q.queue.len() ==> q.promoted().queue[i - 1] == #[trigger] q.queue[i]
        },
        q.promoted().failed == q.failed,
{
}

/// First come, first served: of two requests that wait, the one that came
/// first is decided first, however each is settled.
pub proof fn law_requests_are_served_in_order(q: QueueView, first: bool, second: bool)
    requires
        q.active is Some,
        q.queue.len() >= 2,
    ensures
        q.settled(first).active == Some(q.queue[0]),
        q.settled(first).settled(second).active == Some(q.queue[1]),
        q.settled(first).settled(second).queue.len() == q.queue.len() - 2,
{
}

/// A reply that failed keeps its request behind the others that failed, with
/// its danger and unconfirmed, and the oldest that waited is taken up. Without
/// an active request nothing changes.
pub proof fn law_failure_keeps_the_request(q: QueueView)
    requires
        q.wf(),
    ensures
        q.active is None ==> q.reply_failed() == q,
        q.active is Some ==> {
            let r = q.reply_failed();
            &&& r.failed.len() == q.failed.len() + 1
            &&& r.failed.last().event == q.active->0.event
            &&& r.failed.last().danger == q.active->0.danger
            &&& !r.failed.last().acked
            &&& forall|i: int| 0 <= i < q.failed.len() ==> r.failed[i] == #[trigger] q.failed[i]
            &&& q.queue.len() > 0 ==> r.active == Some(q.queue[0])
            &&& q.queue.len() > 0 ==> r.queue.len() == q.queue.len() - 1
            &&& forall|i: int|
                0 < i < q.queue.len() ==> r.queue[i - 1] == #[trigger] q.queue[i]
            &&& q.queue.len() == 0 ==> r.active is None && r.queue.len() == 0
            &&& r.granted == q.granted
        },
{
}

/// Retrying takes up the failed request that is asked for, unconfirmed, and
/// leaves the other failed ones in their order and the line as it is. It does
/// nothing while a request is active or where no such request failed.
pub proof fn law_retry_takes_up_the_request(q: QueueView, id: Seq<char>, i: int)
    requires
        q.wf(),
    ensures
        q.active is Some ==> q.retried(id) == q,
        (forall|j: int| 0 <= j < q.failed.len() ==> (#[trigger] q.failed[j]).event.event_id != id)
            ==> q.retried(id) == q,
        q.active is None && 0 <= i < q.failed.len() && q.failed[i].event.event_id == id ==> {
            let r = q.retried(id);
            &&& r.active is Some
            &&& r.active->0.event == q.failed[i].event
            &&& r.active->0.danger == q.failed[i].danger
            &&& !r.active->0.acked
            &&& r.failed.len() == q.failed.len() - 1
            &&& forall|j: int| 0 <= j < i ==> r.failed[j] == #[trigger] q.failed[j]
            &&& forall|j: int|
                i < j < q.failed.len() ==> r.failed[j - 1] == #[trigger] q.failed[j]
            &&& r.queue == q.queue
            &&& r.granted == q.granted
        },
{
    lemma_item_found(q.failed, id);
    if 0 <= i < q.failed.len() && q.failed[i].event.event_id == id {
        assert forall|j: int| 0 <= j < i implies (#[trigger] q.failed[j]).event.event_id != id by {
            assert(q.failed[j].event.event_id != q.failed[i].event.event_id);
        }
        lemma_item_index(q.failed, id, i);
    }
}

/// The second confirmation confirms a dangerous active request and changes
/// nothing else; an active request without danger needs none.
pub proof fn law_confirmation_touches_the_active_only(q: QueueView)
    ensures
        q.active is Some && q.active->0.danger ==> {
            &&& q.confirmed().active is Some
            &&& q.confirmed().active->0.acked
            &&& q.confirmed().active->0.danger
            &&& q.confirmed().active->0.event == q.active->0.event
        },
        !(q.active is Some && q.active->0.danger) ==> q.confirmed().active == q.active,
        q.confirmed().queue == q.queue,
        q.confirmed().failed == q.failed,
        q.confirmed().granted == q.granted,
{
}

/// The listing shows the active request first, then those that wait and then
/// those that failed, each in its order; nothing else and nothing twice.
pub proof fn law_listing_shows_every_request(q: QueueView)
    ensures
        ({
            let head: int = if q.active is Some {
                1
            } else {
                0
            };
            &&& q.listing().len() == head + q.queue.len() + q.failed.len()
            &&& q.active is Some ==> q.listing()[0] == q.active->0
            &&& forall|i: int|
                0 <= i < q.queue.len() ==> q.listing()[head + i] == #[trigger] q.queue[i]
            &&& forall|i: int|
                0 <= i < q.failed.len() ==> q.listing()[head + q.queue.len() + i]
                    == #[trigger] q.failed[i]
        }),
{
}

/// Clearing drops every request and keeps what was granted.
pub proof fn law_clearing_keeps_grants(q: QueueView)
    ensures
        q.cleared().listing().len() == 0,
        q.cleared().active is None,
        q.cleared().granted == q.granted,
{
}

/// No request is lost: one that waits, is active or failed is still there after
/// every operation but settling it or clearing the queue.
pub proof fn law_no_request_is_lost(q: QueueView, granted: bool, retry: Seq<char>, id: Seq<char>)
    requires
        q.wf(),
        exists|i: int| 0 <= i < q.listing().len() && (#[trigger] q.listing()[i]).event.event_id
            == id,
    ensures
        exists|i: int|
            0 <= i < q.promoted().listing().len() && (
            #[trigger] q.promoted().listing()[i]).event.event_id == id,
        exists|i: int|
            0 <= i < q.reply_failed().listing().len() && (
            #[trigger] q.reply_failed().listing()[i]).event.event_id == id,
        exists|i: int|
            0 <= i < q.retried(retry).listing().len() && (
            #[trigger] q.retried(retry).listing()[i]).event.event_id == id,
        !(q.active is Some && q.active->0.event.event_id == id) ==> exists|i: int|
            0 <= i < q.settled(granted).listing().len() && (
            #[trigger] q.settled(granted).listing()[i]).event.event_id == id,
{
    let i = choose|i: int|
        0 <= i < q.listing().len() && (#[trigger] q.listing()[i]).event.event_id == id;
    let head: int = if q.active is Some {
        1
    } else {
        0
    };
    let n = q.queue.len();
    let p = q.promoted();
    assert(p.listing()[i] == q.listing()[i]);
    let s = q.settled(granted);
    let f = q.reply_failed();
    if q.active is Some {
        if i > 0 {
            assert(s.listing()[i - 1] == q.listing()[i]);
            assert(f.listing()[i - 1] == q.listing()[i]);
        } else {
            assert(f.listing()[f.listing().len() - 1].event == q.active->0.event);
        }
    } else {
        assert(s.listing()[i] == q.listing()[i]);
    }
    let r = q.retried(retry);
    lemma_item_found(q.failed, retry);
    let k = item_index(q.failed, retry);
    if q.active is None && k < q.failed.len() {
        if i < n {
            assert(r.listing()[1 + i] == q.listing()[i]);
        } else if i == n + k {
            assert(r.listing()[0].event == q.failed[k as int].event);
        } else if i < n + k {
            assert(r.listing()[1 + i] == q.listing()[i]);
        } else {
            assert(r.listing()[i] == q.listing()[i]);
        }
    } else {
        assert(r.listing()[i] == q.listing()[i]);
    }
}

} // verus!
