//! Windowed transcript of a session and how incoming records merge into it.
//!
//! Every change goes through `TranscriptWindow::apply`: a snapshot rebuilds the
//! window, a followed event joins it at its position, a page of older history
//! joins it at the head. An event counts once: a known request id or a known
//! position makes it a repetition. Positions of evicted blocks stay known.

use vstd::prelude::*;

use crate::json::{opt_json, Json, JsonView};
use crate::model::block::{
    all_at, block_views, blocks_from_event, event_blocks, lemma_event_blocks, Block, BlockView,
};
use crate::sets::{SeqSet, TextSet};
use crate::text::{opt_text, same};
use crate::wire::{
    chunk_rows, record_views, ChunkRow, ChunkRowView, EventView, RecordView, SessionHistoryRecord,
    SessionLogOffset, SessionRequestId, SessionSeq, SessionWireEvent,
};

verus! {

/// Metadata of one turn, out of the projection `turnOutline`.
#[derive(Debug, Clone, Default, PartialEq, Eq)]
pub struct TurnOutlineItem {
    pub turn: Option<u64>,
    pub seq: Option<SessionSeq>,
    pub prompt: Option<String>,
    pub response: Option<String>,
}

impl Default for SessionSeq {
    fn default() -> (r: Self)
        ensures
            r == SessionSeq(0),
    {
        SessionSeq(0)
    }
}

/// Mathematical turn metadata.
pub struct OutlineView {
    pub turn: Option<u64>,
    pub seq: Option<SessionSeq>,
    pub prompt: Option<Seq<char>>,
    pub response: Option<Seq<char>>,
}

impl View for TurnOutlineItem {
    type V = OutlineView;

    open spec fn view(&self) -> OutlineView {
        OutlineView {
            turn: self.turn,
            seq: self.seq,
            prompt: opt_text(self.prompt),
            response: opt_text(self.response),
        }
    }
}

/// State of an optimistic echo. A failure marks this send only; nothing is
/// sent again by itself.
#[derive(Debug, Clone, PartialEq, Eq)]
pub enum PendingEchoStatus {
    Pending,
    Failed { code: String, message: String },
}

/// A sent prompt shown before its durable event arrives. It has no position in
/// the log and is unknown to the indexes of seen events.
#[derive(Debug, Clone, PartialEq, Eq)]
pub struct PendingEcho {
    pub request_id: SessionRequestId,
    pub text: String,
    pub status: PendingEchoStatus,
}

/// Mathematical echo; `failure` holds code and message of a failed send.
pub struct EchoView {
    pub request_id: Seq<char>,
    pub text: Seq<char>,
    pub failure: Option<(Seq<char>, Seq<char>)>,
}

impl View for PendingEcho {
    type V = EchoView;

    open spec fn view(&self) -> EchoView {
        EchoView {
            request_id: self.request_id@,
            text: self.text@,
            failure: match self.status {
                PendingEchoStatus::Pending => None,
                PendingEchoStatus::Failed { code, message } => Some((code@, message@)),
            },
        }
    }
}

/// The views of a list of echoes.
pub open spec fn echo_views(pending: Seq<PendingEcho>) -> Seq<EchoView> {
    pending.map_values(|e: PendingEcho| e@)
}

/// The views of a list of turn metadata.
pub open spec fn outline_views(items: Seq<TurnOutlineItem>) -> Seq<OutlineView> {
    items.map_values(|t: TurnOutlineItem| t@)
}

/// Input of a window.
#[derive(Debug, Clone, PartialEq, Eq)]
pub enum Incoming {
    Snapshot {
        cursor: Option<SessionLogOffset>,
        records: Vec<SessionHistoryRecord>,
        has_more: bool,
        projections: Option<Json>,
    },
    FollowEvent(SessionWireEvent),
    /// A chunk row by itself; it belongs to the last message of the assistant.
    Chunks(ChunkRow),
    Page { records: Vec<SessionHistoryRecord>, has_more: Option<bool> },
}

/// Mathematical input of a window.
pub enum IncomingView {
    Snapshot {
        cursor: Option<SessionLogOffset>,
        records: Seq<RecordView>,
        has_more: bool,
        projections: Option<JsonView>,
    },
    FollowEvent(EventView),
    Chunks(ChunkRowView),
    Page { records: Seq<RecordView>, has_more: Option<bool> },
}

impl View for Incoming {
    type V = IncomingView;

    open spec fn view(&self) -> IncomingView {
        match *self {
            Incoming::Snapshot { cursor, records, has_more, projections } => {
                IncomingView::Snapshot {
                    cursor,
                    records: record_views(records@),
                    has_more,
                    projections: opt_json(projections),
                }
            },
            Incoming::FollowEvent(ev) => IncomingView::FollowEvent(ev@),
            Incoming::Chunks(row) => IncomingView::Chunks(row@),
            Incoming::Page { records, has_more } => IncomingView::Page {
                records: record_views(records@),
                has_more,
            },
        }
    }
}

/// What an input did to the window.
#[derive(Debug, Clone, Copy, PartialEq, Eq, Structural)]
pub enum ApplyEffect {
    /// The window was rebuilt.
    Rebuilt,
    /// Blocks joined the window; `anchor_stable` tells that its head stayed.
    TailAppended { appended: usize, anchor_stable: bool },
    /// Records joined the window; `anchor_shift` blocks now precede the old head.
    HeadPrepend { inserted: usize, anchor_shift: usize },
    /// Nothing visible changed.
    Noop,
}

/// Windowed transcript, bounded by its capacity.
#[derive(Debug, Clone)]
pub struct TranscriptWindow {
    blocks: Vec<Block>,
    cap: usize,
    head_has_more: bool,
    cursor: Option<SessionLogOffset>,
    projections: Json,
    turn_outline: Vec<TurnOutlineItem>,
    seen_seq: SeqSet,
    seen_request: TextSet,
    pending: Vec<PendingEcho>,
}

/// Mathematical window.
#[verifier::ext_equal]
pub struct WindowView {
    pub blocks: Seq<BlockView>,
    pub cap: nat,
    pub head_has_more: bool,
    pub cursor: Option<SessionLogOffset>,
    pub projections: JsonView,
    pub turn_outline: Seq<OutlineView>,
    pub seen_seq: Set<u64>,
    pub seen_request: Set<Seq<char>>,
    pub pending: Seq<EchoView>,
}

impl View for TranscriptWindow {
    type V = WindowView;

    closed spec fn view(&self) -> WindowView {
        WindowView {
            blocks: block_views(self.blocks@),
            cap: self.cap as nat,
            head_has_more: self.head_has_more,
            cursor: self.cursor,
            projections: self.projections@,
            turn_outline: outline_views(self.turn_outline@),
            seen_seq: self.seen_seq@,
            seen_request: self.seen_request@,
            pending: echo_views(self.pending@),
        }
    }
}

/// Number of leading blocks before position `q`.
pub open spec fn leading_below(blocks: Seq<BlockView>, q: u64) -> nat
    decreases blocks.len(),
{
    if blocks.len() > 0 && blocks[0].seq().0 < q {
        1 + leading_below(blocks.skip(1), q)
    } else {
        0
    }
}

/// `blocks` with `new` in front of the first block at or after position `q`.
pub open spec fn insert_by_seq(
    blocks: Seq<BlockView>,
    q: u64,
    new: Seq<BlockView>,
) -> Seq<BlockView> {
    let k = leading_below(blocks, q) as int;
    blocks.take(k) + new + blocks.skip(k)
}

/// Whether positions ascend.
pub open spec fn sorted(blocks: Seq<BlockView>) -> bool {
    forall|i: int, j: int|
        0 <= i <= j < blocks.len() ==> (#[trigger] blocks[i]).seq().0 <= (
        #[trigger] blocks[j]).seq().0
}

/// Index of the last message of the assistant, -1 where there is none.
pub open spec fn last_assistant(blocks: Seq<BlockView>) -> int
    decreases blocks.len(),
{
    if blocks.len() == 0 {
        -1
    } else if blocks.last() is AssistantMessage {
        blocks.len() - 1
    } else {
        last_assistant(blocks.drop_last())
    }
}

/// An assistant message with one more chunk row.
pub open spec fn with_row(b: BlockView, row: ChunkRowView) -> BlockView {
    match b {
        BlockView::AssistantMessage { seq, chunks, time, message_id } => {
            BlockView::AssistantMessage { seq, chunks: chunks.push(row), time, message_id }
        },
        _ => b,
    }
}

/// The last `cap` blocks.
pub open spec fn newest(blocks: Seq<BlockView>, cap: nat) -> Seq<BlockView> {
    if blocks.len() > cap {
        blocks.skip(blocks.len() - cap)
    } else {
        blocks
    }
}

/// Position of the first block.
pub open spec fn head_of(blocks: Seq<BlockView>) -> Option<SessionSeq> {
    if blocks.len() > 0 {
        Some(blocks[0].seq())
    } else {
        None
    }
}

/// The requests that the first `n` records answer.
pub open spec fn answered(records: Seq<RecordView>, n: nat) -> Set<Seq<char>>
    decreases n,
{
    if n == 0 || n > records.len() {
        Set::empty()
    } else {
        let before = answered(records, (n - 1) as nat);
        match records[n - 1] {
            RecordView::Event(e) => match e.reconcile_id() {
                Some(id) => before.insert(id),
                None => before,
            },
            RecordView::Chunks(_) => before,
        }
    }
}

/// The metadata in one entry of `turnOutline`.
pub open spec fn outline_item(v: JsonView) -> OutlineView {
    OutlineView {
        turn: v.u64_at("turn"@),
        seq: match v.u64_at("seq"@) {
            Some(n) => Some(SessionSeq(n)),
            None => None,
        },
        prompt: v.str_at("prompt"@),
        response: v.str_at("response"@),
    }
}

/// The metadata in the entries of `turnOutline`.
pub open spec fn outline_items(items: Seq<JsonView>) -> Seq<OutlineView> {
    items.map_values(|v: JsonView| outline_item(v))
}

/// The turn metadata of a projection snapshot; none without an array.
pub open spec fn outline_of(projections: JsonView) -> Seq<OutlineView> {
    match projections.get("turnOutline"@) {
        Some(JsonView::Array(items)) => outline_items(items),
        _ => Seq::empty(),
    }
}

impl WindowView {
    /// Invariant of a window: within its capacity, ascending, and every
    /// position shown is known.
    pub open spec fn wf(self) -> bool {
        self.ordered() && self.blocks.len() <= self.cap
    }

    /// The invariant but for the capacity.
    pub open spec fn ordered(self) -> bool {
        &&& self.cap >= 1
        &&& sorted(self.blocks)
        &&& forall|i: int|
            0 <= i < self.blocks.len() ==> self.seen_seq.contains(
                (#[trigger] self.blocks[i]).seq().0,
            )
    }

    /// Whether the event is new: it has a position, and neither its request id
    /// nor its position is known.
    pub open spec fn accepts(self, e: EventView) -> bool {
        &&& e.seq is Some
        &&& e.request_id is Some ==> !self.seen_request.contains(e.request_id->0)
        &&& !self.seen_seq.contains((e.seq->0).0)
    }

    /// The window with a new event in its place, before eviction.
    pub open spec fn with_event(self, e: EventView) -> WindowView {
        let q = e.seq->0;
        WindowView {
            blocks: insert_by_seq(self.blocks, q.0, event_blocks(e, q)),
            seen_seq: self.seen_seq.insert(q.0),
            seen_request: match e.request_id {
                Some(id) => self.seen_request.insert(id),
                None => self.seen_request,
            },
            ..self
        }
    }

    /// The window with a chunk row on its last assistant message.
    pub open spec fn with_chunks(self, row: ChunkRowView) -> WindowView {
        let i = last_assistant(self.blocks);
        if 0 <= i < self.blocks.len() {
            WindowView { blocks: self.blocks.update(i, with_row(self.blocks[i], row)), ..self }
        } else {
            self
        }
    }

    /// Whether a record changes the window.
    pub open spec fn takes(self, r: RecordView) -> bool {
        match r {
            RecordView::Event(e) => self.accepts(e),
            RecordView::Chunks(_) => last_assistant(self.blocks) >= 0,
        }
    }

    /// The window with one more record, before eviction.
    pub open spec fn with_record(self, r: RecordView) -> WindowView {
        match r {
            RecordView::Event(e) => if self.accepts(e) {
                self.with_event(e)
            } else {
                self
            },
            RecordView::Chunks(row) => self.with_chunks(row),
        }
    }

    /// The window with the first `n` records, before eviction.
    pub open spec fn with_records(self, records: Seq<RecordView>, n: nat) -> WindowView
        decreases n,
    {
        if n == 0 || n > records.len() {
            self
        } else {
            self.with_records(records, (n - 1) as nat).with_record(records[n - 1])
        }
    }

    /// How many of the first `n` records change the window.
    pub open spec fn taken(self, records: Seq<RecordView>, n: nat) -> nat
        decreases n,
    {
        if n == 0 || n > records.len() {
            0
        } else {
            self.taken(records, (n - 1) as nat) + if self.with_records(
                records,
                (n - 1) as nat,
            ).takes(records[n - 1]) {
                1nat
            } else {
                0nat
            }
        }
    }

    /// The window without the oldest blocks beyond its capacity.
    pub open spec fn evicted(self) -> WindowView {
        WindowView { blocks: newest(self.blocks, self.cap), ..self }
    }

    /// The window without the echoes of answered requests.
    pub open spec fn reconciled(self, ids: Set<Seq<char>>) -> WindowView {
        WindowView { pending: self.pending.filter(|e: EchoView| !ids.contains(e.request_id)), ..self }
    }

    /// The window that a snapshot starts from: nothing but capacity and echoes
    /// of the old one is left.
    pub open spec fn restarted(
        self,
        cursor: Option<SessionLogOffset>,
        has_more: bool,
        projections: Option<JsonView>,
    ) -> WindowView {
        WindowView {
            blocks: Seq::empty(),
            cap: self.cap,
            head_has_more: has_more,
            cursor,
            projections: match projections {
                Some(p) => p,
                None => JsonView::Null,
            },
            turn_outline: Seq::empty(),
            seen_seq: Set::empty(),
            seen_request: Set::empty(),
            pending: self.pending,
        }
    }

    /// The window after a snapshot.
    pub open spec fn after_snapshot(
        self,
        cursor: Option<SessionLogOffset>,
        records: Seq<RecordView>,
        has_more: bool,
        projections: Option<JsonView>,
    ) -> WindowView {
        let built = self.restarted(cursor, has_more, projections).reconciled(
            answered(records, records.len()),
        ).with_records(records, records.len()).evicted();
        WindowView { turn_outline: outline_of(built.projections), ..built }
    }

    /// The window whose echo of the request that `e` answers is gone.
    pub open spec fn before_event(self, e: EventView) -> WindowView {
        match e.reconcile_id() {
            Some(id) => self.reconciled(set![id]),
            None => self,
        }
    }

    /// The window after a followed event.
    pub open spec fn after_event(self, e: EventView) -> WindowView {
        let w = self.before_event(e);
        if w.accepts(e) {
            w.with_event(e).evicted()
        } else {
            w
        }
    }

    /// The window before the records of a page join it.
    pub open spec fn before_page(self, records: Seq<RecordView>, has_more: Option<bool>) -> WindowView {
        WindowView {
            head_has_more: match has_more {
                Some(b) => b,
                None => self.head_has_more,
            },
            ..self
        }.reconciled(answered(records, records.len()))
    }

    /// The window after a page of older history.
    pub open spec fn after_page(self, records: Seq<RecordView>, has_more: Option<bool>) -> WindowView {
        self.before_page(records, has_more).with_records(records, records.len()).evicted()
    }

    /// The window after an input.
    pub open spec fn after(self, input: IncomingView) -> WindowView {
        match input {
            IncomingView::Snapshot { cursor, records, has_more, projections } => {
                self.after_snapshot(cursor, records, has_more, projections)
            },
            IncomingView::FollowEvent(e) => self.after_event(e),
            IncomingView::Chunks(row) => self.with_chunks(row),
            IncomingView::Page { records, has_more } => self.after_page(records, has_more),
        }
    }

    /// What is reported of an input.
    pub open spec fn effect(self, input: IncomingView) -> ApplyEffect {
        match input {
            IncomingView::Snapshot { .. } => ApplyEffect::Rebuilt,
            IncomingView::FollowEvent(e) => if self.accepts(e) {
                ApplyEffect::TailAppended {
                    appended: event_blocks(e, e.seq->0).len() as usize,
                    anchor_stable: self.blocks.len() == 0 || head_of(self.after_event(e).blocks)
                        == head_of(self.blocks),
                }
            } else {
                ApplyEffect::Noop
            },
            IncomingView::Chunks(_) => if last_assistant(self.blocks) >= 0 {
                ApplyEffect::TailAppended { appended: 0, anchor_stable: true }
            } else {
                ApplyEffect::Noop
            },
            IncomingView::Page { records, has_more } => {
                let start = self.before_page(records, has_more);
                let n = start.taken(records, records.len());
                if n == 0 {
                    ApplyEffect::Noop
                } else {
                    ApplyEffect::HeadPrepend {
                        inserted: n as usize,
                        anchor_shift: match head_of(self.blocks) {
                            Some(h) => leading_below(
                                start.with_records(records, records.len()).blocks,
                                h.0,
                            ) as usize,
                            None => 0,
                        },
                    }
                }
            },
        }
    }
}

/// The leading blocks before `q` end where the first block at or after `q` is.
pub proof fn lemma_leading(blocks: Seq<BlockView>, q: u64, k: int)
    requires
        0 <= k <= blocks.len(),
        forall|i: int| 0 <= i < k ==> (#[trigger] blocks[i]).seq().0 < q,
        k < blocks.len() ==> blocks[k].seq().0 >= q,
    ensures
        leading_below(blocks, q) == k,
    decreases k,
{
    if k > 0 {
        assert(blocks[0].seq().0 < q);
        let rest = blocks.skip(1);
        assert forall|i: int| 0 <= i < k - 1 implies (#[trigger] rest[i]).seq().0 < q by {
            assert(rest[i] == blocks[i + 1]);
        }
        if k - 1 < rest.len() {
            assert(rest[k - 1] == blocks[k]);
        }
        lemma_leading(rest, q, k - 1);
    }
}

/// What `leading_below` counts.
pub proof fn lemma_leading_bounds(blocks: Seq<BlockView>, q: u64)
    ensures
        leading_below(blocks, q) <= blocks.len(),
        forall|i: int| 0 <= i < leading_below(blocks, q) ==> (#[trigger] blocks[i]).seq().0 < q,
        leading_below(blocks, q) < blocks.len() ==> blocks[leading_below(
            blocks,
            q,
        ) as int].seq().0 >= q,
    decreases blocks.len(),
{
    if blocks.len() > 0 && blocks[0].seq().0 < q {
        let rest = blocks.skip(1);
        lemma_leading_bounds(rest, q);
        assert forall|i: int| 0 <= i < leading_below(blocks, q) implies (
        #[trigger] blocks[i]).seq().0 < q by {
            if i > 0 {
                assert(rest[i - 1] == blocks[i]);
            }
        }
    }
}

/// Blocks at `q` put in their place keep the order.
pub proof fn lemma_insert_sorted(blocks: Seq<BlockView>, q: SessionSeq, new: Seq<BlockView>)
    requires
        sorted(blocks),
        all_at(new, q),
    ensures
        sorted(insert_by_seq(blocks, q.0, new)),
        insert_by_seq(blocks, q.0, new).len() == blocks.len() + new.len(),
        forall|i: int|
            0 <= i < insert_by_seq(blocks, q.0, new).len() ==> {
                let b = #[trigger] insert_by_seq(blocks, q.0, new)[i];
                b.seq() == q || exists|j: int| 0 <= j < blocks.len() && blocks[j] == b
            },
{
    lemma_leading_bounds(blocks, q.0);
    let k = leading_below(blocks, q.0) as int;
    let out = insert_by_seq(blocks, q.0, new);
    assert forall|i: int| 0 <= i < out.len() implies {
        let b = #[trigger] out[i];
        b.seq() == q || exists|j: int| 0 <= j < blocks.len() && blocks[j] == b
    } by {
        if i < k {
            assert(out[i] == blocks[i]);
        } else if i < k + new.len() {
            assert(out[i] == new[i - k]);
        } else {
            assert(out[i] == blocks[i - new.len()]);
        }
    }
    assert forall|i: int, j: int| 0 <= i <= j < out.len() implies (#[trigger] out[i]).seq().0 <= (
    #[trigger] out[j]).seq().0 by {
        if i < k {
            assert(out[i] == blocks[i]);
        } else if i < k + new.len() {
            assert(out[i] == new[i - k]);
        } else {
            assert(out[i] == blocks[i - new.len()]);
        }
        if j < k {
            assert(out[j] == blocks[j]);
        } else if j < k + new.len() {
            assert(out[j] == new[j - k]);
        } else {
            assert(out[j] == blocks[j - new.len()]);
            assert(blocks[k].seq().0 <= blocks[j - new.len()].seq().0);
        }
    }
}

/// A new event in its place keeps the window ordered.
pub proof fn lemma_with_event_ordered(w: WindowView, e: EventView)
    requires
        w.ordered(),
        e.seq is Some,
    ensures
        w.with_event(e).ordered(),
{
    let q = e.seq->0;
    let new = event_blocks(e, q);
    lemma_event_blocks(e, q);
    lemma_insert_sorted(w.blocks, q, new);
    let out = w.with_event(e);
    assert forall|i: int| 0 <= i < out.blocks.len() implies out.seen_seq.contains(
        (#[trigger] out.blocks[i]).seq().0,
    ) by {
        let b = out.blocks[i];
        if b.seq() != q {
            let j = choose|j: int| 0 <= j < w.blocks.len() && w.blocks[j] == b;
            assert(w.seen_seq.contains(w.blocks[j].seq().0));
        }
    }
}

/// Where the last assistant message is.
pub proof fn lemma_last_assistant(blocks: Seq<BlockView>)
    ensures
        -1 <= last_assistant(blocks) < blocks.len(),
        last_assistant(blocks) >= 0 ==> blocks[last_assistant(blocks)] is AssistantMessage,
        forall|i: int|
            last_assistant(blocks) < i < blocks.len() ==> !((
            #[trigger] blocks[i]) is AssistantMessage),
    decreases blocks.len(),
{
    if blocks.len() > 0 && !(blocks.last() is AssistantMessage) {
        let rest = blocks.drop_last();
        lemma_last_assistant(rest);
        assert forall|i: int| last_assistant(blocks) < i < blocks.len() implies !((
        #[trigger] blocks[i]) is AssistantMessage) by {
            if i < rest.len() {
                assert(rest[i] == blocks[i]);
            }
        }
    }
}

/// A chunk row on a message keeps the window ordered.
pub proof fn lemma_with_chunks_ordered(w: WindowView, row: ChunkRowView)
    requires
        w.ordered(),
    ensures
        w.with_chunks(row).ordered(),
        w.with_chunks(row).blocks.len() == w.blocks.len(),
{
    lemma_last_assistant(w.blocks);
    let out = w.with_chunks(row);
    assert forall|i: int| 0 <= i < out.blocks.len() implies (#[trigger] out.blocks[i]).seq()
        == w.blocks[i].seq() by {}
    assert forall|i: int, j: int| 0 <= i <= j < out.blocks.len() implies (
    #[trigger] out.blocks[i]).seq().0 <= (#[trigger] out.blocks[j]).seq().0 by {
        assert(w.blocks[i].seq().0 <= w.blocks[j].seq().0);
    }
}

/// Records keep the window ordered.
pub proof fn lemma_with_records_ordered(w: WindowView, records: Seq<RecordView>, n: nat)
    requires
        w.ordered(),
    ensures
        w.with_records(records, n).ordered(),
    decreases n,
{
    if n == 0 || n > records.len() {
    } else {
        lemma_with_records_ordered(w, records, (n - 1) as nat);
        let before = w.with_records(records, (n - 1) as nat);
        match records[n - 1] {
            RecordView::Event(e) => {
                if before.accepts(e) {
                    lemma_with_event_ordered(before, e);
                }
            },
            RecordView::Chunks(row) => {
                lemma_with_chunks_ordered(before, row);
            },
        }
    }
}

/// Evicting the oldest blocks makes an ordered window well formed.
pub proof fn lemma_evicted_wf(w: WindowView)
    requires
        w.ordered(),
    ensures
        w.evicted().wf(),
{
    let out = w.evicted();
    if w.blocks.len() > w.cap {
        let d = w.blocks.len() - w.cap;
        assert forall|i: int| 0 <= i < out.blocks.len() implies #[trigger] out.blocks[i]
            == w.blocks[i + d] by {}
        assert(sorted(out.blocks));
    }
}

impl TranscriptWindow {
    /// The invariant of a window.
    pub open spec fn wf(&self) -> bool {
        self@.wf()
    }

    /// An empty window for `cap` blocks, at least one.
    pub fn new(cap: usize) -> (r: TranscriptWindow)
        ensures
            r.wf(),
            r@ == fresh_window(cap),
    {
        let r = TranscriptWindow {
            blocks: Vec::new(),
            cap: if cap == 0 {
                1
            } else {
                cap
            },
            head_has_more: true,
            cursor: None,
            projections: Json::Null,
            turn_outline: Vec::new(),
            seen_seq: SeqSet::new(),
            seen_request: TextSet::new(),
            pending: Vec::new(),
        };
        proof {
            assert(r@.blocks =~= Seq::<BlockView>::empty());
            assert(r@.turn_outline =~= Seq::<OutlineView>::empty());
            assert(r@.pending =~= Seq::<EchoView>::empty());
        }
        r
    }

    /// The blocks, oldest first.
    pub fn blocks(&self) -> (r: &Vec<Block>)
        ensures
            block_views(r@) == self@.blocks,
    {
        &self.blocks
    }

    /// The block at `index`.
    pub fn block(&self, index: usize) -> (r: Option<&Block>)
        ensures
            match r {
                Some(b) => index < self@.blocks.len() && b@ == self@.blocks[index as int],
                None => index >= self@.blocks.len(),
            },
    {
        if index < self.blocks.len() {
            Some(&self.blocks[index])
        } else {
            None
        }
    }

    /// A copy of the blocks.
    pub fn block_snapshot(&self) -> (r: Vec<Block>)
        ensures
            block_views(r@) == self@.blocks,
    {
        let mut out: Vec<Block> = Vec::new();
        let mut i: usize = 0;
        while i < self.blocks.len()
            invariant
                i <= self.blocks@.len(),
                out@.len() == i,
                forall|k: int| 0 <= k < i ==> (#[trigger] out@[k])@ == self.blocks@[k]@,
            decreases self.blocks@.len() - i,
        {
            out.push(self.blocks[i].clone());
            i = i + 1;
        }
        assert(block_views(out@) =~= block_views(self.blocks@));
        out
    }

    /// Number of blocks.
    pub fn len(&self) -> (r: usize)
        ensures
            r == self@.blocks.len(),
    {
        self.blocks.len()
    }

    /// Whether there is no block.
    pub fn is_empty(&self) -> (r: bool)
        ensures
            r == (self@.blocks.len() == 0),
    {
        self.blocks.is_empty()
    }

    /// Position of the oldest block, the anchor of the viewport.
    pub fn head_seq(&self) -> (r: Option<SessionSeq>)
        ensures
            r == head_of(self@.blocks),
    {
        if self.blocks.len() > 0 {
            Some(self.blocks[0].seq())
        } else {
            None
        }
    }

    /// Position of the newest block.
    pub fn tail_seq(&self) -> (r: Option<SessionSeq>)
        ensures
            r == if self@.blocks.len() > 0 {
                Some(self@.blocks.last().seq())
            } else {
                None
            },
    {
        let n: usize = self.blocks.len();
        if n > 0 {
            Some(self.blocks[n - 1].seq())
        } else {
            None
        }
    }

    /// Whether there is older history beyond the window.
    pub fn head_has_more(&self) -> (r: bool)
        ensures
            r == self@.head_has_more,
    {
        self.head_has_more
    }

    /// Cursor of the last snapshot.
    pub fn cursor(&self) -> (r: Option<SessionLogOffset>)
        ensures
            r == self@.cursor,
    {
        self.cursor
    }

    /// The projection snapshot as it came.
    pub fn projections(&self) -> (r: &Json)
        ensures
            r@ == self@.projections,
    {
        &self.projections
    }

    /// Metadata of the turns.
    pub fn turn_outline(&self) -> (r: &Vec<TurnOutlineItem>)
        ensures
            outline_views(r@) == self@.turn_outline,
    {
        &self.turn_outline
    }

    /// Whether an event at `seq` was taken since the last snapshot.
    pub fn contains_seq(&self, seq: SessionSeq) -> (r: bool)
        ensures
            r == self@.seen_seq.contains(seq.0),
    {
        self.seen_seq.contains(seq.get())
    }

    /// Index of the first block at `seq`.
    pub fn offset_of(&self, seq: SessionSeq) -> (r: Option<usize>)
        ensures
            match r {
                Some(i) => i < self@.blocks.len() && self@.blocks[i as int].seq() == seq && (forall|
                    j: int,
                |
                    0 <= j < i ==> (#[trigger] self@.blocks[j]).seq() != seq),
                None => forall|j: int|
                    0 <= j < self@.blocks.len() ==> (#[trigger] self@.blocks[j]).seq() != seq,
            },
    {
        let mut i: usize = 0;
        while i < self.blocks.len()
            invariant
                i <= self.blocks@.len(),
                self@.blocks == block_views(self.blocks@),
                forall|j: int| 0 <= j < i ==> (#[trigger] self@.blocks[j]).seq() != seq,
            decreases self.blocks@.len() - i,
        {
            if self.blocks[i].seq() == seq {
                return Some(i);
            }
            i = i + 1;
        }
        None
    }

    /// The echoes in the order of sending.
    pub fn pending(&self) -> (r: &Vec<PendingEcho>)
        ensures
            echo_views(r@) == self@.pending,
    {
        &self.pending
    }

    /// Shows a prompt that was just sent.
    pub fn echo(&mut self, request_id: SessionRequestId, text: &str)
        requires
            old(self).wf(),
        ensures
            final(self).wf(),
            final(self)@ == (WindowView {
                pending: old(self)@.pending.push(
                    EchoView { request_id: request_id@, text: text@, failure: None },
                ),
                ..old(self)@
            }),
    {
        self.pending.push(
            PendingEcho { request_id, text: text.to_owned(), status: PendingEchoStatus::Pending },
        );
        assert(self@.pending =~= old(self)@.pending.push(
            EchoView { request_id: request_id@, text: text@, failure: None },
        ));
    }

    /// Drops the echoes of the requests in `ids`.
    fn reconcile_pending(&mut self, ids: &TextSet)
        ensures
            final(self)@ == old(self)@.reconciled(ids@),
    {
        let ghost keep = |e: EchoView| !ids@.contains(e.request_id);
        let ghost all = echo_views(self.pending@);
        let mut kept: Vec<PendingEcho> = Vec::new();
        let mut rest: Vec<PendingEcho> = Vec::new();
        std::mem::swap(&mut rest, &mut self.pending);
        let ghost whole = rest@;
        let ghost mut i: int = 0;
        assert(echo_views(kept@) =~= all.take(0).filter(keep)) by {
            reveal(Seq::filter);
        }
        while rest.len() > 0
            invariant
                0 <= i,
                i + rest@.len() == whole.len(),
                rest@ == whole.skip(i as int),
                all == echo_views(whole),
                keep == (|e: EchoView| !ids@.contains(e.request_id)),
                echo_views(kept@) == all.take(i as int).filter(keep),
            decreases rest@.len(),
        {
            let echo = rest.remove(0);
            let ghost was = echo_views(kept@);
            assert(echo == whole[i as int]);
            proof {
                assert(all.take(i + 1).drop_last() =~= all.take(i as int));
                assert(all.take(i + 1).last() == echo@);
                reveal(Seq::filter);
            }
            if !ids.contains(echo.request_id.0.as_str()) {
                kept.push(echo);
                assert(echo_views(kept@) =~= was.push(echo@));
            }
            proof {
                i = i + 1;
            }
            assert(rest@ =~= whole.skip(i as int));
        }
        self.pending = kept;
        assert(all.take(i as int) =~= all);
        assert(self@ =~= old(self)@.reconciled(ids@));
    }
}

/// Index of the first echo of `id` that has not failed, or the number of echoes.
pub open spec fn waiting_echo(pending: Seq<EchoView>, id: Seq<char>) -> int
    decreases pending.len(),
{
    if pending.len() == 0 || (pending[0].request_id == id && pending[0].failure is None) {
        0
    } else {
        1 + waiting_echo(pending.skip(1), id)
    }
}

/// The echo found by `waiting_echo` is the first of its kind.
pub proof fn lemma_waiting_echo(pending: Seq<EchoView>, id: Seq<char>, k: int)
    requires
        0 <= k <= pending.len(),
        forall|i: int|
            0 <= i < k ==> !((#[trigger] pending[i]).request_id == id && pending[i].failure is None),
        k < pending.len() ==> pending[k].request_id == id && pending[k].failure is None,
    ensures
        waiting_echo(pending, id) == k,
    decreases k,
{
    if k > 0 {
        assert(!(pending[0].request_id == id && pending[0].failure is None));
        let rest = pending.skip(1);
        assert forall|i: int| 0 <= i < k - 1 implies !((#[trigger] rest[i]).request_id == id
            && rest[i].failure is None) by {
            assert(rest[i] == pending[i + 1]);
        }
        lemma_waiting_echo(rest, id, k - 1);
    }
}

impl TranscriptWindow {
    /// Marks the first waiting echo of a request as failed.
    pub fn fail_echo(&mut self, request_id: &SessionRequestId, code: &str, message: &str)
        requires
            old(self).wf(),
        ensures
            final(self).wf(),
            final(self)@ == ({
                let w = old(self)@;
                let k = waiting_echo(w.pending, request_id@);
                if k < w.pending.len() {
                    WindowView {
                        pending: w.pending.update(
                            k,
                            EchoView { failure: Some((code@, message@)), ..w.pending[k] },
                        ),
                        ..w
                    }
                } else {
                    w
                }
            }),
    {
        let ghost views = echo_views(self.pending@);
        let mut i: usize = 0;
        while i < self.pending.len()
            invariant
                i <= self.pending@.len(),
                *self == *old(self),
                old(self).wf(),
                views == echo_views(self.pending@),
                forall|j: int|
                    0 <= j < i ==> !((#[trigger] views[j]).request_id == request_id@
                        && views[j].failure is None),
            decreases self.pending@.len() - i,
        {
            let waiting = match &self.pending[i].status {
                PendingEchoStatus::Pending => true,
                PendingEchoStatus::Failed { .. } => false,
            };
            if waiting && same(self.pending[i].request_id.0.as_str(), request_id.0.as_str()) {
                proof {
                    assert(views[i as int] == self.pending@[i as int]@);
                    lemma_waiting_echo(views, request_id@, i as int);
                }
                self.pending[i].status = PendingEchoStatus::Failed {
                    code: code.to_owned(),
                    message: message.to_owned(),
                };
                assert(self@.pending =~= views.update(
                    i as int,
                    EchoView { failure: Some((code@, message@)), ..views[i as int] },
                ));
                assert(self@ =~= (WindowView { pending: self@.pending, ..old(self)@ }));
                return;
            }
            assert(views[i as int] == self.pending@[i as int]@);
            i = i + 1;
        }
        proof {
            lemma_waiting_echo(views, request_id@, i as int);
        }
    }

    /// Text of the first echo of a request.
    pub fn echo_text(&self, request_id: &SessionRequestId) -> (r: Option<&str>)
        ensures
            match r {
                Some(t) => exists|i: int|
                    0 <= i < self@.pending.len() && (#[trigger] self@.pending[i]).request_id
                        == request_id@ && self@.pending[i].text == t@ && forall|j: int|
                        0 <= j < i ==> (#[trigger] self@.pending[j]).request_id != request_id@,
                None => forall|j: int|
                    0 <= j < self@.pending.len() ==> (#[trigger] self@.pending[j]).request_id
                        != request_id@,
            },
    {
        let mut i: usize = 0;
        while i < self.pending.len()
            invariant
                i <= self.pending@.len(),
                self@.pending == echo_views(self.pending@),
                forall|j: int|
                    0 <= j < i ==> (#[trigger] self@.pending[j]).request_id != request_id@,
            decreases self.pending@.len() - i,
        {
            assert(self@.pending[i as int] == self.pending@[i as int]@);
            if same(self.pending[i].request_id.0.as_str(), request_id.0.as_str()) {
                return Some(self.pending[i].text.as_str());
            }
            i = i + 1;
        }
        None
    }

    /// Index of the first block at or after `seq`.
    fn partition(&self, seq: SessionSeq) -> (r: usize)
        requires
            self@.ordered(),
        ensures
            r == leading_below(self@.blocks, seq.0),
            r <= self@.blocks.len(),
    {
        let mut lo: usize = 0;
        let mut hi: usize = self.blocks.len();
        while lo < hi
            invariant
                lo <= hi <= self.blocks@.len(),
                self@.ordered(),
                self@.blocks == block_views(self.blocks@),
                forall|i: int| 0 <= i < lo ==> (#[trigger] self@.blocks[i]).seq().0 < seq.0,
                forall|i: int|
                    hi <= i < self.blocks@.len() ==> (#[trigger] self@.blocks[i]).seq().0 >= seq.0,
            decreases hi - lo,
        {
            let mid: usize = lo + (hi - lo) / 2;
            assert(self@.blocks[mid as int] == self.blocks@[mid as int]@);
            if self.blocks[mid].seq().0 < seq.0 {
                lo = mid + 1;
            } else {
                hi = mid;
            }
        }
        proof {
            lemma_leading(self@.blocks, seq.0, lo as int);
        }
        lo
    }

    /// Puts the blocks of a new event in their place; gives their number.
    fn take_event(&mut self, ev: &SessionWireEvent, seq: SessionSeq) -> (r: usize)
        requires
            old(self)@.ordered(),
            ev@.seq == Some(seq),
        ensures
            final(self)@ == old(self)@.with_event(ev@),
            final(self)@.ordered(),
            r == event_blocks(ev@, seq).len(),
    {
        let mut new = blocks_from_event(ev, seq);
        let n: usize = new.len();
        let k: usize = self.partition(seq);
        let mut tail = self.blocks.split_off(k);
        self.blocks.append(&mut new);
        self.blocks.append(&mut tail);
        self.seen_seq.insert(seq.get());
        if let Some(id) = &ev.request_id {
            self.seen_request.insert(id.clone());
        }
        proof {
            assert(self@.blocks =~= insert_by_seq(
                old(self)@.blocks,
                seq.0,
                event_blocks(ev@, seq),
            ));
            assert(self@ =~= old(self)@.with_event(ev@));
            lemma_with_event_ordered(old(self)@, ev@);
        }
        n
    }

    /// Whether an event is new.
    fn is_new(&self, ev: &SessionWireEvent) -> (r: bool)
        ensures
            r == self@.accepts(ev@),
    {
        match ev.seq {
            None => false,
            Some(seq) => {
                let known = match &ev.request_id {
                    Some(id) => self.seen_request.contains(id.as_str()),
                    None => false,
                };
                !known && !self.seen_seq.contains(seq.get())
            },
        }
    }

    /// Puts a chunk row on the last assistant message, where there is one.
    fn take_chunks(&mut self, row: ChunkRow) -> (r: bool)
        requires
            old(self)@.ordered(),
        ensures
            final(self)@ == old(self)@.with_chunks(row@),
            final(self)@.ordered(),
            r == (last_assistant(old(self)@.blocks) >= 0),
    {
        proof {
            lemma_with_chunks_ordered(self@, row@);
        }
        let ghost views = self@.blocks;
        let mut i: usize = self.blocks.len();
        assert(views.take(i as int) =~= views);
        while i > 0
            invariant
                i <= self.blocks@.len(),
                *self == *old(self),
                views == old(self)@.blocks,
                views == block_views(self.blocks@),
                last_assistant(views) == last_assistant(views.take(i as int)),
                old(self)@.with_chunks(row@).ordered(),
            decreases i,
        {
            assert(views.take(i as int).last() == self.blocks@[i - 1]@);
            assert(views.take(i as int).drop_last() =~= views.take(i - 1));
            if self.blocks[i - 1].is_assistant() {
                let ghost was = self.blocks@[i - 1]@;
                if let Block::AssistantMessage { chunks, .. } = &mut self.blocks[i - 1] {
                    let ghost rows = chunks.rows@;
                    chunks.rows.push(row);
                    assert(chunk_rows(chunks.rows@) =~= chunk_rows(rows).push(row@));
                }
                proof {
                    assert(self.blocks@[i - 1]@ == with_row(was, row@));
                    assert(self@.blocks =~= views.update(i - 1, with_row(was, row@)));
                    assert(self@ =~= old(self)@.with_chunks(row@));
                }
                return true;
            }
            i = i - 1;
        }
        assert(views.take(0) =~= Seq::<BlockView>::empty());
        false
    }

    /// Takes one history record; tells whether it changed the window.
    fn ingest_record(&mut self, rec: &SessionHistoryRecord) -> (r: bool)
        requires
            old(self)@.ordered(),
        ensures
            final(self)@ == old(self)@.with_record(rec@),
            final(self)@.ordered(),
            r == old(self)@.takes(rec@),
    {
        match rec {
            SessionHistoryRecord::Event { event } => {
                if self.is_new(event) {
                    if let Some(seq) = event.seq {
                        let _ = self.take_event(event, seq);
                    }
                    true
                } else {
                    false
                }
            },
            SessionHistoryRecord::Chunks { event } => self.take_chunks(event.clone()),
        }
    }

    /// Drops the oldest blocks beyond the capacity.
    fn evict(&mut self)
        requires
            old(self)@.ordered(),
        ensures
            final(self)@ == old(self)@.evicted(),
            final(self).wf(),
    {
        if self.blocks.len() > self.cap {
            let excess: usize = self.blocks.len() - self.cap;
            let kept = self.blocks.split_off(excess);
            self.blocks = kept;
        }
        proof {
            assert(self@ =~= old(self)@.evicted());
            lemma_evicted_wf(old(self)@);
        }
    }

    /// The turn metadata of the projections.
    fn parse_turn_outline(&mut self)
        requires
            old(self)@.turn_outline.len() == 0,
        ensures
            final(self)@ == (WindowView {
                turn_outline: outline_of(old(self)@.projections),
                ..old(self)@
            }),
    {
        let mut out: Vec<TurnOutlineItem> = Vec::new();
        if let Some(Json::Array(items)) = self.projections.get("turnOutline") {
            let ghost views = self@.projections.get("turnOutline"@)->0->Array_0;
            let mut i: usize = 0;
            while i < items.len()
                invariant
                    i <= items@.len(),
                    views.len() == items@.len(),
                    forall|k: int| 0 <= k < views.len() ==> views[k] == (#[trigger] items@[k])@,
                    out@.len() == i,
                    forall|k: int| 0 <= k < i ==> (#[trigger] out@[k])@ == outline_item(views[k]),
                decreases items@.len() - i,
            {
                let item = &items[i];
                let seq = match item.u64_at("seq") {
                    Some(n) => Some(SessionSeq::new(n)),
                    None => None,
                };
                out.push(
                    TurnOutlineItem {
                        turn: item.u64_at("turn"),
                        seq,
                        prompt: item.string_at("prompt"),
                        response: item.string_at("response"),
                    },
                );
                assert(views[i as int] == items@[i as int]@);
                i = i + 1;
            }
            assert(outline_views(out@) =~= outline_items(views));
        }
        self.turn_outline = out;
        assert(self@ =~= (WindowView {
            turn_outline: outline_of(old(self)@.projections),
            ..old(self)@
        }));
    }
}

/// The requests that a batch of records answers.
fn records_reconcile_ids(records: &Vec<SessionHistoryRecord>) -> (r: TextSet)
    ensures
        r@ == answered(record_views(records@), records@.len()),
{
    let ghost views = record_views(records@);
    let mut ids = TextSet::new();
    let mut i: usize = 0;
    while i < records.len()
        invariant
            i <= records@.len(),
            views == record_views(records@),
            ids@ == answered(views, i as nat),
        decreases records@.len() - i,
    {
        assert(views[i as int] == records@[i as int]@);
        if let SessionHistoryRecord::Event { event } = &records[i] {
            if let Some(id) = event.reconcile_id() {
                ids.insert(id.to_owned());
            }
        }
        i = i + 1;
    }
    ids
}

impl TranscriptWindow {
    /// Takes a batch of records; gives how many of them changed the window.
    fn ingest_all(&mut self, records: &Vec<SessionHistoryRecord>) -> (r: usize)
        requires
            old(self)@.ordered(),
        ensures
            final(self)@ == old(self)@.with_records(record_views(records@), records@.len()),
            final(self)@.ordered(),
            r == old(self)@.taken(record_views(records@), records@.len()),
    {
        let ghost views = record_views(records@);
        let ghost start = self@;
        let mut count: usize = 0;
        let mut i: usize = 0;
        while i < records.len()
            invariant
                i <= records@.len(),
                count <= i,
                views == record_views(records@),
                self@ == start.with_records(views, i as nat),
                self@.ordered(),
                count == start.taken(views, i as nat),
            decreases records@.len() - i,
        {
            assert(views[i as int] == records@[i as int]@);
            if self.ingest_record(&records[i]) {
                count = count + 1;
            }
            i = i + 1;
        }
        count
    }

    /// Rebuilds the window from a snapshot.
    fn apply_snapshot(
        &mut self,
        cursor: Option<SessionLogOffset>,
        records: Vec<SessionHistoryRecord>,
        has_more: bool,
        projections: Option<Json>,
    )
        requires
            old(self).wf(),
        ensures
            final(self).wf(),
            final(self)@ == old(self)@.after_snapshot(
                cursor,
                record_views(records@),
                has_more,
                opt_json(projections),
            ),
    {
        self.blocks = Vec::new();
        self.seen_seq = SeqSet::new();
        self.seen_request.clear();
        self.turn_outline = Vec::new();
        self.cursor = cursor;
        self.head_has_more = has_more;
        self.projections = match projections {
            Some(p) => p,
            None => Json::Null,
        };
        let ghost restarted = old(self)@.restarted(cursor, has_more, opt_json(projections));
        proof {
            assert(self@.blocks =~= Seq::<BlockView>::empty());
            assert(self@.turn_outline =~= Seq::<OutlineView>::empty());
            assert(self@ =~= restarted);
        }
        let ids = records_reconcile_ids(&records);
        self.reconcile_pending(&ids);
        let _ = self.ingest_all(&records);
        proof {
            lemma_records_keep(
                restarted.reconciled(ids@),
                record_views(records@),
                records@.len(),
            );
        }
        self.evict();
        self.parse_turn_outline();
        assert(self@.blocks == self@.evicted().blocks);
    }

    /// Takes a followed event.
    fn apply_event(&mut self, ev: &SessionWireEvent) -> (r: ApplyEffect)
        requires
            old(self).wf(),
        ensures
            final(self).wf(),
            final(self)@ == old(self)@.after(IncomingView::FollowEvent(ev@)),
            r == old(self)@.effect(IncomingView::FollowEvent(ev@)),
    {
        if let Some(id) = ev.reconcile_id() {
            let mut ids = TextSet::new();
            ids.insert(id.to_owned());
            assert(ids@ =~= set![id@]);
            self.reconcile_pending(&ids);
        }
        if !self.is_new(ev) {
            return ApplyEffect::Noop;
        }
        match ev.seq {
            None => ApplyEffect::Noop,
            Some(seq) => {
                let head_before = self.head_seq();
                let appended: usize = self.take_event(ev, seq);
                self.evict();
                let anchor_stable = match head_before {
                    None => true,
                    Some(h) => match self.head_seq() {
                        Some(now) => now == h,
                        None => false,
                    },
                };
                ApplyEffect::TailAppended { appended, anchor_stable }
            },
        }
    }

    /// Takes a page of older history.
    fn apply_page(&mut self, records: Vec<SessionHistoryRecord>, has_more: Option<bool>) -> (r:
        ApplyEffect)
        requires
            old(self).wf(),
        ensures
            final(self).wf(),
            final(self)@ == old(self)@.after_page(record_views(records@), has_more),
            r == old(self)@.effect(
                IncomingView::Page { records: record_views(records@), has_more },
            ),
    {
        let ghost views = record_views(records@);
        if let Some(more) = has_more {
            self.head_has_more = more;
        }
        let ids = records_reconcile_ids(&records);
        self.reconcile_pending(&ids);
        let ghost start = old(self)@.before_page(views, has_more);
        assert(self@ =~= start);
        let head_before = self.head_seq();
        let inserted: usize = self.ingest_all(&records);
        if inserted == 0 {
            proof {
                lemma_none_taken(start, views, views.len());
                assert(start.evicted() =~= start);
            }
            return ApplyEffect::Noop;
        }
        let anchor_shift: usize = match head_before {
            Some(head) => self.partition(head),
            None => 0,
        };
        self.evict();
        ApplyEffect::HeadPrepend { inserted, anchor_shift }
    }

    /// Takes one input; the only way in which a window changes, but for echoes.
    pub fn apply(&mut self, incoming: Incoming) -> (r: ApplyEffect)
        requires
            old(self).wf(),
        ensures
            final(self).wf(),
            final(self)@ == old(self)@.after(incoming@),
            r == old(self)@.effect(incoming@),
    {
        match incoming {
            Incoming::Snapshot { cursor, records, has_more, projections } => {
                self.apply_snapshot(cursor, records, has_more, projections);
                ApplyEffect::Rebuilt
            },
            Incoming::FollowEvent(ev) => self.apply_event(&ev),
            Incoming::Chunks(row) => {
                proof {
                    lemma_with_chunks_ordered(self@, row@);
                }
                if self.take_chunks(row) {
                    ApplyEffect::TailAppended { appended: 0, anchor_stable: true }
                } else {
                    ApplyEffect::Noop
                }
            },
            Incoming::Page { records, has_more } => self.apply_page(records, has_more),
        }
    }
}

/// Records change nothing but blocks and the indexes of seen events.
proof fn lemma_records_keep(w: WindowView, records: Seq<RecordView>, n: nat)
    ensures
        w.with_records(records, n).projections == w.projections,
        w.with_records(records, n).turn_outline == w.turn_outline,
        w.with_records(records, n).pending == w.pending,
        w.with_records(records, n).cap == w.cap,
        w.with_records(records, n).cursor == w.cursor,
        w.with_records(records, n).head_has_more == w.head_has_more,
    decreases n,
{
    if n > 0 && n <= records.len() {
        lemma_records_keep(w, records, (n - 1) as nat);
    }
}

/// Records none of which is taken leave the window as it is.
proof fn lemma_none_taken(w: WindowView, records: Seq<RecordView>, n: nat)
    requires
        w.taken(records, n) == 0,
        n <= records.len(),
    ensures
        w.with_records(records, n) == w,
    decreases n,
{
    if n > 0 {
        lemma_none_taken(w, records, (n - 1) as nat);
        lemma_last_assistant(w.blocks);
    }
}

impl Default for TranscriptWindow {
    /// A window for two hundred blocks.
    fn default() -> (r: Self)
        ensures
            r.wf(),
            r@.cap == 200,
            r@.blocks.len() == 0,
            r@.pending.len() == 0,
            r@.seen_seq == Set::<u64>::empty(),
            r@.seen_request == Set::<Seq<char>>::empty(),
    {
        TranscriptWindow::new(200)
    }
}

/// Windows of several sessions; the least recently used one goes first.
#[derive(Debug, Default)]
pub struct SessionStore {
    entries: Vec<(String, TranscriptWindow)>,
    cap: usize,
}

/// A session and its window.
pub struct StoreEntry {
    pub id: Seq<char>,
    pub window: WindowView,
}

impl SessionStore {
    /// The windows from the least to the most recently used.
    pub closed spec fn windows(&self) -> Seq<StoreEntry> {
        self.entries@.map_values(|e: (String, TranscriptWindow)| StoreEntry { id: e.0@, window: e.1@ })
    }

    /// How many windows are kept, at least one.
    pub closed spec fn limit(&self) -> nat {
        if self.cap == 0 {
            1
        } else {
            self.cap as nat
        }
    }

    /// The invariant of the store.
    pub open spec fn wf(&self) -> bool {
        store_wf(self.windows(), self.limit())
    }

    /// A store for `cap` windows.
    pub fn new(cap: usize) -> (r: SessionStore)
        ensures
            r.wf(),
            r.windows().len() == 0,
            r.limit() == if cap == 0 {
                1
            } else {
                cap as nat
            },
    {
        SessionStore { entries: Vec::new(), cap }
    }

    fn position(&self, id: &str) -> (r: usize)
        ensures
            r == store_index(self.windows(), id@),
            r <= self.entries@.len(),
            r < self.entries@.len() ==> self.entries@[r as int].0@ == id@,
    {
        let ghost views = self.windows();
        let mut i: usize = 0;
        while i < self.entries.len()
            invariant
                i <= self.entries@.len(),
                views == self.windows(),
                views.len() == self.entries@.len(),
                forall|j: int| 0 <= j < i ==> (#[trigger] views[j]).id != id@,
            decreases self.entries@.len() - i,
        {
            let entry = &self.entries[i];
            assert(views[i as int].id == entry.0@);
            if same(entry.0.as_str(), id) {
                proof {
                    lemma_store_index(views, id@, i as int);
                }
                return i;
            }
            i = i + 1;
        }
        proof {
            lemma_store_index(views, id@, i as int);
        }
        i
    }

    /// The window of a session.
    pub fn get(&self, id: &str) -> (r: Option<&TranscriptWindow>)
        ensures
            ({
                let k = store_index(self.windows(), id@);
                match r {
                    Some(w) => k < self.windows().len() && w@ == self.windows()[k].window,
                    None => k == self.windows().len(),
                }
            }),
    {
        let i: usize = self.position(id);
        if i < self.entries.len() {
            Some(&self.entries[i].1)
        } else {
            None
        }
    }
}

impl SessionStore {
    /// The window of a session, to be changed in place.
    pub fn get_mut(&mut self, id: &str) -> (r: Option<&mut TranscriptWindow>)
        ensures
            ({
                let k = store_index(old(self).windows(), id@);
                match r {
                    Some(w) => {
                        &&& k < old(self).windows().len()
                        &&& w@ == old(self).windows()[k].window
                        &&& final(self).limit() == old(self).limit()
                        &&& final(self).windows() == old(self).windows().update(
                            k,
                            StoreEntry { id: id@, window: final(w)@ },
                        )
                    },
                    None => k == old(self).windows().len() && *final(self) == *old(self),
                }
            }),
    {
        let i: usize = self.position(id);
        if i < self.entries.len() {
            let w = &mut self.entries[i].1;
            Some(w)
        } else {
            None
        }
    }

    /// Opens the window of a session as the most recently used one; a new one
    /// takes the place of the least recently used where the store is full.
    pub fn touch(&mut self, id: &str, cap: usize) -> (r: &mut TranscriptWindow)
        requires
            old(self).wf(),
        ensures
            r@ == opened(old(self).windows(), id@, cap),
            r.wf(),
            final(self).limit() == old(self).limit(),
            final(self).windows() == touched(
                old(self).windows(),
                old(self).limit(),
                id@,
                final(r)@,
            ),
    {
        let i: usize = self.position(id);
        let window = if i < self.entries.len() {
            let entry = self.entries.remove(i);
            entry.1
        } else {
            let limit: usize = if self.cap == 0 {
                1
            } else {
                self.cap
            };
            if self.entries.len() >= limit {
                let _ = self.entries.remove(0);
            }
            TranscriptWindow::new(cap)
        };
        self.entries.push((id.to_owned(), window));
        let last: usize = self.entries.len() - 1;
        &mut self.entries[last].1
    }
}

/// No session twice, no more windows than allowed, each well formed.
pub open spec fn store_wf(windows: Seq<StoreEntry>, limit: nat) -> bool {
    &&& windows.len() <= limit
    &&& forall|i: int| 0 <= i < windows.len() ==> (#[trigger] windows[i]).window.wf()
    &&& forall|i: int, j: int|
        0 <= i < j < windows.len() ==> (#[trigger] windows[i]).id != (#[trigger] windows[j]).id
}

/// The window of `id`, a fresh one where there is none.
pub open spec fn opened(windows: Seq<StoreEntry>, id: Seq<char>, cap: usize) -> WindowView {
    let k = store_index(windows, id);
    if 0 <= k < windows.len() {
        windows[k].window
    } else {
        fresh_window(cap)
    }
}

/// The windows after `id` was opened and its window became `window`: it is the
/// most recently used one, and a new one has taken the place of the least
/// recently used where the store was full.
pub open spec fn touched(
    windows: Seq<StoreEntry>,
    limit: nat,
    id: Seq<char>,
    window: WindowView,
) -> Seq<StoreEntry> {
    let k = store_index(windows, id);
    let kept = if 0 <= k < windows.len() {
        windows.remove(k)
    } else if windows.len() >= limit {
        windows.skip(1)
    } else {
        windows
    };
    kept.push(StoreEntry { id, window })
}

/// The window that `TranscriptWindow::new` makes.
pub open spec fn fresh_window(cap: usize) -> WindowView {
    WindowView {
        blocks: Seq::empty(),
        cap: if cap == 0 {
            1
        } else {
            cap as nat
        },
        head_has_more: true,
        cursor: None,
        projections: JsonView::Null,
        turn_outline: Seq::empty(),
        seen_seq: Set::empty(),
        seen_request: Set::empty(),
        pending: Seq::empty(),
    }
}

/// Index of the window of `id`, or the number of windows.
pub open spec fn store_index(windows: Seq<StoreEntry>, id: Seq<char>) -> int
    decreases windows.len(),
{
    if windows.len() == 0 || windows[0].id == id {
        0
    } else {
        1 + store_index(windows.skip(1), id)
    }
}

/// The first window of `id`, or the end where there is none.
pub proof fn lemma_store_index(windows: Seq<StoreEntry>, id: Seq<char>, k: int)
    requires
        0 <= k <= windows.len(),
        forall|j: int| 0 <= j < k ==> (#[trigger] windows[j]).id != id,
        k < windows.len() ==> windows[k].id == id,
    ensures
        store_index(windows, id) == k,
    decreases k,
{
    if k > 0 {
        assert(windows[0].id != id);
        let rest = windows.skip(1);
        assert forall|j: int| 0 <= j < k - 1 implies (#[trigger] rest[j]).id != id by {
            assert(rest[j] == windows[j + 1]);
        }
        lemma_store_index(rest, id, k - 1);
    }
}

} // verus!
