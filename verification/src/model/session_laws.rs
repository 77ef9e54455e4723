//! Laws of the transcript window.

use vstd::prelude::*;

use crate::json::JsonView;
use crate::model::block::{event_blocks, lemma_event_blocks};
use crate::model::session::{
    answered, fresh_window, lemma_evicted_wf, lemma_last_assistant, lemma_leading,
    lemma_store_index, lemma_with_chunks_ordered, lemma_with_event_ordered,
    lemma_with_records_ordered, opened, outline_of, store_index, store_wf, touched, ApplyEffect,
    EchoView, IncomingView, StoreEntry, WindowView,
};
use crate::wire::{ChunkRowView, EventView, RecordView, SessionLogOffset};

verus! {

/// A sequence all of whose items pass a filter is its own filtered form.
proof fn lemma_filter_all<T>(s: Seq<T>, keep: spec_fn(T) -> bool)
    requires
        forall|i: int| 0 <= i < s.len() ==> keep(#[trigger] s[i]),
    ensures
        s.filter(keep) == s,
    decreases s.len(),
{
    reveal(Seq::filter);
    if s.len() > 0 {
        lemma_filter_all(s.drop_last(), keep);
        assert(keep(s.last()));
        assert(s.drop_last().push(s.last()) =~= s);
    }
}

/// What passes a filter satisfies it and was there before.
proof fn lemma_filter_items<T>(s: Seq<T>, keep: spec_fn(T) -> bool)
    ensures
        s.filter(keep).len() <= s.len(),
        forall|i: int| 0 <= i < s.filter(keep).len() ==> keep(#[trigger] s.filter(keep)[i]),
    decreases s.len(),
{
    reveal(Seq::filter);
    if s.len() > 0 {
        lemma_filter_items(s.drop_last(), keep);
    }
}

/// Every input keeps a window ascending, within its capacity, and aware of
/// each position that it shows.
pub proof fn law_inputs_keep_invariant(w: WindowView, input: IncomingView)
    requires
        w.wf(),
    ensures
        w.after(input).wf(),
        w.after(input).cap == w.cap,
{
    match input {
        IncomingView::Snapshot { cursor, records, has_more, projections } => {
            let start = w.restarted(cursor, has_more, projections).reconciled(
                answered(records, records.len()),
            );
            lemma_with_records_ordered(start, records, records.len());
            lemma_records_cap(start, records, records.len());
            let built = start.with_records(records, records.len());
            lemma_evicted_wf(built);
            assert(w.after(input).blocks == built.evicted().blocks);
        },
        IncomingView::FollowEvent(e) => {
            let start = w.before_event(e);
            assert(start.blocks == w.blocks && start.seen_seq == w.seen_seq);
            if start.accepts(e) {
                lemma_with_event_ordered(start, e);
                lemma_evicted_wf(start.with_event(e));
            }
        },
        IncomingView::Chunks(row) => {
            lemma_with_chunks_ordered(w, row);
        },
        IncomingView::Page { records, has_more } => {
            let start = w.before_page(records, has_more);
            assert(start.blocks == w.blocks && start.seen_seq == w.seen_seq);
            lemma_with_records_ordered(start, records, records.len());
            lemma_records_cap(start, records, records.len());
            lemma_evicted_wf(start.with_records(records, records.len()));
        },
    }
}

proof fn lemma_records_cap(w: WindowView, records: Seq<RecordView>, n: nat)
    ensures
        w.with_records(records, n).cap == w.cap,
    decreases n,
{
    if n > 0 && n <= records.len() {
        lemma_records_cap(w, records, (n - 1) as nat);
    }
}

/// Replaying an event right after it was followed changes nothing and reports
/// nothing.
pub proof fn law_replay_is_noop(w: WindowView, e: EventView)
    ensures
        w.after_event(e).effect(IncomingView::FollowEvent(e)) == ApplyEffect::Noop,
        w.after_event(e).after(IncomingView::FollowEvent(e)) == w.after_event(e),
{
    let once = w.after_event(e);
    if let Some(id) = e.reconcile_id() {
        let keep = |x: EchoView| !set![id].contains(x.request_id);
        lemma_filter_items(w.pending, keep);
        assert(once.pending == w.pending.filter(keep));
        lemma_filter_all(once.pending, keep);
        assert(once.before_event(e) =~= once);
    }
}

/// A request counts once: after an event with a request id was taken, an event
/// with the same request id does nothing, whatever its position.
pub proof fn law_request_counts_once(w: WindowView, e: EventView, again: EventView)
    requires
        w.accepts(e),
        e.request_id is Some,
        again.request_id == e.request_id,
    ensures
        w.after_event(e).effect(IncomingView::FollowEvent(again)) == ApplyEffect::Noop,
        w.after_event(e).after_event(again).blocks == w.after_event(e).blocks,
{
}

/// A position counts once: an event at a known position does nothing.
pub proof fn law_position_counts_once(w: WindowView, e: EventView)
    requires
        e.seq is Some,
        w.seen_seq.contains((e.seq->0).0),
    ensures
        w.effect(IncomingView::FollowEvent(e)) == ApplyEffect::Noop,
        w.after_event(e).blocks == w.blocks,
{
}

/// An echo stands in nobody's way: with or without it an event is taken or
/// refused alike, and shows the same blocks.
pub proof fn law_echo_never_blocks(w: WindowView, echo: EchoView, e: EventView)
    ensures
        ({
            let with_echo = WindowView { pending: w.pending.push(echo), ..w };
            &&& with_echo.accepts(e) == w.accepts(e)
            &&& with_echo.after_event(e).blocks == w.after_event(e).blocks
            &&& with_echo.effect(IncomingView::FollowEvent(e)) == w.effect(
                IncomingView::FollowEvent(e),
            )
        }),
{
}

/// The durable event of a request retires every echo of it, failed or not.
pub proof fn law_durable_event_retires_echo(w: WindowView, e: EventView)
    requires
        e.reconcile_id() is Some,
    ensures
        forall|i: int|
            0 <= i < w.after_event(e).pending.len() ==> (#[trigger] w.after_event(
                e,
            ).pending[i]).request_id != e.reconcile_id()->0,
{
    let id = e.reconcile_id()->0;
    let keep = |x: EchoView| !set![id].contains(x.request_id);
    lemma_filter_items(w.pending, keep);
    assert(w.after_event(e).pending == w.pending.filter(keep));
    assert forall|i: int| 0 <= i < w.after_event(e).pending.len() implies (
    #[trigger] w.after_event(e).pending[i]).request_id != id by {
        assert(keep(w.pending.filter(keep)[i]));
    }
}

/// A snapshot leaves no residue: two windows with one capacity and the same
/// echoes are the same afterwards.
pub proof fn law_snapshot_leaves_no_residue(
    w1: WindowView,
    w2: WindowView,
    cursor: Option<SessionLogOffset>,
    records: Seq<RecordView>,
    has_more: bool,
    projections: Option<JsonView>,
)
    requires
        w1.cap == w2.cap,
        w1.pending == w2.pending,
    ensures
        w1.after_snapshot(cursor, records, has_more, projections) == w2.after_snapshot(
            cursor,
            records,
            has_more,
            projections,
        ),
{
    assert(w1.restarted(cursor, has_more, projections) == w2.restarted(
        cursor,
        has_more,
        projections,
    ));
}

/// A page that repeats known positions, evicted ones included, does nothing to
/// the blocks and reports nothing.
pub proof fn law_known_page_is_noop(
    w: WindowView,
    records: Seq<RecordView>,
    has_more: Option<bool>,
)
    requires
        w.wf(),
        forall|i: int|
            0 <= i < records.len() ==> (#[trigger] records[i] matches RecordView::Event(e) && (
            e.seq is Some ==> w.seen_seq.contains((e.seq->0).0))),
    ensures
        w.effect(IncomingView::Page { records, has_more }) == ApplyEffect::Noop,
        w.after_page(records, has_more).blocks == w.blocks,
{
    let start = w.before_page(records, has_more);
    lemma_known_records(start, records, records.len());
    assert(start.evicted().blocks == w.blocks);
}

proof fn lemma_known_records(w: WindowView, records: Seq<RecordView>, n: nat)
    requires
        n <= records.len(),
        forall|i: int|
            0 <= i < records.len() ==> (#[trigger] records[i] matches RecordView::Event(e) && (
            e.seq is Some ==> w.seen_seq.contains((e.seq->0).0))),
    ensures
        w.with_records(records, n) == w,
        w.taken(records, n) == 0,
    decreases n,
{
    if n > 0 {
        lemma_known_records(w, records, (n - 1) as nat);
        assert(records[n - 1] is Event);
    }
}

/// Between snapshots no position is forgotten, evicted ones included.
pub proof fn law_positions_stay_known(w: WindowView, input: IncomingView, q: u64)
    requires
        !(input is Snapshot),
        w.seen_seq.contains(q),
    ensures
        w.after(input).seen_seq.contains(q),
{
    if let IncomingView::Page { records, has_more } = input {
        lemma_records_know(w.before_page(records, has_more), records, records.len(), q);
    }
}

proof fn lemma_records_know(w: WindowView, records: Seq<RecordView>, n: nat, q: u64)
    requires
        w.seen_seq.contains(q),
    ensures
        w.with_records(records, n).seen_seq.contains(q),
    decreases n,
{
    if n > 0 && n <= records.len() {
        lemma_records_know(w, records, (n - 1) as nat, q);
    }
}

/// An event past the tail joins at the end, behind everything that stays.
pub proof fn law_newer_event_joins_at_tail(w: WindowView, e: EventView)
    requires
        w.wf(),
        w.accepts(e),
        forall|i: int| 0 <= i < w.blocks.len() ==> (#[trigger] w.blocks[i]).seq().0 < (e.seq->0).0,
    ensures
        w.with_event(e).blocks == w.blocks + event_blocks(e, e.seq->0),
{
    crate::model::session::lemma_leading(w.blocks, (e.seq->0).0, w.blocks.len() as int);
    lemma_event_blocks(e, e.seq->0);
    assert(w.with_event(e).blocks =~= w.blocks + event_blocks(e, e.seq->0));
}

/// A chunk row lands on the last assistant message and nowhere else.
pub proof fn law_chunks_touch_last_assistant_only(
    w: WindowView,
    row: crate::wire::ChunkRowView,
    i: int,
)
    requires
        0 <= i < w.blocks.len(),
        w.with_chunks(row).blocks[i] != w.blocks[i],
    ensures
        w.blocks[i] is AssistantMessage,
        forall|j: int| i < j < w.blocks.len() ==> !((#[trigger] w.blocks[j]) is AssistantMessage),
{
    lemma_last_assistant(w.blocks);
}

/// Opening a session keeps the store within its limit and without repetition,
/// and the opened session is the most recently used one.
pub proof fn law_touch_keeps_store(
    windows: Seq<StoreEntry>,
    limit: nat,
    id: Seq<char>,
    window: WindowView,
)
    requires
        store_wf(windows, limit),
        limit >= 1,
        window.wf(),
    ensures
        store_wf(touched(windows, limit, id, window), limit),
        touched(windows, limit, id, window).last() == (StoreEntry { id, window }),
        opened(touched(windows, limit, id, window), id, 0) == window,
{
    let k = store_index(windows, id);
    let out = touched(windows, limit, id, window);
    lemma_store_index_bounds(windows, id);
    assert forall|i: int| 0 <= i < out.len() - 1 implies (#[trigger] out[i]).id != id && (exists|
        j: int,
    |
        0 <= j < windows.len() && windows[j] == out[i]) by {
        if k < windows.len() {
            if i < k {
                assert(out[i] == windows[i]);
            } else {
                assert(out[i] == windows[i + 1]);
            }
        } else if windows.len() >= limit {
            assert(out[i] == windows[i + 1]);
        } else {
            assert(out[i] == windows[i]);
        }
    }
    assert forall|i: int, j: int| 0 <= i < j < out.len() implies (#[trigger] out[i]).id != (
    #[trigger] out[j]).id by {
        if j < out.len() - 1 {
            if k < windows.len() {
                let a = if i < k { i } else { i + 1 };
                let b = if j < k { j } else { j + 1 };
                assert(out[i] == windows[a] && out[j] == windows[b]);
            } else if windows.len() >= limit {
                assert(out[i] == windows[i + 1] && out[j] == windows[j + 1]);
            } else {
                assert(out[i] == windows[i] && out[j] == windows[j]);
            }
        }
    }
    lemma_store_index(out, id, out.len() - 1);
}

proof fn lemma_store_index_bounds(windows: Seq<StoreEntry>, id: Seq<char>)
    ensures
        0 <= store_index(windows, id) <= windows.len(),
        store_index(windows, id) < windows.len() ==> windows[store_index(windows, id)].id == id,
        forall|j: int|
            0 <= j < store_index(windows, id) ==> (#[trigger] windows[j]).id != id,
    decreases windows.len(),
{
    if windows.len() > 0 && windows[0].id != id {
        let rest = windows.skip(1);
        lemma_store_index_bounds(rest, id);
        assert forall|j: int| 0 <= j < store_index(windows, id) implies (#[trigger] windows[j]).id
            != id by {
            if j > 0 {
                assert(rest[j - 1] == windows[j]);
            }
        }
    }
}

/// A fresh window is well formed.
pub proof fn law_fresh_window_is_well_formed(cap: usize)
    ensures
        fresh_window(cap).wf(),
{
}

/// Chunk rows accumulate: one more row keeps every row that the last assistant
/// message had, in its place, and stands behind them. The message keeps its
/// position, time and id, and every other block and the rest of the window
/// stay as they are.
pub proof fn law_chunk_rows_accumulate(w: WindowView, row: ChunkRowView, i: int)
    requires
        0 <= i < w.blocks.len(),
        w.blocks[i] is AssistantMessage,
        forall|j: int| i < j < w.blocks.len() ==> !((#[trigger] w.blocks[j]) is AssistantMessage),
    ensures
        ({
            let after = w.after(IncomingView::Chunks(row));
            let had = w.blocks[i]->AssistantMessage_chunks;
            let has = after.blocks[i]->AssistantMessage_chunks;
            &&& after.blocks.len() == w.blocks.len()
            &&& after.blocks[i] is AssistantMessage
            &&& has.len() == had.len() + 1
            &&& forall|n: int| 0 <= n < had.len() ==> has[n] == #[trigger] had[n]
            &&& has[had.len() as int] == row
            &&& after.blocks[i]->AssistantMessage_seq == w.blocks[i]->AssistantMessage_seq
            &&& after.blocks[i]->AssistantMessage_time == w.blocks[i]->AssistantMessage_time
            &&& after.blocks[i]->AssistantMessage_message_id
                == w.blocks[i]->AssistantMessage_message_id
            &&& forall|j: int|
                0 <= j < w.blocks.len() && j != i ==> after.blocks[j] == #[trigger] w.blocks[j]
            &&& after.cap == w.cap
            &&& after.head_has_more == w.head_has_more
            &&& after.cursor == w.cursor
            &&& after.projections == w.projections
            &&& after.turn_outline == w.turn_outline
            &&& after.seen_seq == w.seen_seq
            &&& after.seen_request == w.seen_request
            &&& after.pending == w.pending
            &&& w.effect(IncomingView::Chunks(row)) == (ApplyEffect::TailAppended {
                appended: 0,
                anchor_stable: true,
            })
        }),
{
    lemma_last_assistant(w.blocks);
    assert(crate::model::session::last_assistant(w.blocks) == i);
}

/// Chunk rows that follow one another stand in the order in which they came,
/// behind the rows that were there.
pub proof fn law_chunk_rows_keep_their_order(
    w: WindowView,
    first: ChunkRowView,
    second: ChunkRowView,
    i: int,
)
    requires
        0 <= i < w.blocks.len(),
        w.blocks[i] is AssistantMessage,
        forall|j: int| i < j < w.blocks.len() ==> !((#[trigger] w.blocks[j]) is AssistantMessage),
    ensures
        w.after(IncomingView::Chunks(first)).after(
            IncomingView::Chunks(second),
        ).blocks[i]->AssistantMessage_chunks == w.blocks[i]->AssistantMessage_chunks + seq![
            first,
            second,
        ],
{
    law_chunk_rows_accumulate(w, first, i);
    let once = w.after(IncomingView::Chunks(first));
    law_chunk_rows_accumulate(once, second, i);
    assert(once.after(IncomingView::Chunks(second)).blocks[i]->AssistantMessage_chunks
        =~= w.blocks[i]->AssistantMessage_chunks + seq![first, second]);
}

/// A chunk row without an assistant message to belong to changes nothing.
pub proof fn law_chunk_row_needs_a_message(w: WindowView, row: ChunkRowView)
    requires
        forall|j: int| 0 <= j < w.blocks.len() ==> !((#[trigger] w.blocks[j]) is AssistantMessage),
    ensures
        w.after(IncomingView::Chunks(row)) == w,
        w.effect(IncomingView::Chunks(row)) == ApplyEffect::Noop,
{
    lemma_last_assistant(w.blocks);
}

/// Whether an event is new to a window: it has a position that was not seen,
/// and a request that was not seen, if it has one.
pub open spec fn unseen(w: WindowView, e: EventView) -> bool {
    &&& e.seq is Some
    &&& !w.seen_seq.contains((e.seq->0).0)
    &&& e.request_id is Some ==> !w.seen_request.contains(e.request_id->0)
}

/// A new event joins at its position: the blocks before it stay before it, the
/// blocks of the event follow, and the others follow them; nothing is lost but
/// the oldest blocks beyond the capacity.
pub proof fn law_event_joins_in_its_place(w: WindowView, e: EventView, k: int)
    requires
        unseen(w, e),
        0 <= k <= w.blocks.len(),
        forall|i: int| 0 <= i < k ==> (#[trigger] w.blocks[i]).seq().0 < (e.seq->0).0,
        forall|i: int| k <= i < w.blocks.len() ==> (#[trigger] w.blocks[i]).seq().0 >= (
        e.seq->0).0,
    ensures
        ({
            let after = w.after(IncomingView::FollowEvent(e)).blocks;
            let new = event_blocks(e, e.seq->0);
            let total = (w.blocks.len() + new.len()) as int;
            let gone = if total > w.cap {
                total - w.cap
            } else {
                0
            };
            &&& new.len() > 0
            &&& after.len() == total - gone
            &&& forall|i: int|
                gone <= i < k ==> after[i - gone] == #[trigger] w.blocks[i]
            &&& forall|i: int|
                0 <= i < new.len() && gone <= k + i ==> after[k + i - gone] == #[trigger] new[i]
            &&& forall|i: int|
                k <= i < w.blocks.len() && gone <= i + new.len() ==> after[i + new.len() - gone]
                    == #[trigger] w.blocks[i]
        }),
{
    crate::model::session::lemma_leading(w.blocks, (e.seq->0).0, k);
    lemma_event_blocks(e, e.seq->0);
}

/// A new event is known from then on, with its position and its request, and
/// nothing else becomes known; what the window was told otherwise stays.
pub proof fn law_event_is_known_afterwards(w: WindowView, e: EventView, q: u64, id: Seq<char>)
    requires
        unseen(w, e),
    ensures
        ({
            let after = w.after(IncomingView::FollowEvent(e));
            &&& after.seen_seq.contains(q) <==> w.seen_seq.contains(q) || q == (e.seq->0).0
            &&& after.seen_request.contains(id) <==> w.seen_request.contains(id) || e.request_id
                == Some(id)
            &&& after.cap == w.cap
            &&& after.head_has_more == w.head_has_more
            &&& after.cursor == w.cursor
            &&& after.projections == w.projections
            &&& after.turn_outline == w.turn_outline
        }),
{
}

/// A repeated event, and one without a position, changes nothing but that the
/// echo that it answers is gone.
pub proof fn law_repeated_event_shows_nothing_new(w: WindowView, e: EventView)
    requires
        !unseen(w, e),
    ensures
        ({
            let after = w.after(IncomingView::FollowEvent(e));
            &&& w.effect(IncomingView::FollowEvent(e)) == ApplyEffect::Noop
            &&& after == (WindowView { pending: after.pending, ..w })
            &&& e.reconcile_id() is None ==> after.pending == w.pending
        }),
{
}

/// What is reported of a new event: how many blocks it has, and whether the
/// first block that was shown is still the first.
pub proof fn law_event_is_reported(w: WindowView, e: EventView)
    requires
        unseen(w, e),
        w.blocks.len() < usize::MAX,
        event_blocks(e, e.seq->0).len() <= usize::MAX,
    ensures
        w.effect(IncomingView::FollowEvent(e)) is TailAppended,
        w.effect(IncomingView::FollowEvent(e))->appended == event_blocks(e, e.seq->0).len(),
        w.blocks.len() > 0 && w.after(IncomingView::FollowEvent(e)).blocks.len() > 0 ==> (w.effect(
            IncomingView::FollowEvent(e),
        )->anchor_stable <==> w.after(IncomingView::FollowEvent(e)).blocks[0].seq()
            == w.blocks[0].seq()),
{
}

/// What passes a filter is still there.
proof fn lemma_filter_keeps<T>(s: Seq<T>, keep: spec_fn(T) -> bool, x: T)
    requires
        s.contains(x),
        keep(x),
    ensures
        s.filter(keep).contains(x),
    decreases s.len(),
{
    reveal(Seq::filter);
    let i = choose|i: int| 0 <= i < s.len() && s[i] == x;
    if i == s.len() - 1 {
        assert(s.filter(keep).last() == x);
    } else {
        assert(s.drop_last()[i] == x);
        lemma_filter_keeps(s.drop_last(), keep, x);
        let f = s.drop_last().filter(keep);
        let n = choose|n: int| 0 <= n < f.len() && f[n] == x;
        assert(s.filter(keep)[n] == x);
    }
}

/// What passes a filter was there before.
proof fn lemma_filter_from<T>(s: Seq<T>, keep: spec_fn(T) -> bool, x: T)
    requires
        s.filter(keep).contains(x),
    ensures
        s.contains(x),
        keep(x),
    decreases s.len(),
{
    reveal(Seq::filter);
    if s.len() > 0 {
        let rest = s.drop_last();
        let f = s.filter(keep);
        let i = choose|i: int| 0 <= i < f.len() && f[i] == x;
        if keep(s.last()) && i == f.len() - 1 {
            assert(s[s.len() - 1] == x);
        } else {
            assert(rest.filter(keep)[i] == x);
            lemma_filter_from(rest, keep, x);
            let n = choose|n: int| 0 <= n < rest.len() && rest[n] == x;
            assert(s[n] == x);
        }
    }
}

/// An event retires the echoes of the request that it answers and no others.
pub proof fn law_event_retires_its_echo_only(w: WindowView, e: EventView, echo: EchoView)
    ensures
        w.after(IncomingView::FollowEvent(e)).pending.contains(echo) <==> w.pending.contains(echo)
            && e.reconcile_id() != Some(echo.request_id),
{
    let after = w.after(IncomingView::FollowEvent(e)).pending;
    if let Some(id) = e.reconcile_id() {
        let keep = |x: EchoView| !set![id].contains(x.request_id);
        assert(after == w.pending.filter(keep));
        if after.contains(echo) {
            lemma_filter_from(w.pending, keep, echo);
        }
        if w.pending.contains(echo) && echo.request_id != id {
            assert(keep(echo));
            lemma_filter_keeps(w.pending, keep, echo);
        }
    }
}

/// A page and a snapshot retire the echoes of the requests that their events
/// answer and no others.
pub proof fn law_records_retire_their_echoes_only(
    w: WindowView,
    records: Seq<RecordView>,
    has_more: Option<bool>,
    cursor: Option<SessionLogOffset>,
    more: bool,
    projections: Option<JsonView>,
    echo: EchoView,
)
    ensures
        ({
            let answers = exists|i: int|
                0 <= i < records.len() && (#[trigger] records[i]) is Event
                    && records[i]->Event_0.reconcile_id() == Some(echo.request_id);
            let page = w.after(IncomingView::Page { records, has_more });
            let anew = w.after(
                IncomingView::Snapshot { cursor, records, has_more: more, projections },
            );
            &&& page.pending.contains(echo) <==> w.pending.contains(echo) && !answers
            &&& anew.pending.contains(echo) <==> w.pending.contains(echo) && !answers
        }),
{
    let ids = answered(records, records.len());
    lemma_answered(records, records.len(), echo.request_id);
    let keep = |x: EchoView| !ids.contains(x.request_id);
    lemma_records_keep(w.before_page(records, has_more), records, records.len());
    let start = w.restarted(cursor, more, projections).reconciled(ids);
    lemma_records_keep(start, records, records.len());
    let page = w.after(IncomingView::Page { records, has_more });
    let anew = w.after(IncomingView::Snapshot { cursor, records, has_more: more, projections });
    assert(page.pending == w.pending.filter(keep));
    assert(anew.pending == w.pending.filter(keep));
    if w.pending.filter(keep).contains(echo) {
        lemma_filter_from(w.pending, keep, echo);
    }
    if w.pending.contains(echo) && !ids.contains(echo.request_id) {
        assert(keep(echo));
        lemma_filter_keeps(w.pending, keep, echo);
    }
}

proof fn lemma_answered(records: Seq<RecordView>, n: nat, id: Seq<char>)
    requires
        n <= records.len(),
    ensures
        answered(records, n).contains(id) <==> exists|i: int|
            0 <= i < n && (#[trigger] records[i]) is Event && records[i]->Event_0.reconcile_id()
                == Some(id),
    decreases n,
{
    if n > 0 {
        lemma_answered(records, (n - 1) as nat, id);
        if answered(records, n).contains(id) && !answered(records, (n - 1) as nat).contains(id) {
            assert(records[n - 1] is Event);
        }
    }
}

/// Records change blocks and what was seen, nothing else.
proof fn lemma_records_keep(w: WindowView, records: Seq<RecordView>, n: nat)
    ensures
        ({
            let r = w.with_records(records, n);
            &&& r.pending == w.pending
            &&& r.cap == w.cap
            &&& r.cursor == w.cursor
            &&& r.head_has_more == w.head_has_more
            &&& r.projections == w.projections
            &&& r.turn_outline == w.turn_outline
        }),
    decreases n,
{
    if n > 0 && n <= records.len() {
        lemma_records_keep(w, records, (n - 1) as nat);
    }
}

/// A snapshot is taken over as it is: its place in the log, its projections and
/// whether there is older history; the outline of turns has one entry for each
/// of the projected ones, with its turn, position and texts.
pub proof fn law_snapshot_is_taken_over(
    w: WindowView,
    cursor: Option<SessionLogOffset>,
    records: Seq<RecordView>,
    has_more: bool,
    projections: JsonView,
)
    ensures
        ({
            let after = w.after(
                IncomingView::Snapshot {
                    cursor,
                    records,
                    has_more,
                    projections: Some(projections),
                },
            );
            let entries = projections.get("turnOutline"@);
            &&& after.cursor == cursor
            &&& after.head_has_more == has_more
            &&& after.projections == projections
            &&& after.cap == w.cap
            &&& entries is Some && entries->0 is Array ==> {
                let items = entries->0->Array_0;
                &&& after.turn_outline.len() == items.len()
                &&& forall|i: int|
                    0 <= i < items.len() ==> {
                        &&& after.turn_outline[i].turn == (#[trigger] items[i]).u64_at("turn"@)
                        &&& after.turn_outline[i].prompt == items[i].str_at("prompt"@)
                        &&& after.turn_outline[i].response == items[i].str_at("response"@)
                        &&& items[i].u64_at("seq"@) is Some ==> after.turn_outline[i].seq == Some(
                            crate::wire::SessionSeq(items[i].u64_at("seq"@)->0),
                        )
                        &&& items[i].u64_at("seq"@) is None ==> after.turn_outline[i].seq is None
                    }
            }
            &&& !(entries is Some && entries->0 is Array) ==> after.turn_outline.len() == 0
        }),
{
    let start = w.restarted(cursor, has_more, Some(projections)).reconciled(
        answered(records, records.len()),
    );
    lemma_records_keep(start, records, records.len());
}

/// A page says whether there is older history still, and changes neither the
/// place in the log nor the projections.
pub proof fn law_page_says_whether_there_is_more(
    w: WindowView,
    records: Seq<RecordView>,
    has_more: Option<bool>,
)
    ensures
        ({
            let after = w.after(IncomingView::Page { records, has_more });
            &&& has_more is Some ==> after.head_has_more == has_more->0
            &&& has_more is None ==> after.head_has_more == w.head_has_more
            &&& after.cursor == w.cursor
            &&& after.projections == w.projections
            &&& after.turn_outline == w.turn_outline
            &&& after.cap == w.cap
        }),
{
    lemma_records_keep(w.before_page(records, has_more), records, records.len());
}

/// A page of one record does to the blocks what the record does by itself.
pub proof fn law_record_counts_alike_however_it_comes(
    w: WindowView,
    e: EventView,
    row: ChunkRowView,
    has_more: Option<bool>,
)
    requires
        w.wf(),
    ensures
        w.after(IncomingView::Page { records: seq![RecordView::Event(e)], has_more }).blocks
            == w.after(IncomingView::FollowEvent(e)).blocks,
        w.after(IncomingView::Page { records: seq![RecordView::Event(e)], has_more }).seen_seq
            == w.after(IncomingView::FollowEvent(e)).seen_seq,
        w.after(IncomingView::Page { records: seq![RecordView::Chunks(row)], has_more }).blocks
            == w.after(IncomingView::Chunks(row)).blocks,
{
    let one = seq![RecordView::Event(e)];
    let start = w.before_page(one, has_more);
    reveal_with_fuel(WindowView::with_records, 2);
    assert(start.with_records(one, 1) == start.with_record(one[0]));
    assert(start.accepts(e) == w.before_event(e).accepts(e));
    let rows = seq![RecordView::Chunks(row)];
    let begin = w.before_page(rows, has_more);
    assert(begin.with_records(rows, 1) == begin.with_record(rows[0]));
    lemma_last_assistant(w.blocks);
}

/// The blocks of the first `n` records, one after the other.
pub open spec fn shown(records: Seq<RecordView>, n: nat) -> Seq<crate::model::block::BlockView>
    decreases n,
{
    if n == 0 || n > records.len() {
        Seq::empty()
    } else {
        shown(records, (n - 1) as nat) + event_blocks(
            records[n - 1]->Event_0,
            records[n - 1]->Event_0.seq->0,
        )
    }
}

/// Whether records are events at ascending positions, each of a request of its
/// own, if of any.
pub open spec fn in_order(records: Seq<RecordView>) -> bool {
    &&& forall|i: int|
        0 <= i < records.len() ==> (#[trigger] records[i]) is Event && records[i]->Event_0.seq
            is Some
    &&& forall|i: int, j: int|
        0 <= i < j < records.len() ==> ((#[trigger] records[i])->Event_0.seq->0).0 < ((
        #[trigger] records[j])->Event_0.seq->0).0
    &&& forall|i: int, j: int|
        0 <= i < j < records.len() && (#[trigger] records[i])->Event_0.request_id is Some
            ==> records[i]->Event_0.request_id != (#[trigger] records[j])->Event_0.request_id
}

proof fn lemma_records_in_order(w: WindowView, records: Seq<RecordView>, n: nat)
    requires
        in_order(records),
        n <= records.len(),
        forall|i: int| 0 <= i < records.len() ==> unseen(w, (#[trigger] records[i])->Event_0),
        forall|i: int, j: int|
            0 <= i < records.len() && 0 <= j < w.blocks.len() ==> ((
            #[trigger] records[i])->Event_0.seq->0).0 < (#[trigger] w.blocks[j]).seq().0,
    ensures
        ({
            let r = w.with_records(records, n);
            &&& r.blocks == shown(records, n) + w.blocks
            &&& forall|q: u64|
                r.seen_seq.contains(q) ==> w.seen_seq.contains(q) || exists|i: int|
                    0 <= i < n && ((#[trigger] records[i])->Event_0.seq->0).0 == q
            &&& forall|id: Seq<char>|
                r.seen_request.contains(id) ==> w.seen_request.contains(id) || exists|i: int|
                    0 <= i < n && (#[trigger] records[i])->Event_0.request_id == Some(id)
            &&& forall|j: int|
                0 <= j < shown(records, n).len() ==> exists|i: int|
                    0 <= i < n && (#[trigger] records[i])->Event_0.seq->0 == (
                    #[trigger] shown(records, n)[j]).seq()
        }),
    decreases n,
{
    if n > 0 {
        let m = (n - 1) as nat;
        lemma_records_in_order(w, records, m);
        let r = w.with_records(records, m);
        let e = records[n - 1]->Event_0;
        let q = e.seq->0;
        assert(unseen(w, records[n - 1]->Event_0));
        assert(r.accepts(e)) by {
            if r.seen_seq.contains(q.0) {
                let i = choose|i: int|
                    0 <= i < m && ((#[trigger] records[i])->Event_0.seq->0).0 == q.0;
                assert((records[i]->Event_0.seq->0).0 < (records[n - 1]->Event_0.seq->0).0);
            }
            if e.request_id is Some && r.seen_request.contains(e.request_id->0) {
                let i = choose|i: int|
                    0 <= i < m && (#[trigger] records[i])->Event_0.request_id == Some(
                        e.request_id->0,
                    );
                assert(records[i]->Event_0.request_id != records[n - 1]->Event_0.request_id);
            }
        }
        let before = shown(records, m);
        assert forall|j: int| 0 <= j < before.len() implies (#[trigger] r.blocks[j]).seq().0
            < q.0 by {
            assert(r.blocks[j] == before[j]);
            let i = choose|i: int|
                0 <= i < m && (#[trigger] records[i])->Event_0.seq->0 == before[j].seq();
            assert((records[i]->Event_0.seq->0).0 < (records[n - 1]->Event_0.seq->0).0);
        }
        if before.len() < r.blocks.len() {
            assert(r.blocks[before.len() as int] == w.blocks[0]);
            assert((records[n - 1]->Event_0.seq->0).0 < w.blocks[0].seq().0);
        }
        crate::model::session::lemma_leading(r.blocks, q.0, before.len() as int);
        let new = event_blocks(e, q);
        lemma_event_blocks(e, q);
        assert(w.with_records(records, n) == r.with_event(e));
        assert(r.with_event(e).blocks =~= shown(records, n) + w.blocks);
        assert forall|j: int| 0 <= j < shown(records, n).len() implies exists|i: int|
            0 <= i < n && (#[trigger] records[i])->Event_0.seq->0 == (
            #[trigger] shown(records, n)[j]).seq() by {
            if j < before.len() {
                assert(shown(records, n)[j] == before[j]);
                let i = choose|i: int|
                    0 <= i < m && (#[trigger] records[i])->Event_0.seq->0 == before[j].seq();
                assert(0 <= i < n && records[i]->Event_0.seq->0 == shown(records, n)[j].seq());
            } else {
                assert(shown(records, n)[j] == new[j - before.len()]);
                assert(records[n - 1]->Event_0.seq->0 == shown(records, n)[j].seq());
            }
        }
        assert forall|p: u64| w.with_records(records, n).seen_seq.contains(p) implies
            w.seen_seq.contains(p) || exists|i: int|
            0 <= i < n && ((#[trigger] records[i])->Event_0.seq->0).0 == p by {
            if p == q.0 {
                assert((records[n - 1]->Event_0.seq->0).0 == p);
            }
        }
        assert forall|id: Seq<char>| w.with_records(records, n).seen_request.contains(id) implies
            w.seen_request.contains(id) || exists|i: int|
            0 <= i < n && (#[trigger] records[i])->Event_0.request_id == Some(id) by {
            if e.request_id == Some(id) {
                assert(records[n - 1]->Event_0.request_id == Some(id));
            }
        }
    } else {
        assert(shown(records, 0) + w.blocks =~= w.blocks);
    }
}

/// A snapshot of events in order shows the blocks of every one of them, in that
/// order, up to the capacity, of which the newest stay.
pub proof fn law_snapshot_shows_its_events(
    w: WindowView,
    cursor: Option<SessionLogOffset>,
    records: Seq<RecordView>,
    has_more: bool,
    projections: Option<JsonView>,
)
    requires
        in_order(records),
    ensures
        ({
            let after = w.after(
                IncomingView::Snapshot { cursor, records, has_more, projections },
            ).blocks;
            let all = shown(records, records.len());
            &&& all.len() <= w.cap ==> after == all
            &&& all.len() > w.cap ==> after == all.skip(all.len() - w.cap)
        }),
{
    let start = w.restarted(cursor, has_more, projections).reconciled(
        answered(records, records.len()),
    );
    assert forall|i: int| 0 <= i < records.len() implies unseen(
        start,
        (#[trigger] records[i])->Event_0,
    ) by {}
    lemma_records_in_order(start, records, records.len());
    lemma_records_keep(start, records, records.len());
    assert(shown(records, records.len()) + start.blocks =~= shown(records, records.len()));
}

/// A page of new and older events in order shows the blocks of every one of
/// them ahead of what was shown, in that order, as far as the capacity allows.
pub proof fn law_page_joins_at_the_head(
    w: WindowView,
    records: Seq<RecordView>,
    has_more: Option<bool>,
)
    requires
        in_order(records),
        forall|i: int| 0 <= i < records.len() ==> unseen(w, (#[trigger] records[i])->Event_0),
        forall|i: int, j: int|
            0 <= i < records.len() && 0 <= j < w.blocks.len() ==> ((
            #[trigger] records[i])->Event_0.seq->0).0 < (#[trigger] w.blocks[j]).seq().0,
    ensures
        ({
            let after = w.after(IncomingView::Page { records, has_more }).blocks;
            let all = shown(records, records.len()) + w.blocks;
            &&& all.len() <= w.cap ==> after == all
            &&& all.len() > w.cap ==> after == all.skip(all.len() - w.cap)
        }),
{
    let start = w.before_page(records, has_more);
    assert forall|i: int| 0 <= i < records.len() implies unseen(
        start,
        (#[trigger] records[i])->Event_0,
    ) by {
        assert(unseen(w, records[i]->Event_0));
    }
    lemma_records_in_order(start, records, records.len());
    lemma_records_keep(start, records, records.len());
}

/// Opening a session that is open finds its window as it was left and moves it
/// to the end; every other window stays, in its order.
pub proof fn law_opening_again_finds_the_window(
    windows: Seq<StoreEntry>,
    limit: nat,
    id: Seq<char>,
    cap: usize,
    window: WindowView,
    k: int,
)
    requires
        0 <= k < windows.len(),
        windows[k].id == id,
        forall|j: int| 0 <= j < k ==> (#[trigger] windows[j]).id != id,
    ensures
        opened(windows, id, cap) == windows[k].window,
        ({
            let out = touched(windows, limit, id, window);
            &&& out.len() == windows.len()
            &&& out.last().id == id
            &&& out.last().window == window
            &&& forall|j: int| 0 <= j < k ==> out[j] == #[trigger] windows[j]
            &&& forall|j: int| k < j < windows.len() ==> out[j - 1] == #[trigger] windows[j]
        }),
{
    lemma_store_index(windows, id, k);
}

/// Opening a session that is not open starts with an empty window of the
/// wanted capacity; the others stay in their order, but for the least recently
/// used one where the store is full.
pub proof fn law_opening_anew_evicts_the_oldest(
    windows: Seq<StoreEntry>,
    limit: nat,
    id: Seq<char>,
    cap: usize,
    window: WindowView,
)
    requires
        forall|j: int| 0 <= j < windows.len() ==> (#[trigger] windows[j]).id != id,
    ensures
        opened(windows, id, cap).blocks.len() == 0,
        opened(windows, id, cap).pending.len() == 0,
        opened(windows, id, cap).head_has_more,
        cap > 0 ==> opened(windows, id, cap).cap == cap,
        forall|q: u64| !(#[trigger] opened(windows, id, cap).seen_seq.contains(q)),
        ({
            let out = touched(windows, limit, id, window);
            &&& out.last().id == id
            &&& out.last().window == window
            &&& windows.len() < limit ==> out.len() == windows.len() + 1 && forall|j: int|
                0 <= j < windows.len() ==> out[j] == #[trigger] windows[j]
            &&& windows.len() >= limit && windows.len() > 0 ==> out.len() == windows.len()
                && forall|j: int|
                0 < j < windows.len() ==> out[j - 1] == #[trigger] windows[j]
        }),
{
    lemma_store_index(windows, id, windows.len() as int);
}

/// A window over its capacity loses its oldest blocks and nothing else, and one
/// within it loses nothing.
pub proof fn law_oldest_blocks_leave_first(w: WindowView, k: int)
    ensures
        w.blocks.len() <= w.cap ==> w.evicted() == w,
        w.blocks.len() > w.cap ==> w.evicted().blocks.len() == w.cap,
        w.blocks.len() > w.cap && 0 <= k < w.cap ==> w.evicted().blocks[k] == w.blocks[w.blocks.len()
            - w.cap + k],
        w.evicted().seen_seq == w.seen_seq,
        w.evicted().seen_request == w.seen_request,
        w.evicted().pending == w.pending,
        w.evicted().cap == w.cap,
        w.evicted().cursor == w.cursor,
        w.evicted().head_has_more == w.head_has_more,
{
}

/// The outline of the turns has an item for each that the projections list,
/// with what the list says of it.
pub proof fn law_outline_lists_the_turns(p: JsonView, items: Seq<JsonView>, i: int)
    ensures
        p.get("turnOutline"@) == Some(JsonView::Array(items)) ==> outline_of(p).len()
            == items.len(),
        p.get("turnOutline"@) == Some(JsonView::Array(items)) && 0 <= i < items.len() ==> ({
            let o = outline_of(p)[i];
            &&& o.turn == items[i].u64_at("turn"@)
            &&& o.prompt == items[i].str_at("prompt"@)
            &&& o.response == items[i].str_at("response"@)
            &&& (o.seq is Some <==> items[i].u64_at("seq"@) is Some)
            &&& o.seq is Some ==> (o.seq->0).0 == items[i].u64_at("seq"@)->0
        }),
        p.get("turnOutline"@) is None ==> outline_of(p).len() == 0,
        p.get("turnOutline"@) is Some && !(p.get("turnOutline"@)->0 is Array) ==> outline_of(
            p,
        ).len() == 0,
{
}

proof fn lemma_all_taken(w: WindowView, records: Seq<RecordView>, n: nat)
    requires
        in_order(records),
        n <= records.len(),
        forall|i: int| 0 <= i < records.len() ==> unseen(w, (#[trigger] records[i])->Event_0),
        forall|i: int, j: int|
            0 <= i < records.len() && 0 <= j < w.blocks.len() ==> ((
            #[trigger] records[i])->Event_0.seq->0).0 < (#[trigger] w.blocks[j]).seq().0,
    ensures
        w.taken(records, n) == n,
    decreases n,
{
    if n > 0 {
        let m = (n - 1) as nat;
        lemma_all_taken(w, records, m);
        lemma_records_in_order(w, records, m);
        let r = w.with_records(records, m);
        let e = records[n - 1]->Event_0;
        let q = e.seq->0;
        assert(records[n - 1] is Event);
        assert(unseen(w, records[n - 1]->Event_0));
        assert(r.accepts(e)) by {
            if r.seen_seq.contains(q.0) {
                let i = choose|i: int|
                    0 <= i < m && ((#[trigger] records[i])->Event_0.seq->0).0 == q.0;
                assert((records[i]->Event_0.seq->0).0 < (records[n - 1]->Event_0.seq->0).0);
            }
            if e.request_id is Some && r.seen_request.contains(e.request_id->0) {
                let i = choose|i: int|
                    0 <= i < m && (#[trigger] records[i])->Event_0.request_id == Some(
                        e.request_id->0,
                    );
                assert(records[i]->Event_0.request_id != records[n - 1]->Event_0.request_id);
            }
        }
    }
}

/// What is reported of a page of new and older events: how many there are, and
/// by how many blocks what was shown moved down.
pub proof fn law_page_is_reported(w: WindowView, records: Seq<RecordView>, has_more: Option<bool>)
    requires
        records.len() > 0,
        w.blocks.len() > 0,
        in_order(records),
        forall|i: int| 0 <= i < records.len() ==> unseen(w, (#[trigger] records[i])->Event_0),
        forall|i: int, j: int|
            0 <= i < records.len() && 0 <= j < w.blocks.len() ==> ((
            #[trigger] records[i])->Event_0.seq->0).0 < (#[trigger] w.blocks[j]).seq().0,
        records.len() <= usize::MAX,
        shown(records, records.len()).len() <= usize::MAX,
    ensures
        ({
            let effect = w.effect(IncomingView::Page { records, has_more });
            &&& effect is HeadPrepend
            &&& effect->inserted == records.len()
            &&& effect->anchor_shift == shown(records, records.len()).len()
        }),
{
    let start = w.before_page(records, has_more);
    let n = records.len();
    assert forall|i: int| 0 <= i < records.len() implies unseen(
        start,
        (#[trigger] records[i])->Event_0,
    ) by {
        assert(unseen(w, records[i]->Event_0));
    }
    lemma_all_taken(start, records, n);
    lemma_records_in_order(start, records, n);
    let all = start.with_records(records, n).blocks;
    let fresh = shown(records, n);
    let h = w.blocks[0].seq();
    assert forall|j: int| 0 <= j < fresh.len() implies (#[trigger] all[j]).seq().0 < h.0 by {
        assert(all[j] == fresh[j]);
        let i = choose|i: int|
            0 <= i < n && (#[trigger] records[i])->Event_0.seq->0 == fresh[j].seq();
        assert((records[i]->Event_0.seq->0).0 < w.blocks[0].seq().0);
    }
    assert(all[fresh.len() as int] == w.blocks[0]);
    lemma_leading(all, h.0, fresh.len() as int);
}

} // verus!
