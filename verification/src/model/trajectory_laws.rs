//! Laws of the trajectory window and of folding.

use vstd::prelude::*;

use crate::json::JsonView;
use crate::model::trajectory::{
    args_value, detail_of, diff_of, elapsed, error_of, event_row, first_where, group_of_row,
    hidden, in_turn, is_boundary, last_of_kind, lemma_event_row, lemma_first_where,
    lemma_last_of_kind, lemma_merged_ordered, lemma_records_ordered, lemma_row_ordered,
    lemma_rows_below, lemma_rows_below_bounds, lemma_rows_evicted_wf, lemma_traj_index,
    part_texts, rows_below, starts_folded_turn, tool_hidden, traj_index, traj_opened,
    traj_store_wf, traj_touched, usage_of, user_summary_of, visible, GroupId, RowId, RowView,
    TrajEffect, TrajEntry, TrajInputView, TrajKind, TrajView,
};
use crate::text::joined;
use crate::wire::{
    ChunkDataView, ChunkRowView, EventView, RecordView, SessionLogOffset, SessionSeq,
    ToolChunkView,
};

verus! {

/// Every input keeps a window ascending, within its capacity, and its rows
/// apart by their identities.
pub proof fn law_inputs_keep_invariant(w: TrajView, input: TrajInputView)
    requires
        w.wf(),
        w.next_id + input.size() <= u64::MAX,
    ensures
        w.after(input).wf(),
        w.after(input).cap == w.cap,
        w.next_id <= w.after(input).next_id,
{
    match input {
        TrajInputView::Snapshot { cursor, records, has_more, projections } => {
            let start = w.restarted(cursor, has_more, projections);
            lemma_records_ordered(start, records, records.len(), false);
            lemma_rows_evicted_wf(start.with_records(records, records.len(), false));
        },
        TrajInputView::FollowEvent(e) => {
            if w.accepts(e) {
                lemma_row_ordered(w, e);
                lemma_rows_evicted_wf(w.with_event(e));
            }
        },
        TrajInputView::Chunks(row) => {
            lemma_merged_ordered(w, row);
        },
        TrajInputView::Page { records, has_more } => {
            let start = w.before_page(has_more);
            lemma_records_ordered(start, records, records.len(), true);
            lemma_rows_evicted_wf(start.with_records(records, records.len(), true));
        },
    }
}

/// Whether `r` is a row of `w`, perhaps with chunk rows merged into it since,
/// or a row with an identity that `w` never gave.
pub open spec fn known_or_new(w: TrajView, r: RowView) -> bool {
    r.id.0 >= w.next_id || exists|i: int|
        0 <= i < w.rows.len() && (#[trigger] w.rows[i]).id == r.id && w.rows[i].seq == r.seq
            && w.rows[i].kind == r.kind
}

/// An identity never changes hands: after any input a row either carries an
/// identity that was not given before, or is the row that had it, at the same
/// position and of the same kind.
pub proof fn law_identities_are_never_reused(w: TrajView, input: TrajInputView, k: int)
    requires
        w.wf(),
        w.next_id + input.size() <= u64::MAX,
        0 <= k < w.after(input).rows.len(),
    ensures
        known_or_new(w, w.after(input).rows[k]),
{
    match input {
        TrajInputView::Snapshot { cursor, records, has_more, projections } => {
            let start = w.restarted(cursor, has_more, projections);
            let built = start.with_records(records, records.len(), false);
            lemma_records_known(start, records, records.len(), false);
            let d = if built.rows.len() > built.cap {
                built.rows.len() - built.cap
            } else {
                0
            };
            assert(w.after(input).rows[k] == built.rows[k + d]);
            assert(known_or_new(start, built.rows[k + d]));
        },
        TrajInputView::FollowEvent(e) => {
            if w.accepts(e) {
                lemma_event_known(w, e);
                let built = w.with_event(e);
                let d = if built.rows.len() > built.cap {
                    built.rows.len() - built.cap
                } else {
                    0
                };
                assert(w.after(input).rows[k] == built.rows[k + d]);
                assert(known_or_new(w, built.rows[k + d]));
            } else {
                assert(w.rows[k].id == w.after(input).rows[k].id);
            }
        },
        TrajInputView::Chunks(row) => {
            assert(w.rows[k].id == w.after(input).rows[k].id);
        },
        TrajInputView::Page { records, has_more } => {
            let start = w.before_page(has_more);
            let built = start.with_records(records, records.len(), true);
            lemma_records_known(start, records, records.len(), true);
            let d = if built.rows.len() > built.cap {
                built.rows.len() - built.cap
            } else {
                0
            };
            assert(w.after(input).rows[k] == built.rows[k + d]);
            assert(known_or_new(start, built.rows[k + d]));
            assert(start.rows == w.rows);
        },
    }
}

proof fn lemma_event_known(w: TrajView, e: EventView)
    requires
        w.ordered(),
        e.seq is Some,
    ensures
        forall|k: int|
            0 <= k < w.with_event(e).rows.len() ==> known_or_new(
                w,
                #[trigger] w.with_event(e).rows[k],
            ),
{
    let q = e.seq->0;
    lemma_event_row(e, q, RowId(w.next_id));
    lemma_rows_below_bounds(w.rows, q.0);
    let at = rows_below(w.rows, q.0) as int;
    let out = w.with_event(e);
    assert forall|k: int| 0 <= k < out.rows.len() implies known_or_new(
        w,
        #[trigger] out.rows[k],
    ) by {
        if k < at {
            assert(out.rows[k] == w.rows[k]);
        } else if k > at {
            assert(out.rows[k] == w.rows[k - 1]);
        } else {
            assert(out.rows[k] == event_row(e, q, RowId(w.next_id)));
        }
    }
}

proof fn lemma_records_known(w: TrajView, records: Seq<RecordView>, n: nat, page: bool)
    requires
        w.ordered(),
        n <= records.len(),
        w.next_id + n <= u64::MAX,
    ensures
        forall|k: int|
            0 <= k < w.with_records(records, n, page).rows.len() ==> known_or_new(
                w,
                #[trigger] w.with_records(records, n, page).rows[k],
            ),
    decreases n,
{
    let out = w.with_records(records, n, page);
    if n == 0 {
        assert forall|k: int| 0 <= k < out.rows.len() implies known_or_new(
            w,
            #[trigger] out.rows[k],
        ) by {
            assert(w.rows[k].id == out.rows[k].id);
        }
    } else {
        let before = w.with_records(records, (n - 1) as nat, page);
        lemma_records_known(w, records, (n - 1) as nat, page);
        lemma_records_ordered(w, records, (n - 1) as nat, page);
        match records[n - 1] {
            RecordView::Event(e) => {
                if before.takes(records[n - 1], page) {
                    lemma_event_known(before, e);
                    assert forall|k: int| 0 <= k < out.rows.len() implies known_or_new(
                        w,
                        #[trigger] out.rows[k],
                    ) by {
                        let r = out.rows[k];
                        assert(known_or_new(before, r));
                        if r.id.0 < before.next_id {
                            let i = choose|i: int|
                                0 <= i < before.rows.len() && (#[trigger] before.rows[i]).id == r.id
                                    && before.rows[i].seq == r.seq && before.rows[i].kind == r.kind;
                            assert(known_or_new(w, before.rows[i]));
                        }
                    }
                }
            },
            RecordView::Chunks(row) => {
                assert forall|k: int| 0 <= k < out.rows.len() implies known_or_new(
                    w,
                    #[trigger] out.rows[k],
                ) by {
                    assert(known_or_new(w, before.rows[k]));
                    assert(out.rows[k].id == before.rows[k].id);
                }
            },
        }
    }
}

/// Replaying an event right after it was followed does nothing.
pub proof fn law_replay_is_noop(w: TrajView, e: EventView)
    ensures
        w.after(TrajInputView::FollowEvent(e)).effect(TrajInputView::FollowEvent(e))
            == TrajEffect::Noop,
        w.after(TrajInputView::FollowEvent(e)).after(TrajInputView::FollowEvent(e)) == w.after(
            TrajInputView::FollowEvent(e),
        ),
{
}

/// A request counts once, whatever position it comes with.
pub proof fn law_request_counts_once(w: TrajView, e: EventView, again: EventView)
    requires
        w.accepts(e),
        e.request_id is Some,
        again.request_id == e.request_id,
    ensures
        w.after(TrajInputView::FollowEvent(e)).effect(TrajInputView::FollowEvent(again))
            == TrajEffect::Noop,
{
}

/// A snapshot leaves no residue but the count of identities.
pub proof fn law_snapshot_leaves_no_residue(
    w1: TrajView,
    w2: TrajView,
    cursor: Option<SessionLogOffset>,
    records: Seq<RecordView>,
    has_more: bool,
    projections: Option<JsonView>,
)
    requires
        w1.cap == w2.cap,
        w1.next_id == w2.next_id,
    ensures
        ({
            let input = TrajInputView::Snapshot { cursor, records, has_more, projections };
            w1.after(input) == w2.after(input)
        }),
{
    assert(w1.restarted(cursor, has_more, projections) == w2.restarted(
        cursor,
        has_more,
        projections,
    ));
}

/// A page never brings back what was evicted: an event at or before the last
/// evicted position is refused.
pub proof fn law_evicted_history_stays_out(w: TrajView, e: EventView)
    requires
        e.seq is Some,
        w.evicted_head_seq is Some,
        (e.seq->0).0 <= w.evicted_head_seq->0,
    ensures
        !w.page_accepts(e),
        w.with_record(RecordView::Event(e), true) == w,
{
}

/// With nothing folded every row is visible.
pub proof fn law_unfolded_view_is_whole(rows: Seq<RowView>, n: nat)
    requires
        n <= rows.len(),
    ensures
        visible(rows, Set::<GroupId>::empty(), n) == rows.take(n as int),
    decreases n,
{
    if n > 0 {
        law_unfolded_view_is_whole(rows, (n - 1) as nat);
        assert(!hidden(rows, Set::<GroupId>::empty(), n - 1));
        assert(rows.take(n as int) =~= rows.take(n - 1).push(rows[n - 1]));
    } else {
        assert(rows.take(0) =~= Seq::<RowView>::empty());
    }
}

/// Whatever is folded, the row that starts a turn stays visible.
pub proof fn law_heads_stay_visible(rows: Seq<RowView>, folds: Set<GroupId>, i: int)
    requires
        0 <= i < rows.len(),
        rows[i].kind == TrajKind::TurnStart,
    ensures
        !hidden(rows, folds, i),
{
    if exists|s: int| starts_folded_turn(rows[s], folds) && #[trigger] in_turn(rows, s, i) {
        let s = choose|s: int|
            starts_folded_turn(rows[s], folds) && #[trigger] in_turn(rows, s, i);
        assert(rows[i].kind != TrajKind::TurnStart);
    }
}

/// A fold of steps alone hides nothing but their tool rows: the message that
/// heads a step stays visible.
pub proof fn law_step_folds_hide_tools_only(rows: Seq<RowView>, folds: Set<GroupId>, i: int)
    requires
        0 <= i < rows.len(),
        forall|g: GroupId| folds.contains(g) ==> g is Assistant,
        hidden(rows, folds, i),
    ensures
        rows[i].kind == TrajKind::ToolCall || rows[i].kind == TrajKind::ToolResult,
{
    if !tool_hidden(rows[i], folds) {
        let s = choose|s: int|
            starts_folded_turn(rows[s], folds) && #[trigger] in_turn(rows, s, i);
        assert(folds.contains(GroupId::Turn(rows[s].turn->0)));
    }
}

/// Opening a session keeps the store within its limit and without repetition.
pub proof fn law_touch_keeps_store(
    windows: Seq<TrajEntry>,
    limit: nat,
    id: Seq<char>,
    window: TrajView,
)
    requires
        traj_store_wf(windows, limit),
        limit >= 1,
        window.wf(),
    ensures
        traj_store_wf(traj_touched(windows, limit, id, window), limit),
        traj_touched(windows, limit, id, window).last() == (TrajEntry { id, window }),
        traj_opened(traj_touched(windows, limit, id, window), id, 0) == window,
{
    let k = traj_index(windows, id);
    let out = traj_touched(windows, limit, id, window);
    lemma_traj_index_bounds(windows, id);
    assert forall|i: int| 0 <= i < out.len() - 1 implies (#[trigger] out[i]).id != id && (exists|
        j: int,
    |
        0 <= j < windows.len() && windows[j] == out[i]) by {
        if k < windows.len() {
            if i < k {
                assert(out[i] == windows[i]);
            } else {
                assert(out[i] == windows[i + 1]);
            }
        } else if windows.len() >= limit {
            assert(out[i] == windows[i + 1]);
        } else {
            assert(out[i] == windows[i]);
        }
    }
    assert forall|i: int, j: int| 0 <= i < j < out.len() implies (#[trigger] out[i]).id != (
    #[trigger] out[j]).id by {
        if j < out.len() - 1 {
            if k < windows.len() {
                let a = if i < k {
                    i
                } else {
                    i + 1
                };
                let b = if j < k {
                    j
                } else {
                    j + 1
                };
                assert(out[i] == windows[a] && out[j] == windows[b]);
            } else if windows.len() >= limit {
                assert(out[i] == windows[i + 1] && out[j] == windows[j + 1]);
            } else {
                assert(out[i] == windows[i] && out[j] == windows[j]);
            }
        }
    }
    lemma_traj_index(out, id, out.len() - 1);
}

proof fn lemma_traj_index_bounds(windows: Seq<TrajEntry>, id: Seq<char>)
    ensures
        0 <= traj_index(windows, id) <= windows.len(),
        traj_index(windows, id) < windows.len() ==> windows[traj_index(windows, id)].id == id,
        forall|j: int| 0 <= j < traj_index(windows, id) ==> (#[trigger] windows[j]).id != id,
    decreases windows.len(),
{
    if windows.len() > 0 && windows[0].id != id {
        let rest = windows.skip(1);
        lemma_traj_index_bounds(rest, id);
        assert forall|j: int| 0 <= j < traj_index(windows, id) implies (#[trigger] windows[j]).id
            != id by {
            if j > 0 {
                assert(rest[j - 1] == windows[j]);
            }
        }
    }
}

/// The detail of a tool call shows its own result: text, error, diff and time
/// of completion are those of the first result in the window that answers the
/// very call.
pub proof fn law_call_detail_shows_its_own_result(row: RowView, rows: Seq<RowView>, i: int)
    requires
        row.kind == TrajKind::ToolCall,
        row.call_id is Some,
        0 <= i < rows.len(),
        rows[i].kind == TrajKind::ToolResult,
        rows[i].call_id == row.call_id,
        forall|j: int|
            0 <= j < i ==> !((#[trigger] rows[j]).kind == TrajKind::ToolResult && rows[j].call_id
                == row.call_id),
    ensures
        ({
            let d = detail_of(row, rows)->0;
            &&& detail_of(row, rows) is Some
            &&& d.result_text == Some(rows[i].summary)
            &&& d.error == rows[i].error
            &&& rows[i].meta is None ==> d.diff is None
            &&& rows[i].meta is Some && rows[i].meta->0.get("diff"@) is None ==> d.diff is None
            &&& forall|t: Seq<char>|
                rows[i].meta is Some && rows[i].meta->0.get("diff"@) == Some(JsonView::Str(t))
                    ==> d.diff == Some(t)
            &&& rows[i].time is Some ==> d.timing is Some && d.timing->0.completed == rows[i].time
        }),
{
    let id = row.call_id->0;
    let p = |x: RowView| x.kind == TrajKind::ToolResult && x.call_id == Some(id);
    assert forall|j: int| 0 <= j < i implies !p(#[trigger] rows[j]) by {}
    lemma_first_where(rows, p, i);
}

/// A result that the detail of a tool call shows is one of the window whose
/// call id is that of the call: where there is none, neither text, error, diff
/// nor completion is shown.
pub proof fn law_call_detail_shows_no_other_result(row: RowView, rows: Seq<RowView>)
    requires
        row.kind == TrajKind::ToolCall,
    ensures
        ({
            let d = detail_of(row, rows)->0;
            &&& detail_of(row, rows) is Some
            &&& d.result_text is Some || d.error is Some || d.diff is Some || (d.timing is Some
                && d.timing->0.completed is Some) ==> exists|i: int|
                0 <= i < rows.len() && (#[trigger] rows[i]).kind == TrajKind::ToolResult
                    && row.call_id is Some && rows[i].call_id == row.call_id && d.result_text
                    == Some(rows[i].summary) && d.error == rows[i].error && (d.timing is Some
                    ==> d.timing->0.completed == rows[i].time)
        }),
{
    if row.call_id is Some {
        let id = row.call_id->0;
        let p = |x: RowView| x.kind == TrajKind::ToolResult && x.call_id == Some(id);
        lemma_first_exists(rows, p);
    }
}

/// Either no row satisfies a condition, or one is the first that does.
proof fn lemma_first_exists(rows: Seq<RowView>, p: spec_fn(RowView) -> bool)
    ensures
        first_where(rows, p) is None ==> forall|j: int|
            0 <= j < rows.len() ==> !p(#[trigger] rows[j]),
        first_where(rows, p) is Some ==> exists|i: int|
            0 <= i < rows.len() && (#[trigger] rows[i]) == first_where(rows, p)->0 && p(rows[i])
                && forall|j: int| 0 <= j < i ==> !p(#[trigger] rows[j]),
    decreases rows.len(),
{
    if rows.len() > 0 {
        if p(rows[0]) {
            assert(rows[0] == first_where(rows, p)->0);
        } else {
            let rest = rows.skip(1);
            lemma_first_exists(rest, p);
            if first_where(rest, p) is Some {
                let i = choose|i: int|
                    0 <= i < rest.len() && (#[trigger] rest[i]) == first_where(rest, p)->0 && p(
                        rest[i],
                    ) && forall|j: int| 0 <= j < i ==> !p(#[trigger] rest[j]);
                assert(rows[i + 1] == rest[i]);
                assert forall|j: int| 0 <= j < i + 1 implies !p(#[trigger] rows[j]) by {
                    if j > 0 {
                        assert(rest[j - 1] == rows[j]);
                    }
                }
            } else {
                assert forall|j: int| 0 <= j < rows.len() implies !p(#[trigger] rows[j]) by {
                    if j > 0 {
                        assert(rest[j - 1] == rows[j]);
                    }
                }
            }
        }
    }
}

/// The detail of a tool call names the tool and shows its arguments where it
/// has some; it is about the row itself.
pub proof fn law_call_detail_names_the_tool(row: RowView, rows: Seq<RowView>)
    requires
        row.kind == TrajKind::ToolCall,
    ensures
        ({
            let d = detail_of(row, rows)->0;
            &&& d.source_seq == row.seq
            &&& d.source_kind == TrajKind::ToolCall
            &&& row.name is Some ==> d.title == "tool/call "@ + row.name->0
            &&& row.name is None ==> d.title == "tool/call "@ + "tool"@
            &&& d.args_text is Some <==> row.args_raw is Some
            &&& d.source_blocks.len() == 0
        }),
{
}

/// The detail of a tool result shows that result; it is complete when it came.
pub proof fn law_result_detail_shows_itself(row: RowView, rows: Seq<RowView>)
    requires
        row.kind == TrajKind::ToolResult,
    ensures
        ({
            let d = detail_of(row, rows)->0;
            &&& detail_of(row, rows) is Some
            &&& d.source_seq == row.seq
            &&& d.source_kind == TrajKind::ToolResult
            &&& d.args_text is None
            &&& d.result_text == Some(row.summary)
            &&& d.error == row.error
            &&& forall|t: Seq<char>|
                row.meta is Some && row.meta->0.get("diff"@) == Some(JsonView::Str(t)) ==> d.diff
                    == Some(t)
            &&& row.meta is None ==> d.diff is None
            &&& d.timing is Some <==> row.time is Some
            &&& d.timing is Some ==> d.timing->0.started_at == row.time
                && d.timing->0.completed == row.time && d.timing->0.elapsed_ms == Some(0u64)
        }),
{
}

/// The detail of a message shows its text and its own usage, and is complete
/// when its step ended.
pub proof fn law_message_detail_shows_itself(row: RowView, rows: Seq<RowView>, i: int)
    requires
        row.kind == TrajKind::AssistantMessage,
    ensures
        ({
            let d = detail_of(row, rows)->0;
            &&& detail_of(row, rows) is Some
            &&& d.source_seq == row.seq
            &&& d.source_kind == TrajKind::AssistantMessage
            &&& d.usage == row.usage
            &&& d.error is None && d.diff is None && d.args_text is None
            &&& row.summary.len() > 0 ==> d.result_text == Some(row.summary)
                && d.source_blocks.len() == 1 && d.source_blocks[0] == row.summary
            &&& row.summary.len() == 0 ==> d.result_text is None && d.source_blocks.len() == 0
            &&& row.time is Some ==> d.timing is Some && d.timing->0.started_at == row.time
            &&& row.time is Some && 0 <= i < rows.len() && rows[i].kind == TrajKind::StepEnd
                && rows[i].turn == row.turn && rows[i].step == row.step && (forall|j: int|
                0 <= j < i ==> !((#[trigger] rows[j]).kind == TrajKind::StepEnd && rows[j].turn
                    == row.turn && rows[j].step == row.step)) ==> d.timing->0.completed
                == rows[i].time
        }),
{
    let p = |x: RowView|
        x.turn == row.turn && x.step == row.step && x.kind == TrajKind::StepEnd;
    if 0 <= i < rows.len() && rows[i].kind == TrajKind::StepEnd && rows[i].turn == row.turn
        && rows[i].step == row.step && (forall|j: int|
        0 <= j < i ==> !((#[trigger] rows[j]).kind == TrajKind::StepEnd && rows[j].turn == row.turn
            && rows[j].step == row.step)) {
        lemma_first_where(rows, p, i);
    }
}

/// The times in a detail are those of its own step: the step began when its
/// first start row says, the first word came with its first message. What has
/// passed is the time from start to completion, where they are in order. The
/// usage of a tool row is that of the first message of its step.
pub proof fn law_detail_times_are_of_its_step(row: RowView, rows: Seq<RowView>, i: int, m: int)
    requires
        row.kind == TrajKind::ToolCall || row.kind == TrajKind::ToolResult || row.kind
            == TrajKind::AssistantMessage,
        row.time is Some,
        0 <= i < rows.len(),
        rows[i].kind == TrajKind::StepStart,
        rows[i].turn == row.turn,
        rows[i].step == row.step,
        forall|j: int|
            0 <= j < i ==> !((#[trigger] rows[j]).kind == TrajKind::StepStart && rows[j].turn
                == row.turn && rows[j].step == row.step),
        0 <= m < rows.len(),
        rows[m].kind == TrajKind::AssistantMessage,
        rows[m].turn == row.turn,
        rows[m].step == row.step,
        forall|j: int|
            0 <= j < m ==> !((#[trigger] rows[j]).kind == TrajKind::AssistantMessage
                && rows[j].turn == row.turn && rows[j].step == row.step),
    ensures
        ({
            let d = detail_of(row, rows)->0;
            let t = d.timing->0;
            &&& d.timing is Some
            &&& t.started_at == row.time
            &&& t.step_start == rows[i].time
            &&& t.first_token == rows[m].time
            &&& t.completed is Some && t.completed->0 >= row.time->0 ==> t.elapsed_ms is Some
                && t.elapsed_ms->0 == t.completed->0 - row.time->0
            &&& t.completed is None || t.completed->0 < row.time->0 ==> t.elapsed_ms is None
            &&& row.kind != TrajKind::AssistantMessage ==> d.usage == rows[m].usage
        }),
{
    let p = |x: RowView|
        x.turn == row.turn && x.step == row.step && x.kind == TrajKind::StepStart;
    let q = |x: RowView|
        x.turn == row.turn && x.step == row.step && x.kind == TrajKind::AssistantMessage;
    lemma_first_where(rows, p, i);
    lemma_first_where(rows, q, m);
}

/// Only tool rows and messages have a detail.
pub proof fn law_other_rows_have_no_detail(row: RowView, rows: Seq<RowView>)
    requires
        row.kind != TrajKind::ToolCall,
        row.kind != TrajKind::ToolResult,
        row.kind != TrajKind::AssistantMessage,
    ensures
        detail_of(row, rows) is None,
{
}

/// Text that streams in is appended to the summary of the last message, and
/// nothing else changes.
pub proof fn law_text_chunks_extend_the_message(w: TrajView, d: ChunkDataView, i: int)
    requires
        0 <= i < w.rows.len(),
        w.rows[i].kind == TrajKind::AssistantMessage,
        forall|j: int|
            i < j < w.rows.len() ==> (#[trigger] w.rows[j]).kind != TrajKind::AssistantMessage,
    ensures
        ({
            let after = w.after(TrajInputView::Chunks(ChunkRowView::TextChunks(d)));
            let had = w.rows[i].summary;
            &&& after.rows.len() == w.rows.len()
            &&& had.is_prefix_of(after.rows[i].summary)
            &&& after.rows[i].summary.skip(had.len() as int) == joined(d.texts, ""@)
            &&& after.rows[i] == (RowView { summary: after.rows[i].summary, ..w.rows[i] })
            &&& forall|j: int|
                0 <= j < w.rows.len() && j != i ==> after.rows[j] == #[trigger] w.rows[j]
            &&& after == (TrajView { rows: after.rows, ..w })
            &&& w.effect(TrajInputView::Chunks(ChunkRowView::TextChunks(d)))
                == (TrajEffect::TailAppended { appended: 0 })
        }),
{
    lemma_last_of_kind(w.rows, TrajKind::AssistantMessage);
    assert(last_of_kind(w.rows, TrajKind::AssistantMessage) == i);
    let after = w.after(TrajInputView::Chunks(ChunkRowView::TextChunks(d)));
    assert(after.rows[i].summary.skip(w.rows[i].summary.len() as int) =~= joined(d.texts, ""@));
}

/// Reasoning that streams in is noted on the last message; it stands in for a
/// text only where there is none yet, and nothing else changes.
pub proof fn law_reasoning_chunks_never_replace_text(w: TrajView, d: ChunkDataView, i: int)
    requires
        0 <= i < w.rows.len(),
        w.rows[i].kind == TrajKind::AssistantMessage,
        forall|j: int|
            i < j < w.rows.len() ==> (#[trigger] w.rows[j]).kind != TrajKind::AssistantMessage,
    ensures
        ({
            let after = w.after(TrajInputView::Chunks(ChunkRowView::ReasoningChunks(d)));
            &&& after.rows.len() == w.rows.len()
            &&& after.rows[i].has_reasoning
            &&& w.rows[i].summary.len() > 0 ==> after.rows[i].summary == w.rows[i].summary
            &&& w.rows[i].summary.len() == 0 ==> after.rows[i].summary == joined(d.texts, ""@)
            &&& after.rows[i] == (RowView {
                summary: after.rows[i].summary,
                has_reasoning: true,
                ..w.rows[i]
            })
            &&& forall|j: int|
                0 <= j < w.rows.len() && j != i ==> after.rows[j] == #[trigger] w.rows[j]
            &&& after == (TrajView { rows: after.rows, ..w })
        }),
{
    lemma_last_of_kind(w.rows, TrajKind::AssistantMessage);
    assert(last_of_kind(w.rows, TrajKind::AssistantMessage) == i);
}

/// A tool call that streams in fills in the name and the arguments that the
/// last tool call lacks, and replaces neither.
pub proof fn law_tool_chunks_fill_in_only(w: TrajView, d: ToolChunkView, i: int)
    requires
        0 <= i < w.rows.len(),
        w.rows[i].kind == TrajKind::ToolCall,
        forall|j: int| i < j < w.rows.len() ==> (#[trigger] w.rows[j]).kind != TrajKind::ToolCall,
    ensures
        ({
            let after = w.after(TrajInputView::Chunks(ChunkRowView::ToolCallChunks(d)));
            &&& after.rows.len() == w.rows.len()
            &&& w.rows[i].name is Some ==> after.rows[i].name == w.rows[i].name
            &&& w.rows[i].name is None ==> after.rows[i].name == d.name
            &&& w.rows[i].args_raw is Some ==> after.rows[i].args_raw == w.rows[i].args_raw
            &&& w.rows[i].args_raw is None ==> after.rows[i].args_raw == d.args
            &&& after.rows[i] == (RowView {
                name: after.rows[i].name,
                args_raw: after.rows[i].args_raw,
                ..w.rows[i]
            })
            &&& forall|j: int|
                0 <= j < w.rows.len() && j != i ==> after.rows[j] == #[trigger] w.rows[j]
            &&& after == (TrajView { rows: after.rows, ..w })
        }),
{
    lemma_last_of_kind(w.rows, TrajKind::ToolCall);
    assert(last_of_kind(w.rows, TrajKind::ToolCall) == i);
}

/// Chunk rows without a row to belong to change nothing, and unknown ones
/// never do.
pub proof fn law_chunks_need_a_row(w: TrajView, row: ChunkRowView)
    requires
        row is Unknown || (row is ToolCallChunks && forall|j: int|
            0 <= j < w.rows.len() ==> (#[trigger] w.rows[j]).kind != TrajKind::ToolCall) || ((row
            is TextChunks || row is ReasoningChunks) && forall|j: int|
            0 <= j < w.rows.len() ==> (#[trigger] w.rows[j]).kind != TrajKind::AssistantMessage),
    ensures
        w.after(TrajInputView::Chunks(row)) == w,
        w.effect(TrajInputView::Chunks(row)) == TrajEffect::Noop,
{
    lemma_last_of_kind(w.rows, TrajKind::AssistantMessage);
    lemma_last_of_kind(w.rows, TrajKind::ToolCall);
}

/// Whether an event is new to a window: it has a position that was not seen,
/// and a request that was not seen, if it has one.
pub open spec fn unseen(w: TrajView, e: EventView) -> bool {
    &&& e.seq is Some
    &&& !w.seen_seq.contains((e.seq->0).0)
    &&& e.request_id is Some ==> !w.seen_request.contains(e.request_id->0)
}

/// A new event adds one row at its position, with an identity of its own;
/// every other row stays, but for the oldest one where the window is full, and
/// its position is remembered then.
pub proof fn law_event_adds_one_row(w: TrajView, e: EventView, k: int)
    requires
        w.wf(),
        w.next_id < u64::MAX,
        unseen(w, e),
        0 <= k <= w.rows.len(),
        forall|i: int| 0 <= i < k ==> (#[trigger] w.rows[i]).seq.0 < (e.seq->0).0,
        forall|i: int| k <= i < w.rows.len() ==> (#[trigger] w.rows[i]).seq.0 >= (e.seq->0).0,
    ensures
        ({
            let after = w.after(TrajInputView::FollowEvent(e));
            let new = event_row(e, e.seq->0, RowId(w.next_id));
            let gone: int = if w.rows.len() + 1 > w.cap {
                1
            } else {
                0
            };
            &&& after.rows.len() == w.rows.len() + 1 - gone
            &&& forall|i: int| gone <= i < k ==> after.rows[i - gone] == #[trigger] w.rows[i]
            &&& gone <= k ==> after.rows[k - gone] == new
            &&& forall|i: int|
                k <= i < w.rows.len() ==> after.rows[i + 1 - gone] == #[trigger] w.rows[i]
            &&& new.id == RowId(w.next_id) && new.seq == e.seq->0
            &&& forall|i: int| 0 <= i < w.rows.len() ==> (#[trigger] w.rows[i]).id != new.id
            &&& after.seen_seq.contains((e.seq->0).0)
            &&& gone == 0 ==> after.evicted_head_seq == w.evicted_head_seq
            &&& gone == 1 ==> after.evicted_head_seq is Some && (after.evicted_head_seq->0
                == if k == 0 {
                (e.seq->0).0
            } else {
                w.rows[0].seq.0
            })
            &&& after.cursor == w.cursor
            &&& after.projections == w.projections
            &&& after.head_has_more == w.head_has_more
            &&& w.effect(TrajInputView::FollowEvent(e)) == (TrajEffect::TailAppended {
                appended: 1,
            })
        }),
{
    lemma_rows_below(w.rows, (e.seq->0).0, k);
    lemma_event_row(e, e.seq->0, RowId(w.next_id));
}

/// A repeated event, and one without a position, changes nothing.
pub proof fn law_repeated_event_changes_nothing(w: TrajView, e: EventView)
    requires
        !unseen(w, e),
    ensures
        w.after(TrajInputView::FollowEvent(e)) == w,
        w.effect(TrajInputView::FollowEvent(e)) == TrajEffect::Noop,
{
}

/// Whether records are events at ascending positions, each of a request of its
/// own, if of any.
pub open spec fn in_order(records: Seq<RecordView>) -> bool {
    &&& forall|i: int|
        0 <= i < records.len() ==> (#[trigger] records[i]) is Event && records[i]->Event_0.seq
            is Some
    &&& forall|i: int, j: int|
        0 <= i < j < records.len() ==> ((#[trigger] records[i])->Event_0.seq->0).0 < ((
        #[trigger] records[j])->Event_0.seq->0).0
    &&& forall|i: int, j: int|
        0 <= i < j < records.len() && (#[trigger] records[i])->Event_0.request_id is Some
            ==> records[i]->Event_0.request_id != (#[trigger] records[j])->Event_0.request_id
}

/// The rows of the first `n` records, with identities from `first` on.
pub open spec fn rows_of_records(records: Seq<RecordView>, n: nat, first: u64) -> Seq<RowView> {
    Seq::new(
        n,
        |i: int|
            event_row(
                records[i]->Event_0,
                records[i]->Event_0.seq->0,
                RowId((first + i) as u64),
            ),
    )
}

proof fn lemma_rows_in_order(w: TrajView, records: Seq<RecordView>, n: nat, page: bool)
    requires
        in_order(records),
        n <= records.len(),
        w.next_id + records.len() <= u64::MAX,
        forall|i: int| 0 <= i < records.len() ==> unseen(w, (#[trigger] records[i])->Event_0),
        forall|i: int|
            0 <= i < records.len() && w.evicted_head_seq is Some ==> ((
            #[trigger] records[i])->Event_0.seq->0).0 > w.evicted_head_seq->0,
        forall|i: int, j: int|
            0 <= i < records.len() && 0 <= j < w.rows.len() ==> ((
            #[trigger] records[i])->Event_0.seq->0).0 < (#[trigger] w.rows[j]).seq.0,
    ensures
        ({
            let r = w.with_records(records, n, page);
            &&& r.rows == rows_of_records(records, n, w.next_id) + w.rows
            &&& r.next_id == w.next_id + n
            &&& r.evicted_head_seq == w.evicted_head_seq
            &&& r.cap == w.cap
            &&& w.taken(records, n, page) == n
            &&& forall|q: u64|
                r.seen_seq.contains(q) ==> w.seen_seq.contains(q) || exists|i: int|
                    0 <= i < n && ((#[trigger] records[i])->Event_0.seq->0).0 == q
            &&& forall|id: Seq<char>|
                r.seen_request.contains(id) ==> w.seen_request.contains(id) || exists|i: int|
                    0 <= i < n && (#[trigger] records[i])->Event_0.request_id == Some(id)
        }),
    decreases n,
{
    if n > 0 {
        let m = (n - 1) as nat;
        lemma_rows_in_order(w, records, m, page);
        let r = w.with_records(records, m, page);
        let e = records[n - 1]->Event_0;
        let q = e.seq->0;
        assert(unseen(w, records[n - 1]->Event_0));
        assert(r.accepts(e)) by {
            if r.seen_seq.contains(q.0) {
                let i = choose|i: int|
                    0 <= i < m && ((#[trigger] records[i])->Event_0.seq->0).0 == q.0;
                assert((records[i]->Event_0.seq->0).0 < (records[n - 1]->Event_0.seq->0).0);
            }
            if e.request_id is Some && r.seen_request.contains(e.request_id->0) {
                let i = choose|i: int|
                    0 <= i < m && (#[trigger] records[i])->Event_0.request_id == Some(
                        e.request_id->0,
                    );
                assert(records[i]->Event_0.request_id != records[n - 1]->Event_0.request_id);
            }
        }
        assert(r.takes(records[n - 1], page));
        let before = rows_of_records(records, m, w.next_id);
        assert forall|j: int| 0 <= j < m implies (#[trigger] r.rows[j]).seq.0 < q.0 by {
            assert(r.rows[j] == before[j]);
            lemma_event_row(
                records[j]->Event_0,
                records[j]->Event_0.seq->0,
                RowId((w.next_id + j) as u64),
            );
            assert((records[j]->Event_0.seq->0).0 < (records[n - 1]->Event_0.seq->0).0);
        }
        if m < r.rows.len() {
            assert(r.rows[m as int] == w.rows[0]);
            assert((records[n - 1]->Event_0.seq->0).0 < w.rows[0].seq.0);
        }
        lemma_rows_below(r.rows, q.0, m as int);
        assert(w.with_records(records, n, page) == r.with_event(e));
        assert(r.with_event(e).rows =~= rows_of_records(records, n, w.next_id) + w.rows);
        assert forall|p: u64| w.with_records(records, n, page).seen_seq.contains(p) implies
            w.seen_seq.contains(p) || exists|i: int|
            0 <= i < n && ((#[trigger] records[i])->Event_0.seq->0).0 == p by {
            if p == q.0 {
                assert((records[n - 1]->Event_0.seq->0).0 == p);
            }
        }
        assert forall|id: Seq<char>|
            w.with_records(records, n, page).seen_request.contains(id) implies
            w.seen_request.contains(id) || exists|i: int|
            0 <= i < n && (#[trigger] records[i])->Event_0.request_id == Some(id) by {
            if e.request_id == Some(id) {
                assert(records[n - 1]->Event_0.request_id == Some(id));
            }
        }
    } else {
        assert(rows_of_records(records, 0, w.next_id) + w.rows =~= w.rows);
    }
}

/// A snapshot of events in order has a row for every one of them, in that
/// order, up to the capacity, of which the newest stay; it is taken over with
/// its place, its projections and whether there is older history.
pub proof fn law_snapshot_shows_its_events(
    w: TrajView,
    cursor: Option<SessionLogOffset>,
    records: Seq<RecordView>,
    has_more: bool,
    projections: JsonView,
)
    requires
        in_order(records),
        w.next_id + records.len() <= u64::MAX,
    ensures
        ({
            let after = w.after(
                TrajInputView::Snapshot {
                    cursor,
                    records,
                    has_more,
                    projections: Some(projections),
                },
            );
            let all = rows_of_records(records, records.len(), w.next_id);
            &&& all.len() <= w.cap ==> after.rows == all && after.evicted_head_seq is None
            &&& all.len() > w.cap ==> after.rows == all.skip(all.len() - w.cap)
            &&& after.cursor == cursor
            &&& after.head_has_more == has_more
            &&& after.projections == projections
        }),
{
    let start = w.restarted(cursor, has_more, Some(projections));
    assert forall|i: int| 0 <= i < records.len() implies unseen(
        start,
        (#[trigger] records[i])->Event_0,
    ) by {}
    lemma_rows_in_order(start, records, records.len(), false);
    lemma_records_keep(start, records, records.len(), false);
    assert(rows_of_records(records, records.len(), w.next_id) + start.rows =~= rows_of_records(
        records,
        records.len(),
        w.next_id,
    ));
}

/// Records change rows and what was seen, nothing else.
proof fn lemma_records_keep(w: TrajView, records: Seq<RecordView>, n: nat, page: bool)
    ensures
        ({
            let r = w.with_records(records, n, page);
            &&& r.cap == w.cap
            &&& r.cursor == w.cursor
            &&& r.head_has_more == w.head_has_more
            &&& r.projections == w.projections
        }),
    decreases n,
{
    if n > 0 && n <= records.len() {
        lemma_records_keep(w, records, (n - 1) as nat, page);
    }
}

/// A page of new and older events in order has a row for every one of them
/// ahead of the rows that were there, as far as the capacity allows, and tells
/// how many joined.
pub proof fn law_page_joins_at_the_head(
    w: TrajView,
    records: Seq<RecordView>,
    has_more: Option<bool>,
)
    requires
        in_order(records),
        records.len() > 0,
        records.len() <= usize::MAX,
        w.next_id + records.len() <= u64::MAX,
        forall|i: int| 0 <= i < records.len() ==> unseen(w, (#[trigger] records[i])->Event_0),
        forall|i: int|
            0 <= i < records.len() && w.evicted_head_seq is Some ==> ((
            #[trigger] records[i])->Event_0.seq->0).0 > w.evicted_head_seq->0,
        forall|i: int, j: int|
            0 <= i < records.len() && 0 <= j < w.rows.len() ==> ((
            #[trigger] records[i])->Event_0.seq->0).0 < (#[trigger] w.rows[j]).seq.0,
    ensures
        ({
            let after = w.after(TrajInputView::Page { records, has_more });
            let effect = w.effect(TrajInputView::Page { records, has_more });
            let all = rows_of_records(records, records.len(), w.next_id) + w.rows;
            &&& all.len() <= w.cap ==> after.rows == all
            &&& all.len() > w.cap ==> after.rows == all.skip(all.len() - w.cap)
            &&& has_more is Some ==> after.head_has_more == has_more->0
            &&& has_more is None ==> after.head_has_more == w.head_has_more
            &&& effect is HeadPrepend
            &&& effect->inserted == records.len()
            &&& w.rows.len() > 0 ==> effect->anchor_shift == records.len()
        }),
{
    let start = w.before_page(has_more);
    assert forall|i: int| 0 <= i < records.len() implies unseen(
        start,
        (#[trigger] records[i])->Event_0,
    ) by {
        assert(unseen(w, records[i]->Event_0));
    }
    lemma_rows_in_order(start, records, records.len(), true);
    lemma_records_keep(start, records, records.len(), true);
    let built = start.with_records(records, records.len(), true);
    let ahead = rows_of_records(records, records.len(), w.next_id);
    if w.rows.len() > 0 {
        let n = records.len() as int;
        assert(built.rows[n] == w.rows[0]);
        assert forall|j: int| 0 <= j < n implies (#[trigger] built.rows[j]).seq.0
            < w.rows[0].seq.0 by {
            assert(built.rows[j] == ahead[j]);
            lemma_event_row(
                records[j]->Event_0,
                records[j]->Event_0.seq->0,
                RowId((w.next_id + j) as u64),
            );
            assert((records[j]->Event_0.seq->0).0 < w.rows[0].seq.0);
        }
        lemma_rows_below(built.rows, w.rows[0].seq.0, n);
    }
}

/// A folded turn hides every row behind its start, its end included.
pub proof fn law_folded_turn_hides_its_rows(
    rows: Seq<RowView>,
    folds: Set<GroupId>,
    s: int,
    e: int,
    i: int,
)
    requires
        0 <= s < i <= e < rows.len(),
        rows[s].kind == TrajKind::TurnStart,
        rows[s].turn is Some,
        folds.contains(GroupId::Turn(rows[s].turn->0)),
        rows[e].kind == TrajKind::TurnEnd,
        forall|b: int|
            s < b < e ==> (#[trigger] rows[b]).kind != TrajKind::TurnStart && rows[b].kind
                != TrajKind::TurnEnd,
    ensures
        hidden(rows, folds, i),
{
    assert(starts_folded_turn(rows[s], folds) && in_turn(rows, s, i)) by {
        assert forall|b: int|
            s < b < rows.len() && is_boundary(#[trigger] rows[b]) && (forall|c: int|
                s < c < b ==> !is_boundary(#[trigger] rows[c])) implies rows[b].kind
            == TrajKind::TurnEnd by {
            if b > e {
                assert(is_boundary(rows[e]));
            }
        }
    }
}

/// The tools of a folded step are hidden, and no tool of another step is by it.
pub proof fn law_folded_step_hides_its_tools(
    rows: Seq<RowView>,
    turn: u64,
    step: u64,
    i: int,
)
    requires
        0 <= i < rows.len(),
    ensures
        hidden(rows, set![GroupId::Assistant { turn, step }], i) <==> (rows[i].kind
            == TrajKind::ToolCall || rows[i].kind == TrajKind::ToolResult) && rows[i].turn
            == Some(turn) && rows[i].step == Some(step),
{
    let folds = set![GroupId::Assistant { turn, step }];
    if exists|s: int| starts_folded_turn(rows[s], folds) && #[trigger] in_turn(rows, s, i) {
        let s = choose|s: int|
            starts_folded_turn(rows[s], folds) && #[trigger] in_turn(rows, s, i);
        assert(folds.contains(GroupId::Turn(rows[s].turn->0)));
    }
}

/// A row that no folded turn and no folded step covers is visible: every turn
/// that was folded before it has ended before it, and it is no tool of a folded
/// step.
pub proof fn law_uncovered_rows_stay_visible(rows: Seq<RowView>, folds: Set<GroupId>, i: int)
    requires
        0 <= i < rows.len(),
        rows[i].kind == TrajKind::ToolCall || rows[i].kind == TrajKind::ToolResult ==> rows[i].turn
            is None || rows[i].step is None || !folds.contains(
            GroupId::Assistant { turn: rows[i].turn->0, step: rows[i].step->0 },
        ),
        forall|s: int|
            0 <= s < i && (#[trigger] rows[s]).kind == TrajKind::TurnStart && rows[s].turn is Some
                && folds.contains(GroupId::Turn(rows[s].turn->0)) ==> exists|e: int|
                s < e < i && (#[trigger] rows[e]).kind == TrajKind::TurnEnd,
    ensures
        !hidden(rows, folds, i),
{
    if exists|s: int| starts_folded_turn(rows[s], folds) && #[trigger] in_turn(rows, s, i) {
        let s = choose|s: int|
            starts_folded_turn(rows[s], folds) && #[trigger] in_turn(rows, s, i);
        assert(rows[s].kind == TrajKind::TurnStart);
        let e = choose|e: int| s < e < i && (#[trigger] rows[e]).kind == TrajKind::TurnEnd;
        assert(is_boundary(rows[e]));
    }
}

/// What is visible keeps its order, and nothing visible is left out: a row that
/// is not hidden stands behind exactly the visible rows before it.
pub proof fn law_visible_rows_keep_their_order(
    rows: Seq<RowView>,
    folds: Set<GroupId>,
    n: nat,
    i: nat,
)
    requires
        i < n <= rows.len(),
    ensures
        hidden(rows, folds, i as int) ==> visible(rows, folds, (i + 1) as nat) == visible(
            rows,
            folds,
            i,
        ),
        !hidden(rows, folds, i as int) ==> visible(rows, folds, i).len() < visible(
            rows,
            folds,
            n,
        ).len() && visible(rows, folds, n)[visible(rows, folds, i).len() as int] == rows[i as int],
        visible(rows, folds, i).is_prefix_of(visible(rows, folds, n)),
        visible(rows, folds, n).len() <= n,
    decreases n,
{
    if i + 1 < n {
        law_visible_rows_keep_their_order(rows, folds, (n - 1) as nat, i);
    } else {
        lemma_visible_len(rows, folds, i);
    }
}

proof fn lemma_visible_len(rows: Seq<RowView>, folds: Set<GroupId>, n: nat)
    ensures
        visible(rows, folds, n).len() <= n,
    decreases n,
{
    if n > 0 && n <= rows.len() {
        lemma_visible_len(rows, folds, (n - 1) as nat);
    }
}

/// The boundaries of a turn fold with the turn, messages and tools with their
/// step, and other rows with nothing.
pub proof fn law_rows_fold_with_their_group(r: RowView)
    ensures
        (r.kind == TrajKind::TurnStart || r.kind == TrajKind::TurnEnd) && r.turn is Some
            ==> group_of_row(r) == Some(GroupId::Turn(r.turn->0)),
        (r.kind == TrajKind::AssistantMessage || r.kind == TrajKind::ToolCall || r.kind
            == TrajKind::ToolResult) && r.turn is Some && r.step is Some ==> group_of_row(r)
            == Some(GroupId::Assistant { turn: r.turn->0, step: r.step->0 }),
        group_of_row(r) is Some ==> r.turn is Some && (r.kind == TrajKind::TurnStart || r.kind
            == TrajKind::TurnEnd || r.kind == TrajKind::AssistantMessage || r.kind
            == TrajKind::ToolCall || r.kind == TrajKind::ToolResult),
{
}

/// Every event has the row that its type asks for, with its time and with what
/// its payload says of turn, step and call.
pub proof fn law_events_have_the_rows_of_their_type(e: EventView, seq: SessionSeq, id: RowId)
    ensures
        ({
            let r = event_row(e, seq, id);
            let v = e.payload();
            let t = e.event_type;
            &&& r.id == id && r.seq == seq && r.time == e.time
            &&& t == "turn/start"@ ==> r.kind == TrajKind::TurnStart && r.turn == v.u64_at(
                "turn"@,
            ) && r.reason == v.text_at("reason"@)
            &&& t == "turn/end"@ ==> r.kind == TrajKind::TurnEnd && r.turn == v.u64_at("turn"@)
                && r.reason == v.text_at("reason"@) && (r.error is Some <==> v.get("error"@)
                is Some)
            &&& t == "step/start"@ ==> r.kind == TrajKind::StepStart && r.turn == v.u64_at(
                "turn"@,
            ) && r.step == v.u64_at("step"@)
            &&& t == "step/end"@ ==> r.kind == TrajKind::StepEnd && r.turn == v.u64_at("turn"@)
                && r.step == v.u64_at("step"@)
            &&& t == "user/message"@ ==> r.kind == TrajKind::UserMessage && r.summary.len() <= 80
            &&& t == "assistant/message"@ ==> r.kind == TrajKind::AssistantMessage && r.turn
                == v.u64_at("turn"@) && r.step == v.u64_at("step"@) && !r.has_reasoning && (
            v.text_at("content"@) is Some ==> r.summary == v.text_at("content"@)->0) && (r.usage
                is Some <==> v.get("usage"@) is Some)
            &&& t == "tool/call"@ ==> r.kind == TrajKind::ToolCall && r.turn == v.u64_at("turn"@)
                && r.step == v.u64_at("step"@) && r.name == v.text_at("name"@) && (v.text_at(
                "callId"@,
            ) is Some ==> r.call_id == v.text_at("callId"@)) && (v.get("arguments"@) is Some
                ==> r.args_raw == v.get("arguments"@))
            &&& t == "tool/result"@ ==> r.kind == TrajKind::ToolResult && r.turn == v.u64_at(
                "turn"@,
            ) && r.step == v.u64_at("step"@) && (v.text_at("callId"@) is Some ==> r.call_id
                == v.text_at("callId"@)) && (v.text_at("message"@) is Some ==> r.summary
                == v.text_at("message"@)->0) && (r.failed <==> v.get("error"@) is Some) && (
            r.error is Some <==> v.get("error"@) is Some)
            &&& t == "request/header"@ ==> r.kind == TrajKind::RequestHeader
            &&& r.kind == TrajKind::Unknown ==> r.event_type == t && r.raw == Some(v)
        }),
{
    reveal_strlit("turn/start");
    reveal_strlit("turn/end");
    reveal_strlit("step/start");
    reveal_strlit("step/end");
    reveal_strlit("user/message");
    reveal_strlit("assistant/message");
    reveal_strlit("tool/call");
    reveal_strlit("tool/result");
    reveal_strlit("request/header");
    assert("turn/start"@.len() == 10 && "turn/end"@.len() == 8 && "step/start"@.len() == 10
        && "step/end"@.len() == 8);
    assert("turn/start"@[0] == 't' && "step/start"@[0] == 's' && "turn/end"@[0] == 't'
        && "step/end"@[0] == 's');
    assert("user/message"@.len() == 12 && "assistant/message"@.len() == 17 && "tool/call"@.len()
        == 9 && "tool/result"@.len() == 11 && "request/header"@.len() == 14);
}

/// The call that a tool row is about is named by `callId`, or by `id` where
/// there is no such member.
pub proof fn law_calls_are_named_by_either_id(e: EventView, seq: SessionSeq, id: RowId)
    requires
        e.event_type == "tool/call"@ || e.event_type == "tool/result"@,
        e.payload().text_at("callId"@) is None,
    ensures
        event_row(e, seq, id).call_id == e.payload().text_at("id"@),
{
    law_events_have_the_rows_of_their_type(e, seq, id);
}

/// Opening a trajectory that is open finds it as it was left and moves it to
/// the end; every other one stays, in its order.
pub proof fn law_opening_again_finds_the_trajectory(
    windows: Seq<TrajEntry>,
    limit: nat,
    id: Seq<char>,
    cap: usize,
    window: TrajView,
    k: int,
)
    requires
        0 <= k < windows.len(),
        windows[k].id == id,
        forall|j: int| 0 <= j < k ==> (#[trigger] windows[j]).id != id,
    ensures
        traj_opened(windows, id, cap) == windows[k].window,
        ({
            let out = traj_touched(windows, limit, id, window);
            &&& out.len() == windows.len()
            &&& out.last().id == id
            &&& out.last().window == window
            &&& forall|j: int| 0 <= j < k ==> out[j] == #[trigger] windows[j]
            &&& forall|j: int| k < j < windows.len() ==> out[j - 1] == #[trigger] windows[j]
        }),
{
    lemma_traj_index(windows, id, k);
}

/// Opening a trajectory that is not open starts with an empty one; the others
/// stay in their order, but for the least recently used one where the store is
/// full.
pub proof fn law_opening_anew_evicts_the_oldest(
    windows: Seq<TrajEntry>,
    limit: nat,
    id: Seq<char>,
    cap: usize,
    window: TrajView,
)
    requires
        forall|j: int| 0 <= j < windows.len() ==> (#[trigger] windows[j]).id != id,
    ensures
        traj_opened(windows, id, cap).rows.len() == 0,
        cap > 0 ==> traj_opened(windows, id, cap).cap == cap,
        traj_opened(windows, id, cap).evicted_head_seq is None,
        ({
            let out = traj_touched(windows, limit, id, window);
            &&& out.last().id == id
            &&& out.last().window == window
            &&& windows.len() < limit ==> out.len() == windows.len() + 1 && forall|j: int|
                0 <= j < windows.len() ==> out[j] == #[trigger] windows[j]
            &&& windows.len() >= limit && windows.len() > 0 ==> out.len() == windows.len()
                && forall|j: int|
                0 < j < windows.len() ==> out[j - 1] == #[trigger] windows[j]
        }),
{
    lemma_traj_index(windows, id, windows.len() as int);
}

/// A trajectory over its capacity loses its oldest rows and remembers where the
/// last of them stood; one within it loses nothing.
pub proof fn law_oldest_rows_leave_first(w: TrajView, k: int)
    ensures
        w.rows.len() <= w.cap ==> w.evicted() == w,
        w.rows.len() > w.cap ==> w.evicted().rows.len() == w.cap && w.evicted().evicted_head_seq
            == Some(w.rows[w.rows.len() - w.cap - 1].seq.0),
        w.rows.len() > w.cap && 0 <= k < w.cap ==> w.evicted().rows[k] == w.rows[w.rows.len()
            - w.cap + k],
        w.evicted().cap == w.cap,
{
}

/// A message of the user is summed up by its own text, the first eighty
/// characters of it.
pub proof fn law_user_messages_are_summed_up(e: EventView, seq: SessionSeq, id: RowId, t: Seq<char>)
    requires
        e.event_type == "user/message"@,
        e.payload().get("content"@) == Some(JsonView::Str(t)),
    ensures
        t.len() <= 80 ==> event_row(e, seq, id).summary == t,
        t.len() > 80 ==> event_row(e, seq, id).summary == t.take(80),
{
    lemma_user_row(e, seq, id);
}

proof fn lemma_user_row(e: EventView, seq: SessionSeq, id: RowId)
    requires
        e.event_type == "user/message"@,
    ensures
        event_row(e, seq, id).summary == user_summary_of(e.payload()),
{
    reveal_strlit("turn/start");
    reveal_strlit("turn/end");
    reveal_strlit("step/start");
    reveal_strlit("step/end");
    reveal_strlit("user/message");
    assert("turn/start"@.len() == 10 && "turn/end"@.len() == 8 && "step/start"@.len() == 10
        && "step/end"@.len() == 8 && "user/message"@.len() == 12);
}

/// A message of one part is summed up as that part is, and a further part goes
/// on from the others.
pub proof fn law_parts_are_summed_up_in_order(parts: Seq<JsonView>, more: JsonView)
    ensures
        part_texts(Seq::empty(), 0).len() == 0,
        more.str_at("text"@) is Some ==> part_texts(parts.push(more), parts.len() + 1)
            == part_texts(parts, parts.len()) + more.str_at("text"@)->0,
        more.str_at("text"@) is None ==> part_texts(parts.push(more), parts.len() + 1)
            == part_texts(parts, parts.len()),
        user_summary_of(JsonView::Object(seq![("content"@, JsonView::Array(parts))])).len() <= 80,
{
    lemma_part_texts_push(parts, more, parts.len());
    assert((parts.len() + 1 - 1) as nat == parts.len());
    assert(part_texts(parts, parts.len()) + Seq::<char>::empty() =~= part_texts(
        parts,
        parts.len(),
    ));
}

proof fn lemma_part_texts_push(parts: Seq<JsonView>, more: JsonView, n: nat)
    requires
        n <= parts.len(),
    ensures
        part_texts(parts.push(more), n) == part_texts(parts, n),
    decreases n,
{
    if n > 0 {
        lemma_part_texts_push(parts, more, (n - 1) as nat);
    }
}

/// What a payload says of tokens is taken over number by number, those of the
/// cache under either of their names; an error keeps its name and its code.
pub proof fn law_usage_and_errors_are_taken_over(v: JsonView, u: JsonView, x: JsonView)
    ensures
        v.get("usage"@) is None ==> usage_of(v) is None,
        v.get("usage"@) == Some(u) ==> ({
            let r = usage_of(v)->0;
            &&& usage_of(v) is Some
            &&& r.input == u.u64_at("input"@)
            &&& r.output == u.u64_at("output"@)
            &&& r.think == u.u64_at("think"@)
            &&& u.get("cacheRead"@) is Some ==> r.cache_read == u.u64_at("cacheRead"@)
            &&& u.get("cacheRead"@) is None ==> r.cache_read == u.u64_at("cache_read"@)
            &&& u.get("cacheWrite"@) is Some ==> r.cache_write == u.u64_at("cacheWrite"@)
            &&& u.get("cacheWrite"@) is None ==> r.cache_write == u.u64_at("cache_write"@)
        }),
        v.get("error"@) is None ==> error_of(v) is None,
        v.get("error"@) == Some(x) ==> error_of(v) is Some,
        v.get("error"@) == Some(x) && x.str_at("name"@) is Some ==> error_of(v)->0.name
            == x.str_at("name"@)->0,
        v.get("error"@) == Some(x) && x.str_at("name"@) is None ==> error_of(v)->0.name
            == "error"@,
        v.get("error"@) == Some(x) && x.str_at("code"@) is Some ==> error_of(v)->0.code
            == x.str_at("code"@)->0,
        v.get("error"@) == Some(x) && x.str_at("code"@) is None ==> error_of(v)->0.code.len()
            == 0,
{
}

/// A diff that is a text is shown as it is; where there is none, or it is null,
/// none is shown.
pub proof fn law_diffs_are_shown_as_they_are(m: JsonView, t: Seq<char>)
    ensures
        m.get("diff"@) == Some(JsonView::Str(t)) ==> diff_of(Some(m)) == Some(t),
        m.get("diff"@) is None ==> diff_of(Some(m)) is None,
        m.get("diff"@) == Some(JsonView::Null) ==> diff_of(Some(m)) is None,
        m.get("diff"@) is Some && !(m.get("diff"@)->0 is Null) ==> diff_of(Some(m)) is Some,
        diff_of(None) is None,
{
}

/// Arguments that are no text are shown as the value that they are; a text is
/// shown as the value that it reads as, unless it reads as none or as null.
pub proof fn law_arguments_are_shown_as_values(v: JsonView, parsed: Option<JsonView>)
    ensures
        !(v is Str) ==> args_value(v, parsed) == Some(v),
        v is Str && parsed is Some && !(parsed->0 is Null) ==> args_value(v, parsed) == parsed,
        v is Str && (parsed is None || parsed->0 is Null) ==> args_value(v, parsed) is None,
{
}

/// The time between two moments is known where both are and the later one is
/// not before the earlier.
pub proof fn law_time_goes_forward(a: i64, b: i64)
    ensures
        b >= a ==> elapsed(Some(a), Some(b)) is Some && elapsed(Some(a), Some(b))->0 == b - a,
        b < a ==> elapsed(Some(a), Some(b)) is None,
        elapsed(None, Some(b)) is None,
        elapsed(Some(a), None) is None,
{
}

/// The end of a turn and the start of a step are shown by their reason, every
/// other row by its summary; the end of a turn reports an error where it has
/// one, every other row where it failed.
pub proof fn law_rows_are_shown_by_what_they_say(r: RowView)
    ensures
        r.kind != TrajKind::TurnEnd && r.kind != TrajKind::StepStart ==> r.shown_summary()
            == r.summary,
        (r.kind == TrajKind::TurnEnd || r.kind == TrajKind::StepStart) && r.reason is Some
            ==> r.shown_summary() == r.reason->0,
        (r.kind == TrajKind::TurnEnd || r.kind == TrajKind::StepStart) && r.reason is None
            ==> r.shown_summary().len() == 0,
        r.kind == TrajKind::TurnEnd ==> (r.is_error() <==> r.error is Some),
        r.kind != TrajKind::TurnEnd ==> (r.is_error() <==> r.failed),
{
}

} // verus!
