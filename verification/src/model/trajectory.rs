//! Trajectory of a session: one row for each event, in a bounded window.
//!
//! The window merges input as the transcript does: a known request id or a
//! known position makes an event a repetition. A row keeps its identity for
//! good. Folding is data of its own and is applied when the window is viewed.

use vstd::prelude::*;

use crate::json::{
    display, dup_opt, json_display, json_parsed, json_pretty, opt_json, opt_json_ref, parse,
    pretty, Json, JsonView,
};
use crate::model::block::{either_member, first_of, or_empty};
use crate::sets::{SeqSet, TextSet};
use crate::text::{
    cat, chars_of, copy_opt, has_prefix, join, joined, opt_str, opt_text, same, starts_with,
    text_of, texts, trim_end, trimmed_end,
};
use crate::wire::{
    record_views, ChunkRow, ChunkRowView, EventView, RecordView, SessionHistoryRecord,
    SessionLogOffset, SessionSeq, SessionWireEvent,
};

verus! {

/// Identity of a row, never given to another row.
#[derive(Debug, Clone, Copy, PartialEq, Eq, Hash, Structural)]
pub struct RowId(pub u64);

/// Kind of a row.
#[derive(Debug, Clone, Copy, PartialEq, Eq, Structural)]
pub enum TrajKind {
    TurnStart,
    TurnEnd,
    StepStart,
    StepEnd,
    UserMessage,
    AssistantMessage,
    ToolCall,
    ToolResult,
    RequestHeader,
    Compaction,
    Unknown,
}

/// Error of a tool result or of the end of a turn.
#[derive(Debug, Default, PartialEq, Eq)]
pub struct TrajError {
    pub name: String,
    pub code: String,
}

/// Mathematical error.
pub struct ErrorView {
    pub name: Seq<char>,
    pub code: Seq<char>,
}

impl View for TrajError {
    type V = ErrorView;

    open spec fn view(&self) -> ErrorView {
        ErrorView { name: self.name@, code: self.code@ }
    }
}

impl Clone for TrajError {
    fn clone(&self) -> (r: Self)
        ensures
            r@ == self@,
    {
        TrajError { name: self.name.clone(), code: self.code.clone() }
    }
}

/// The view of an optional error.
pub open spec fn opt_error(o: Option<TrajError>) -> Option<ErrorView> {
    match o {
        Some(e) => Some(e@),
        None => None,
    }
}

/// Token usage of an assistant message.
#[derive(Debug, Clone, Copy, Default, PartialEq, Eq, Structural)]
pub struct TrajUsage {
    pub input: Option<u64>,
    pub output: Option<u64>,
    pub cache_read: Option<u64>,
    pub cache_write: Option<u64>,
    pub think: Option<u64>,
}

/// A row of the trajectory.
#[allow(inconsistent_fields)]
#[derive(Debug, PartialEq, Eq)]
pub enum TrajectoryRow {
    TurnStart {
        id: RowId,
        seq: SessionSeq,
        turn: Option<u64>,
        time: Option<i64>,
        reason: Option<String>,
    },
    TurnEnd {
        id: RowId,
        seq: SessionSeq,
        turn: Option<u64>,
        time: Option<i64>,
        reason: Option<String>,
        error: Option<TrajError>,
    },
    StepStart {
        id: RowId,
        seq: SessionSeq,
        turn: Option<u64>,
        step: Option<u64>,
        time: Option<i64>,
        reason: Option<String>,
    },
    StepEnd {
        id: RowId,
        seq: SessionSeq,
        turn: Option<u64>,
        step: Option<u64>,
        time: Option<i64>,
    },
    UserMessage { id: RowId, seq: SessionSeq, time: Option<i64>, summary: String },
    AssistantMessage {
        id: RowId,
        seq: SessionSeq,
        turn: Option<u64>,
        step: Option<u64>,
        time: Option<i64>,
        summary: String,
        has_reasoning: bool,
        usage: Option<TrajUsage>,
    },
    ToolCall {
        id: RowId,
        seq: SessionSeq,
        turn: Option<u64>,
        step: Option<u64>,
        time: Option<i64>,
        call_id: Option<String>,
        name: Option<String>,
        args_raw: Option<Json>,
    },
    ToolResult {
        id: RowId,
        seq: SessionSeq,
        turn: Option<u64>,
        step: Option<u64>,
        time: Option<i64>,
        call_id: Option<String>,
        is_error: bool,
        summary: String,
        meta: Option<Json>,
        error: Option<TrajError>,
    },
    RequestHeader {
        id: RowId,
        seq: SessionSeq,
        time: Option<i64>,
        reason: Option<String>,
        summary: String,
    },
    Compaction { id: RowId, seq: SessionSeq, time: Option<i64>, summary: String },
    /// An event of unknown type with its payload.
    Unknown { id: RowId, seq: SessionSeq, time: Option<i64>, event_type: String, raw: Json },
}

/// What a row holds; a part that its kind lacks is empty.
pub struct RowView {
    pub id: RowId,
    pub seq: SessionSeq,
    pub kind: TrajKind,
    pub time: Option<i64>,
    pub turn: Option<u64>,
    pub step: Option<u64>,
    pub summary: Seq<char>,
    pub reason: Option<Seq<char>>,
    pub call_id: Option<Seq<char>>,
    pub name: Option<Seq<char>>,
    pub args_raw: Option<JsonView>,
    pub failed: bool,
    pub meta: Option<JsonView>,
    pub error: Option<ErrorView>,
    pub usage: Option<TrajUsage>,
    pub has_reasoning: bool,
    pub event_type: Seq<char>,
    pub raw: Option<JsonView>,
}

/// A row with nothing but identity, position, kind and time.
pub open spec fn bare_row(id: RowId, seq: SessionSeq, kind: TrajKind, time: Option<i64>) -> RowView {
    RowView {
        id,
        seq,
        kind,
        time,
        turn: None,
        step: None,
        summary: Seq::empty(),
        reason: None,
        call_id: None,
        name: None,
        args_raw: None,
        failed: false,
        meta: None,
        error: None,
        usage: None,
        has_reasoning: false,
        event_type: Seq::empty(),
        raw: None,
    }
}

impl View for TrajectoryRow {
    type V = RowView;

    open spec fn view(&self) -> RowView {
        match *self {
            TrajectoryRow::TurnStart { id, seq, turn, time, reason } => RowView {
                turn,
                reason: opt_text(reason),
                ..bare_row(id, seq, TrajKind::TurnStart, time)
            },
            TrajectoryRow::TurnEnd { id, seq, turn, time, reason, error } => RowView {
                turn,
                reason: opt_text(reason),
                error: opt_error(error),
                ..bare_row(id, seq, TrajKind::TurnEnd, time)
            },
            TrajectoryRow::StepStart { id, seq, turn, step, time, reason } => RowView {
                turn,
                step,
                reason: opt_text(reason),
                ..bare_row(id, seq, TrajKind::StepStart, time)
            },
            TrajectoryRow::StepEnd { id, seq, turn, step, time } => RowView {
                turn,
                step,
                ..bare_row(id, seq, TrajKind::StepEnd, time)
            },
            TrajectoryRow::UserMessage { id, seq, time, summary } => RowView {
                summary: summary@,
                ..bare_row(id, seq, TrajKind::UserMessage, time)
            },
            TrajectoryRow::AssistantMessage {
                id,
                seq,
                turn,
                step,
                time,
                summary,
                has_reasoning,
                usage,
            } => RowView {
                turn,
                step,
                summary: summary@,
                has_reasoning,
                usage,
                ..bare_row(id, seq, TrajKind::AssistantMessage, time)
            },
            TrajectoryRow::ToolCall { id, seq, turn, step, time, call_id, name, args_raw } => {
                RowView {
                    turn,
                    step,
                    call_id: opt_text(call_id),
                    name: opt_text(name),
                    args_raw: opt_json(args_raw),
                    ..bare_row(id, seq, TrajKind::ToolCall, time)
                }
            },
            TrajectoryRow::ToolResult {
                id,
                seq,
                turn,
                step,
                time,
                call_id,
                is_error,
                summary,
                meta,
                error,
            } => RowView {
                turn,
                step,
                call_id: opt_text(call_id),
                failed: is_error,
                summary: summary@,
                meta: opt_json(meta),
                error: opt_error(error),
                ..bare_row(id, seq, TrajKind::ToolResult, time)
            },
            TrajectoryRow::RequestHeader { id, seq, time, reason, summary } => RowView {
                reason: opt_text(reason),
                summary: summary@,
                ..bare_row(id, seq, TrajKind::RequestHeader, time)
            },
            TrajectoryRow::Compaction { id, seq, time, summary } => RowView {
                summary: summary@,
                ..bare_row(id, seq, TrajKind::Compaction, time)
            },
            TrajectoryRow::Unknown { id, seq, time, event_type, raw } => RowView {
                event_type: event_type@,
                raw: Some(raw@),
                ..bare_row(id, seq, TrajKind::Unknown, time)
            },
        }
    }
}

/// The views of a list of rows.
pub open spec fn row_views(rows: Seq<TrajectoryRow>) -> Seq<RowView> {
    rows.map_values(|r: TrajectoryRow| r@)
}

impl RowView {
    /// The summary shown for the row: its own, or the reason of the end of a
    /// turn or the start of a step.
    pub open spec fn shown_summary(self) -> Seq<char> {
        if self.kind == TrajKind::TurnEnd || self.kind == TrajKind::StepStart {
            or_empty(self.reason)
        } else {
            self.summary
        }
    }

    /// Whether the row reports an error.
    pub open spec fn is_error(self) -> bool {
        if self.kind == TrajKind::TurnEnd {
            self.error is Some
        } else {
            self.failed
        }
    }
}

impl TrajectoryRow {
    pub fn id(&self) -> (r: RowId)
        ensures
            r == self@.id,
    {
        match self {
            TrajectoryRow::TurnStart { id, .. } => *id,
            TrajectoryRow::TurnEnd { id, .. } => *id,
            TrajectoryRow::StepStart { id, .. } => *id,
            TrajectoryRow::StepEnd { id, .. } => *id,
            TrajectoryRow::UserMessage { id, .. } => *id,
            TrajectoryRow::AssistantMessage { id, .. } => *id,
            TrajectoryRow::ToolCall { id, .. } => *id,
            TrajectoryRow::ToolResult { id, .. } => *id,
            TrajectoryRow::RequestHeader { id, .. } => *id,
            TrajectoryRow::Compaction { id, .. } => *id,
            TrajectoryRow::Unknown { id, .. } => *id,
        }
    }

    pub fn seq(&self) -> (r: SessionSeq)
        ensures
            r == self@.seq,
    {
        match self {
            TrajectoryRow::TurnStart { seq, .. } => *seq,
            TrajectoryRow::TurnEnd { seq, .. } => *seq,
            TrajectoryRow::StepStart { seq, .. } => *seq,
            TrajectoryRow::StepEnd { seq, .. } => *seq,
            TrajectoryRow::UserMessage { seq, .. } => *seq,
            TrajectoryRow::AssistantMessage { seq, .. } => *seq,
            TrajectoryRow::ToolCall { seq, .. } => *seq,
            TrajectoryRow::ToolResult { seq, .. } => *seq,
            TrajectoryRow::RequestHeader { seq, .. } => *seq,
            TrajectoryRow::Compaction { seq, .. } => *seq,
            TrajectoryRow::Unknown { seq, .. } => *seq,
        }
    }

    pub fn kind(&self) -> (r: TrajKind)
        ensures
            r == self@.kind,
    {
        match self {
            TrajectoryRow::TurnStart { .. } => TrajKind::TurnStart,
            TrajectoryRow::TurnEnd { .. } => TrajKind::TurnEnd,
            TrajectoryRow::StepStart { .. } => TrajKind::StepStart,
            TrajectoryRow::StepEnd { .. } => TrajKind::StepEnd,
            TrajectoryRow::UserMessage { .. } => TrajKind::UserMessage,
            TrajectoryRow::AssistantMessage { .. } => TrajKind::AssistantMessage,
            TrajectoryRow::ToolCall { .. } => TrajKind::ToolCall,
            TrajectoryRow::ToolResult { .. } => TrajKind::ToolResult,
            TrajectoryRow::RequestHeader { .. } => TrajKind::RequestHeader,
            TrajectoryRow::Compaction { .. } => TrajKind::Compaction,
            TrajectoryRow::Unknown { .. } => TrajKind::Unknown,
        }
    }

    pub fn time(&self) -> (r: Option<i64>)
        ensures
            r == self@.time,
    {
        match self {
            TrajectoryRow::TurnStart { time, .. } => *time,
            TrajectoryRow::TurnEnd { time, .. } => *time,
            TrajectoryRow::StepStart { time, .. } => *time,
            TrajectoryRow::StepEnd { time, .. } => *time,
            TrajectoryRow::UserMessage { time, .. } => *time,
            TrajectoryRow::AssistantMessage { time, .. } => *time,
            TrajectoryRow::ToolCall { time, .. } => *time,
            TrajectoryRow::ToolResult { time, .. } => *time,
            TrajectoryRow::RequestHeader { time, .. } => *time,
            TrajectoryRow::Compaction { time, .. } => *time,
            TrajectoryRow::Unknown { time, .. } => *time,
        }
    }

    pub fn turn(&self) -> (r: Option<u64>)
        ensures
            r == self@.turn,
    {
        match self {
            TrajectoryRow::TurnStart { turn, .. } => *turn,
            TrajectoryRow::TurnEnd { turn, .. } => *turn,
            TrajectoryRow::StepStart { turn, .. } => *turn,
            TrajectoryRow::StepEnd { turn, .. } => *turn,
            TrajectoryRow::AssistantMessage { turn, .. } => *turn,
            TrajectoryRow::ToolCall { turn, .. } => *turn,
            TrajectoryRow::ToolResult { turn, .. } => *turn,
            _ => None,
        }
    }

    pub fn step(&self) -> (r: Option<u64>)
        ensures
            r == self@.step,
    {
        match self {
            TrajectoryRow::StepStart { step, .. } => *step,
            TrajectoryRow::StepEnd { step, .. } => *step,
            TrajectoryRow::AssistantMessage { step, .. } => *step,
            TrajectoryRow::ToolCall { step, .. } => *step,
            TrajectoryRow::ToolResult { step, .. } => *step,
            _ => None,
        }
    }

    pub fn summary(&self) -> (r: &str)
        ensures
            r@ == self@.shown_summary(),
    {
        proof {
            reveal_strlit("");
            assert(""@ =~= Seq::<char>::empty());
        }
        match self {
            TrajectoryRow::UserMessage { summary, .. } => summary.as_str(),
            TrajectoryRow::AssistantMessage { summary, .. } => summary.as_str(),
            TrajectoryRow::ToolResult { summary, .. } => summary.as_str(),
            TrajectoryRow::RequestHeader { summary, .. } => summary.as_str(),
            TrajectoryRow::Compaction { summary, .. } => summary.as_str(),
            TrajectoryRow::TurnEnd { reason: Some(r), .. } => r.as_str(),
            TrajectoryRow::StepStart { reason: Some(r), .. } => r.as_str(),
            _ => "",
        }
    }

    pub fn reason(&self) -> (r: Option<&str>)
        ensures
            opt_str(r) == self@.reason,
    {
        match self {
            TrajectoryRow::TurnStart { reason, .. } => as_str_opt(reason),
            TrajectoryRow::TurnEnd { reason, .. } => as_str_opt(reason),
            TrajectoryRow::StepStart { reason, .. } => as_str_opt(reason),
            TrajectoryRow::RequestHeader { reason, .. } => as_str_opt(reason),
            _ => None,
        }
    }

    pub fn call_id(&self) -> (r: Option<&str>)
        ensures
            opt_str(r) == self@.call_id,
    {
        match self {
            TrajectoryRow::ToolCall { call_id, .. } => as_str_opt(call_id),
            TrajectoryRow::ToolResult { call_id, .. } => as_str_opt(call_id),
            _ => None,
        }
    }

    pub fn name(&self) -> (r: Option<&str>)
        ensures
            opt_str(r) == self@.name,
    {
        match self {
            TrajectoryRow::ToolCall { name, .. } => as_str_opt(name),
            _ => None,
        }
    }

    pub fn args_raw(&self) -> (r: Option<&Json>)
        ensures
            opt_json_ref(r) == self@.args_raw,
    {
        match self {
            TrajectoryRow::ToolCall { args_raw: Some(v), .. } => Some(v),
            _ => None,
        }
    }

    pub fn is_error(&self) -> (r: bool)
        ensures
            r == self@.is_error(),
    {
        match self {
            TrajectoryRow::ToolResult { is_error, .. } => *is_error,
            TrajectoryRow::TurnEnd { error, .. } => error.is_some(),
            _ => false,
        }
    }

    /// Whether the row carries a private payload of the tool, which may hold a diff.
    pub fn meta_has_diff(&self) -> (r: bool)
        ensures
            r == (self@.meta is Some),
    {
        match self {
            TrajectoryRow::ToolResult { meta: Some(_), .. } => true,
            _ => false,
        }
    }

    pub fn meta(&self) -> (r: Option<&Json>)
        ensures
            opt_json_ref(r) == self@.meta,
    {
        match self {
            TrajectoryRow::ToolResult { meta: Some(v), .. } => Some(v),
            _ => None,
        }
    }

    pub fn error(&self) -> (r: Option<&TrajError>)
        ensures
            match r {
                Some(e) => self@.error == Some(e@),
                None => self@.error is None,
            },
    {
        match self {
            TrajectoryRow::ToolResult { error: Some(e), .. } => Some(e),
            TrajectoryRow::TurnEnd { error: Some(e), .. } => Some(e),
            _ => None,
        }
    }

    pub fn usage(&self) -> (r: Option<&TrajUsage>)
        ensures
            match r {
                Some(u) => self@.usage == Some(*u),
                None => self@.usage is None,
            },
    {
        match self {
            TrajectoryRow::AssistantMessage { usage: Some(u), .. } => Some(u),
            _ => None,
        }
    }

    pub fn has_reasoning(&self) -> (r: bool)
        ensures
            r == self@.has_reasoning,
    {
        match self {
            TrajectoryRow::AssistantMessage { has_reasoning, .. } => *has_reasoning,
            _ => false,
        }
    }

    pub fn event_type(&self) -> (r: &str)
        ensures
            r@ == self@.event_type,
    {
        proof {
            reveal_strlit("");
            assert(""@ =~= Seq::<char>::empty());
        }
        match self {
            TrajectoryRow::Unknown { event_type, .. } => event_type.as_str(),
            _ => "",
        }
    }

    pub fn raw(&self) -> (r: Option<&Json>)
        ensures
            opt_json_ref(r) == self@.raw,
    {
        match self {
            TrajectoryRow::Unknown { raw, .. } => Some(raw),
            _ => None,
        }
    }
}

/// An optional text, borrowed.
pub fn as_str_opt(o: &Option<String>) -> (r: Option<&str>)
    ensures
        opt_str(r) == opt_text(*o),
{
    match o {
        Some(s) => Some(s.as_str()),
        None => None,
    }
}

/// A group of rows that folds: a turn, or the tools of an assistant step.
#[derive(Debug, Clone, Copy, PartialEq, Eq, Hash, Structural)]
pub enum GroupId {
    Turn(u64),
    Assistant { turn: u64, step: u64 },
}

/// The groups that are folded.
#[derive(Debug, Clone, Default)]
pub struct FoldState {
    collapsed: Vec<GroupId>,
}

impl View for FoldState {
    type V = Set<GroupId>;

    closed spec fn view(&self) -> Set<GroupId> {
        self.collapsed@.to_set()
    }
}

impl FoldState {
    /// Nothing folded.
    pub fn new() -> (r: FoldState)
        ensures
            r@ == Set::<GroupId>::empty(),
    {
        let r = FoldState { collapsed: Vec::new() };
        assert(r@ =~= Set::<GroupId>::empty());
        r
    }

    /// Whether a group is folded.
    pub fn is_collapsed(&self, group: GroupId) -> (r: bool)
        ensures
            r == self@.contains(group),
    {
        let mut i: usize = 0;
        while i < self.collapsed.len()
            invariant
                i <= self.collapsed@.len(),
                forall|k: int| 0 <= k < i ==> self.collapsed@[k] != group,
            decreases self.collapsed@.len() - i,
        {
            if self.collapsed[i] == group {
                assert(self.collapsed@[i as int] == group);
                return true;
            }
            i = i + 1;
        }
        false
    }

    /// Folds an unfolded group, unfolds a folded one; gives whether it is now
    /// folded.
    pub fn toggle(&mut self, group: GroupId) -> (r: bool)
        ensures
            r == !old(self)@.contains(group),
            final(self)@ == if r {
                old(self)@.insert(group)
            } else {
                old(self)@.remove(group)
            },
    {
        if self.is_collapsed(group) {
            let mut kept: Vec<GroupId> = Vec::new();
            let mut i: usize = 0;
            while i < self.collapsed.len()
                invariant
                    i <= self.collapsed@.len(),
                    forall|g: GroupId| #[trigger]
                        kept@.contains(g) <==> g != group && self.collapsed@.take(
                            i as int,
                        ).contains(g),
                decreases self.collapsed@.len() - i,
            {
                let g = self.collapsed[i];
                let ghost was = kept@;
                if g != group {
                    kept.push(g);
                }
                proof {
                    assert(self.collapsed@.take(i + 1) =~= self.collapsed@.take(i as int).push(g));
                    assert forall|x: GroupId| #[trigger]
                        kept@.contains(x) <==> x != group && self.collapsed@.take(i + 1).contains(
                            x,
                        ) by {
                        crate::sets::lemma_push_contains(was, g, x);
                        crate::sets::lemma_push_contains(self.collapsed@.take(i as int), g, x);
                    }
                }
                i = i + 1;
            }
            assert(self.collapsed@.take(i as int) =~= self.collapsed@);
            self.collapsed = kept;
            assert(self@ =~= old(self)@.remove(group));
            false
        } else {
            let ghost was = self.collapsed@;
            self.collapsed.push(group);
            proof {
                assert forall|x: GroupId|
                    self.collapsed@.contains(x) <==> (x == group || was.contains(x)) by {
                    crate::sets::lemma_push_contains(was, group, x);
                }
                assert(self@ =~= old(self)@.insert(group));
            }
            true
        }
    }
}

/// Folding a group twice leaves the folds as they were.
pub proof fn law_toggle_twice(folds: Set<GroupId>, group: GroupId)
    ensures
        folds.contains(group) ==> folds.remove(group).insert(group) == folds,
        !folds.contains(group) ==> folds.insert(group).remove(group) == folds,
{
    assert(folds.contains(group) ==> folds.remove(group).insert(group) =~= folds);
    assert(!folds.contains(group) ==> folds.insert(group).remove(group) =~= folds);
}

/// The first `n` characters of `s`.
pub open spec fn clipped(s: Seq<char>, n: int) -> Seq<char> {
    if s.len() > n {
        s.take(n)
    } else {
        s
    }
}

/// The texts under `text` of the first `n` parts, one after the other.
pub open spec fn part_texts(parts: Seq<JsonView>, n: nat) -> Seq<char>
    decreases n,
{
    if n == 0 || n > parts.len() {
        Seq::empty()
    } else {
        part_texts(parts, (n - 1) as nat) + or_empty(parts[n - 1].str_at("text"@))
    }
}

/// Summary of a user message: its text or the texts of its parts, eighty
/// characters at most.
pub open spec fn user_summary_of(data: JsonView) -> Seq<char> {
    match data.get("content"@) {
        Some(JsonView::Str(s)) => clipped(s, 80),
        Some(JsonView::Array(parts)) => clipped(part_texts(parts, parts.len()), 80),
        _ => Seq::empty(),
    }
}

/// The integer under `a`, or under `b` where there is no `a`.
pub open spec fn either_u64(v: JsonView, a: Seq<char>, b: Seq<char>) -> Option<u64> {
    match either_member(v, a, b) {
        Some(x) => x.as_u64(),
        None => None,
    }
}

/// The token usage of a payload.
pub open spec fn usage_of(data: JsonView) -> Option<TrajUsage> {
    match data.get("usage"@) {
        Some(u) => Some(
            TrajUsage {
                input: u.u64_at("input"@),
                output: u.u64_at("output"@),
                cache_read: either_u64(u, "cacheRead"@, "cache_read"@),
                cache_write: either_u64(u, "cacheWrite"@, "cache_write"@),
                think: u.u64_at("think"@),
            },
        ),
        None => None,
    }
}

/// The error of a payload; without a name it is called `error`.
pub open spec fn error_of(data: JsonView) -> Option<ErrorView> {
    match data.get("error"@) {
        Some(e) => Some(
            ErrorView {
                name: match e.str_at("name"@) {
                    Some(n) => n,
                    None => "error"@,
                },
                code: or_empty(e.str_at("code"@)),
            },
        ),
        None => None,
    }
}

/// The row of an event.
pub open spec fn event_row(e: EventView, seq: SessionSeq, id: RowId) -> RowView {
    let t = e.event_type;
    let v = e.payload();
    let turn = v.u64_at("turn"@);
    let step = v.u64_at("step"@);
    let reason = v.text_at("reason"@);
    let call_id = first_of(v.text_at("callId"@), v.text_at("id"@));
    if t == "turn/start"@ {
        RowView { turn, reason, ..bare_row(id, seq, TrajKind::TurnStart, e.time) }
    } else if t == "turn/end"@ {
        RowView { turn, reason, error: error_of(v), ..bare_row(id, seq, TrajKind::TurnEnd, e.time) }
    } else if t == "step/start"@ {
        RowView { turn, step, reason, ..bare_row(id, seq, TrajKind::StepStart, e.time) }
    } else if t == "step/end"@ {
        RowView { turn, step, ..bare_row(id, seq, TrajKind::StepEnd, e.time) }
    } else if t == "user/message"@ {
        RowView {
            summary: user_summary_of(v),
            ..bare_row(id, seq, TrajKind::UserMessage, e.time)
        }
    } else if t == "assistant/message"@ {
        RowView {
            turn,
            step,
            summary: or_empty(v.text_at("content"@)),
            usage: usage_of(v),
            ..bare_row(id, seq, TrajKind::AssistantMessage, e.time)
        }
    } else if t == "tool/call"@ {
        RowView {
            turn,
            step,
            call_id,
            name: v.text_at("name"@),
            args_raw: either_member(v, "arguments"@, "args"@),
            ..bare_row(id, seq, TrajKind::ToolCall, e.time)
        }
    } else if t == "tool/result"@ {
        RowView {
            turn,
            step,
            call_id,
            failed: error_of(v) is Some,
            summary: or_empty(v.text_at("message"@)),
            meta: match v.get("meta"@) {
                Some(JsonView::Null) => None,
                m => m,
            },
            error: error_of(v),
            ..bare_row(id, seq, TrajKind::ToolResult, e.time)
        }
    } else if t == "request/header"@ {
        RowView {
            reason,
            summary: or_empty(first_of(reason, v.text_at("summary"@))),
            ..bare_row(id, seq, TrajKind::RequestHeader, e.time)
        }
    } else if has_prefix(t, "compaction/"@) {
        RowView {
            summary: or_empty(first_of(v.text_at("summary"@), v.text_at("text"@))),
            ..bare_row(id, seq, TrajKind::Compaction, e.time)
        }
    } else {
        RowView { event_type: t, raw: Some(v), ..bare_row(id, seq, TrajKind::Unknown, e.time) }
    }
}

/// The first `n` characters of a text.
fn clip(s: &str, n: usize) -> (r: String)
    ensures
        r@ == clipped(s@, n as int),
{
    let cs = chars_of(s);
    if cs.len() > n {
        assert(s@.subrange(0, n as int) =~= s@.take(n as int));
        text_of(&cs, 0, n)
    } else {
        s.to_owned()
    }
}

/// Summary of a user message.
fn user_summary(data: &Json) -> (r: String)
    ensures
        r@ == user_summary_of(data@),
{
    match data.get("content") {
        Some(Json::Str(s)) => clip(s.as_str(), 80),
        Some(Json::Array(parts)) => {
            let ghost views = data@.get("content"@)->0->Array_0;
            let mut out = String::new();
            let mut i: usize = 0;
            while i < parts.len()
                invariant
                    i <= parts@.len(),
                    views.len() == parts@.len(),
                    forall|k: int| 0 <= k < views.len() ==> views[k] == (#[trigger] parts@[k])@,
                    out@ == part_texts(views, i as nat),
                decreases parts@.len() - i,
            {
                assert(views[i as int] == parts@[i as int]@);
                match parts[i].str_at("text") {
                    Some(t) => {
                        out.append(t);
                    },
                    None => {
                        assert(out@ =~= out@ + Seq::<char>::empty());
                    },
                }
                i = i + 1;
            }
            clip(out.as_str(), 80)
        },
        _ => String::new(),
    }
}

/// An optional text, empty where there is none.
fn text_or_empty(o: Option<String>) -> (r: String)
    ensures
        r@ == or_empty(opt_text(o)),
{
    match o {
        Some(t) => t,
        None => String::new(),
    }
}

/// The first of two optional texts that is there.
fn first_text(a: Option<String>, b: Option<String>) -> (r: Option<String>)
    ensures
        opt_text(r) == first_of(opt_text(a), opt_text(b)),
{
    match a {
        Some(t) => Some(t),
        None => b,
    }
}

/// The integer under `a`, or under `b` where there is no `a`.
fn u64_either(v: &Json, a: &str, b: &str) -> (r: Option<u64>)
    ensures
        r == either_u64(v@, a@, b@),
{
    match v.get(a) {
        Some(x) => x.as_u64(),
        None => match v.get(b) {
            Some(x) => x.as_u64(),
            None => None,
        },
    }
}

/// The token usage of a payload.
fn parse_usage(data: &Json) -> (r: Option<TrajUsage>)
    ensures
        r == usage_of(data@),
{
    match data.get("usage") {
        Some(u) => Some(
            TrajUsage {
                input: u.u64_at("input"),
                output: u.u64_at("output"),
                cache_read: u64_either(u, "cacheRead", "cache_read"),
                cache_write: u64_either(u, "cacheWrite", "cache_write"),
                think: u.u64_at("think"),
            },
        ),
        None => None,
    }
}

/// The error of a payload.
fn parse_error(data: &Json) -> (r: Option<TrajError>)
    ensures
        opt_error(r) == error_of(data@),
{
    match data.get("error") {
        Some(e) => Some(
            TrajError {
                name: match e.str_at("name") {
                    Some(n) => n.to_owned(),
                    None => "error".to_owned(),
                },
                code: text_or_empty(e.string_at("code")),
            },
        ),
        None => None,
    }
}

/// The row of an event.
pub fn row_from_event(ev: &SessionWireEvent, seq: SessionSeq, id: u64) -> (r: TrajectoryRow)
    ensures
        r@ == event_row(ev@, seq, RowId(id)),
{
    let null = Json::Null;
    let data: &Json = match &ev.data {
        Some(d) => d,
        None => &null,
    };
    assert(data@ == ev@.payload());
    let time = ev.time;
    let id = RowId(id);
    let t = ev.event_type.as_str();
    let turn = data.u64_at("turn");
    let step = data.u64_at("step");
    if same(t, "turn/start") {
        TrajectoryRow::TurnStart { id, seq, turn, time, reason: data.text_at("reason") }
    } else if same(t, "turn/end") {
        TrajectoryRow::TurnEnd {
            id,
            seq,
            turn,
            time,
            reason: data.text_at("reason"),
            error: parse_error(data),
        }
    } else if same(t, "step/start") {
        TrajectoryRow::StepStart { id, seq, turn, step, time, reason: data.text_at("reason") }
    } else if same(t, "step/end") {
        TrajectoryRow::StepEnd { id, seq, turn, step, time }
    } else if same(t, "user/message") {
        TrajectoryRow::UserMessage { id, seq, time, summary: user_summary(data) }
    } else if same(t, "assistant/message") {
        TrajectoryRow::AssistantMessage {
            id,
            seq,
            turn,
            step,
            time,
            summary: text_or_empty(data.text_at("content")),
            has_reasoning: false,
            usage: parse_usage(data),
        }
    } else if same(t, "tool/call") {
        TrajectoryRow::ToolCall {
            id,
            seq,
            turn,
            step,
            time,
            call_id: first_text(data.text_at("callId"), data.text_at("id")),
            name: data.text_at("name"),
            args_raw: match data.get("arguments") {
                Some(a) => Some(a.dup()),
                None => match data.get("args") {
                    Some(a) => Some(a.dup()),
                    None => None,
                },
            },
        }
    } else if same(t, "tool/result") {
        let error = parse_error(data);
        TrajectoryRow::ToolResult {
            id,
            seq,
            turn,
            step,
            time,
            call_id: first_text(data.text_at("callId"), data.text_at("id")),
            is_error: error.is_some(),
            summary: text_or_empty(data.text_at("message")),
            meta: match data.get("meta") {
                Some(Json::Null) => None,
                Some(m) => Some(m.dup()),
                None => None,
            },
            error,
        }
    } else if same(t, "request/header") {
        TrajectoryRow::RequestHeader {
            id,
            seq,
            time,
            reason: data.text_at("reason"),
            summary: text_or_empty(first_text(data.text_at("reason"), data.text_at("summary"))),
        }
    } else if starts_with(t, "compaction/") {
        TrajectoryRow::Compaction {
            id,
            seq,
            time,
            summary: text_or_empty(first_text(data.text_at("summary"), data.text_at("text"))),
        }
    } else {
        TrajectoryRow::Unknown { id, seq, time, event_type: t.to_owned(), raw: data.dup() }
    }
}

/// Input of a trajectory window.
#[derive(Debug, Clone, PartialEq, Eq)]
pub enum TrajIncoming {
    Snapshot {
        cursor: Option<SessionLogOffset>,
        records: Vec<SessionHistoryRecord>,
        has_more: bool,
        projections: Option<Json>,
    },
    FollowEvent(SessionWireEvent),
    /// A chunk row by itself; it belongs to the last assistant or tool row.
    Chunks(ChunkRow),
    Page { records: Vec<SessionHistoryRecord>, has_more: Option<bool> },
}

/// Mathematical input of a trajectory window.
pub enum TrajInputView {
    Snapshot {
        cursor: Option<SessionLogOffset>,
        records: Seq<RecordView>,
        has_more: bool,
        projections: Option<JsonView>,
    },
    FollowEvent(EventView),
    Chunks(ChunkRowView),
    Page { records: Seq<RecordView>, has_more: Option<bool> },
}

impl View for TrajIncoming {
    type V = TrajInputView;

    open spec fn view(&self) -> TrajInputView {
        match *self {
            TrajIncoming::Snapshot { cursor, records, has_more, projections } => {
                TrajInputView::Snapshot {
                    cursor,
                    records: record_views(records@),
                    has_more,
                    projections: opt_json(projections),
                }
            },
            TrajIncoming::FollowEvent(ev) => TrajInputView::FollowEvent(ev@),
            TrajIncoming::Chunks(row) => TrajInputView::Chunks(row@),
            TrajIncoming::Page { records, has_more } => TrajInputView::Page {
                records: record_views(records@),
                has_more,
            },
        }
    }
}

impl TrajInputView {
    /// How many events the input brings at most.
    pub open spec fn size(self) -> nat {
        match self {
            TrajInputView::Snapshot { records, .. } => records.len(),
            TrajInputView::FollowEvent(_) => 1,
            TrajInputView::Chunks(_) => 0,
            TrajInputView::Page { records, .. } => records.len(),
        }
    }
}

/// What an input did to the window.
#[derive(Debug, Clone, Copy, PartialEq, Eq, Structural)]
pub enum TrajEffect {
    Rebuilt,
    TailAppended { appended: usize },
    HeadPrepend { inserted: usize, anchor_shift: usize },
    Noop,
}

/// Windowed trajectory, bounded by its capacity.
#[derive(Debug)]
pub struct TrajectoryWindow {
    rows: Vec<TrajectoryRow>,
    cap: usize,
    head_has_more: bool,
    cursor: Option<SessionLogOffset>,
    projections: Json,
    seen_seq: SeqSet,
    seen_request: TextSet,
    next_id: u64,
    evicted_head_seq: Option<u64>,
}

/// Mathematical trajectory window.
#[verifier::ext_equal]
pub struct TrajView {
    pub rows: Seq<RowView>,
    pub cap: nat,
    pub head_has_more: bool,
    pub cursor: Option<SessionLogOffset>,
    pub projections: JsonView,
    pub seen_seq: Set<u64>,
    pub seen_request: Set<Seq<char>>,
    pub next_id: u64,
    pub evicted_head_seq: Option<u64>,
}

impl TrajectoryWindow {
    /// The mathematical window.
    pub closed spec fn state(&self) -> TrajView {
        TrajView {
            rows: row_views(self.rows@),
            cap: self.cap as nat,
            head_has_more: self.head_has_more,
            cursor: self.cursor,
            projections: self.projections@,
            seen_seq: self.seen_seq@,
            seen_request: self.seen_request@,
            next_id: self.next_id,
            evicted_head_seq: self.evicted_head_seq,
        }
    }
}

/// Number of leading rows before position `q`.
pub open spec fn rows_below(rows: Seq<RowView>, q: u64) -> nat
    decreases rows.len(),
{
    if rows.len() > 0 && rows[0].seq.0 < q {
        1 + rows_below(rows.skip(1), q)
    } else {
        0
    }
}

/// Index of the last row of a kind, -1 where there is none.
pub open spec fn last_of_kind(rows: Seq<RowView>, kind: TrajKind) -> int
    decreases rows.len(),
{
    if rows.len() == 0 {
        -1
    } else if rows.last().kind == kind {
        rows.len() - 1
    } else {
        last_of_kind(rows.drop_last(), kind)
    }
}

/// The kind of row that a chunk row belongs to.
pub open spec fn chunk_host(row: ChunkRowView) -> Option<TrajKind> {
    match row {
        ChunkRowView::TextChunks(_) => Some(TrajKind::AssistantMessage),
        ChunkRowView::ReasoningChunks(_) => Some(TrajKind::AssistantMessage),
        ChunkRowView::ToolCallChunks(_) => Some(TrajKind::ToolCall),
        ChunkRowView::Unknown { .. } => None,
    }
}

/// A row with a chunk row merged into it: text is appended to the summary,
/// reasoning is noted and stands in for an empty summary, a tool chunk fills in
/// a missing name and missing arguments.
pub open spec fn merged(r: RowView, row: ChunkRowView) -> RowView {
    match row {
        ChunkRowView::TextChunks(d) => RowView { summary: r.summary + joined(d.texts, ""@), ..r },
        ChunkRowView::ReasoningChunks(d) => RowView {
            has_reasoning: true,
            summary: if r.summary.len() == 0 {
                joined(d.texts, ""@)
            } else {
                r.summary
            },
            ..r
        },
        ChunkRowView::ToolCallChunks(d) => RowView {
            name: first_of(r.name, d.name),
            args_raw: match r.args_raw {
                Some(a) => Some(a),
                None => d.args,
            },
            ..r
        },
        ChunkRowView::Unknown { .. } => r,
    }
}

impl TrajView {
    /// Invariant of a window but for the capacity: positions ascend, every
    /// position shown is known, and the rows have identities of their own.
    pub open spec fn ordered(self) -> bool {
        &&& self.cap >= 1
        &&& forall|i: int, j: int|
            0 <= i <= j < self.rows.len() ==> (#[trigger] self.rows[i]).seq.0 <= (
            #[trigger] self.rows[j]).seq.0
        &&& forall|i: int|
            0 <= i < self.rows.len() ==> self.seen_seq.contains((#[trigger] self.rows[i]).seq.0)
        &&& forall|i: int| 0 <= i < self.rows.len() ==> (#[trigger] self.rows[i]).id.0 < self.next_id
        &&& forall|i: int, j: int|
            0 <= i < j < self.rows.len() ==> (#[trigger] self.rows[i]).id != (
            #[trigger] self.rows[j]).id
    }

    /// Invariant of a window.
    pub open spec fn wf(self) -> bool {
        self.ordered() && self.rows.len() <= self.cap
    }

    /// Whether the event is new.
    pub open spec fn accepts(self, e: EventView) -> bool {
        &&& e.seq is Some
        &&& e.request_id is Some ==> !self.seen_request.contains(e.request_id->0)
        &&& !self.seen_seq.contains((e.seq->0).0)
    }

    /// Whether the event is new to a page: not before the rows that were evicted.
    pub open spec fn page_accepts(self, e: EventView) -> bool {
        self.accepts(e) && !(self.evicted_head_seq is Some && (e.seq->0).0
            <= self.evicted_head_seq->0)
    }

    /// The window with the row of a new event in its place, before eviction.
    pub open spec fn with_event(self, e: EventView) -> TrajView {
        let q = e.seq->0;
        TrajView {
            rows: self.rows.insert(
                rows_below(self.rows, q.0) as int,
                event_row(e, q, RowId(self.next_id)),
            ),
            seen_seq: self.seen_seq.insert(q.0),
            seen_request: match e.request_id {
                Some(id) => self.seen_request.insert(id),
                None => self.seen_request,
            },
            next_id: (self.next_id + 1) as u64,
            ..self
        }
    }

    /// Index of the row that a chunk row belongs to, -1 where there is none.
    pub open spec fn host(self, row: ChunkRowView) -> int {
        match chunk_host(row) {
            Some(kind) => last_of_kind(self.rows, kind),
            None => -1,
        }
    }

    /// The window with a chunk row merged into its row.
    pub open spec fn with_chunks(self, row: ChunkRowView) -> TrajView {
        let i = self.host(row);
        if 0 <= i < self.rows.len() {
            TrajView { rows: self.rows.update(i, merged(self.rows[i], row)), ..self }
        } else {
            self
        }
    }

    /// Whether a record brings a row; `page` tells that it comes with a page.
    pub open spec fn takes(self, r: RecordView, page: bool) -> bool {
        match r {
            RecordView::Event(e) => if page {
                self.page_accepts(e)
            } else {
                self.accepts(e)
            },
            RecordView::Chunks(_) => false,
        }
    }

    /// The window with one more record, before eviction.
    pub open spec fn with_record(self, r: RecordView, page: bool) -> TrajView {
        match r {
            RecordView::Event(e) => if self.takes(r, page) {
                self.with_event(e)
            } else {
                self
            },
            RecordView::Chunks(row) => self.with_chunks(row),
        }
    }

    /// The window with the first `n` records, before eviction.
    pub open spec fn with_records(self, records: Seq<RecordView>, n: nat, page: bool) -> TrajView
        decreases n,
    {
        if n == 0 || n > records.len() {
            self
        } else {
            self.with_records(records, (n - 1) as nat, page).with_record(records[n - 1], page)
        }
    }

    /// How many of the first `n` records bring a row.
    pub open spec fn taken(self, records: Seq<RecordView>, n: nat, page: bool) -> nat
        decreases n,
    {
        if n == 0 || n > records.len() {
            0
        } else {
            self.taken(records, (n - 1) as nat, page) + if self.with_records(
                records,
                (n - 1) as nat,
                page,
            ).takes(records[n - 1], page) {
                1nat
            } else {
                0nat
            }
        }
    }

    /// The window without the oldest rows beyond its capacity; the position of
    /// the last one to go is remembered.
    pub open spec fn evicted(self) -> TrajView {
        if self.rows.len() > self.cap {
            let d = self.rows.len() - self.cap;
            TrajView {
                rows: self.rows.skip(d),
                evicted_head_seq: Some(self.rows[d - 1].seq.0),
                ..self
            }
        } else {
            self
        }
    }

    /// The window that a snapshot starts from: nothing but capacity and the
    /// next identity of the old one is left.
    pub open spec fn restarted(
        self,
        cursor: Option<SessionLogOffset>,
        has_more: bool,
        projections: Option<JsonView>,
    ) -> TrajView {
        TrajView {
            rows: Seq::empty(),
            cap: self.cap,
            head_has_more: has_more,
            cursor,
            projections: match projections {
                Some(p) => p,
                None => JsonView::Null,
            },
            seen_seq: Set::empty(),
            seen_request: Set::empty(),
            next_id: self.next_id,
            evicted_head_seq: None,
        }
    }

    /// The window before the records of a page join it.
    pub open spec fn before_page(self, has_more: Option<bool>) -> TrajView {
        TrajView {
            head_has_more: match has_more {
                Some(b) => b,
                None => self.head_has_more,
            },
            ..self
        }
    }

    /// The window after an input.
    pub open spec fn after(self, input: TrajInputView) -> TrajView {
        match input {
            TrajInputView::Snapshot { cursor, records, has_more, projections } => self.restarted(
                cursor,
                has_more,
                projections,
            ).with_records(records, records.len(), false).evicted(),
            TrajInputView::FollowEvent(e) => if self.accepts(e) {
                self.with_event(e).evicted()
            } else {
                self
            },
            TrajInputView::Chunks(row) => self.with_chunks(row),
            TrajInputView::Page { records, has_more } => self.before_page(has_more).with_records(
                records,
                records.len(),
                true,
            ).evicted(),
        }
    }

    /// What is reported of an input.
    pub open spec fn effect(self, input: TrajInputView) -> TrajEffect {
        match input {
            TrajInputView::Snapshot { .. } => TrajEffect::Rebuilt,
            TrajInputView::FollowEvent(e) => if self.accepts(e) {
                TrajEffect::TailAppended { appended: 1 }
            } else {
                TrajEffect::Noop
            },
            TrajInputView::Chunks(row) => if self.host(row) >= 0 {
                TrajEffect::TailAppended { appended: 0 }
            } else {
                TrajEffect::Noop
            },
            TrajInputView::Page { records, has_more } => {
                let start = self.before_page(has_more);
                let n = start.taken(records, records.len(), true);
                if n == 0 {
                    TrajEffect::Noop
                } else {
                    TrajEffect::HeadPrepend {
                        inserted: n as usize,
                        anchor_shift: if self.rows.len() > 0 {
                            rows_below(
                                start.with_records(records, records.len(), true).rows,
                                self.rows[0].seq.0,
                            ) as usize
                        } else {
                            0
                        },
                    }
                }
            },
        }
    }
}

/// The leading rows before `q` end where the first row at or after `q` is.
pub proof fn lemma_rows_below(rows: Seq<RowView>, q: u64, k: int)
    requires
        0 <= k <= rows.len(),
        forall|i: int| 0 <= i < k ==> (#[trigger] rows[i]).seq.0 < q,
        k < rows.len() ==> rows[k].seq.0 >= q,
    ensures
        rows_below(rows, q) == k,
    decreases k,
{
    if k > 0 {
        assert(rows[0].seq.0 < q);
        let rest = rows.skip(1);
        assert forall|i: int| 0 <= i < k - 1 implies (#[trigger] rest[i]).seq.0 < q by {
            assert(rest[i] == rows[i + 1]);
        }
        if k - 1 < rest.len() {
            assert(rest[k - 1] == rows[k]);
        }
        lemma_rows_below(rest, q, k - 1);
    }
}

/// What `rows_below` counts.
pub proof fn lemma_rows_below_bounds(rows: Seq<RowView>, q: u64)
    ensures
        rows_below(rows, q) <= rows.len(),
        forall|i: int| 0 <= i < rows_below(rows, q) ==> (#[trigger] rows[i]).seq.0 < q,
        rows_below(rows, q) < rows.len() ==> rows[rows_below(rows, q) as int].seq.0 >= q,
    decreases rows.len(),
{
    if rows.len() > 0 && rows[0].seq.0 < q {
        let rest = rows.skip(1);
        lemma_rows_below_bounds(rest, q);
        assert forall|i: int| 0 <= i < rows_below(rows, q) implies (#[trigger] rows[i]).seq.0
            < q by {
            if i > 0 {
                assert(rest[i - 1] == rows[i]);
            }
        }
    }
}

/// The row of an event has the identity and the position that it was given.
pub proof fn lemma_event_row(e: EventView, seq: SessionSeq, id: RowId)
    ensures
        event_row(e, seq, id).id == id,
        event_row(e, seq, id).seq == seq,
{
}

/// A new row in its place keeps the window ordered.
pub proof fn lemma_row_ordered(w: TrajView, e: EventView)
    requires
        w.ordered(),
        e.seq is Some,
        w.next_id < u64::MAX,
    ensures
        w.with_event(e).ordered(),
        w.with_event(e).rows.len() == w.rows.len() + 1,
{
    let q = e.seq->0;
    let row = event_row(e, q, RowId(w.next_id));
    lemma_event_row(e, q, RowId(w.next_id));
    lemma_rows_below_bounds(w.rows, q.0);
    let k = rows_below(w.rows, q.0) as int;
    let out = w.with_event(e);
    assert forall|i: int| 0 <= i < out.rows.len() implies #[trigger] out.rows[i] == if i < k {
        w.rows[i]
    } else if i == k {
        row
    } else {
        w.rows[i - 1]
    } by {}
    assert forall|i: int, j: int| 0 <= i <= j < out.rows.len() implies (
    #[trigger] out.rows[i]).seq.0 <= (#[trigger] out.rows[j]).seq.0 by {
        if j > k {
            assert(w.rows[k].seq.0 <= w.rows[j - 1].seq.0);
        }
    }
}

/// Where the last row of a kind is.
pub proof fn lemma_last_of_kind(rows: Seq<RowView>, kind: TrajKind)
    ensures
        -1 <= last_of_kind(rows, kind) < rows.len(),
        last_of_kind(rows, kind) >= 0 ==> rows[last_of_kind(rows, kind)].kind == kind,
        forall|i: int|
            last_of_kind(rows, kind) < i < rows.len() ==> (#[trigger] rows[i]).kind != kind,
    decreases rows.len(),
{
    if rows.len() > 0 && rows.last().kind != kind {
        let rest = rows.drop_last();
        lemma_last_of_kind(rest, kind);
        assert forall|i: int| last_of_kind(rows, kind) < i < rows.len() implies (
        #[trigger] rows[i]).kind != kind by {
            if i < rest.len() {
                assert(rest[i] == rows[i]);
            }
        }
    }
}

/// A merged chunk row keeps the window ordered.
pub proof fn lemma_merged_ordered(w: TrajView, row: ChunkRowView)
    requires
        w.ordered(),
    ensures
        w.with_chunks(row).ordered(),
        w.with_chunks(row).rows.len() == w.rows.len(),
{
    let out = w.with_chunks(row);
    assert forall|i: int| 0 <= i < out.rows.len() implies (#[trigger] out.rows[i]).seq
        == w.rows[i].seq && out.rows[i].id == w.rows[i].id by {}
    assert forall|i: int, j: int| 0 <= i <= j < out.rows.len() implies (
    #[trigger] out.rows[i]).seq.0 <= (#[trigger] out.rows[j]).seq.0 by {
        assert(w.rows[i].seq.0 <= w.rows[j].seq.0);
    }
    assert forall|i: int, j: int| 0 <= i < j < out.rows.len() implies (#[trigger] out.rows[i]).id
        != (#[trigger] out.rows[j]).id by {
        assert(w.rows[i].id != w.rows[j].id);
    }
}

/// Records keep the window ordered and use no more identities than there are
/// records.
pub proof fn lemma_records_ordered(w: TrajView, records: Seq<RecordView>, n: nat, page: bool)
    requires
        w.ordered(),
        n <= records.len(),
        w.next_id + n <= u64::MAX,
    ensures
        w.with_records(records, n, page).ordered(),
        w.next_id <= w.with_records(records, n, page).next_id <= w.next_id + n,
        w.with_records(records, n, page).cap == w.cap,
    decreases n,
{
    if n > 0 {
        lemma_records_ordered(w, records, (n - 1) as nat, page);
        let before = w.with_records(records, (n - 1) as nat, page);
        match records[n - 1] {
            RecordView::Event(e) => {
                if before.takes(records[n - 1], page) {
                    lemma_row_ordered(before, e);
                }
            },
            RecordView::Chunks(row) => {
                lemma_merged_ordered(before, row);
            },
        }
    }
}

/// Evicting the oldest rows makes an ordered window well formed.
pub proof fn lemma_rows_evicted_wf(w: TrajView)
    requires
        w.ordered(),
    ensures
        w.evicted().wf(),
{
    let out = w.evicted();
    if w.rows.len() > w.cap {
        let d = w.rows.len() - w.cap;
        assert forall|i: int| 0 <= i < out.rows.len() implies #[trigger] out.rows[i] == w.rows[i
            + d] by {}
    }
}

impl TrajectoryWindow {
    /// The invariant of a window.
    pub open spec fn wf(&self) -> bool {
        self.state().wf()
    }

    /// An empty window for `cap` rows, at least one.
    pub fn new(cap: usize) -> (r: TrajectoryWindow)
        ensures
            r.wf(),
            r.state() == fresh_trajectory(cap),
    {
        let r = TrajectoryWindow {
            rows: Vec::new(),
            cap: if cap == 0 {
                1
            } else {
                cap
            },
            head_has_more: true,
            cursor: None,
            projections: Json::Null,
            seen_seq: SeqSet::new(),
            seen_request: TextSet::new(),
            next_id: 1,
            evicted_head_seq: None,
        };
        assert(r.state().rows =~= Seq::<RowView>::empty());
        r
    }

    /// The rows, oldest first.
    pub fn raw_rows(&self) -> (r: &Vec<TrajectoryRow>)
        ensures
            row_views(r@) == self.state().rows,
    {
        &self.rows
    }

    pub fn len(&self) -> (r: usize)
        ensures
            r == self.state().rows.len(),
    {
        self.rows.len()
    }

    pub fn is_empty(&self) -> (r: bool)
        ensures
            r == (self.state().rows.len() == 0),
    {
        self.rows.is_empty()
    }

    /// Position of the oldest row.
    pub fn head_seq(&self) -> (r: Option<SessionSeq>)
        ensures
            r == if self.state().rows.len() > 0 {
                Some(self.state().rows[0].seq)
            } else {
                None
            },
    {
        if self.rows.len() > 0 {
            Some(self.rows[0].seq())
        } else {
            None
        }
    }

    /// Position of the newest row.
    pub fn tail_seq(&self) -> (r: Option<SessionSeq>)
        ensures
            r == if self.state().rows.len() > 0 {
                Some(self.state().rows.last().seq)
            } else {
                None
            },
    {
        let n: usize = self.rows.len();
        if n > 0 {
            Some(self.rows[n - 1].seq())
        } else {
            None
        }
    }

    pub fn head_has_more(&self) -> (r: bool)
        ensures
            r == self.state().head_has_more,
    {
        self.head_has_more
    }

    pub fn cursor(&self) -> (r: Option<SessionLogOffset>)
        ensures
            r == self.state().cursor,
    {
        self.cursor
    }

    pub fn projections(&self) -> (r: &Json)
        ensures
            r@ == self.state().projections,
    {
        &self.projections
    }

    /// The row with an identity.
    pub fn row(&self, id: RowId) -> (r: Option<&TrajectoryRow>)
        ensures
            match r {
                Some(row) => exists|i: int|
                    0 <= i < self.state().rows.len() && (#[trigger] self.state().rows[i]) == row@ && row@.id == id
                        && forall|j: int| 0 <= j < i ==> (#[trigger] self.state().rows[j]).id != id,
                None => forall|i: int|
                    0 <= i < self.state().rows.len() ==> (#[trigger] self.state().rows[i]).id != id,
            },
    {
        let mut i: usize = 0;
        while i < self.rows.len()
            invariant
                i <= self.rows@.len(),
                self.state().rows == row_views(self.rows@),
                forall|j: int| 0 <= j < i ==> (#[trigger] self.state().rows[j]).id != id,
            decreases self.rows@.len() - i,
        {
            assert(self.state().rows[i as int] == self.rows@[i as int]@);
            if self.rows[i].id() == id {
                return Some(&self.rows[i]);
            }
            i = i + 1;
        }
        None
    }

    /// Index of the first row at or after `seq`.
    fn partition(&self, seq: SessionSeq) -> (r: usize)
        requires
            self.state().ordered(),
        ensures
            r == rows_below(self.state().rows, seq.0),
            r <= self.state().rows.len(),
    {
        let mut lo: usize = 0;
        let mut hi: usize = self.rows.len();
        while lo < hi
            invariant
                lo <= hi <= self.rows@.len(),
                self.state().ordered(),
                self.state().rows == row_views(self.rows@),
                forall|i: int| 0 <= i < lo ==> (#[trigger] self.state().rows[i]).seq.0 < seq.0,
                forall|i: int|
                    hi <= i < self.rows@.len() ==> (#[trigger] self.state().rows[i]).seq.0 >= seq.0,
            decreases hi - lo,
        {
            let mid: usize = lo + (hi - lo) / 2;
            assert(self.state().rows[mid as int] == self.rows@[mid as int]@);
            if self.rows[mid].seq().0 < seq.0 {
                lo = mid + 1;
            } else {
                hi = mid;
            }
        }
        proof {
            lemma_rows_below(self.state().rows, seq.0, lo as int);
        }
        lo
    }

    /// Whether an event is new.
    fn is_new(&self, ev: &SessionWireEvent) -> (r: bool)
        ensures
            r == self.state().accepts(ev@),
    {
        match ev.seq {
            None => false,
            Some(seq) => {
                let known = match &ev.request_id {
                    Some(id) => self.seen_request.contains(id.as_str()),
                    None => false,
                };
                !known && !self.seen_seq.contains(seq.get())
            },
        }
    }

    /// Puts the row of a new event in its place.
    fn take_event(&mut self, ev: &SessionWireEvent, seq: SessionSeq)
        requires
            old(self).state().ordered(),
            ev@.seq == Some(seq),
            old(self).state().next_id < u64::MAX,
        ensures
            final(self).state() == old(self).state().with_event(ev@),
            final(self).state().ordered(),
    {
        let row = row_from_event(ev, seq, self.next_id);
        let k: usize = self.partition(seq);
        self.next_id = self.next_id + 1;
        self.rows.insert(k, row);
        self.seen_seq.insert(seq.get());
        if let Some(id) = &ev.request_id {
            self.seen_request.insert(id.clone());
        }
        proof {
            assert(self.state().rows =~= old(self).state().rows.insert(
                k as int,
                event_row(ev@, seq, RowId(old(self).state().next_id)),
            ));
            assert(self.state() =~= old(self).state().with_event(ev@));
            lemma_row_ordered(old(self).state(), ev@);
        }
    }

    /// Index of the last row of a kind.
    fn last_row(&self, kind: TrajKind) -> (r: Option<usize>)
        ensures
            match r {
                Some(i) => last_of_kind(self.state().rows, kind) == i && i < self.state().rows.len(),
                None => last_of_kind(self.state().rows, kind) == -1,
            },
    {
        let ghost views = self.state().rows;
        let mut i: usize = self.rows.len();
        assert(views.take(i as int) =~= views);
        while i > 0
            invariant
                i <= self.rows@.len(),
                views == row_views(self.rows@),
                last_of_kind(views, kind) == last_of_kind(views.take(i as int), kind),
            decreases i,
        {
            assert(views.take(i as int).last() == self.rows@[i - 1]@);
            assert(views.take(i as int).drop_last() =~= views.take(i - 1));
            if self.rows[i - 1].kind() == kind {
                return Some(i - 1);
            }
            i = i - 1;
        }
        assert(views.take(0) =~= Seq::<RowView>::empty());
        None
    }

    /// Merges a chunk row into the row that it belongs to.
    fn take_chunks(&mut self, row: &ChunkRow) -> (r: bool)
        requires
            old(self).state().ordered(),
        ensures
            final(self).state() == old(self).state().with_chunks(row@),
            final(self).state().ordered(),
            r == (old(self).state().host(row@) >= 0),
    {
        proof {
            lemma_merged_ordered(self.state(), row@);
            lemma_last_of_kind(self.state().rows, TrajKind::AssistantMessage);
            lemma_last_of_kind(self.state().rows, TrajKind::ToolCall);
            reveal_strlit("");
            assert(""@ =~= Seq::<char>::empty());
        }
        let kind = match row {
            ChunkRow::TextChunks(_) => TrajKind::AssistantMessage,
            ChunkRow::ReasoningChunks(_) => TrajKind::AssistantMessage,
            ChunkRow::ToolCallChunks(_) => TrajKind::ToolCall,
            ChunkRow::Unknown { .. } => {
                return false;
            },
        };
        match self.last_row(kind) {
            None => false,
            Some(i) => {
                let ghost was = self.rows@[i as int]@;
                assert(self.state().rows[i as int] == was);
                match (row, &mut self.rows[i]) {
                    (
                        ChunkRow::TextChunks(d),
                        TrajectoryRow::AssistantMessage { summary, .. },
                    ) => {
                        let text = join(&d.texts, "");
                        summary.append(text.as_str());
                    },
                    (
                        ChunkRow::ReasoningChunks(d),
                        TrajectoryRow::AssistantMessage { summary, has_reasoning, .. },
                    ) => {
                        *has_reasoning = true;
                        let text = join(&d.texts, "");
                        if summary.as_str().is_empty() {
                            *summary = text;
                        }
                    },
                    (
                        ChunkRow::ToolCallChunks(d),
                        TrajectoryRow::ToolCall { name, args_raw, .. },
                    ) => {
                        if name.is_none() {
                            *name = copy_opt(&d.name);
                        }
                        if args_raw.is_none() {
                            *args_raw = dup_opt(&d.args);
                        }
                    },
                    _ => {},
                }
                proof {
                    assert(self.rows@[i as int]@ == merged(was, row@));
                    assert(self.state().rows =~= old(self).state().rows.update(i as int, merged(was, row@)));
                    assert(self.state() =~= old(self).state().with_chunks(row@));
                }
                true
            },
        }
    }
}

/// The window that `TrajectoryWindow::new` makes.
pub open spec fn fresh_trajectory(cap: usize) -> TrajView {
    TrajView {
        rows: Seq::empty(),
        cap: if cap == 0 {
            1
        } else {
            cap as nat
        },
        head_has_more: true,
        cursor: None,
        projections: JsonView::Null,
        seen_seq: Set::empty(),
        seen_request: Set::empty(),
        next_id: 1,
        evicted_head_seq: None,
    }
}

impl TrajectoryWindow {
    /// Whether an event is new to a page.
    fn is_new_to_page(&self, ev: &SessionWireEvent) -> (r: bool)
        ensures
            r == self.state().page_accepts(ev@),
    {
        if !self.is_new(ev) {
            return false;
        }
        match (ev.seq, self.evicted_head_seq) {
            (Some(seq), Some(anchor)) => seq.get() > anchor,
            _ => true,
        }
    }

    /// Takes one history record; tells whether it brought a row.
    fn ingest_record(&mut self, rec: &SessionHistoryRecord, page: bool) -> (r: bool)
        requires
            old(self).state().ordered(),
            old(self).state().next_id < u64::MAX,
        ensures
            final(self).state() == old(self).state().with_record(rec@, page),
            final(self).state().ordered(),
            r == old(self).state().takes(rec@, page),
    {
        match rec {
            SessionHistoryRecord::Event { event } => {
                let new = if page {
                    self.is_new_to_page(event)
                } else {
                    self.is_new(event)
                };
                if new {
                    if let Some(seq) = event.seq {
                        self.take_event(event, seq);
                    }
                }
                new
            },
            SessionHistoryRecord::Chunks { event } => {
                let _ = self.take_chunks(event);
                false
            },
        }
    }

    /// Takes a batch of records; gives how many rows they brought.
    fn ingest_all(&mut self, records: &Vec<SessionHistoryRecord>, page: bool) -> (r: usize)
        requires
            old(self).state().ordered(),
            old(self).state().next_id + records@.len() <= u64::MAX,
        ensures
            final(self).state() == old(self).state().with_records(record_views(records@), records@.len(), page),
            final(self).state().ordered(),
            r == old(self).state().taken(record_views(records@), records@.len(), page),
    {
        let ghost views = record_views(records@);
        let ghost start = self.state();
        let mut count: usize = 0;
        let mut i: usize = 0;
        while i < records.len()
            invariant
                i <= records@.len(),
                count <= i,
                views == record_views(records@),
                start.ordered(),
                start.next_id + records@.len() <= u64::MAX,
                self.state() == start.with_records(views, i as nat, page),
                self.state().ordered(),
                count == start.taken(views, i as nat, page),
            decreases records@.len() - i,
        {
            proof {
                assert(views[i as int] == records@[i as int]@);
                lemma_records_ordered(start, views, i as nat, page);
            }
            if self.ingest_record(&records[i], page) {
                count = count + 1;
            }
            i = i + 1;
        }
        count
    }

    /// Drops the oldest rows beyond the capacity.
    fn evict(&mut self)
        requires
            old(self).state().ordered(),
        ensures
            final(self).state() == old(self).state().evicted(),
            final(self).wf(),
    {
        if self.rows.len() > self.cap {
            let excess: usize = self.rows.len() - self.cap;
            let kept = self.rows.split_off(excess);
            self.evicted_head_seq = Some(self.rows[excess - 1].seq().get());
            self.rows = kept;
        }
        proof {
            assert(self.state() =~= old(self).state().evicted());
            lemma_rows_evicted_wf(old(self).state());
        }
    }

    /// Takes one input; the only way in which a window changes. Identities
    /// must not run out.
    pub fn apply(&mut self, incoming: TrajIncoming) -> (r: TrajEffect)
        requires
            old(self).wf(),
            old(self).state().next_id + incoming@.size() <= u64::MAX,
        ensures
            final(self).wf(),
            final(self).state() == old(self).state().after(incoming@),
            r == old(self).state().effect(incoming@),
    {
        match incoming {
            TrajIncoming::Snapshot { cursor, records, has_more, projections } => {
                self.rows = Vec::new();
                self.seen_seq = SeqSet::new();
                self.seen_request.clear();
                self.cursor = cursor;
                self.head_has_more = has_more;
                self.projections = match projections {
                    Some(p) => p,
                    None => Json::Null,
                };
                self.evicted_head_seq = None;
                proof {
                    assert(self.state().rows =~= Seq::<RowView>::empty());
                    assert(self.state() =~= old(self).state().restarted(
                        cursor,
                        has_more,
                        opt_json(projections),
                    ));
                }
                let _ = self.ingest_all(&records, false);
                self.evict();
                TrajEffect::Rebuilt
            },
            TrajIncoming::FollowEvent(ev) => {
                if !self.is_new(&ev) {
                    return TrajEffect::Noop;
                }
                if let Some(seq) = ev.seq {
                    self.take_event(&ev, seq);
                }
                self.evict();
                TrajEffect::TailAppended { appended: 1 }
            },
            TrajIncoming::Chunks(row) => {
                proof {
                    lemma_merged_ordered(self.state(), row@);
                }
                if self.take_chunks(&row) {
                    TrajEffect::TailAppended { appended: 0 }
                } else {
                    TrajEffect::Noop
                }
            },
            TrajIncoming::Page { records, has_more } => {
                let ghost views = record_views(records@);
                if let Some(more) = has_more {
                    self.head_has_more = more;
                }
                let ghost start = old(self).state().before_page(has_more);
                assert(self.state() =~= start);
                let head_before = self.head_seq();
                let inserted: usize = self.ingest_all(&records, true);
                if inserted == 0 {
                    proof {
                        lemma_no_row_taken(start, views, views.len());
                    }
                    return TrajEffect::Noop;
                }
                let anchor_shift: usize = match head_before {
                    Some(head) => self.partition(head),
                    None => 0,
                };
                self.evict();
                TrajEffect::HeadPrepend { inserted, anchor_shift }
            },
        }
    }
}

/// Records that bring no row leave the number of rows as it is.
proof fn lemma_no_row_taken(w: TrajView, records: Seq<RecordView>, n: nat)
    requires
        w.taken(records, n, true) == 0,
        n <= records.len(),
    ensures
        w.with_records(records, n, true).rows.len() == w.rows.len(),
        w.with_records(records, n, true).cap == w.cap,
    decreases n,
{
    if n > 0 {
        lemma_no_row_taken(w, records, (n - 1) as nat);
    }
}

/// The group that the tools of a step fold with.
pub open spec fn tool_group(r: RowView) -> Option<GroupId> {
    match (r.turn, r.step) {
        (Some(turn), Some(step)) => Some(GroupId::Assistant { turn, step }),
        _ => None,
    }
}

/// Whether a row is a tool row of a folded step.
pub open spec fn tool_hidden(r: RowView, folds: Set<GroupId>) -> bool {
    &&& r.kind == TrajKind::ToolCall || r.kind == TrajKind::ToolResult
    &&& tool_group(r) is Some
    &&& folds.contains(tool_group(r)->0)
}

/// Whether the row starts a folded turn.
pub open spec fn starts_folded_turn(r: RowView, folds: Set<GroupId>) -> bool {
    r.kind == TrajKind::TurnStart && r.turn is Some && folds.contains(GroupId::Turn(r.turn->0))
}

/// Whether the row starts or ends a turn.
pub open spec fn is_boundary(r: RowView) -> bool {
    r.kind == TrajKind::TurnStart || r.kind == TrajKind::TurnEnd
}

/// Whether row `i` belongs to the turn that row `s` starts: no boundary lies
/// between them, and the next boundary after `s`, if any, ends a turn.
pub open spec fn in_turn(rows: Seq<RowView>, s: int, i: int) -> bool {
    &&& 0 <= s < i < rows.len()
    &&& rows[s].kind == TrajKind::TurnStart
    &&& rows[i].kind != TrajKind::TurnStart
    &&& forall|b: int| s < b < i ==> !is_boundary(#[trigger] rows[b])
    &&& forall|b: int|
        s < b < rows.len() && is_boundary(#[trigger] rows[b]) && (forall|c: int|
            s < c < b ==> !is_boundary(#[trigger] rows[c])) ==> rows[b].kind == TrajKind::TurnEnd
}

/// Whether row `i` is hidden: a tool row of a folded step, or a row of a
/// folded turn but for the one that starts it.
pub open spec fn hidden(rows: Seq<RowView>, folds: Set<GroupId>, i: int) -> bool {
    tool_hidden(rows[i], folds) || exists|s: int|
        starts_folded_turn(rows[s], folds) && #[trigger] in_turn(rows, s, i)
}

/// The visible rows among the first `n`.
pub open spec fn visible(rows: Seq<RowView>, folds: Set<GroupId>, n: nat) -> Seq<RowView>
    decreases n,
{
    if n == 0 || n > rows.len() {
        Seq::empty()
    } else if hidden(rows, folds, n - 1) {
        visible(rows, folds, (n - 1) as nat)
    } else {
        visible(rows, folds, (n - 1) as nat).push(rows[n - 1])
    }
}

/// The rows from `lo` to `hi` that are no tool rows of folded steps.
spec fn unfolded(rows: Seq<RowView>, folds: Set<GroupId>, lo: int, hi: int) -> Seq<RowView>
    decreases hi - lo,
{
    if hi <= lo {
        Seq::empty()
    } else if tool_hidden(rows[hi - 1], folds) {
        unfolded(rows, folds, lo, hi - 1)
    } else {
        unfolded(rows, folds, lo, hi - 1).push(rows[hi - 1])
    }
}

/// Rows of an open turn that no turn fold hides are visible as tool folds say.
proof fn lemma_visible_span(rows: Seq<RowView>, folds: Set<GroupId>, lo: int, hi: int)
    requires
        0 <= lo <= hi <= rows.len(),
        forall|i: int|
            lo <= i < hi ==> (#[trigger] hidden(rows, folds, i)) == tool_hidden(rows[i], folds),
    ensures
        visible(rows, folds, hi as nat) == visible(rows, folds, lo as nat) + unfolded(
            rows,
            folds,
            lo,
            hi,
        ),
    decreases hi - lo,
{
    if lo < hi {
        lemma_visible_span(rows, folds, lo, hi - 1);
        assert(hidden(rows, folds, hi - 1) == tool_hidden(rows[hi - 1], folds));
        assert(visible(rows, folds, hi as nat) =~= visible(rows, folds, lo as nat) + unfolded(
            rows,
            folds,
            lo,
            hi,
        ));
    } else {
        assert(visible(rows, folds, hi as nat) =~= visible(rows, folds, lo as nat) + Seq::<
            RowView,
        >::empty());
    }
}

/// Rows that are all hidden add nothing.
proof fn lemma_hidden_span(rows: Seq<RowView>, folds: Set<GroupId>, lo: int, hi: int)
    requires
        0 <= lo <= hi <= rows.len(),
        forall|i: int| lo <= i < hi ==> #[trigger] hidden(rows, folds, i),
    ensures
        visible(rows, folds, hi as nat) == visible(rows, folds, lo as nat),
    decreases hi - lo,
{
    if lo < hi {
        lemma_hidden_span(rows, folds, lo, hi - 1);
        assert(hidden(rows, folds, hi - 1));
    }
}

/// Rows behind the start `s` of a turn belong to no other turn.
proof fn lemma_only_turn(rows: Seq<RowView>, s: int, i: int, other: int)
    requires
        0 <= s < i < rows.len(),
        rows[s].kind == TrajKind::TurnStart,
        forall|b: int| s < b < i ==> !is_boundary(#[trigger] rows[b]),
        in_turn(rows, other, i),
    ensures
        other == s,
{
    if other < s {
        assert(is_boundary(rows[s]));
    } else if other > s {
        assert(is_boundary(rows[other]));
    }
}

/// What folding makes of the rows `s + 1 .. hi` of a turn started at `s`: with
/// `closed` the turn reaches up to `hi`, without it another turn starts there.
proof fn lemma_turn_span(
    rows: Seq<RowView>,
    folds: Set<GroupId>,
    s: int,
    hi: int,
    closed: bool,
)
    requires
        0 <= s < hi <= rows.len(),
        rows[s].kind == TrajKind::TurnStart,
        forall|b: int| s < b < hi - 1 ==> !is_boundary(#[trigger] rows[b]),
        s < hi - 1 ==> rows[hi - 1].kind != TrajKind::TurnStart,
        closed ==> (hi == rows.len() || (s < hi - 1 && rows[hi - 1].kind == TrajKind::TurnEnd)),
        !closed ==> hi < rows.len() && rows[hi].kind == TrajKind::TurnStart && (s < hi - 1
            ==> !is_boundary(rows[hi - 1])),
    ensures
        visible(rows, folds, hi as nat) == if closed && starts_folded_turn(rows[s], folds) {
            visible(rows, folds, (s + 1) as nat)
        } else {
            visible(rows, folds, (s + 1) as nat) + unfolded(rows, folds, s + 1, hi)
        },
{
    if closed && starts_folded_turn(rows[s], folds) {
        assert forall|i: int| s + 1 <= i < hi implies #[trigger] hidden(rows, folds, i) by {
            assert(in_turn(rows, s, i)) by {
                assert forall|b: int|
                    s < b < rows.len() && is_boundary(#[trigger] rows[b]) && (forall|c: int|
                        s < c < b ==> !is_boundary(#[trigger] rows[c])) implies rows[b].kind
                    == TrajKind::TurnEnd by {
                    if b >= hi {
                        assert(is_boundary(rows[hi - 1]));
                    }
                }
            }
        }
        lemma_hidden_span(rows, folds, s + 1, hi);
    } else {
        assert forall|i: int| s + 1 <= i < hi implies (#[trigger] hidden(rows, folds, i))
            == tool_hidden(rows[i], folds) by {
            if exists|o: int| starts_folded_turn(rows[o], folds) && #[trigger] in_turn(rows, o, i) {
                let o = choose|o: int|
                    starts_folded_turn(rows[o], folds) && #[trigger] in_turn(rows, o, i);
                lemma_only_turn(rows, s, i, o);
                if !closed {
                    assert(is_boundary(rows[hi]));
                    assert(forall|c: int| s < c < hi ==> !is_boundary(#[trigger] rows[c]));
                    assert(rows[hi].kind == TrajKind::TurnEnd);
                }
            }
        }
        lemma_visible_span(rows, folds, s + 1, hi);
    }
}

/// Whether no turn is open before row `i`: the last boundary before it, if any,
/// ends a turn.
spec fn no_open_turn(rows: Seq<RowView>, i: int) -> bool
    decreases i,
{
    if i <= 0 {
        true
    } else if is_boundary(rows[i - 1]) {
        rows[i - 1].kind == TrajKind::TurnEnd
    } else {
        no_open_turn(rows, i - 1)
    }
}

/// Behind the start of a turn there is its end, where no turn is open.
proof fn lemma_turn_end(rows: Seq<RowView>, s: int, i: int) -> (e: int)
    requires
        0 <= s < i <= rows.len(),
        rows[s].kind == TrajKind::TurnStart,
        no_open_turn(rows, i),
    ensures
        s < e < i,
        rows[e].kind == TrajKind::TurnEnd,
    decreases i,
{
    if is_boundary(rows[i - 1]) {
        i - 1
    } else {
        lemma_turn_end(rows, s, i - 1)
    }
}

/// A row outside every turn is hidden only as a tool row.
proof fn lemma_outside_turns(rows: Seq<RowView>, folds: Set<GroupId>, i: int)
    requires
        0 <= i < rows.len(),
        rows[i].kind == TrajKind::TurnStart || no_open_turn(rows, i),
    ensures
        hidden(rows, folds, i) == tool_hidden(rows[i], folds),
{
    if exists|s: int| starts_folded_turn(rows[s], folds) && #[trigger] in_turn(rows, s, i) {
        let s = choose|s: int|
            starts_folded_turn(rows[s], folds) && #[trigger] in_turn(rows, s, i);
        let e = lemma_turn_end(rows, s, i);
        assert(is_boundary(rows[e]));
    }
}

/// The views of a list of borrowed rows.
pub open spec fn ref_views(rows: Seq<&TrajectoryRow>) -> Seq<RowView> {
    rows.map_values(|r: &TrajectoryRow| r@)
}

/// Whether a tool row belongs to a folded step.
fn assistant_group_collapsed(row: &TrajectoryRow, fold: &FoldState) -> (r: bool)
    ensures
        r == (tool_group(row@) is Some && fold@.contains(tool_group(row@)->0)),
{
    match (row.turn(), row.step()) {
        (Some(turn), Some(step)) => fold.is_collapsed(GroupId::Assistant { turn, step }),
        _ => false,
    }
}

/// Whether a row that starts a turn is folded.
fn turn_collapsed(row: &TrajectoryRow, fold: &FoldState) -> (r: bool)
    ensures
        r == (row@.turn is Some && fold@.contains(GroupId::Turn(row@.turn->0))),
{
    match row.turn() {
        Some(turn) => fold.is_collapsed(GroupId::Turn(turn)),
        None => false,
    }
}

impl TrajectoryWindow {
    /// The rows that the folds leave visible, computed anew on every call.
    pub fn view(&self, fold: &FoldState) -> (out: Vec<&TrajectoryRow>)
        ensures
            ref_views(out@) == visible(self.state().rows, fold@, self.state().rows.len()),
    {
        let ghost rows = self.state().rows;
        let ghost folds = fold@;
        let mut out: Vec<&TrajectoryRow> = Vec::new();
        // Index of the row that started the current turn, and how many rows
        // are visible up to it.
        let mut open: Option<(usize, usize)> = None;
        let mut i: usize = 0;
        assert(ref_views(out@) =~= Seq::<RowView>::empty());
        while i < self.rows.len()
            invariant
                i <= self.rows@.len(),
                rows == row_views(self.rows@),
                rows.len() == self.rows@.len(),
                folds == fold@,
                match open {
                    None => {
                        &&& ref_views(out@) == visible(rows, folds, i as nat)
                        &&& no_open_turn(rows, i as int)
                    },
                    Some((s, keep)) => {
                        &&& s < i
                        &&& rows[s as int].kind == TrajKind::TurnStart
                        &&& forall|b: int| s < b < i ==> !is_boundary(#[trigger] rows[b])
                        &&& keep <= out@.len()
                        &&& ref_views(out@).take(keep as int) == visible(rows, folds, (s + 1) as nat)
                        &&& ref_views(out@) == visible(rows, folds, (s + 1) as nat) + unfolded(
                            rows,
                            folds,
                            s + 1,
                            i as int,
                        )
                    },
                },
            decreases self.rows@.len() - i,
        {
            let row = &self.rows[i];
            let ghost was = ref_views(out@);
            assert(rows[i as int] == row@);
            match row.kind() {
                TrajKind::TurnStart => {
                    proof {
                        lemma_outside_turns(rows, folds, i as int);
                        if let Some((s, keep)) = open {
                            lemma_turn_span(rows, folds, s as int, i as int, false);
                        }
                    }
                    out.push(row);
                    assert(ref_views(out@) =~= was.push(row@));
                    let keep: usize = out.len();
                    open = Some((i, keep));
                    assert(ref_views(out@).take(keep as int) =~= ref_views(out@));
                    assert(ref_views(out@) =~= ref_views(out@) + unfolded(
                        rows,
                        folds,
                        i + 1,
                        i + 1,
                    ));
                },
                TrajKind::ToolCall | TrajKind::ToolResult => {
                    proof {
                        if open is None {
                            lemma_outside_turns(rows, folds, i as int);
                        }
                    }
                    if !assistant_group_collapsed(row, fold) {
                        out.push(row);
                        assert(ref_views(out@) =~= was.push(row@));
                    }
                    proof {
                        lemma_step(rows, folds, was, ref_views(out@), open, i as int);
                    }
                },
                TrajKind::TurnEnd => {
                    out.push(row);
                    assert(ref_views(out@) =~= was.push(row@));
                    match open {
                        Some((s, keep)) => {
                            proof {
                                lemma_turn_span(rows, folds, s as int, i + 1, true);
                                assert(unfolded(rows, folds, s + 1, i + 1) == unfolded(
                                    rows,
                                    folds,
                                    s + 1,
                                    i as int,
                                ).push(rows[i as int]));
                                assert(ref_views(out@) =~= visible(rows, folds, (s + 1) as nat)
                                    + unfolded(rows, folds, s + 1, i + 1));
                                assert(rows[s as int] == self.rows@[s as int]@);
                            }
                            if turn_collapsed(&self.rows[s], fold) {
                                let ghost full = ref_views(out@);
                                assert(full.take(keep as int) =~= was.take(keep as int));
                                out.truncate(keep);
                                assert(ref_views(out@) =~= full.take(keep as int));
                            }
                            open = None;
                        },
                        None => {
                            proof {
                                lemma_outside_turns(rows, folds, i as int);
                            }
                        },
                    }
                    assert(no_open_turn(rows, i + 1));
                },
                _ => {
                    proof {
                        if open is None {
                            lemma_outside_turns(rows, folds, i as int);
                        }
                    }
                    out.push(row);
                    assert(ref_views(out@) =~= was.push(row@));
                    proof {
                        lemma_step(rows, folds, was, ref_views(out@), open, i as int);
                    }
                },
            }
            i = i + 1;
        }
        if let Some((s, keep)) = open {
            proof {
                lemma_turn_span(rows, folds, s as int, i as int, true);
                assert(rows[s as int] == self.rows@[s as int]@);
            }
            if turn_collapsed(&self.rows[s], fold) {
                let ghost full = ref_views(out@);
                out.truncate(keep);
                assert(ref_views(out@) =~= full.take(keep as int));
            }
        }
        out
    }
}

/// One row that is no boundary, inside or outside a turn.
proof fn lemma_step(
    rows: Seq<RowView>,
    folds: Set<GroupId>,
    was: Seq<RowView>,
    now: Seq<RowView>,
    open: Option<(usize, usize)>,
    i: int,
)
    requires
        0 <= i < rows.len(),
        !is_boundary(rows[i]),
        now == if tool_hidden(rows[i], folds) {
            was
        } else {
            was.push(rows[i])
        },
        match open {
            None => {
                &&& was == visible(rows, folds, i as nat)
                &&& no_open_turn(rows, i)
                &&& hidden(rows, folds, i) == tool_hidden(rows[i], folds)
            },
            Some((s, keep)) => {
                &&& s < i
                &&& keep <= was.len()
                &&& was.take(keep as int) == visible(rows, folds, (s + 1) as nat)
                &&& was == visible(rows, folds, (s + 1) as nat) + unfolded(rows, folds, s + 1, i)
            },
        },
    ensures
        match open {
            None => {
                &&& now == visible(rows, folds, (i + 1) as nat)
                &&& no_open_turn(rows, i + 1)
            },
            Some((s, keep)) => {
                &&& keep <= now.len()
                &&& now.take(keep as int) == visible(rows, folds, (s + 1) as nat)
                &&& now == visible(rows, folds, (s + 1) as nat) + unfolded(
                    rows,
                    folds,
                    s + 1,
                    i + 1,
                )
            },
        },
{
    match open {
        None => {
        },
        Some((s, keep)) => {
            assert(now.take(keep as int) =~= was.take(keep as int));
            assert(now =~= visible(rows, folds, (s + 1) as nat) + unfolded(
                rows,
                folds,
                s + 1,
                i + 1,
            ));
        },
    }
}

/// The group that a row folds with: the turn for its boundaries, the step for
/// assistant and tool rows.
pub open spec fn group_of_row(r: RowView) -> Option<GroupId> {
    match r.kind {
        TrajKind::TurnStart | TrajKind::TurnEnd => match r.turn {
            Some(t) => Some(GroupId::Turn(t)),
            None => None,
        },
        TrajKind::AssistantMessage | TrajKind::ToolCall | TrajKind::ToolResult => tool_group(r),
        _ => None,
    }
}

/// The first row that satisfies `p`.
pub open spec fn first_where(rows: Seq<RowView>, p: spec_fn(RowView) -> bool) -> Option<RowView>
    decreases rows.len(),
{
    if rows.len() == 0 {
        None
    } else if p(rows[0]) {
        Some(rows[0])
    } else {
        first_where(rows.skip(1), p)
    }
}

/// `first_where` finds row `i` where no earlier row satisfies `p`.
pub proof fn lemma_first_where(rows: Seq<RowView>, p: spec_fn(RowView) -> bool, i: int)
    requires
        0 <= i <= rows.len(),
        forall|j: int| 0 <= j < i ==> !p(#[trigger] rows[j]),
        i < rows.len() ==> p(rows[i]),
    ensures
        first_where(rows, p) == if i < rows.len() {
            Some(rows[i])
        } else {
            None
        },
    decreases i,
{
    if i > 0 {
        assert(!p(rows[0]));
        let rest = rows.skip(1);
        assert forall|j: int| 0 <= j < i - 1 implies !p(#[trigger] rest[j]) by {
            assert(rest[j] == rows[j + 1]);
        }
        if i - 1 < rest.len() {
            assert(rest[i - 1] == rows[i]);
        }
        lemma_first_where(rest, p, i - 1);
    }
}

/// The row with an identity.
pub open spec fn row_of(rows: Seq<RowView>, id: RowId) -> Option<RowView> {
    first_where(rows, |r: RowView| r.id == id)
}

impl TrajectoryWindow {
    /// The group that a row folds with.
    pub fn group_of(&self, id: RowId) -> (r: Option<GroupId>)
        ensures
            r == match row_of(self.state().rows, id) {
                Some(row) => group_of_row(row),
                None => None,
            },
    {
        let found = self.row(id);
        proof {
            let rows = self.state().rows;
            let p = |r: RowView| r.id == id;
            match found {
                Some(row) => {
                    let i = choose|i: int|
                        0 <= i < rows.len() && (#[trigger] rows[i]) == row@ && row@.id == id
                            && forall|j: int| 0 <= j < i ==> (#[trigger] rows[j]).id != id;
                    lemma_first_where(rows, p, i);
                },
                None => {
                    lemma_first_where(rows, p, rows.len() as int);
                },
            }
        }
        match found {
            Some(row) => match row.kind() {
                TrajKind::TurnStart | TrajKind::TurnEnd => match row.turn() {
                    Some(t) => Some(GroupId::Turn(t)),
                    None => None,
                },
                TrajKind::AssistantMessage | TrajKind::ToolCall | TrajKind::ToolResult => match (
                    row.turn(),
                    row.step(),
                ) {
                    (Some(turn), Some(step)) => Some(GroupId::Assistant { turn, step }),
                    _ => None,
                },
                _ => None,
            },
            None => None,
        }
    }

    /// Folds or unfolds the group of a row; gives whether it is now folded. A
    /// row without a group changes nothing.
    pub fn toggle_group(&self, fold: &mut FoldState, id: RowId) -> (r: bool)
        ensures
            ({
                let group = match row_of(self.state().rows, id) {
                    Some(row) => group_of_row(row),
                    None => None,
                };
                match group {
                    Some(g) => {
                        &&& r == !old(fold)@.contains(g)
                        &&& final(fold)@ == if r {
                            old(fold)@.insert(g)
                        } else {
                            old(fold)@.remove(g)
                        }
                    },
                    None => !r && final(fold)@ == old(fold)@,
                }
            }),
    {
        match self.group_of(id) {
            Some(g) => fold.toggle(g),
            None => false,
        }
    }

    /// The first row of a kind in a step.
    fn find_in_step(&self, turn: Option<u64>, step: Option<u64>, kind: TrajKind) -> (r: Option<
        &TrajectoryRow,
    >)
        ensures
            match r {
                Some(row) => in_step(self.state().rows, turn, step, kind) == Some(row@),
                None => in_step(self.state().rows, turn, step, kind) is None,
            },
    {
        let ghost rows = self.state().rows;
        let ghost p = |x: RowView| x.turn == turn && x.step == step && x.kind == kind;
        let mut i: usize = 0;
        while i < self.rows.len()
            invariant
                i <= self.rows@.len(),
                rows == row_views(self.rows@),
                rows == self.state().rows,
                p == (|x: RowView| x.turn == turn && x.step == step && x.kind == kind),
                forall|j: int| 0 <= j < i ==> !p(#[trigger] rows[j]),
            decreases self.rows@.len() - i,
        {
            let row = &self.rows[i];
            assert(rows[i as int] == row@);
            if same_number(row.turn(), turn) && same_number(row.step(), step) && row.kind()
                == kind {
                proof {
                    lemma_first_where(rows, p, i as int);
                }
                return Some(row);
            }
            i = i + 1;
        }
        proof {
            lemma_first_where(rows, p, i as int);
        }
        None
    }

    /// The first result of a tool call.
    fn find_result(&self, call_id: &str) -> (r: Option<&TrajectoryRow>)
        ensures
            match r {
                Some(row) => result_of(self.state().rows, call_id@) == Some(row@),
                None => result_of(self.state().rows, call_id@) is None,
            },
    {
        let ghost rows = self.state().rows;
        let ghost p = |x: RowView|
            x.kind == TrajKind::ToolResult && x.call_id == Some(call_id@);
        let mut i: usize = 0;
        while i < self.rows.len()
            invariant
                i <= self.rows@.len(),
                rows == row_views(self.rows@),
                rows == self.state().rows,
                p == (|x: RowView|
                    x.kind == TrajKind::ToolResult && x.call_id == Some(call_id@)),
                forall|j: int| 0 <= j < i ==> !p(#[trigger] rows[j]),
            decreases self.rows@.len() - i,
        {
            let row = &self.rows[i];
            assert(rows[i as int] == row@);
            let matching = match row.call_id() {
                Some(id) => same(id, call_id),
                None => false,
            };
            if matching && row.kind() == TrajKind::ToolResult {
                proof {
                    lemma_first_where(rows, p, i as int);
                }
                return Some(row);
            }
            i = i + 1;
        }
        proof {
            lemma_first_where(rows, p, i as int);
        }
        None
    }
}

/// Whether two optional numbers are equal.
fn same_number(a: Option<u64>, b: Option<u64>) -> (r: bool)
    ensures
        r == (a == b),
{
    match (a, b) {
        (Some(x), Some(y)) => x == y,
        (None, None) => true,
        _ => false,
    }
}

/// The first row of a kind in a step.
pub open spec fn in_step(
    rows: Seq<RowView>,
    turn: Option<u64>,
    step: Option<u64>,
    kind: TrajKind,
) -> Option<RowView> {
    first_where(rows, |x: RowView| x.turn == turn && x.step == step && x.kind == kind)
}

/// The first result of the tool call `call_id`.
pub open spec fn result_of(rows: Seq<RowView>, call_id: Seq<char>) -> Option<RowView> {
    first_where(rows, |x: RowView| x.kind == TrajKind::ToolResult && x.call_id == Some(call_id))
}

/// Times around a row, in milliseconds.
#[derive(Debug, Clone, Copy, PartialEq, Eq, Structural)]
pub struct TrajTiming {
    /// Time of the row itself.
    pub started_at: Option<i64>,
    /// From the row to its completion, where it completed and not before it began.
    pub elapsed_ms: Option<u64>,
    /// Start of the step.
    pub step_start: Option<i64>,
    /// First message of the assistant in the step.
    pub first_token: Option<i64>,
    /// Time of the result, or of the end of the step.
    pub completed: Option<i64>,
}

/// What the detail panel shows of a row.
#[derive(Debug, Clone, PartialEq, Eq)]
pub struct TrajectoryDetail {
    pub source_seq: SessionSeq,
    pub source_kind: TrajKind,
    pub title: String,
    pub args_text: Option<String>,
    pub result_text: Option<String>,
    pub error: Option<TrajError>,
    pub diff: Option<String>,
    pub usage: Option<TrajUsage>,
    pub timing: Option<TrajTiming>,
    pub source_blocks: Vec<String>,
}

/// Mathematical detail.
pub struct DetailView {
    pub source_seq: SessionSeq,
    pub source_kind: TrajKind,
    pub title: Seq<char>,
    pub args_text: Option<Seq<char>>,
    pub result_text: Option<Seq<char>>,
    pub error: Option<ErrorView>,
    pub diff: Option<Seq<char>>,
    pub usage: Option<TrajUsage>,
    pub timing: Option<TrajTiming>,
    pub source_blocks: Seq<Seq<char>>,
}

impl View for TrajectoryDetail {
    type V = DetailView;

    open spec fn view(&self) -> DetailView {
        DetailView {
            source_seq: self.source_seq,
            source_kind: self.source_kind,
            title: self.title@,
            args_text: opt_text(self.args_text),
            result_text: opt_text(self.result_text),
            error: opt_error(self.error),
            diff: opt_text(self.diff),
            usage: self.usage,
            timing: self.timing,
            source_blocks: texts(self.source_blocks@),
        }
    }
}

impl TrajectoryDetail {
    /// What copying the detail takes: arguments, then an empty line, then the
    /// result, as far as they are there.
    pub fn yank_text(&self) -> (r: Option<String>)
        ensures
            opt_text(r) == match (self@.args_text, self@.result_text) {
                (Some(a), Some(t)) => Some(a + "\n\n"@ + t),
                (Some(a), None) => Some(a),
                (None, t) => t,
            },
    {
        match (&self.args_text, &self.result_text) {
            (Some(a), Some(t)) => {
                let mut out = a.clone();
                out.append("\n\n");
                out.append(t.as_str());
                Some(out)
            },
            (Some(a), None) => Some(a.clone()),
            (None, Some(t)) => Some(t.clone()),
            (None, None) => None,
        }
    }
}

/// The indented text of a value, its plain text where indenting fails.
pub open spec fn formatted(v: JsonView) -> Seq<char> {
    match json_pretty(v) {
        Some(t) => t,
        None => json_display(v),
    }
}

/// The value that arguments are shown as: what a text parses to unless that is
/// null, the value itself where it is no text. Nothing keeps the text as it is.
pub open spec fn args_value(v: JsonView, parsed: Option<JsonView>) -> Option<JsonView> {
    match v {
        JsonView::Str(_) => match parsed {
            Some(p) => if p is Null {
                None
            } else {
                Some(p)
            },
            None => None,
        },
        _ => Some(v),
    }
}

/// The text that arguments are shown as.
pub open spec fn args_shown(v: JsonView) -> Seq<char> {
    let parsed = match v {
        JsonView::Str(s) => json_parsed(s),
        _ => None,
    };
    match args_value(v, parsed) {
        Some(p) => formatted(p),
        None => or_empty(v.as_str()),
    }
}

/// The diff in the payload of a result: a text as it is, other values indented.
pub open spec fn diff_of(meta: Option<JsonView>) -> Option<Seq<char>> {
    match meta {
        Some(m) => match m.get("diff"@) {
            Some(JsonView::Str(s)) => Some(s),
            Some(JsonView::Null) => None,
            Some(v) => Some(formatted(v)),
            None => None,
        },
        None => None,
    }
}

/// Milliseconds from `a` to `b`, where both are there and in order.
pub open spec fn elapsed(a: Option<i64>, b: Option<i64>) -> Option<u64> {
    match (a, b) {
        (Some(x), Some(y)) => if y >= x {
            Some((y - x) as u64)
        } else {
            None
        },
        _ => None,
    }
}

/// The time of an optional row.
pub open spec fn time_of(r: Option<RowView>) -> Option<i64> {
    match r {
        Some(row) => row.time,
        None => None,
    }
}

/// The times around a row of a step; nothing where neither start nor
/// completion is known.
pub open spec fn timing_of(
    rows: Seq<RowView>,
    started_at: Option<i64>,
    turn: Option<u64>,
    step: Option<u64>,
    completed: Option<i64>,
) -> Option<TrajTiming> {
    if started_at is None && completed is None {
        None
    } else {
        Some(
            TrajTiming {
                started_at,
                elapsed_ms: elapsed(started_at, completed),
                step_start: time_of(in_step(rows, turn, step, TrajKind::StepStart)),
                first_token: time_of(in_step(rows, turn, step, TrajKind::AssistantMessage)),
                completed,
            },
        )
    }
}

/// The usage of the first assistant message of a step.
pub open spec fn step_usage(rows: Seq<RowView>, turn: Option<u64>, step: Option<u64>) -> Option<
    TrajUsage,
> {
    match in_step(rows, turn, step, TrajKind::AssistantMessage) {
        Some(r) => r.usage,
        None => None,
    }
}

/// The detail of a row: a tool call with its result, a tool result, or an
/// assistant message. Other rows have none.
pub open spec fn detail_of(row: RowView, rows: Seq<RowView>) -> Option<DetailView> {
    match row.kind {
        TrajKind::ToolCall => {
            let result = match row.call_id {
                Some(id) => result_of(rows, id),
                None => None,
            };
            Some(
                DetailView {
                    source_seq: row.seq,
                    source_kind: TrajKind::ToolCall,
                    title: "tool/call "@ + (match row.name {
                        Some(n) => n,
                        None => "tool"@,
                    }),
                    args_text: match row.args_raw {
                        Some(v) => Some(args_shown(v)),
                        None => None,
                    },
                    result_text: match result {
                        Some(r) => Some(r.summary),
                        None => None,
                    },
                    error: match result {
                        Some(r) => r.error,
                        None => None,
                    },
                    diff: match result {
                        Some(r) => diff_of(r.meta),
                        None => None,
                    },
                    usage: step_usage(rows, row.turn, row.step),
                    timing: timing_of(rows, row.time, row.turn, row.step, time_of(result)),
                    source_blocks: Seq::empty(),
                },
            )
        },
        TrajKind::ToolResult => Some(
            DetailView {
                source_seq: row.seq,
                source_kind: TrajKind::ToolResult,
                title: trimmed_end("tool/result "@ + or_empty(row.call_id)),
                args_text: None,
                result_text: Some(row.summary),
                error: row.error,
                diff: diff_of(row.meta),
                usage: step_usage(rows, row.turn, row.step),
                timing: timing_of(rows, row.time, row.turn, row.step, row.time),
                source_blocks: Seq::empty(),
            },
        ),
        TrajKind::AssistantMessage => Some(
            DetailView {
                source_seq: row.seq,
                source_kind: TrajKind::AssistantMessage,
                title: "assistant"@,
                args_text: None,
                result_text: if row.summary.len() > 0 {
                    Some(row.summary)
                } else {
                    None
                },
                error: None,
                diff: None,
                usage: row.usage,
                timing: timing_of(
                    rows,
                    row.time,
                    row.turn,
                    row.step,
                    time_of(in_step(rows, row.turn, row.step, TrajKind::StepEnd)),
                ),
                source_blocks: if row.summary.len() > 0 {
                    seq![row.summary]
                } else {
                    Seq::empty()
                },
            },
        ),
        _ => None,
    }
}

/// The indented text, or the plain one where there is none.
pub fn pretty_or(indented: Option<String>, plain: String) -> (r: String)
    ensures
        r@ == match opt_text(indented) {
            Some(t) => t,
            None => plain@,
        },
{
    match indented {
        Some(t) => t,
        None => plain,
    }
}

/// The indented text of a value.
fn format_json(v: &Json) -> (r: String)
    ensures
        r@ == formatted(v@),
{
    pretty_or(pretty(v), display(v))
}

/// The value that arguments are shown as, given what a text parses to.
pub fn args_to_show(v: &Json, parsed: Option<Json>) -> (r: Option<Json>)
    ensures
        opt_json(r) == args_value(v@, opt_json(parsed)),
{
    match v {
        Json::Str(_) => match parsed {
            Some(Json::Null) => None,
            Some(p) => Some(p),
            None => None,
        },
        _ => Some(v.dup()),
    }
}

/// The text that the arguments of a tool call are shown as.
pub fn format_args_json(v: &Json) -> (r: String)
    ensures
        r@ == args_shown(v@),
{
    let parsed = match v {
        Json::Str(s) => parse(s.as_str()),
        _ => None,
    };
    match args_to_show(v, parsed) {
        Some(p) => format_json(&p),
        None => match v.as_str() {
            Some(s) => s.to_owned(),
            None => String::new(),
        },
    }
}

/// The diff in the payload of a result.
fn extract_diff(meta: Option<&Json>) -> (r: Option<String>)
    ensures
        opt_text(r) == diff_of(opt_json_ref(meta)),
{
    match meta {
        Some(m) => match m.get("diff") {
            Some(Json::Str(s)) => Some(s.clone()),
            Some(Json::Null) => None,
            Some(v) => Some(format_json(v)),
            None => None,
        },
        None => None,
    }
}

/// The times around a row of a step.
fn timing_for(
    started_at: Option<i64>,
    window: &TrajectoryWindow,
    turn: Option<u64>,
    step: Option<u64>,
    completed: Option<i64>,
) -> (r: Option<TrajTiming>)
    ensures
        r == timing_of(window.state().rows, started_at, turn, step, completed),
{
    if started_at.is_none() && completed.is_none() {
        return None;
    }
    let step_start = match window.find_in_step(turn, step, TrajKind::StepStart) {
        Some(row) => row.time(),
        None => None,
    };
    let first_token = match window.find_in_step(turn, step, TrajKind::AssistantMessage) {
        Some(row) => row.time(),
        None => None,
    };
    let elapsed_ms = match (started_at, completed) {
        (Some(a), Some(b)) => if b >= a {
            Some((b as i128 - a as i128) as u64)
        } else {
            None
        },
        _ => None,
    };
    Some(TrajTiming { started_at, elapsed_ms, step_start, first_token, completed })
}

/// The usage of the first assistant message of a step.
fn usage_for(window: &TrajectoryWindow, turn: Option<u64>, step: Option<u64>) -> (r: Option<
    TrajUsage,
>)
    ensures
        r == step_usage(window.state().rows, turn, step),
{
    match window.find_in_step(turn, step, TrajKind::AssistantMessage) {
        Some(row) => match row.usage() {
            Some(u) => Some(*u),
            None => None,
        },
        None => None,
    }
}

/// The detail of a row, with what the window knows of its step and its call.
pub fn detail_for(row: &TrajectoryRow, window: &TrajectoryWindow) -> (r: Option<TrajectoryDetail>)
    ensures
        match r {
            Some(d) => detail_of(row@, window.state().rows) == Some(d@),
            None => detail_of(row@, window.state().rows) is None,
        },
{
    let mut no_blocks: Vec<String> = Vec::new();
    assert(texts(no_blocks@) =~= Seq::<Seq<char>>::empty());
    match row {
        TrajectoryRow::ToolCall { seq, turn, step, time, name, args_raw, call_id, .. } => {
            let result = match call_id {
                Some(id) => window.find_result(id.as_str()),
                None => None,
            };
            let title = match name {
                Some(n) => cat("tool/call ", n.as_str()),
                None => cat("tool/call ", "tool"),
            };
            let args_text = match args_raw {
                Some(v) => Some(format_args_json(v)),
                None => None,
            };
            let completed = match result {
                Some(r) => r.time(),
                None => None,
            };
            let timing = timing_for(*time, window, *turn, *step, completed);
            let usage = usage_for(window, *turn, *step);
            let (result_text, error, diff) = match result {
                Some(r) => (
                    Some(r.summary().to_owned()),
                    match r.error() {
                        Some(e) => Some(e.clone()),
                        None => None,
                    },
                    extract_diff(r.meta()),
                ),
                None => (None, None, None),
            };
            proof {
                if let Some(r) = result {
                    let rows = window.state().rows;
                    lemma_found(
                        rows,
                        |x: RowView|
                            x.kind == TrajKind::ToolResult && x.call_id == Some(call_id->0@),
                    );
                    assert(r@.kind == TrajKind::ToolResult);
                }
            }
            Some(
                TrajectoryDetail {
                    source_seq: *seq,
                    source_kind: TrajKind::ToolCall,
                    title,
                    args_text,
                    result_text,
                    error,
                    diff,
                    usage,
                    timing,
                    source_blocks: no_blocks,
                },
            )
        },
        TrajectoryRow::ToolResult { seq, turn, step, time, call_id, summary, error, meta, .. } => {
            let title = match call_id {
                Some(id) => cat("tool/result ", id.as_str()),
                None => "tool/result ".to_owned(),
            };
            assert("tool/result "@ =~= "tool/result "@ + Seq::<char>::empty());
            Some(
                TrajectoryDetail {
                    source_seq: *seq,
                    source_kind: TrajKind::ToolResult,
                    title: trim_end(title.as_str()),
                    args_text: None,
                    result_text: Some(summary.clone()),
                    error: match error {
                        Some(e) => Some(e.clone()),
                        None => None,
                    },
                    diff: extract_diff(meta.as_ref()),
                    usage: usage_for(window, *turn, *step),
                    timing: timing_for(*time, window, *turn, *step, *time),
                    source_blocks: no_blocks,
                },
            )
        },
        TrajectoryRow::AssistantMessage { seq, turn, step, time, summary, usage, .. } => {
            let completed = match window.find_in_step(*turn, *step, TrajKind::StepEnd) {
                Some(r) => r.time(),
                None => None,
            };
            let empty = summary.as_str().is_empty();
            if !empty {
                no_blocks.push(summary.clone());
                assert(texts(no_blocks@) =~= seq![summary@]);
            }
            Some(
                TrajectoryDetail {
                    source_seq: *seq,
                    source_kind: TrajKind::AssistantMessage,
                    title: "assistant".to_owned(),
                    args_text: None,
                    result_text: if empty {
                        None
                    } else {
                        Some(summary.clone())
                    },
                    error: None,
                    diff: None,
                    usage: *usage,
                    timing: timing_for(*time, window, *turn, *step, completed),
                    source_blocks: no_blocks,
                },
            )
        },
        _ => None,
    }
}

/// What `first_where` finds satisfies the condition.
proof fn lemma_found(rows: Seq<RowView>, p: spec_fn(RowView) -> bool)
    ensures
        first_where(rows, p) is Some ==> p(first_where(rows, p)->0),
    decreases rows.len(),
{
    if rows.len() > 0 && !p(rows[0]) {
        lemma_found(rows.skip(1), p);
    }
}

impl Default for TrajectoryWindow {
    /// A window for two hundred rows.
    fn default() -> (r: Self)
        ensures
            r.wf(),
            r.state() == fresh_trajectory(200),
    {
        TrajectoryWindow::new(200)
    }
}

/// Trajectories of several sessions; the least recently used one goes first.
#[derive(Debug, Default)]
pub struct TrajectoryStore {
    entries: Vec<(String, TrajectoryWindow)>,
    cap: usize,
}

/// A session and its trajectory.
pub struct TrajEntry {
    pub id: Seq<char>,
    pub window: TrajView,
}

/// Index of the trajectory of `id`, or the number of trajectories.
pub open spec fn traj_index(windows: Seq<TrajEntry>, id: Seq<char>) -> int
    decreases windows.len(),
{
    if windows.len() == 0 || windows[0].id == id {
        0
    } else {
        1 + traj_index(windows.skip(1), id)
    }
}

/// The first trajectory of `id`, or the end where there is none.
pub proof fn lemma_traj_index(windows: Seq<TrajEntry>, id: Seq<char>, k: int)
    requires
        0 <= k <= windows.len(),
        forall|j: int| 0 <= j < k ==> (#[trigger] windows[j]).id != id,
        k < windows.len() ==> windows[k].id == id,
    ensures
        traj_index(windows, id) == k,
    decreases k,
{
    if k > 0 {
        assert(windows[0].id != id);
        let rest = windows.skip(1);
        assert forall|j: int| 0 <= j < k - 1 implies (#[trigger] rest[j]).id != id by {
            assert(rest[j] == windows[j + 1]);
        }
        lemma_traj_index(rest, id, k - 1);
    }
}

/// No session twice, no more trajectories than allowed, each well formed.
pub open spec fn traj_store_wf(windows: Seq<TrajEntry>, limit: nat) -> bool {
    &&& windows.len() <= limit
    &&& forall|i: int| 0 <= i < windows.len() ==> (#[trigger] windows[i]).window.wf()
    &&& forall|i: int, j: int|
        0 <= i < j < windows.len() ==> (#[trigger] windows[i]).id != (#[trigger] windows[j]).id
}

/// The trajectory of `id`, a fresh one where there is none.
pub open spec fn traj_opened(windows: Seq<TrajEntry>, id: Seq<char>, cap: usize) -> TrajView {
    let k = traj_index(windows, id);
    if 0 <= k < windows.len() {
        windows[k].window
    } else {
        fresh_trajectory(cap)
    }
}

/// The trajectories after `id` was opened and its window became `window`.
pub open spec fn traj_touched(
    windows: Seq<TrajEntry>,
    limit: nat,
    id: Seq<char>,
    window: TrajView,
) -> Seq<TrajEntry> {
    let k = traj_index(windows, id);
    let kept = if 0 <= k < windows.len() {
        windows.remove(k)
    } else if windows.len() >= limit {
        windows.skip(1)
    } else {
        windows
    };
    kept.push(TrajEntry { id, window })
}

impl TrajectoryStore {
    /// The trajectories from the least to the most recently used.
    pub closed spec fn windows(&self) -> Seq<TrajEntry> {
        self.entries@.map_values(
            |e: (String, TrajectoryWindow)| TrajEntry { id: e.0@, window: e.1.state() },
        )
    }

    /// How many trajectories are kept, at least one.
    pub closed spec fn limit(&self) -> nat {
        if self.cap == 0 {
            1
        } else {
            self.cap as nat
        }
    }

    /// The invariant of the store.
    pub open spec fn wf(&self) -> bool {
        traj_store_wf(self.windows(), self.limit())
    }

    /// A store for `cap` trajectories.
    pub fn new(cap: usize) -> (r: TrajectoryStore)
        ensures
            r.wf(),
            r.windows().len() == 0,
            r.limit() == if cap == 0 {
                1
            } else {
                cap as nat
            },
    {
        TrajectoryStore { entries: Vec::new(), cap }
    }

    fn position(&self, id: &str) -> (r: usize)
        ensures
            r == traj_index(self.windows(), id@),
            r <= self.entries@.len(),
            r < self.entries@.len() ==> self.entries@[r as int].0@ == id@,
    {
        let ghost views = self.windows();
        let mut i: usize = 0;
        while i < self.entries.len()
            invariant
                i <= self.entries@.len(),
                views == self.windows(),
                views.len() == self.entries@.len(),
                forall|j: int| 0 <= j < i ==> (#[trigger] views[j]).id != id@,
            decreases self.entries@.len() - i,
        {
            let entry = &self.entries[i];
            assert(views[i as int].id == entry.0@);
            if same(entry.0.as_str(), id) {
                proof {
                    lemma_traj_index(views, id@, i as int);
                }
                return i;
            }
            i = i + 1;
        }
        proof {
            lemma_traj_index(views, id@, i as int);
        }
        i
    }

    /// The trajectory of a session.
    pub fn get(&self, id: &str) -> (r: Option<&TrajectoryWindow>)
        ensures
            ({
                let k = traj_index(self.windows(), id@);
                match r {
                    Some(w) => k < self.windows().len() && w.state() == self.windows()[k].window,
                    None => k == self.windows().len(),
                }
            }),
    {
        let i: usize = self.position(id);
        if i < self.entries.len() {
            Some(&self.entries[i].1)
        } else {
            None
        }
    }

    /// The trajectory of a session, to be changed in place.
    pub fn get_mut(&mut self, id: &str) -> (r: Option<&mut TrajectoryWindow>)
        ensures
            ({
                let k = traj_index(old(self).windows(), id@);
                match r {
                    Some(w) => {
                        &&& k < old(self).windows().len()
                        &&& w.state() == old(self).windows()[k].window
                        &&& final(self).limit() == old(self).limit()
                        &&& final(self).windows() == old(self).windows().update(
                            k,
                            TrajEntry { id: id@, window: final(w).state() },
                        )
                    },
                    None => k == old(self).windows().len() && *final(self) == *old(self),
                }
            }),
    {
        let i: usize = self.position(id);
        if i < self.entries.len() {
            let w = &mut self.entries[i].1;
            Some(w)
        } else {
            None
        }
    }

    /// Opens the trajectory of a session as the most recently used one; a new
    /// one takes the place of the least recently used where the store is full.
    pub fn touch(&mut self, id: &str, cap: usize) -> (r: &mut TrajectoryWindow)
        requires
            old(self).wf(),
        ensures
            r.state() == traj_opened(old(self).windows(), id@, cap),
            r.wf(),
            final(self).limit() == old(self).limit(),
            final(self).windows() == traj_touched(
                old(self).windows(),
                old(self).limit(),
                id@,
                final(r).state(),
            ),
    {
        let i: usize = self.position(id);
        let window = if i < self.entries.len() {
            let entry = self.entries.remove(i);
            entry.1
        } else {
            let limit: usize = if self.cap == 0 {
                1
            } else {
                self.cap
            };
            if self.entries.len() >= limit {
                let _ = self.entries.remove(0);
            }
            TrajectoryWindow::new(cap)
        };
        self.entries.push((id.to_owned(), window));
        let last: usize = self.entries.len() - 1;
        &mut self.entries[last].1
    }
}

} // verus!
