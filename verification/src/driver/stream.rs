//! What comes in over the streams of a connection. A stream of a connection
//! that was replaced is not heard any more.

use vstd::prelude::*;

use crate::driver::types::{AppEvent, Fault};
use crate::json::Json;
use crate::model::approval::ApprovalEvent;
use crate::wire::{ChunkRow, SessionHistoryRecord, SessionId, SessionWireEvent};

verus! {

/// What a session sends.
#[derive(Debug, PartialEq, Eq)]
pub enum FollowItem {
    Snapshot {
        cursor: u64,
        records: Vec<SessionHistoryRecord>,
        has_more: bool,
        projections: Json,
    },
    Event(SessionWireEvent),
    Chunks(ChunkRow),
}

/// What is told of what a session sends; nothing of what cannot be read.
pub open spec fn followed(session_id: SessionId, item: Option<FollowItem>) -> Option<AppEvent> {
    match item {
        Some(FollowItem::Snapshot { cursor, records, has_more, projections }) => Some(
            AppEvent::FollowSnapshot { session_id, cursor, records, has_more, projections },
        ),
        Some(FollowItem::Event(event)) => Some(AppEvent::FollowEvent { session_id, event }),
        Some(FollowItem::Chunks(row)) => Some(AppEvent::FollowChunks { session_id, row }),
        None => None,
    }
}

/// What is told of what a session sends.
pub fn follow_frame(session_id: &SessionId, item: Option<FollowItem>) -> (r: Option<AppEvent>)
    ensures
        r == followed(*session_id, item),
{
    let session_id = session_id.clone();
    match item {
        Some(FollowItem::Snapshot { cursor, records, has_more, projections }) => Some(
            AppEvent::FollowSnapshot { session_id, cursor, records, has_more, projections },
        ),
        Some(FollowItem::Event(event)) => Some(AppEvent::FollowEvent { session_id, event }),
        Some(FollowItem::Chunks(row)) => Some(AppEvent::FollowChunks { session_id, row }),
        None => None,
    }
}

/// What is told of what the control of a session sends.
pub fn control_frame(session_id: &SessionId, item: Option<Json>) -> (r: Option<AppEvent>)
    ensures
        r == match item {
            Some(item) => Some(AppEvent::ControlItem { session_id: *session_id, item }),
            None => None,
        },
{
    match item {
        Some(item) => Some(AppEvent::ControlItem { session_id: session_id.clone(), item }),
        None => None,
    }
}

/// What is told when the stream of a session breaks: nothing where its
/// connection was replaced.
pub fn follow_fault(session_id: &SessionId, current: u64, own: u64, error: Fault) -> (r: Option<
    AppEvent,
>)
    ensures
        r == if current == own {
            Some(AppEvent::FollowError { session_id: *session_id, error })
        } else {
            None
        },
{
    if current == own {
        Some(AppEvent::FollowError { session_id: session_id.clone(), error })
    } else {
        None
    }
}

/// What is told when another stream breaks: that the connection is gone, unless
/// it was replaced.
pub fn link_fault(current: u64, own: u64, error: Fault) -> (r: Option<AppEvent>)
    ensures
        r == if current == own {
            Some(AppEvent::Disconnected(error.message))
        } else {
            None
        },
{
    if current == own {
        Some(AppEvent::Disconnected(error.message))
    } else {
        None
    }
}

/// What a frame that the server pushes leads to.
#[derive(Debug, PartialEq, Eq)]
pub enum PushStep {
    /// The connection was replaced.
    Stop,
    Skip,
    Tell(AppEvent),
}

/// What a frame that the server pushes leads to: requests for approval are
/// told, until the connection is replaced.
pub fn push_frame(current: u64, own: u64, event: Option<ApprovalEvent>) -> (r: PushStep)
    ensures
        r == if current != own {
            PushStep::Stop
        } else {
            match event {
                Some(event) => PushStep::Tell(AppEvent::ApprovalRequest { event }),
                None => PushStep::Skip,
            }
        },
{
    if current != own {
        return PushStep::Stop;
    }
    match event {
        Some(event) => PushStep::Tell(AppEvent::ApprovalRequest { event }),
        None => PushStep::Skip,
    }
}

/// Nothing that a session sends is lost or told of another session: a snapshot,
/// an event and a row of chunks are told as they came.
pub proof fn law_frames_are_told_as_they_came(session_id: SessionId, item: Option<FollowItem>)
    ensures
        followed(session_id, item) is None <==> item is None,
        item is Some && item->0 is Snapshot ==> followed(session_id, item) == Some(
            AppEvent::FollowSnapshot {
                session_id,
                cursor: item->0->cursor,
                records: item->0->records,
                has_more: item->0->has_more,
                projections: item->0->projections,
            },
        ),
        item is Some && item->0 is Event ==> followed(session_id, item) == Some(
            AppEvent::FollowEvent { session_id, event: item->0->Event_0 },
        ),
        item is Some && item->0 is Chunks ==> followed(session_id, item) == Some(
            AppEvent::FollowChunks { session_id, row: item->0->Chunks_0 },
        ),
{
}

} // verus!
