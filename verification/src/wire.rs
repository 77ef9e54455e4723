//! The records that reach the model layer from a session host, as plain data.

use vstd::prelude::*;

use crate::json::{dup_opt, opt_json, Json, JsonView};
use crate::text::{copy_opt, copy_texts, opt_text, texts};

verus! {

/// Position of an event in the log of a session.
#[derive(Debug, Clone, Copy, PartialEq, Eq, PartialOrd, Ord, Hash, Structural)]
pub struct SessionSeq(pub u64);

impl SessionSeq {
    pub fn new(n: u64) -> (r: SessionSeq)
        ensures
            r == SessionSeq(n),
    {
        SessionSeq(n)
    }

    pub fn get(self) -> (r: u64)
        ensures
            r == self.0,
    {
        self.0
    }
}

/// Offset in the log of a session; -1 stands for an empty log.
#[derive(Debug, Clone, Copy, PartialEq, Eq, PartialOrd, Ord, Hash, Structural)]
pub struct SessionLogOffset(pub i64);

impl SessionLogOffset {
    pub fn new(n: i64) -> (r: SessionLogOffset)
        ensures
            r == SessionLogOffset(n),
    {
        SessionLogOffset(n)
    }

    pub fn get(self) -> (r: i64)
        ensures
            r == self.0,
    {
        self.0
    }
}

/// Identity of a request that a client sent.
#[derive(Debug, Clone, PartialEq, Eq, Hash)]
pub struct SessionRequestId(pub String);

impl View for SessionRequestId {
    type V = Seq<char>;

    open spec fn view(&self) -> Seq<char> {
        self.0@
    }
}

impl SessionRequestId {
    pub fn new(id: String) -> (r: SessionRequestId)
        ensures
            r@ == id@,
    {
        SessionRequestId(id)
    }

    pub fn get(&self) -> (r: String)
        ensures
            r@ == self@,
    {
        self.0.clone()
    }
}

/// Identity of a session.
#[derive(Debug, PartialEq, Eq, Hash)]
pub struct SessionId(pub String);

impl View for SessionId {
    type V = Seq<char>;

    open spec fn view(&self) -> Seq<char> {
        self.0@
    }
}

impl SessionId {
    pub fn new(id: String) -> (r: SessionId)
        ensures
            r@ == id@,
    {
        SessionId(id)
    }

    pub fn get(&self) -> (r: &str)
        ensures
            r@ == self@,
    {
        self.0.as_str()
    }
}

impl Clone for SessionId {
    fn clone(&self) -> (r: Self)
        ensures
            r == *self,
            r@ == self@,
    {
        SessionId(self.0.clone())
    }
}

/// Identity of a workspace.
#[derive(Debug, PartialEq, Eq, Hash)]
pub struct WorkspaceId(pub String);

impl View for WorkspaceId {
    type V = Seq<char>;

    open spec fn view(&self) -> Seq<char> {
        self.0@
    }
}

impl WorkspaceId {
    pub fn new(id: String) -> (r: WorkspaceId)
        ensures
            r@ == id@,
    {
        WorkspaceId(id)
    }

    pub fn get(&self) -> (r: &str)
        ensures
            r@ == self@,
    {
        self.0.as_str()
    }
}

impl Clone for WorkspaceId {
    fn clone(&self) -> (r: Self)
        ensures
            r == *self,
            r@ == self@,
    {
        WorkspaceId(self.0.clone())
    }
}

/// Identity of an attachment.
#[derive(Debug, PartialEq, Eq, Hash)]
pub struct AttachmentId(pub String);

impl View for AttachmentId {
    type V = Seq<char>;

    open spec fn view(&self) -> Seq<char> {
        self.0@
    }
}

impl Clone for AttachmentId {
    fn clone(&self) -> (r: Self)
        ensures
            r == *self,
            r@ == self@,
    {
        AttachmentId(self.0.clone())
    }
}

/// Media type of an attachment.
#[derive(Debug, PartialEq, Eq, Hash)]
pub struct MediaType(pub String);

impl View for MediaType {
    type V = Seq<char>;

    open spec fn view(&self) -> Seq<char> {
        self.0@
    }
}

impl Clone for MediaType {
    fn clone(&self) -> (r: Self)
        ensures
            r == *self,
            r@ == self@,
    {
        MediaType(self.0.clone())
    }
}

/// Texts of one packed chunk row.
#[derive(Debug, Default, PartialEq, Eq)]
pub struct ChunkData {
    pub turn: Option<u64>,
    pub step: Option<u64>,
    pub index: Option<u64>,
    pub texts: Vec<String>,
}

/// Mathematical texts of one packed chunk row.
pub struct ChunkDataView {
    pub turn: Option<u64>,
    pub step: Option<u64>,
    pub index: Option<u64>,
    pub texts: Seq<Seq<char>>,
}

impl View for ChunkData {
    type V = ChunkDataView;

    open spec fn view(&self) -> ChunkDataView {
        ChunkDataView {
            turn: self.turn,
            step: self.step,
            index: self.index,
            texts: texts(self.texts@),
        }
    }
}

/// Name and arguments that a packed row of tool-call chunks carries.
#[derive(Debug, PartialEq, Eq)]
pub struct ToolChunkData {
    pub name: Option<String>,
    pub args: Option<Json>,
}

/// Mathematical name and arguments of a row of tool-call chunks.
pub struct ToolChunkView {
    pub name: Option<Seq<char>>,
    pub args: Option<JsonView>,
}

impl View for ToolChunkData {
    type V = ToolChunkView;

    open spec fn view(&self) -> ToolChunkView {
        ToolChunkView { name: opt_text(self.name), args: opt_json(self.args) }
    }
}

/// A packed chunk row, kept as it came.
#[derive(Debug, PartialEq, Eq)]
pub enum ChunkRow {
    TextChunks(ChunkData),
    ReasoningChunks(ChunkData),
    ToolCallChunks(ToolChunkData),
    Unknown { event_type: String, raw: Json },
}

/// Mathematical packed chunk row.
pub enum ChunkRowView {
    TextChunks(ChunkDataView),
    ReasoningChunks(ChunkDataView),
    ToolCallChunks(ToolChunkView),
    Unknown { event_type: Seq<char>, raw: JsonView },
}

impl View for ChunkRow {
    type V = ChunkRowView;

    open spec fn view(&self) -> ChunkRowView {
        match *self {
            ChunkRow::TextChunks(d) => ChunkRowView::TextChunks(d@),
            ChunkRow::ReasoningChunks(d) => ChunkRowView::ReasoningChunks(d@),
            ChunkRow::ToolCallChunks(d) => ChunkRowView::ToolCallChunks(d@),
            ChunkRow::Unknown { event_type, raw } => ChunkRowView::Unknown {
                event_type: event_type@,
                raw: raw@,
            },
        }
    }
}

impl Clone for ChunkData {
    fn clone(&self) -> (r: Self)
        ensures
            r@ == self@,
    {
        ChunkData {
            turn: self.turn,
            step: self.step,
            index: self.index,
            texts: copy_texts(&self.texts),
        }
    }
}

impl Clone for ToolChunkData {
    fn clone(&self) -> (r: Self)
        ensures
            r@ == self@,
    {
        ToolChunkData { name: copy_opt(&self.name), args: dup_opt(&self.args) }
    }
}

impl Clone for ChunkRow {
    fn clone(&self) -> (r: Self)
        ensures
            r@ == self@,
    {
        match self {
            ChunkRow::TextChunks(d) => ChunkRow::TextChunks(d.clone()),
            ChunkRow::ReasoningChunks(d) => ChunkRow::ReasoningChunks(d.clone()),
            ChunkRow::ToolCallChunks(d) => ChunkRow::ToolCallChunks(d.clone()),
            ChunkRow::Unknown { event_type, raw } => ChunkRow::Unknown {
                event_type: event_type.clone(),
                raw: raw.dup(),
            },
        }
    }
}

/// The views of a list of chunk rows.
pub open spec fn chunk_rows(rows: Seq<ChunkRow>) -> Seq<ChunkRowView> {
    rows.map_values(|r: ChunkRow| r@)
}

/// One event of a session log.
#[derive(Debug, Clone, PartialEq, Eq)]
pub struct SessionWireEvent {
    pub event_type: String,
    pub seq: Option<SessionSeq>,
    pub time: Option<i64>,
    pub request_id: Option<String>,
    pub ignorable: Option<bool>,
    pub source_event_seqs: Option<Json>,
    pub surface_op: Option<Json>,
    pub data: Option<Json>,
}

/// What the model layer reads of an event.
pub struct EventView {
    pub event_type: Seq<char>,
    pub seq: Option<SessionSeq>,
    pub time: Option<i64>,
    pub request_id: Option<Seq<char>>,
    pub data: Option<JsonView>,
}

impl View for SessionWireEvent {
    type V = EventView;

    open spec fn view(&self) -> EventView {
        EventView {
            event_type: self.event_type@,
            seq: self.seq,
            time: self.time,
            request_id: opt_text(self.request_id),
            data: opt_json(self.data),
        }
    }
}

impl EventView {
    /// The payload, null where the event has none.
    pub open spec fn payload(self) -> JsonView {
        match self.data {
            Some(d) => d,
            None => JsonView::Null,
        }
    }

    /// The request that the event answers: its own request id, else the
    /// `rpcId` of its `user-rpc` source.
    pub open spec fn reconcile_id(self) -> Option<Seq<char>> {
        match self.request_id {
            Some(id) => Some(id),
            None => match self.payload().get("source"@) {
                Some(source) => match source.get("user-rpc"@) {
                    Some(rpc) => rpc.str_at("rpcId"@),
                    None => None,
                },
                None => None,
            },
        }
    }
}

impl SessionWireEvent {
    /// The request that the event answers: its own request id, else the
    /// `rpcId` of its `user-rpc` source.
    pub fn reconcile_id(&self) -> (r: Option<&str>)
        ensures
            crate::text::opt_str(r) == self@.reconcile_id(),
    {
        match &self.request_id {
            Some(id) => Some(id.as_str()),
            None => match &self.data {
                Some(data) => match data.get("source") {
                    Some(source) => match source.get("user-rpc") {
                        Some(rpc) => rpc.str_at("rpcId"),
                        None => None,
                    },
                    None => None,
                },
                None => None,
            },
        }
    }
}

/// One record of the stored history of a session.
#[allow(inconsistent_fields)]
#[derive(Debug, Clone, PartialEq, Eq)]
pub enum SessionHistoryRecord {
    Event { event: SessionWireEvent },
    Chunks { event: ChunkRow },
}

/// Mathematical history record.
pub enum RecordView {
    Event(EventView),
    Chunks(ChunkRowView),
}

impl View for SessionHistoryRecord {
    type V = RecordView;

    open spec fn view(&self) -> RecordView {
        match *self {
            SessionHistoryRecord::Event { event } => RecordView::Event(event@),
            SessionHistoryRecord::Chunks { event } => RecordView::Chunks(event@),
        }
    }
}

/// The views of a list of records.
pub open spec fn record_views(records: Seq<SessionHistoryRecord>) -> Seq<RecordView> {
    records.map_values(|r: SessionHistoryRecord| r@)
}

/// An event answers the request that it names itself; else the one that its
/// source names; else none.
pub proof fn law_events_name_their_request(e: EventView)
    ensures
        e.request_id is Some ==> e.reconcile_id() == e.request_id,
        e.request_id is None && e.data is None ==> e.reconcile_id() is None,
        e.request_id is None && e.data is Some && e.data->0.get("source"@) is Some
            && e.data->0.get("source"@)->0.get("user-rpc"@) is Some ==> e.reconcile_id()
            == e.data->0.get("source"@)->0.get("user-rpc"@)->0.str_at("rpcId"@),
        e.data is Some ==> e.payload() == e.data->0,
        e.data is None ==> e.payload() is Null,
{
}

} // verus!
