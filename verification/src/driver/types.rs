//! What the main loop is asked to do, what it asks of the outside, and what it
//! tells the state.

use vstd::prelude::*;

use crate::json::Json;
use crate::model::approval::ApprovalEvent;
use crate::model::catalog::{ModelCatalog, WireModelSelection};
use crate::model::image::{AttachmentRef, ImageCacheEntry};
use crate::model::mention::{FileReferenceCandidate, SessionReferenceMentionCandidate};
use crate::model::subagent::SubagentCatalog;
use crate::model::yank::YankBackend;
use crate::text::{cat, cat3};
use crate::wire::{
    AttachmentId, ChunkRow, MediaType, SessionHistoryRecord, SessionId, SessionSeq,
    SessionWireEvent, WorkspaceId,
};

verus! {

/// Why the server did not do what it was asked.
#[derive(Debug, PartialEq, Eq)]
pub struct Fault {
    pub code: String,
    pub message: String,
    /// Whether the server itself named the code.
    pub remote: bool,
    /// Whether it may work when it is tried again.
    pub retryable: bool,
}

/// Why nothing was asked of the server.
#[derive(Debug, Clone, Copy, PartialEq, Eq, Structural)]
pub enum Refusal {
    NotConnected,
    CatalogOffline,
    SwitchOffline,
    NoSessionForModel,
    NoSessionForCommands,
    NoSession,
    EditNotWired,
}

impl Refusal {
    /// Whether the connection is the reason, rather than what was asked.
    pub open spec fn of_transport(self) -> bool {
        match self {
            Refusal::NotConnected => true,
            Refusal::CatalogOffline => true,
            Refusal::SwitchOffline => true,
            Refusal::NoSession => true,
            _ => false,
        }
    }

    /// Whether the connection is the reason, rather than what was asked.
    pub fn is_transport(self) -> (r: bool)
        ensures
            r == self.of_transport(),
    {
        match self {
            Refusal::NotConnected => true,
            Refusal::CatalogOffline => true,
            Refusal::SwitchOffline => true,
            Refusal::NoSession => true,
            _ => false,
        }
    }

    /// The words for a refusal.
    pub fn text(self) -> (r: &'static str)
        ensures
            r@ == match self {
                Refusal::NotConnected => "未连接（dsh web 不可达）"@,
                Refusal::CatalogOffline => "未连接（dsh web 不可达），模型目录暂不可用"@,
                Refusal::SwitchOffline => "未连接（dsh web 不可达），模型切换失败"@,
                Refusal::NoSessionForModel => "无打开的会话：先用 f/o 打开会话再切换模型"@,
                Refusal::NoSessionForCommands => "无活动会话：斜杠命令需先打开会话"@,
                Refusal::NoSession => "无活动会话"@,
                Refusal::EditNotWired => "goals/edit 暂未接线"@,
            },
    {
        match self {
            Refusal::NotConnected => "未连接（dsh web 不可达）",
            Refusal::CatalogOffline => "未连接（dsh web 不可达），模型目录暂不可用",
            Refusal::SwitchOffline => "未连接（dsh web 不可达），模型切换失败",
            Refusal::NoSessionForModel => "无打开的会话：先用 f/o 打开会话再切换模型",
            Refusal::NoSessionForCommands => "无活动会话：斜杠命令需先打开会话",
            Refusal::NoSession => "无活动会话",
            Refusal::EditNotWired => "goals/edit 暂未接线",
        }
    }
}

/// Why something was not done.
#[derive(Debug, PartialEq, Eq)]
pub enum Trouble {
    /// It was not asked.
    Refused(Refusal),
    /// It was asked, and failed.
    Failed(Fault),
}

/// Why an image cannot be shown.
#[derive(Debug, PartialEq, Eq)]
pub enum ImageTrouble {
    /// There is no connection.
    NotReady,
    /// It could not be fetched.
    Fetch(Fault),
    /// It could not be read or drawn: the code and the words for that.
    Decode { code: String, message: String },
    /// Its file could not be written, with the words for that.
    WriteFile(String),
    /// Its file could not be read, with the words for that.
    ReadFile(String),
}

impl ImageTrouble {
    /// The code for a trouble: the server's, where it named one.
    pub open spec fn code_of(self) -> Seq<char> {
        match self {
            ImageTrouble::NotReady => "network"@,
            ImageTrouble::Fetch(f) => if f.remote {
                f.code@
            } else if f.retryable {
                "network"@
            } else {
                "attachment"@
            },
            ImageTrouble::Decode { code, message } => code@,
            ImageTrouble::WriteFile(_) => "io"@,
            ImageTrouble::ReadFile(_) => "io"@,
        }
    }

    /// The code for a trouble.
    pub fn code(&self) -> (r: String)
        ensures
            r@ == self.code_of(),
    {
        match self {
            ImageTrouble::NotReady => "network".to_owned(),
            ImageTrouble::Fetch(f) => if f.remote {
                f.code.clone()
            } else if f.retryable {
                "network".to_owned()
            } else {
                "attachment".to_owned()
            },
            ImageTrouble::Decode { code, .. } => code.clone(),
            ImageTrouble::WriteFile(_) => "io".to_owned(),
            ImageTrouble::ReadFile(_) => "io".to_owned(),
        }
    }

    /// The words for a trouble.
    pub fn message(&self) -> (r: String)
        ensures
            r@ == match *self {
                ImageTrouble::NotReady => "附件拉取时连接未就绪"@,
                ImageTrouble::Fetch(f) => f.message@,
                ImageTrouble::Decode { code, message } => message@,
                ImageTrouble::WriteFile(e) => "临时文件写入失败: "@ + e@,
                ImageTrouble::ReadFile(e) => "缓存文件读取失败: "@ + e@,
            },
    {
        match self {
            ImageTrouble::NotReady => "附件拉取时连接未就绪".to_owned(),
            ImageTrouble::Fetch(f) => f.message.clone(),
            ImageTrouble::Decode { message, .. } => message.clone(),
            ImageTrouble::WriteFile(e) => cat("临时文件写入失败: ", e.as_str()),
            ImageTrouble::ReadFile(e) => cat("缓存文件读取失败: ", e.as_str()),
        }
    }

    /// Whether it may work when it is tried again.
    pub fn retryable(&self) -> (r: bool)
        ensures
            r == match *self {
                ImageTrouble::NotReady => true,
                ImageTrouble::Fetch(f) => f.retryable,
                _ => false,
            },
    {
        match self {
            ImageTrouble::NotReady => true,
            ImageTrouble::Fetch(f) => f.retryable,
            _ => false,
        }
    }
}

/// The answer to a request for approval.
#[derive(Debug, Clone, Copy, PartialEq, Eq, Structural)]
pub enum ApprovalOutcome {
    Allow,
    Always,
    Reject,
    Cancel,
}

/// A prompt that is sent.
#[derive(Debug, PartialEq, Eq)]
pub struct PromptRequest {
    pub request_id: String,
    pub text: String,
}

/// A change of workspaces and sessions.
#[derive(Debug, PartialEq, Eq)]
pub enum WorkspaceOperation {
    ForkSession { session_id: SessionId },
    RenameSession { session_id: SessionId, title: String },
    ArchiveSession { session_id: SessionId },
    NewWorkspace { path: String },
    RenameWorkspace { workspace_id: WorkspaceId, title: String },
    DeleteWorkspace { workspace_id: WorkspaceId },
    MoveSession { session_id: SessionId, target_workspace: WorkspaceId },
}

/// Which change of workspaces and sessions it is.
#[derive(Debug, Clone, Copy, PartialEq, Eq, Structural)]
pub enum OpName {
    ForkSession,
    RenameSession,
    ArchiveSession,
    NewWorkspace,
    RenameWorkspace,
    DeleteWorkspace,
    MoveSession,
}

impl OpName {
    /// The words for a change.
    pub fn text(self) -> (r: &'static str)
        ensures
            r@ == match self {
                OpName::ForkSession => "fork session"@,
                OpName::RenameSession => "rename session"@,
                OpName::ArchiveSession => "archive session"@,
                OpName::NewWorkspace => "new workspace"@,
                OpName::RenameWorkspace => "rename workspace"@,
                OpName::DeleteWorkspace => "delete workspace"@,
                OpName::MoveSession => "move session"@,
            },
    {
        match self {
            OpName::ForkSession => "fork session",
            OpName::RenameSession => "rename session",
            OpName::ArchiveSession => "archive session",
            OpName::NewWorkspace => "new workspace",
            OpName::RenameWorkspace => "rename workspace",
            OpName::DeleteWorkspace => "delete workspace",
            OpName::MoveSession => "move session",
        }
    }
}

impl WorkspaceOperation {
    /// Which change it is.
    pub open spec fn named(self) -> OpName {
        match self {
            WorkspaceOperation::ForkSession { .. } => OpName::ForkSession,
            WorkspaceOperation::RenameSession { .. } => OpName::RenameSession,
            WorkspaceOperation::ArchiveSession { .. } => OpName::ArchiveSession,
            WorkspaceOperation::NewWorkspace { .. } => OpName::NewWorkspace,
            WorkspaceOperation::RenameWorkspace { .. } => OpName::RenameWorkspace,
            WorkspaceOperation::DeleteWorkspace { .. } => OpName::DeleteWorkspace,
            WorkspaceOperation::MoveSession { .. } => OpName::MoveSession,
        }
    }

    /// Which change it is.
    pub fn name(&self) -> (r: OpName)
        ensures
            r == self.named(),
    {
        match self {
            WorkspaceOperation::ForkSession { .. } => OpName::ForkSession,
            WorkspaceOperation::RenameSession { .. } => OpName::RenameSession,
            WorkspaceOperation::ArchiveSession { .. } => OpName::ArchiveSession,
            WorkspaceOperation::NewWorkspace { .. } => OpName::NewWorkspace,
            WorkspaceOperation::RenameWorkspace { .. } => OpName::RenameWorkspace,
            WorkspaceOperation::DeleteWorkspace { .. } => OpName::DeleteWorkspace,
            WorkspaceOperation::MoveSession { .. } => OpName::MoveSession,
        }
    }
}

/// What a change of workspaces and sessions led to.
#[derive(Debug, PartialEq, Eq)]
pub enum OpOutcome {
    Ack,
    ForkCreated { session_id: SessionId },
    WorkspaceCreated { workspace_id: String },
}

/// A change of a goal.
#[derive(Debug, PartialEq, Eq)]
pub enum GoalMutation {
    Create { objective: String, max_goal_rounds: Option<u64> },
    Edit { objective: String },
    Pause,
    Resume,
    Complete,
    Clear,
}

/// The goal that a change is made on: its id, empty where there is no goal, and
/// the revision that the change was made on.
#[derive(Debug, PartialEq, Eq)]
pub struct GoalRef {
    pub id: String,
    pub revision: u64,
}

/// A goal as the server reports it after a change.
#[derive(Debug, PartialEq, Eq)]
pub struct GoalSnapshot {
    pub id: String,
    pub revision: u64,
}

/// What the main loop is asked to do.
#[derive(Debug, PartialEq, Eq)]
pub enum Cmd {
    LoadSessionList { cursor: Option<String> },
    OpenWorkspaceFollow,
    OpenFollow { session_id: SessionId, max_messages: usize },
    RequestPage {
        session_id: SessionId,
        generation: u64,
        through_seq: SessionSeq,
        before_seq: Option<SessionSeq>,
        max_messages: usize,
    },
    CancelSession(SessionId),
    SendPrompt { session_id: SessionId, request: PromptRequest },
    SearchSessions { query: String, generation: u64 },
    DebounceSearch { query: String, generation: u64 },
    OpenControl { session_id: SessionId },
    ReplyApproval { event: ApprovalEvent, outcome: ApprovalOutcome },
    FetchModelCatalog { generation: u64 },
    SelectModel { provider: String, model: String, reasoning_effort: Option<String> },
    FetchRemoteCommands,
    ExecuteCommand { line: String },
    CreateSession,
    WorkspaceOp { request_id: String, op: WorkspaceOperation },
    ExternalEdit { tmp_path: String, editor: String },
    FetchSubagentList { parent_id: String, generation: u64 },
    GoalOp { request_id: String, op: GoalMutation },
    SubagentInterrupt { child_id: String, parent_id: String },
    FetchMentionCandidates { generation: u64, agent_id: String, query: String },
    SaveUiTheme { theme: String, palette: Vec<(String, String)> },
    OpenExternal { target: String },
    LoadThrough { seq: SessionSeq },
    CopyToClipboard { text: String },
    FetchAttachment {
        session_id: SessionId,
        attachment_id: AttachmentId,
        block_seq: SessionSeq,
        for_viewer: bool,
    },
    RenderCachedImage {
        session_id: SessionId,
        attachment_id: AttachmentId,
        block_seq: SessionSeq,
        temp_file: String,
        media_type: MediaType,
    },
    OpenSystemViewer { path: String },
    CopyImageText { text: String },
    Reconnect,
    RestoreTerminal,
    Exit,
}

/// What a page of history is for.
#[derive(Debug, Clone, Copy, PartialEq, Eq, Structural)]
pub enum PageUse {
    /// To fill the window.
    Window { generation: u64 },
    /// To reach a position.
    Jump,
}

/// What is asked of the outside.
#[derive(Debug, PartialEq, Eq)]
pub enum Request {
    ListSessions { cursor: Option<String> },
    FollowWorkspaces,
    Follow { session_id: SessionId, max_messages: usize },
    Page {
        session_id: SessionId,
        through_seq: SessionSeq,
        before_seq: Option<SessionSeq>,
        max_messages: usize,
        page_use: PageUse,
    },
    Cancel { session_id: SessionId },
    Prompt { session_id: SessionId, request: PromptRequest },
    Search { query: String, generation: u64, timeout_ms: u64 },
    Wait { query: String, generation: u64, delay_ms: u64 },
    Control { session_id: SessionId },
    Answer { event: ApprovalEvent, outcome: ApprovalOutcome },
    Catalog { generation: u64 },
    Select {
        session_id: SessionId,
        provider: String,
        model: String,
        reasoning_effort: Option<String>,
    },
    Commands { agent_id: SessionId },
    Execute { agent_id: SessionId, line: String },
    CreateSession,
    Workspace { request_id: String, op: WorkspaceOperation },
    Subagents { parent_id: String, generation: u64 },
    Goal { request_id: String, agent_id: SessionId, op: GoalMutation, target: GoalRef },
    Interrupt { child_id: String, parent_id: String },
    Mentions { generation: u64, agent_id: String, query: String },
    SaveTheme { theme: String, palette: Vec<(String, String)> },
    Open { target: String },
    Copy { text: String },
    Attachment {
        session_id: SessionId,
        attachment_id: AttachmentId,
        block_seq: SessionSeq,
        for_viewer: bool,
        /// Whether it is to be drawn at once.
        draw: bool,
    },
    CachedImage {
        session_id: SessionId,
        attachment_id: AttachmentId,
        block_seq: SessionSeq,
        temp_file: String,
        media_type: MediaType,
    },
    View { path: String },
}

/// What the state is told.
#[derive(Debug, PartialEq, Eq)]
pub enum AppEvent {
    SessionListPage { items: Vec<Json>, next_cursor: Option<String> },
    SessionListError(Fault),
    Disconnected(String),
    FollowError { session_id: SessionId, error: Fault },
    PageResult {
        session_id: SessionId,
        generation: u64,
        records: Vec<SessionHistoryRecord>,
        has_more: bool,
    },
    PageError { session_id: SessionId, generation: u64, error: Fault },
    CancelAccepted { session_id: SessionId },
    CancelFailed { session_id: SessionId, error: Fault },
    PromptAccepted { session_id: SessionId, request_id: String },
    PromptFailed { session_id: SessionId, request_id: String, error: Fault },
    SearchResult { generation: u64, items: Vec<Json>, has_more: bool },
    SearchError { generation: u64, error: Fault },
    SearchHistoryDebounced { query: String, generation: u64 },
    ApprovalReplied { outcome: ApprovalOutcome },
    ApprovalReplyFailed { outcome: ApprovalOutcome, error: Fault },
    ModelCatalogLoaded { generation: u64, catalog: ModelCatalog },
    ModelCatalogLoadFailed { generation: u64, error: Trouble },
    ModelSelected { selected: WireModelSelection },
    ModelSelectFailed { error: Trouble },
    RemoteCommandsLoaded { commands: Vec<Json> },
    RemoteCommandsFailed { error: Trouble },
    CommandExecuted { text: Option<String> },
    CommandExecuteFailed { error: Trouble },
    SessionCreated { session_id: SessionId },
    SessionCreateFailed { error: Trouble },
    WorkspaceOpDone { request_id: String, outcome: OpOutcome },
    WorkspaceOpFailed { request_id: String, op_name: OpName, error: Trouble },
    SubagentListed { parent_id: String, generation: u64, catalog: SubagentCatalog },
    SubagentListFailed { parent_id: String, generation: u64, error: Trouble },
    GoalOpDone { request_id: String, updated: Option<GoalSnapshot>, cleared: bool },
    GoalOpFailed { request_id: String, op: GoalMutation, error: Trouble },
    SubagentInterruptDone { child_id: String, error: Option<Trouble> },
    /// Candidates for a mention; none of a source that failed.
    MentionCandidates {
        generation: u64,
        files: Vec<FileReferenceCandidate>,
        sessions: Vec<SessionReferenceMentionCandidate>,
    },
    MentionCandidatesFailed { generation: u64, error: Trouble },
    LoadThroughPage {
        session_id: SessionId,
        records: Vec<SessionHistoryRecord>,
        has_more: bool,
    },
    CopyDone { backend: YankBackend, ok: bool },
    AttachmentReady {
        session_id: SessionId,
        attachment_id: AttachmentId,
        block_seq: SessionSeq,
        meta: AttachmentRef,
        entry: ImageCacheEntry,
        drawn: bool,
        cached: bool,
        for_viewer: bool,
    },
    AttachmentFailed {
        session_id: SessionId,
        attachment_id: AttachmentId,
        block_seq: SessionSeq,
        error: ImageTrouble,
        for_viewer: bool,
    },
    ExternalEditDone { ok: bool, tmp_path: String, text: String, message: String },
    WorkspaceFrame(Json),
    ControlItem { session_id: SessionId, item: Json },
    ApprovalRequest { event: ApprovalEvent },
    FollowSnapshot {
        session_id: SessionId,
        cursor: u64,
        records: Vec<SessionHistoryRecord>,
        has_more: bool,
        projections: Json,
    },
    FollowEvent { session_id: SessionId, event: SessionWireEvent },
    FollowChunks { session_id: SessionId, row: ChunkRow },
}

/// A word for the user that the main loop leaves itself.
#[derive(Debug, PartialEq, Eq)]
pub enum Note {
    ThemeSaved(String),
    ThemeNotSaved(String),
    NotOpened { target: String, reason: String },
    JumpFailed(String),
    FileMissing,
    ViewerFailed(String),
    EditElsewhere,
}

impl Note {
    /// Whether it is a complaint.
    pub fn is_error(&self) -> (r: bool)
        ensures
            r == !(*self is ThemeSaved),
    {
        match self {
            Note::ThemeSaved(_) => false,
            _ => true,
        }
    }

    /// The words of a note.
    pub fn text(&self) -> (r: String)
        ensures
            r@ == match *self {
                Note::ThemeSaved(t) => "主题已保存（重启后仍生效）: "@ + t@,
                Note::ThemeNotSaved(e) => "主题保存失败: "@ + e@,
                Note::NotOpened { target, reason } => "打开失败: "@ + target@ + "（"@ + reason@
                    + "）"@,
                Note::JumpFailed(e) => "跳轮加载失败: "@ + e@,
                Note::FileMissing => "图片文件不存在，无法打开"@,
                Note::ViewerFailed(e) => "系统查看器打开失败: "@ + e@,
                Note::EditElsewhere => "外部编辑器需主循环内联处理"@,
            },
    {
        match self {
            Note::ThemeSaved(t) => cat("主题已保存（重启后仍生效）: ", t.as_str()),
            Note::ThemeNotSaved(e) => cat("主题保存失败: ", e.as_str()),
            Note::NotOpened { target, reason } => {
                let mut m = cat3("打开失败: ", target.as_str(), "（");
                m.append(reason.as_str());
                m.append("）");
                m
            },
            Note::JumpFailed(e) => cat("跳轮加载失败: ", e.as_str()),
            Note::FileMissing => "图片文件不存在，无法打开".to_owned(),
            Note::ViewerFailed(e) => cat("系统查看器打开失败: ", e.as_str()),
            Note::EditElsewhere => "外部编辑器需主循环内联处理".to_owned(),
        }
    }
}

/// A refusal is the connection's where there is none, and never where what was
/// asked is the reason.
pub proof fn law_refusals_are_told_apart(r: Refusal)
    ensures
        r.of_transport() <==> r is NotConnected || r is CatalogOffline || r is SwitchOffline
            || r is NoSession,
{
}

/// An image that did not come keeps the code that the server gave; without one
/// it is the network where trying again may help.
pub proof fn law_troubles_keep_their_code(t: ImageTrouble)
    ensures
        t is Fetch && t->Fetch_0.remote ==> t.code_of() == t->Fetch_0.code@,
        t is Fetch && !t->Fetch_0.remote && t->Fetch_0.retryable ==> t.code_of() == "network"@,
        t is Fetch && !t->Fetch_0.remote && !t->Fetch_0.retryable ==> t.code_of()
            == "attachment"@,
        t is NotReady ==> t.code_of() == "network"@,
        t is Decode ==> t.code_of() == t->code@,
        t is WriteFile || t is ReadFile ==> t.code_of() == "io"@,
{
}

} // verus!
