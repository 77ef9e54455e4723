//! What the answer to a request means.

use vstd::prelude::*;

use crate::driver::step::is_remote;
use crate::driver::types::{
    AppEvent, Fault, GoalMutation, GoalSnapshot, ImageTrouble, Note, OpOutcome, PageUse, Request,
    Trouble, WorkspaceOperation,
};
use crate::json::{Json, JsonView};
use crate::model::catalog::{ModelCatalog, WireModelSelection};
use crate::model::image::{AttachmentRef, ImageCacheEntry};
use crate::model::mention::{FileReferenceCandidate, SessionReferenceMentionCandidate};
use crate::model::subagent::SubagentCatalog;
use crate::model::yank::YankBackend;
use crate::text::same;
use crate::wire::{SessionHistoryRecord, SessionId};

verus! {

/// What came back from the outside.
#[derive(Debug, PartialEq, Eq)]
pub enum Reply {
    /// It was done, with nothing more to say.
    Done,
    Sessions { items: Vec<Json>, next_cursor: Option<String> },
    Page { records: Vec<SessionHistoryRecord>, has_more: bool },
    Found { items: Vec<Json>, has_more: bool },
    Catalog(ModelCatalog),
    Selected(WireModelSelection),
    Commands(Vec<Json>),
    Executed(Option<String>),
    Created(SessionId),
    WorkspaceCreated(String),
    Subagents(SubagentCatalog),
    Goal(GoalSnapshot),
    Mentions {
        files: Result<Vec<FileReferenceCandidate>, Fault>,
        sessions: Result<Vec<SessionReferenceMentionCandidate>, Fault>,
    },
    Copied { backend: YankBackend, ok: bool },
    Image { meta: AttachmentRef, entry: ImageCacheEntry, drawn: bool },
    ImageFailed(ImageTrouble),
    /// A file is not there.
    Missing,
    /// Something here failed, with the words for that.
    LocalFailed(String),
    /// The server did not do it.
    Failed(Fault),
}

/// What an answer leads to.
#[derive(Debug, PartialEq, Eq)]
pub enum Answer {
    Silent,
    Tell(AppEvent),
    Leave(Note),
}

/// The lists of candidates, by source.
#[derive(Debug, PartialEq, Eq)]
pub struct Candidates {
    pub files: Vec<FileReferenceCandidate>,
    pub sessions: Vec<SessionReferenceMentionCandidate>,
}

impl Candidates {
    /// Whether there is no candidate.
    pub open spec fn none(self) -> bool {
        self.files@.len() == 0 && self.sessions@.len() == 0
    }
}

/// What the answers of the two sources of candidates mean: one that fails does
/// not keep the other back, and has the candidates in `none`. Where both fail,
/// the fault that is told is that of the files, unless it is one of the
/// connection.
pub open spec fn mentioned(
    generation: u64,
    files: Result<Vec<FileReferenceCandidate>, Fault>,
    sessions: Result<Vec<SessionReferenceMentionCandidate>, Fault>,
    none: Candidates,
) -> Answer {
    match (files, sessions) {
        (Err(f), Err(s)) => Answer::Tell(
            AppEvent::MentionCandidatesFailed {
                generation,
                error: Trouble::Failed(
                    if f.code@ == "transport"@ {
                        s
                    } else {
                        f
                    },
                ),
            },
        ),
        (Ok(files), Ok(sessions)) => Answer::Tell(
            AppEvent::MentionCandidates { generation, files, sessions },
        ),
        (Ok(files), Err(_)) => Answer::Tell(
            AppEvent::MentionCandidates { generation, files, sessions: none.sessions },
        ),
        (Err(_), Ok(sessions)) => Answer::Tell(
            AppEvent::MentionCandidates { generation, files: none.files, sessions },
        ),
    }
}

fn mention_answer(
    generation: u64,
    files: Result<Vec<FileReferenceCandidate>, Fault>,
    sessions: Result<Vec<SessionReferenceMentionCandidate>, Fault>,
    none: Candidates,
) -> (r: Answer)
    ensures
        r == mentioned(generation, files, sessions, none),
{
    match (files, sessions) {
        (Err(f), Err(s)) => {
            let error = if same(f.code.as_str(), "transport") {
                s
            } else {
                f
            };
            Answer::Tell(
                AppEvent::MentionCandidatesFailed { generation, error: Trouble::Failed(error) },
            )
        },
        (Ok(files), Ok(sessions)) => Answer::Tell(
            AppEvent::MentionCandidates { generation, files, sessions },
        ),
        (Ok(files), Err(_)) => Answer::Tell(
            AppEvent::MentionCandidates { generation, files, sessions: none.sessions },
        ),
        (Err(_), Ok(sessions)) => Answer::Tell(
            AppEvent::MentionCandidates { generation, files: none.files, sessions },
        ),
    }
}

/// What the answer to a request means, where a source of candidates that fails
/// has those in `none`. An answer that no such request has means nothing.
pub open spec fn settled(request: Request, reply: Reply, none: Candidates) -> Answer {
    match (request, reply) {
        (Request::ListSessions { .. }, Reply::Sessions { items, next_cursor }) => {
            Answer::Tell(AppEvent::SessionListPage { items, next_cursor })
        },
        (Request::ListSessions { .. }, Reply::Failed(error)) => {
            Answer::Tell(AppEvent::SessionListError(error))
        },
        (Request::FollowWorkspaces, Reply::Failed(error)) => {
            Answer::Tell(AppEvent::Disconnected(error.message))
        },
        (Request::Follow { session_id, .. }, Reply::Failed(error)) => {
            Answer::Tell(AppEvent::FollowError { session_id, error })
        },
        (Request::Control { session_id }, Reply::Failed(error)) => {
            Answer::Tell(AppEvent::FollowError { session_id, error })
        },
        (
            Request::Page { session_id, page_use: PageUse::Window { generation }, .. },
            Reply::Page { records, has_more },
        ) => {
            Answer::Tell(AppEvent::PageResult { session_id, generation, records, has_more })
        },
        (
            Request::Page { session_id, page_use: PageUse::Window { generation }, .. },
            Reply::Failed(error),
        ) => {
            Answer::Tell(AppEvent::PageError { session_id, generation, error })
        },
        (
            Request::Page { session_id, page_use: PageUse::Jump, .. },
            Reply::Page { records, has_more },
        ) => {
            Answer::Tell(AppEvent::LoadThroughPage { session_id, records, has_more })
        },
        (Request::Page { page_use: PageUse::Jump, .. }, Reply::Failed(error)) => {
            Answer::Leave(Note::JumpFailed(error.message))
        },
        (Request::Cancel { session_id }, Reply::Done) => {
            Answer::Tell(AppEvent::CancelAccepted { session_id })
        },
        (Request::Cancel { session_id }, Reply::Failed(error)) => {
            Answer::Tell(AppEvent::CancelFailed { session_id, error })
        },
        (Request::Prompt { session_id, request }, Reply::Done) => {
            Answer::Tell(AppEvent::PromptAccepted { session_id, request_id: request.request_id })
        },
        (Request::Prompt { session_id, request }, Reply::Failed(error)) => {
            Answer::Tell(
                AppEvent::PromptFailed { session_id, request_id: request.request_id, error },
            )
        },
        (Request::Search { generation, .. }, Reply::Found { items, has_more }) => {
            Answer::Tell(AppEvent::SearchResult { generation, items, has_more })
        },
        (Request::Search { generation, .. }, Reply::Failed(error)) => {
            Answer::Tell(AppEvent::SearchError { generation, error })
        },
        (Request::Wait { query, generation, .. }, Reply::Done) => {
            Answer::Tell(AppEvent::SearchHistoryDebounced { query, generation })
        },
        (Request::Answer { outcome, .. }, Reply::Done) => {
            Answer::Tell(AppEvent::ApprovalReplied { outcome })
        },
        (Request::Answer { outcome, .. }, Reply::Failed(error)) => {
            Answer::Tell(AppEvent::ApprovalReplyFailed { outcome, error })
        },
        (Request::Catalog { generation }, Reply::Catalog(catalog)) => {
            Answer::Tell(AppEvent::ModelCatalogLoaded { generation, catalog })
        },
        (Request::Catalog { generation }, Reply::Failed(error)) => {
            Answer::Tell(
                AppEvent::ModelCatalogLoadFailed { generation, error: Trouble::Failed(error) },
            )
        },
        (Request::Select { .. }, Reply::Selected(selected)) => {
            Answer::Tell(AppEvent::ModelSelected { selected })
        },
        (Request::Select { .. }, Reply::Failed(error)) => {
            Answer::Tell(AppEvent::ModelSelectFailed { error: Trouble::Failed(error) })
        },
        (Request::Commands { .. }, Reply::Commands(commands)) => {
            Answer::Tell(AppEvent::RemoteCommandsLoaded { commands })
        },
        (Request::Commands { .. }, Reply::Failed(error)) => {
            Answer::Tell(AppEvent::RemoteCommandsFailed { error: Trouble::Failed(error) })
        },
        (Request::Execute { .. }, Reply::Executed(text)) => {
            Answer::Tell(AppEvent::CommandExecuted { text })
        },
        (Request::Execute { .. }, Reply::Failed(error)) => {
            Answer::Tell(AppEvent::CommandExecuteFailed { error: Trouble::Failed(error) })
        },
        (Request::CreateSession, Reply::Created(session_id)) => {
            Answer::Tell(AppEvent::SessionCreated { session_id })
        },
        (Request::CreateSession, Reply::Failed(error)) => {
            Answer::Tell(AppEvent::SessionCreateFailed { error: Trouble::Failed(error) })
        },
        (
            Request::Workspace { request_id, op: WorkspaceOperation::ForkSession { .. } },
            Reply::Created(session_id),
        ) => {
            Answer::Tell(
                AppEvent::WorkspaceOpDone {
                    request_id,
                    outcome: OpOutcome::ForkCreated { session_id },
                },
            )
        },
        (
            Request::Workspace { request_id, op: WorkspaceOperation::NewWorkspace { .. } },
            Reply::WorkspaceCreated(workspace_id),
        ) => {
            Answer::Tell(
                AppEvent::WorkspaceOpDone {
                    request_id,
                    outcome: OpOutcome::WorkspaceCreated { workspace_id },
                },
            )
        },
        (Request::Workspace { request_id, .. }, Reply::Done) => {
            Answer::Tell(AppEvent::WorkspaceOpDone { request_id, outcome: OpOutcome::Ack })
        },
        (Request::Workspace { request_id, op }, Reply::Failed(error)) => {
            Answer::Tell(
                AppEvent::WorkspaceOpFailed {
                    request_id,
                    op_name: op.named(),
                    error: Trouble::Failed(error),
                },
            )
        },
        (Request::Subagents { parent_id, generation }, Reply::Subagents(catalog)) => {
            Answer::Tell(AppEvent::SubagentListed { parent_id, generation, catalog })
        },
        (Request::Subagents { parent_id, generation }, Reply::Failed(error)) => {
            Answer::Tell(
                AppEvent::SubagentListFailed {
                    parent_id,
                    generation,
                    error: Trouble::Failed(error),
                },
            )
        },
        (Request::Goal { request_id, op: GoalMutation::Clear, .. }, Reply::Done) => {
            Answer::Tell(AppEvent::GoalOpDone { request_id, updated: None, cleared: true })
        },
        (Request::Goal { request_id, .. }, Reply::Goal(snapshot)) => {
            Answer::Tell(
                AppEvent::GoalOpDone { request_id, updated: Some(snapshot), cleared: false },
            )
        },
        (Request::Goal { request_id, op, .. }, Reply::Failed(error)) => {
            Answer::Tell(AppEvent::GoalOpFailed { request_id, op, error: Trouble::Failed(error) })
        },
        (Request::Interrupt { child_id, .. }, Reply::Done) => {
            Answer::Tell(AppEvent::SubagentInterruptDone { child_id, error: None })
        },
        (Request::Interrupt { child_id, .. }, Reply::Failed(error)) => {
            Answer::Tell(
                AppEvent::SubagentInterruptDone { child_id, error: Some(Trouble::Failed(error)) },
            )
        },
        (Request::Mentions { generation, .. }, Reply::Mentions { files, sessions }) => {
            mentioned(generation, files, sessions, none)
        },
        (Request::SaveTheme { theme, .. }, Reply::Done) => Answer::Leave(Note::ThemeSaved(theme)),
        (Request::SaveTheme { .. }, Reply::LocalFailed(reason)) => {
            Answer::Leave(Note::ThemeNotSaved(reason))
        },
        (Request::Open { target }, Reply::LocalFailed(reason)) => {
            Answer::Leave(Note::NotOpened { target, reason })
        },
        (Request::View { .. }, Reply::Missing) => Answer::Leave(Note::FileMissing),
        (Request::View { .. }, Reply::LocalFailed(reason)) => {
            Answer::Leave(Note::ViewerFailed(reason))
        },
        (Request::Copy { .. }, Reply::Copied { backend, ok }) => {
            Answer::Tell(AppEvent::CopyDone { backend, ok })
        },
        (
            Request::Attachment { session_id, attachment_id, block_seq, for_viewer, .. },
            Reply::Image { meta, entry, drawn },
        ) => {
            Answer::Tell(
                AppEvent::AttachmentReady {
                    session_id,
                    attachment_id,
                    block_seq,
                    meta,
                    entry,
                    drawn,
                    cached: false,
                    for_viewer,
                },
            )
        },
        (
            Request::Attachment { session_id, attachment_id, block_seq, for_viewer, .. },
            Reply::ImageFailed(error),
        ) => {
            Answer::Tell(
                AppEvent::AttachmentFailed {
                    session_id,
                    attachment_id,
                    block_seq,
                    error,
                    for_viewer,
                },
            )
        },
        (
            Request::Attachment { session_id, attachment_id, block_seq, for_viewer, .. },
            Reply::Failed(fault),
        ) => {
            Answer::Tell(
                AppEvent::AttachmentFailed {
                    session_id,
                    attachment_id,
                    block_seq,
                    error: ImageTrouble::Fetch(fault),
                    for_viewer,
                },
            )
        },
        (
            Request::CachedImage { session_id, attachment_id, block_seq, .. },
            Reply::Image { meta, entry, drawn },
        ) => {
            Answer::Tell(
                AppEvent::AttachmentReady {
                    session_id,
                    attachment_id,
                    block_seq,
                    meta,
                    entry,
                    drawn,
                    cached: true,
                    for_viewer: false,
                },
            )
        },
        (
            Request::CachedImage { session_id, attachment_id, block_seq, .. },
            Reply::ImageFailed(error),
        ) => {
            Answer::Tell(
                AppEvent::AttachmentFailed {
                    session_id,
                    attachment_id,
                    block_seq,
                    error,
                    for_viewer: false,
                },
            )
        },
        _ => Answer::Silent,
    }
}

/// What the answer to a request means. A source of candidates that fails has
/// none.
pub fn settle(request: Request, reply: Reply) -> (r: Answer)
    ensures
        exists|none: Candidates| none.none() && r == #[trigger] settled(request, reply, none),
{
    settle_with(request, reply, Candidates { files: Vec::new(), sessions: Vec::new() })
}

/// What the answer to a request means, where a source of candidates that fails
/// has those in `none`.
fn settle_with(request: Request, reply: Reply, none: Candidates) -> (r: Answer)
    ensures
        r == settled(request, reply, none),
{
    match (request, reply) {
        (Request::ListSessions { .. }, Reply::Sessions { items, next_cursor }) => {
            Answer::Tell(AppEvent::SessionListPage { items, next_cursor })
        },
        (Request::ListSessions { .. }, Reply::Failed(error)) => {
            Answer::Tell(AppEvent::SessionListError(error))
        },
        (Request::FollowWorkspaces, Reply::Failed(error)) => {
            Answer::Tell(AppEvent::Disconnected(error.message))
        },
        (Request::Follow { session_id, .. }, Reply::Failed(error)) => {
            Answer::Tell(AppEvent::FollowError { session_id, error })
        },
        (Request::Control { session_id }, Reply::Failed(error)) => {
            Answer::Tell(AppEvent::FollowError { session_id, error })
        },
        (
            Request::Page { session_id, page_use: PageUse::Window { generation }, .. },
            Reply::Page { records, has_more },
        ) => {
            Answer::Tell(AppEvent::PageResult { session_id, generation, records, has_more })
        },
        (
            Request::Page { session_id, page_use: PageUse::Window { generation }, .. },
            Reply::Failed(error),
        ) => {
            Answer::Tell(AppEvent::PageError { session_id, generation, error })
        },
        (
            Request::Page { session_id, page_use: PageUse::Jump, .. },
            Reply::Page { records, has_more },
        ) => {
            Answer::Tell(AppEvent::LoadThroughPage { session_id, records, has_more })
        },
        (Request::Page { page_use: PageUse::Jump, .. }, Reply::Failed(error)) => {
            Answer::Leave(Note::JumpFailed(error.message))
        },
        (Request::Cancel { session_id }, Reply::Done) => {
            Answer::Tell(AppEvent::CancelAccepted { session_id })
        },
        (Request::Cancel { session_id }, Reply::Failed(error)) => {
            Answer::Tell(AppEvent::CancelFailed { session_id, error })
        },
        (Request::Prompt { session_id, request }, Reply::Done) => {
            Answer::Tell(AppEvent::PromptAccepted { session_id, request_id: request.request_id })
        },
        (Request::Prompt { session_id, request }, Reply::Failed(error)) => {
            Answer::Tell(
                AppEvent::PromptFailed { session_id, request_id: request.request_id, error },
            )
        },
        (Request::Search { generation, .. }, Reply::Found { items, has_more }) => {
            Answer::Tell(AppEvent::SearchResult { generation, items, has_more })
        },
        (Request::Search { generation, .. }, Reply::Failed(error)) => {
            Answer::Tell(AppEvent::SearchError { generation, error })
        },
        (Request::Wait { query, generation, .. }, Reply::Done) => {
            Answer::Tell(AppEvent::SearchHistoryDebounced { query, generation })
        },
        (Request::Answer { outcome, .. }, Reply::Done) => {
            Answer::Tell(AppEvent::ApprovalReplied { outcome })
        },
        (Request::Answer { outcome, .. }, Reply::Failed(error)) => {
            Answer::Tell(AppEvent::ApprovalReplyFailed { outcome, error })
        },
        (Request::Catalog { generation }, Reply::Catalog(catalog)) => {
            Answer::Tell(AppEvent::ModelCatalogLoaded { generation, catalog })
        },
        (Request::Catalog { generation }, Reply::Failed(error)) => {
            Answer::Tell(
                AppEvent::ModelCatalogLoadFailed { generation, error: Trouble::Failed(error) },
            )
        },
        (Request::Select { .. }, Reply::Selected(selected)) => {
            Answer::Tell(AppEvent::ModelSelected { selected })
        },
        (Request::Select { .. }, Reply::Failed(error)) => {
            Answer::Tell(AppEvent::ModelSelectFailed { error: Trouble::Failed(error) })
        },
        (Request::Commands { .. }, Reply::Commands(commands)) => {
            Answer::Tell(AppEvent::RemoteCommandsLoaded { commands })
        },
        (Request::Commands { .. }, Reply::Failed(error)) => {
            Answer::Tell(AppEvent::RemoteCommandsFailed { error: Trouble::Failed(error) })
        },
        (Request::Execute { .. }, Reply::Executed(text)) => {
            Answer::Tell(AppEvent::CommandExecuted { text })
        },
        (Request::Execute { .. }, Reply::Failed(error)) => {
            Answer::Tell(AppEvent::CommandExecuteFailed { error: Trouble::Failed(error) })
        },
        (Request::CreateSession, Reply::Created(session_id)) => {
            Answer::Tell(AppEvent::SessionCreated { session_id })
        },
        (Request::CreateSession, Reply::Failed(error)) => {
            Answer::Tell(AppEvent::SessionCreateFailed { error: Trouble::Failed(error) })
        },
        (
            Request::Workspace { request_id, op: WorkspaceOperation::ForkSession { .. } },
            Reply::Created(session_id),
        ) => {
            Answer::Tell(
                AppEvent::WorkspaceOpDone {
                    request_id,
                    outcome: OpOutcome::ForkCreated { session_id },
                },
            )
        },
        (
            Request::Workspace { request_id, op: WorkspaceOperation::NewWorkspace { .. } },
            Reply::WorkspaceCreated(workspace_id),
        ) => {
            Answer::Tell(
                AppEvent::WorkspaceOpDone {
                    request_id,
                    outcome: OpOutcome::WorkspaceCreated { workspace_id },
                },
            )
        },
        (Request::Workspace { request_id, .. }, Reply::Done) => {
            Answer::Tell(AppEvent::WorkspaceOpDone { request_id, outcome: OpOutcome::Ack })
        },
        (Request::Workspace { request_id, op }, Reply::Failed(error)) => {
            let op_name = op.name();
            Answer::Tell(AppEvent::WorkspaceOpFailed { request_id, op_name, error: Trouble::Failed(error) })
        },
        (Request::Subagents { parent_id, generation }, Reply::Subagents(catalog)) => {
            Answer::Tell(AppEvent::SubagentListed { parent_id, generation, catalog })
        },
        (Request::Subagents { parent_id, generation }, Reply::Failed(error)) => {
            Answer::Tell(
                AppEvent::SubagentListFailed {
                    parent_id,
                    generation,
                    error: Trouble::Failed(error),
                },
            )
        },
        (Request::Goal { request_id, op: GoalMutation::Clear, .. }, Reply::Done) => {
            Answer::Tell(AppEvent::GoalOpDone { request_id, updated: None, cleared: true })
        },
        (Request::Goal { request_id, .. }, Reply::Goal(snapshot)) => {
            Answer::Tell(
                AppEvent::GoalOpDone { request_id, updated: Some(snapshot), cleared: false },
            )
        },
        (Request::Goal { request_id, op, .. }, Reply::Failed(error)) => {
            Answer::Tell(AppEvent::GoalOpFailed { request_id, op, error: Trouble::Failed(error) })
        },
        (Request::Interrupt { child_id, .. }, Reply::Done) => {
            Answer::Tell(AppEvent::SubagentInterruptDone { child_id, error: None })
        },
        (Request::Interrupt { child_id, .. }, Reply::Failed(error)) => {
            Answer::Tell(
                AppEvent::SubagentInterruptDone { child_id, error: Some(Trouble::Failed(error)) },
            )
        },
        (Request::Mentions { generation, .. }, Reply::Mentions { files, sessions }) => {
            mention_answer(generation, files, sessions, none)
        },
        (Request::SaveTheme { theme, .. }, Reply::Done) => Answer::Leave(Note::ThemeSaved(theme)),
        (Request::SaveTheme { .. }, Reply::LocalFailed(reason)) => {
            Answer::Leave(Note::ThemeNotSaved(reason))
        },
        (Request::Open { target }, Reply::LocalFailed(reason)) => {
            Answer::Leave(Note::NotOpened { target, reason })
        },
        (Request::View { .. }, Reply::Missing) => Answer::Leave(Note::FileMissing),
        (Request::View { .. }, Reply::LocalFailed(reason)) => {
            Answer::Leave(Note::ViewerFailed(reason))
        },
        (Request::Copy { .. }, Reply::Copied { backend, ok }) => {
            Answer::Tell(AppEvent::CopyDone { backend, ok })
        },
        (
            Request::Attachment { session_id, attachment_id, block_seq, for_viewer, .. },
            Reply::Image { meta, entry, drawn },
        ) => {
            Answer::Tell(
                AppEvent::AttachmentReady {
                    session_id,
                    attachment_id,
                    block_seq,
                    meta,
                    entry,
                    drawn,
                    cached: false,
                    for_viewer,
                },
            )
        },
        (
            Request::Attachment { session_id, attachment_id, block_seq, for_viewer, .. },
            Reply::ImageFailed(error),
        ) => {
            Answer::Tell(
                AppEvent::AttachmentFailed {
                    session_id,
                    attachment_id,
                    block_seq,
                    error,
                    for_viewer,
                },
            )
        },
        (
            Request::Attachment { session_id, attachment_id, block_seq, for_viewer, .. },
            Reply::Failed(fault),
        ) => {
            Answer::Tell(
                AppEvent::AttachmentFailed {
                    session_id,
                    attachment_id,
                    block_seq,
                    error: ImageTrouble::Fetch(fault),
                    for_viewer,
                },
            )
        },
        (
            Request::CachedImage { session_id, attachment_id, block_seq, .. },
            Reply::Image { meta, entry, drawn },
        ) => {
            Answer::Tell(
                AppEvent::AttachmentReady {
                    session_id,
                    attachment_id,
                    block_seq,
                    meta,
                    entry,
                    drawn,
                    cached: true,
                    for_viewer: false,
                },
            )
        },
        (
            Request::CachedImage { session_id, attachment_id, block_seq, .. },
            Reply::ImageFailed(error),
        ) => {
            Answer::Tell(
                AppEvent::AttachmentFailed {
                    session_id,
                    attachment_id,
                    block_seq,
                    error,
                    for_viewer: false,
                },
            )
        },
        _ => Answer::Silent,
    }
}

/// What a request is about: its session, its number, and its identity.
pub open spec fn asked(r: Request) -> (Option<SessionId>, Option<u64>, Option<String>) {
    match r {
        Request::Follow { session_id, .. } => (Some(session_id), None, None),
        Request::Control { session_id } => (Some(session_id), None, None),
        Request::Page { session_id, page_use: PageUse::Window { generation }, .. } => (
            Some(session_id),
            Some(generation),
            None,
        ),
        Request::Page { session_id, page_use: PageUse::Jump, .. } => (Some(session_id), None, None),
        Request::Cancel { session_id } => (Some(session_id), None, None),
        Request::Prompt { session_id, request } => (
            Some(session_id),
            None,
            Some(request.request_id),
        ),
        Request::Search { generation, .. } => (None, Some(generation), None),
        Request::Wait { generation, .. } => (None, Some(generation), None),
        Request::Catalog { generation } => (None, Some(generation), None),
        Request::Workspace { request_id, .. } => (None, None, Some(request_id)),
        Request::Subagents { parent_id, generation } => (None, Some(generation), Some(parent_id)),
        Request::Goal { request_id, .. } => (None, None, Some(request_id)),
        Request::Interrupt { child_id, .. } => (None, None, Some(child_id)),
        Request::Mentions { generation, .. } => (None, Some(generation), None),
        Request::Attachment { session_id, .. } => (Some(session_id), None, None),
        Request::CachedImage { session_id, .. } => (Some(session_id), None, None),
        _ => (None, None, None),
    }
}

/// What an event is about: its session, its number, and its identity. A session
/// that was made anew is what the event says, not what it is about.
pub open spec fn about(e: AppEvent) -> (Option<SessionId>, Option<u64>, Option<String>) {
    match e {
        AppEvent::FollowError { session_id, .. } => (Some(session_id), None, None),
        AppEvent::PageResult { session_id, generation, .. } => (
            Some(session_id),
            Some(generation),
            None,
        ),
        AppEvent::PageError { session_id, generation, .. } => (
            Some(session_id),
            Some(generation),
            None,
        ),
        AppEvent::LoadThroughPage { session_id, .. } => (Some(session_id), None, None),
        AppEvent::CancelAccepted { session_id } => (Some(session_id), None, None),
        AppEvent::CancelFailed { session_id, .. } => (Some(session_id), None, None),
        AppEvent::PromptAccepted { session_id, request_id } => (
            Some(session_id),
            None,
            Some(request_id),
        ),
        AppEvent::PromptFailed { session_id, request_id, .. } => (
            Some(session_id),
            None,
            Some(request_id),
        ),
        AppEvent::SearchResult { generation, .. } => (None, Some(generation), None),
        AppEvent::SearchError { generation, .. } => (None, Some(generation), None),
        AppEvent::SearchHistoryDebounced { generation, .. } => (None, Some(generation), None),
        AppEvent::ModelCatalogLoaded { generation, .. } => (None, Some(generation), None),
        AppEvent::ModelCatalogLoadFailed { generation, .. } => (None, Some(generation), None),
        AppEvent::WorkspaceOpDone { request_id, .. } => (None, None, Some(request_id)),
        AppEvent::WorkspaceOpFailed { request_id, .. } => (None, None, Some(request_id)),
        AppEvent::SubagentListed { parent_id, generation, .. } => (
            None,
            Some(generation),
            Some(parent_id),
        ),
        AppEvent::SubagentListFailed { parent_id, generation, .. } => (
            None,
            Some(generation),
            Some(parent_id),
        ),
        AppEvent::GoalOpDone { request_id, .. } => (None, None, Some(request_id)),
        AppEvent::GoalOpFailed { request_id, .. } => (None, None, Some(request_id)),
        AppEvent::SubagentInterruptDone { child_id, .. } => (None, None, Some(child_id)),
        AppEvent::MentionCandidates { generation, .. } => (None, Some(generation), None),
        AppEvent::MentionCandidatesFailed { generation, .. } => (None, Some(generation), None),
        AppEvent::AttachmentReady { session_id, .. } => (Some(session_id), None, None),
        AppEvent::AttachmentFailed { session_id, .. } => (Some(session_id), None, None),
        _ => (None, None, None),
    }
}

/// What is told of an answer is about what the request was about.
pub proof fn law_answers_name_their_request(request: Request, reply: Reply, none: Candidates)
    ensures
        settled(request, reply, none) is Tell ==> about(settled(request, reply, none)->Tell_0)
            == asked(request),
{
}

/// No fault of the server passes in silence.
pub proof fn law_faults_are_told(request: Request, fault: Fault, none: Candidates)
    requires
        is_remote(request),
    ensures
        !(request is Mentions) ==> settled(request, Reply::Failed(fault), none) !is Silent,
        forall|other: Fault| #[trigger]
            settled(
                request,
                Reply::Mentions { files: Err(fault), sessions: Err(other) },
                none,
            ) is Tell || !(request is Mentions),
{
}

/// Where one of the two sources of candidates fails, the candidates of the other
/// are told, and none of the one that failed.
pub proof fn law_one_source_does_not_keep_the_other_back(
    request: Request,
    files: Vec<FileReferenceCandidate>,
    sessions: Vec<SessionReferenceMentionCandidate>,
    fault: Fault,
    none: Candidates,
)
    requires
        request is Mentions,
        none.none(),
    ensures
        ({
            let a = settled(
                request,
                Reply::Mentions { files: Ok(files), sessions: Err(fault) },
                none,
            );
            let b = settled(
                request,
                Reply::Mentions { files: Err(fault), sessions: Ok(sessions) },
                none,
            );
            &&& a is Tell && a->Tell_0 is MentionCandidates
            &&& a->Tell_0->MentionCandidates_files == files
            &&& a->Tell_0->MentionCandidates_sessions@.len() == 0
            &&& b is Tell && b->Tell_0 is MentionCandidates
            &&& b->Tell_0->MentionCandidates_files@.len() == 0
            &&& b->Tell_0->MentionCandidates_sessions == sessions
        }),
{
}

/// The member under either of two keys, where it is a text.
pub open spec fn id_in(v: JsonView) -> Option<Seq<char>> {
    match v.get("workspaceId"@) {
        Some(x) => x.as_str(),
        None => v.str_at("id"@),
    }
}

/// The id of a workspace that was made anew, as the server names it; empty
/// where it names none.
pub open spec fn made_id(raw: JsonView) -> Seq<char> {
    let inner = match raw.get("workspace"@) {
        Some(w) => id_in(w),
        None => None,
    };
    match inner {
        Some(id) => id,
        None => match id_in(raw) {
            Some(id) => id,
            None => Seq::empty(),
        },
    }
}

fn read_id(v: &Json) -> (r: Option<String>)
    ensures
        crate::text::opt_text(r) == id_in(v@),
{
    match v.get("workspaceId") {
        Some(x) => match x.as_str() {
            Some(t) => Some(t.to_owned()),
            None => None,
        },
        None => v.string_at("id"),
    }
}

/// The id of a workspace that was made anew.
pub fn new_workspace_id(raw: &Json) -> (r: String)
    ensures
        r@ == made_id(raw@),
{
    if let Some(w) = raw.get("workspace") {
        if let Some(id) = read_id(w) {
            return id;
        }
    }
    match read_id(raw) {
        Some(id) => id,
        None => String::new(),
    }
}

/// A workspace that was made anew is named by the workspace in the reply, where
/// that names it, else by the reply itself: by `workspaceId`, or by `id` where
/// there is no such member.
pub proof fn law_new_workspaces_are_named(raw: JsonView, w: JsonView, id: Seq<char>)
    ensures
        raw.get("workspace"@) == Some(w) && w.str_at("workspaceId"@) == Some(id) ==> made_id(raw)
            == id,
        raw.get("workspace"@) == Some(w) && w.get("workspaceId"@) is None && w.str_at("id"@)
            == Some(id) ==> made_id(raw) == id,
        raw.get("workspace"@) is None && raw.str_at("workspaceId"@) == Some(id) ==> made_id(raw)
            == id,
        raw.get("workspace"@) is None && raw.get("workspaceId"@) is None && raw.str_at("id"@)
            == Some(id) ==> made_id(raw) == id,
        raw.get("workspace"@) is None && raw.get("workspaceId"@) is None && raw.get("id"@)
            is None ==> made_id(raw).len() == 0,
{
}

} // verus!
