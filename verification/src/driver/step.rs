//! One command at a time: what it asks of the outside, or what is said at once
//! where it asks nothing, and what the answer means.

use vstd::prelude::*;

use crate::driver::types::{
    AppEvent, Cmd, GoalMutation, GoalRef, ImageTrouble, Note, PageUse, Refusal, Request, Trouble,
};
use crate::wire::{SessionId, SessionSeq};

verus! {

/// How long a search may take, in milliseconds.
pub const SEARCH_TIMEOUT_MS: u64 = 15_000;

/// How long typing must rest before a search starts, in milliseconds.
pub const SEARCH_DEBOUNCE_MS: u64 = 300;

/// How many messages a page has on the way to a position.
pub const LOAD_THROUGH_PAGE_SIZE: usize = 200;

/// How far the window of the open session reaches.
#[derive(Debug, Clone, Copy, PartialEq, Eq, Structural)]
pub struct WindowPlace {
    pub cursor: Option<u64>,
    pub head: Option<SessionSeq>,
}

/// What a command meets.
#[derive(Debug, PartialEq, Eq)]
pub struct Link {
    pub connected: bool,
    pub reconnecting: bool,
    /// How many messages a page has at most.
    pub page_size: usize,
    /// The open session.
    pub active: Option<SessionId>,
    /// The window of the open session.
    pub window: Option<WindowPlace>,
    /// The id of its goal.
    pub goal_id: Option<String>,
    /// The revision that the last change of the goal was made on.
    pub sent_revision: Option<u64>,
    /// Whether the terminal shows images.
    pub kitty: bool,
}

/// What a command leads to.
#[derive(Debug, PartialEq, Eq)]
pub enum Step {
    /// Nothing.
    Idle,
    Ask(Request),
    Tell(AppEvent),
    Leave(Note),
    /// The command waits for the loop itself.
    Later(Cmd),
    Exit,
}

/// How many messages a page is asked for.
pub open spec fn page_limit(wanted: usize, page_size: usize) -> usize {
    let most = if page_size == 0 {
        1
    } else {
        page_size
    };
    if wanted < most {
        wanted
    } else {
        most
    }
}

/// Whether a text is the id of the goal: empty where there is none.
pub open spec fn is_goal_id(link: Link, id: String) -> bool {
    match link.goal_id {
        Some(known) => id == known,
        None => id@.len() == 0,
    }
}

/// The goal that a change is made on.
pub open spec fn goal_target(link: Link, id: String) -> GoalRef {
    GoalRef {
        id,
        revision: match link.sent_revision {
            Some(n) => n,
            None => 0,
        },
    }
}

/// What a command leads to while there is no connection. What the user waits
/// for is refused in words; what is fetched in the background is dropped.
pub open spec fn offline_step(cmd: Cmd) -> Step {
    let off = Trouble::Refused(Refusal::NotConnected);
    match cmd {
        Cmd::FetchModelCatalog { generation } => Step::Tell(
            AppEvent::ModelCatalogLoadFailed {
                generation,
                error: Trouble::Refused(Refusal::CatalogOffline),
            },
        ),
        Cmd::SelectModel { .. } => Step::Tell(
            AppEvent::ModelSelectFailed { error: Trouble::Refused(Refusal::SwitchOffline) },
        ),
        Cmd::FetchRemoteCommands => Step::Tell(AppEvent::RemoteCommandsFailed { error: off }),
        Cmd::ExecuteCommand { .. } => Step::Tell(AppEvent::CommandExecuteFailed { error: off }),
        Cmd::CreateSession => Step::Tell(AppEvent::SessionCreateFailed { error: off }),
        Cmd::WorkspaceOp { request_id, op } => Step::Tell(
            AppEvent::WorkspaceOpFailed { request_id, op_name: op.named(), error: off },
        ),
        Cmd::FetchSubagentList { parent_id, generation } => Step::Tell(
            AppEvent::SubagentListFailed { parent_id, generation, error: off },
        ),
        Cmd::GoalOp { request_id, op } => Step::Tell(
            AppEvent::GoalOpFailed { request_id, op, error: off },
        ),
        Cmd::SubagentInterrupt { child_id, .. } => Step::Tell(
            AppEvent::SubagentInterruptDone { child_id, error: Some(off) },
        ),
        Cmd::FetchMentionCandidates { generation, .. } => Step::Tell(
            AppEvent::MentionCandidatesFailed { generation, error: off },
        ),
        Cmd::FetchAttachment { session_id, attachment_id, block_seq, for_viewer } => Step::Tell(
            AppEvent::AttachmentFailed {
                session_id,
                attachment_id,
                block_seq,
                error: ImageTrouble::NotReady,
                for_viewer,
            },
        ),
        _ => Step::Idle,
    }
}

/// What a command leads to that asks nothing of the server.
pub open spec fn local_step(cmd: Cmd) -> Option<Step> {
    match cmd {
        Cmd::DebounceSearch { query, generation } => Some(
            Step::Ask(Request::Wait { query, generation, delay_ms: SEARCH_DEBOUNCE_MS }),
        ),
        Cmd::ExternalEdit { .. } => Some(Step::Leave(Note::EditElsewhere)),
        Cmd::SaveUiTheme { theme, palette } => Some(
            Step::Ask(Request::SaveTheme { theme, palette }),
        ),
        Cmd::OpenExternal { target } => Some(Step::Ask(Request::Open { target })),
        Cmd::CopyToClipboard { text } => Some(Step::Ask(Request::Copy { text })),
        Cmd::CopyImageText { text } => Some(Step::Ask(Request::Copy { text })),
        Cmd::RenderCachedImage { session_id, attachment_id, block_seq, temp_file, media_type } => {
            Some(
                Step::Ask(
                    Request::CachedImage {
                        session_id,
                        attachment_id,
                        block_seq,
                        temp_file,
                        media_type,
                    },
                ),
            )
        },
        Cmd::OpenSystemViewer { path } => Some(Step::Ask(Request::View { path })),
        Cmd::Reconnect => Some(Step::Later(Cmd::Reconnect)),
        Cmd::RestoreTerminal => Some(Step::Idle),
        Cmd::Exit => Some(Step::Exit),
        _ => None,
    }
}

/// What a command leads to over a connection, where the goal has the id `id`.
pub open spec fn online_step(cmd: Cmd, link: Link, id: String) -> Step {
    match cmd {
        Cmd::LoadSessionList { cursor } => Step::Ask(Request::ListSessions { cursor }),
        Cmd::OpenWorkspaceFollow => Step::Ask(Request::FollowWorkspaces),
        Cmd::OpenFollow { session_id, max_messages } => Step::Ask(
            Request::Follow { session_id, max_messages },
        ),
        Cmd::RequestPage { session_id, generation, through_seq, before_seq, max_messages } => {
            if link.reconnecting {
                Step::Idle
            } else {
                Step::Ask(
                    Request::Page {
                        session_id,
                        through_seq,
                        before_seq,
                        max_messages: page_limit(max_messages, link.page_size),
                        page_use: PageUse::Window { generation },
                    },
                )
            }
        },
        Cmd::CancelSession(session_id) => Step::Ask(Request::Cancel { session_id }),
        Cmd::SendPrompt { session_id, request } => Step::Ask(
            Request::Prompt { session_id, request },
        ),
        Cmd::SearchSessions { query, generation } => Step::Ask(
            Request::Search { query, generation, timeout_ms: SEARCH_TIMEOUT_MS },
        ),
        Cmd::OpenControl { session_id } => Step::Ask(Request::Control { session_id }),
        Cmd::ReplyApproval { event, outcome } => Step::Ask(Request::Answer { event, outcome }),
        Cmd::FetchModelCatalog { generation } => Step::Ask(Request::Catalog { generation }),
        Cmd::SelectModel { provider, model, reasoning_effort } => match link.active {
            Some(session_id) => Step::Ask(
                Request::Select { session_id, provider, model, reasoning_effort },
            ),
            None => Step::Tell(
                AppEvent::ModelSelectFailed {
                    error: Trouble::Refused(Refusal::NoSessionForModel),
                },
            ),
        },
        Cmd::FetchRemoteCommands => match link.active {
            Some(agent_id) => Step::Ask(Request::Commands { agent_id }),
            None => Step::Tell(
                AppEvent::RemoteCommandsFailed {
                    error: Trouble::Refused(Refusal::NoSessionForCommands),
                },
            ),
        },
        Cmd::ExecuteCommand { line } => match link.active {
            Some(agent_id) => Step::Ask(Request::Execute { agent_id, line }),
            None => Step::Tell(
                AppEvent::CommandExecuteFailed {
                    error: Trouble::Refused(Refusal::NoSessionForCommands),
                },
            ),
        },
        Cmd::CreateSession => Step::Ask(Request::CreateSession),
        Cmd::WorkspaceOp { request_id, op } => Step::Ask(Request::Workspace { request_id, op }),
        Cmd::FetchSubagentList { parent_id, generation } => Step::Ask(
            Request::Subagents { parent_id, generation },
        ),
        Cmd::GoalOp { request_id, op } => match link.active {
            None => Step::Tell(
                AppEvent::GoalOpFailed {
                    request_id,
                    op,
                    error: Trouble::Refused(Refusal::NoSession),
                },
            ),
            Some(agent_id) => match op {
                GoalMutation::Edit { .. } => Step::Tell(
                    AppEvent::GoalOpFailed {
                        request_id,
                        op,
                        error: Trouble::Refused(Refusal::EditNotWired),
                    },
                ),
                _ => Step::Ask(
                    Request::Goal { request_id, agent_id, op, target: goal_target(link, id) },
                ),
            },
        },
        Cmd::SubagentInterrupt { child_id, parent_id } => Step::Ask(
            Request::Interrupt { child_id, parent_id },
        ),
        Cmd::FetchMentionCandidates { generation, agent_id, query } => Step::Ask(
            Request::Mentions { generation, agent_id, query },
        ),
        Cmd::LoadThrough { .. } => match (link.active, link.window) {
            (Some(session_id), Some(w)) => Step::Ask(
                Request::Page {
                    session_id,
                    through_seq: SessionSeq(
                        match w.cursor {
                            Some(c) => c,
                            None => 0,
                        },
                    ),
                    before_seq: w.head,
                    max_messages: LOAD_THROUGH_PAGE_SIZE,
                    page_use: PageUse::Jump,
                },
            ),
            _ => Step::Idle,
        },
        Cmd::FetchAttachment { session_id, attachment_id, block_seq, for_viewer } => Step::Ask(
            Request::Attachment {
                session_id,
                attachment_id,
                block_seq,
                for_viewer,
                draw: link.kitty && !for_viewer,
            },
        ),
        _ => Step::Idle,
    }
}

/// What a command leads to, where the goal has the id `id`.
pub open spec fn step_of(cmd: Cmd, link: Link, id: String) -> Step {
    match local_step(cmd) {
        Some(s) => s,
        None => if link.connected {
            online_step(cmd, link, id)
        } else {
            offline_step(cmd)
        },
    }
}

fn copy_active(link: &Link) -> (r: Option<SessionId>)
    ensures
        r == link.active,
{
    match &link.active {
        Some(id) => Some(id.clone()),
        None => None,
    }
}

fn refuse(cmd: Cmd) -> (r: Step)
    ensures
        r == offline_step(cmd),
{
    let off = Trouble::Refused(Refusal::NotConnected);
    match cmd {
        Cmd::FetchModelCatalog { generation } => Step::Tell(
            AppEvent::ModelCatalogLoadFailed {
                generation,
                error: Trouble::Refused(Refusal::CatalogOffline),
            },
        ),
        Cmd::SelectModel { .. } => Step::Tell(
            AppEvent::ModelSelectFailed { error: Trouble::Refused(Refusal::SwitchOffline) },
        ),
        Cmd::FetchRemoteCommands => Step::Tell(AppEvent::RemoteCommandsFailed { error: off }),
        Cmd::ExecuteCommand { .. } => Step::Tell(AppEvent::CommandExecuteFailed { error: off }),
        Cmd::CreateSession => Step::Tell(AppEvent::SessionCreateFailed { error: off }),
        Cmd::WorkspaceOp { request_id, op } => {
            let op_name = op.name();
            Step::Tell(AppEvent::WorkspaceOpFailed { request_id, op_name, error: off })
        },
        Cmd::FetchSubagentList { parent_id, generation } => Step::Tell(
            AppEvent::SubagentListFailed { parent_id, generation, error: off },
        ),
        Cmd::GoalOp { request_id, op } => Step::Tell(
            AppEvent::GoalOpFailed { request_id, op, error: off },
        ),
        Cmd::SubagentInterrupt { child_id, .. } => Step::Tell(
            AppEvent::SubagentInterruptDone { child_id, error: Some(off) },
        ),
        Cmd::FetchMentionCandidates { generation, .. } => Step::Tell(
            AppEvent::MentionCandidatesFailed { generation, error: off },
        ),
        Cmd::FetchAttachment { session_id, attachment_id, block_seq, for_viewer } => Step::Tell(
            AppEvent::AttachmentFailed {
                session_id,
                attachment_id,
                block_seq,
                error: ImageTrouble::NotReady,
                for_viewer,
            },
        ),
        _ => Step::Idle,
    }
}

/// The id of the goal.
fn goal_id(link: &Link) -> (r: String)
    ensures
        is_goal_id(*link, r),
{
    match &link.goal_id {
        Some(id) => id.clone(),
        None => String::new(),
    }
}

fn ask(cmd: Cmd, link: &Link, id: String) -> (r: Step)
    requires
        link.connected,
    ensures
        r == online_step(cmd, *link, id),
{
    match cmd {
        Cmd::LoadSessionList { cursor } => Step::Ask(Request::ListSessions { cursor }),
        Cmd::OpenWorkspaceFollow => Step::Ask(Request::FollowWorkspaces),
        Cmd::OpenFollow { session_id, max_messages } => Step::Ask(
            Request::Follow { session_id, max_messages },
        ),
        Cmd::RequestPage { session_id, generation, through_seq, before_seq, max_messages } => {
            if link.reconnecting {
                return Step::Idle;
            }
            let most: usize = if link.page_size == 0 {
                1
            } else {
                link.page_size
            };
            let count: usize = if max_messages < most {
                max_messages
            } else {
                most
            };
            Step::Ask(
                Request::Page {
                    session_id,
                    through_seq,
                    before_seq,
                    max_messages: count,
                    page_use: PageUse::Window { generation },
                },
            )
        },
        Cmd::CancelSession(session_id) => Step::Ask(Request::Cancel { session_id }),
        Cmd::SendPrompt { session_id, request } => Step::Ask(
            Request::Prompt { session_id, request },
        ),
        Cmd::SearchSessions { query, generation } => Step::Ask(
            Request::Search { query, generation, timeout_ms: SEARCH_TIMEOUT_MS },
        ),
        Cmd::OpenControl { session_id } => Step::Ask(Request::Control { session_id }),
        Cmd::ReplyApproval { event, outcome } => Step::Ask(Request::Answer { event, outcome }),
        Cmd::FetchModelCatalog { generation } => Step::Ask(Request::Catalog { generation }),
        Cmd::SelectModel { provider, model, reasoning_effort } => match copy_active(link) {
            Some(session_id) => Step::Ask(
                Request::Select { session_id, provider, model, reasoning_effort },
            ),
            None => Step::Tell(
                AppEvent::ModelSelectFailed {
                    error: Trouble::Refused(Refusal::NoSessionForModel),
                },
            ),
        },
        Cmd::FetchRemoteCommands => match copy_active(link) {
            Some(agent_id) => Step::Ask(Request::Commands { agent_id }),
            None => Step::Tell(
                AppEvent::RemoteCommandsFailed {
                    error: Trouble::Refused(Refusal::NoSessionForCommands),
                },
            ),
        },
        Cmd::ExecuteCommand { line } => match copy_active(link) {
            Some(agent_id) => Step::Ask(Request::Execute { agent_id, line }),
            None => Step::Tell(
                AppEvent::CommandExecuteFailed {
                    error: Trouble::Refused(Refusal::NoSessionForCommands),
                },
            ),
        },
        Cmd::CreateSession => Step::Ask(Request::CreateSession),
        Cmd::WorkspaceOp { request_id, op } => Step::Ask(Request::Workspace { request_id, op }),
        Cmd::FetchSubagentList { parent_id, generation } => Step::Ask(
            Request::Subagents { parent_id, generation },
        ),
        Cmd::GoalOp { request_id, op } => match copy_active(link) {
            None => Step::Tell(
                AppEvent::GoalOpFailed {
                    request_id,
                    op,
                    error: Trouble::Refused(Refusal::NoSession),
                },
            ),
            Some(agent_id) => {
                let edits = match &op {
                    GoalMutation::Edit { .. } => true,
                    _ => false,
                };
                if edits {
                    return Step::Tell(
                        AppEvent::GoalOpFailed {
                            request_id,
                            op,
                            error: Trouble::Refused(Refusal::EditNotWired),
                        },
                    );
                }
                let revision: u64 = match link.sent_revision {
                    Some(n) => n,
                    None => 0,
                };
                let target = GoalRef { id, revision };
                Step::Ask(Request::Goal { request_id, agent_id, op, target })
            },
        },
        Cmd::SubagentInterrupt { child_id, parent_id } => Step::Ask(
            Request::Interrupt { child_id, parent_id },
        ),
        Cmd::FetchMentionCandidates { generation, agent_id, query } => Step::Ask(
            Request::Mentions { generation, agent_id, query },
        ),
        Cmd::LoadThrough { .. } => match (copy_active(link), link.window) {
            (Some(session_id), Some(w)) => {
                let through: u64 = match w.cursor {
                    Some(c) => c,
                    None => 0,
                };
                Step::Ask(
                    Request::Page {
                        session_id,
                        through_seq: SessionSeq(through),
                        before_seq: w.head,
                        max_messages: LOAD_THROUGH_PAGE_SIZE,
                        page_use: PageUse::Jump,
                    },
                )
            },
            _ => Step::Idle,
        },
        Cmd::FetchAttachment { session_id, attachment_id, block_seq, for_viewer } => Step::Ask(
            Request::Attachment {
                session_id,
                attachment_id,
                block_seq,
                for_viewer,
                draw: link.kitty && !for_viewer,
            },
        ),
        _ => Step::Idle,
    }
}

/// What a command leads to.
pub fn step(cmd: Cmd, link: &Link) -> (r: Step)
    ensures
        exists|id: String|
            is_goal_id(*link, id) && r == #[trigger] step_of(cmd, *link, id),
{
    step_with(cmd, link, goal_id(link))
}

/// What a command leads to, where the goal has the id `id`.
fn step_with(cmd: Cmd, link: &Link, id: String) -> (r: Step)
    ensures
        r == step_of(cmd, *link, id),
{
    match cmd {
        Cmd::DebounceSearch { query, generation } => Step::Ask(
            Request::Wait { query, generation, delay_ms: SEARCH_DEBOUNCE_MS },
        ),
        Cmd::ExternalEdit { .. } => Step::Leave(Note::EditElsewhere),
        Cmd::SaveUiTheme { theme, palette } => Step::Ask(Request::SaveTheme { theme, palette }),
        Cmd::OpenExternal { target } => Step::Ask(Request::Open { target }),
        Cmd::CopyToClipboard { text } => Step::Ask(Request::Copy { text }),
        Cmd::CopyImageText { text } => Step::Ask(Request::Copy { text }),
        Cmd::RenderCachedImage { session_id, attachment_id, block_seq, temp_file, media_type } => {
            Step::Ask(
                Request::CachedImage { session_id, attachment_id, block_seq, temp_file, media_type },
            )
        },
        Cmd::OpenSystemViewer { path } => Step::Ask(Request::View { path }),
        Cmd::Reconnect => Step::Later(Cmd::Reconnect),
        Cmd::RestoreTerminal => Step::Idle,
        Cmd::Exit => Step::Exit,
        other => if link.connected {
            ask(other, link, id)
        } else {
            refuse(other)
        },
    }
}

/// Whether something is asked of the server.
pub open spec fn is_remote(r: Request) -> bool {
    match r {
        Request::Wait { .. } => false,
        Request::SaveTheme { .. } => false,
        Request::Open { .. } => false,
        Request::Copy { .. } => false,
        Request::CachedImage { .. } => false,
        Request::View { .. } => false,
        _ => true,
    }
}

/// Nothing is asked of the server while there is no connection.
pub proof fn law_offline_asks_nothing(cmd: Cmd, link: Link, id: String)
    requires
        !link.connected,
    ensures
        step_of(cmd, link, id) is Ask ==> !is_remote(step_of(cmd, link, id)->Ask_0),
{
}

/// Every page that is asked for has as many messages as were wanted at most,
/// and never more than a page holds.
pub proof fn law_pages_stay_small(cmd: Cmd, link: Link, id: String)
    requires
        cmd is RequestPage,
        step_of(cmd, link, id) is Ask,
    ensures
        !link.reconnecting,
        step_of(cmd, link, id)->Ask_0 is Page,
        step_of(cmd, link, id)->Ask_0->Page_max_messages <= cmd->RequestPage_max_messages,
        step_of(cmd, link, id)->Ask_0->Page_max_messages <= link.page_size || step_of(
            cmd,
            link,
            id,
        )->Ask_0->Page_max_messages == 1,
{
}

/// Only a change of the goal depends on the id of the goal.
pub proof fn law_only_goals_name_the_goal(cmd: Cmd, link: Link, a: String, b: String)
    requires
        !(cmd is GoalOp),
    ensures
        step_of(cmd, link, a) == step_of(cmd, link, b),
{
}

} // verus!
