//! Laws of the main loop: what is asked is what was commanded, and what is told
//! is what came back.

use vstd::prelude::*;

use crate::driver::settle::{settled, Answer, Candidates, Reply};
use crate::driver::step::{is_goal_id, is_remote, step_of, Link, Step, WindowPlace};
use crate::driver::types::{
    AppEvent, ApprovalOutcome, Cmd, Fault, GoalMutation, GoalSnapshot, ImageTrouble, Note,
    OpName, OpOutcome, PromptRequest, Refusal, Request, Trouble, WorkspaceOperation,
};
use crate::json::Json;
use crate::model::approval::ApprovalEvent;
use crate::model::catalog::{ModelCatalog, WireModelSelection};
use crate::model::image::{AttachmentRef, ImageCacheEntry};
use crate::model::mention::{FileReferenceCandidate, SessionReferenceMentionCandidate};
use crate::model::subagent::SubagentCatalog;
use crate::model::yank::YankBackend;
use crate::wire::{AttachmentId, MediaType, SessionHistoryRecord, SessionId, SessionSeq};

verus! {

/// Over a connection a prompt is always sent, and as it was given: to its
/// session, with its request id and its text.
pub proof fn law_prompt_is_sent_as_given(
    session_id: SessionId,
    request: PromptRequest,
    link: Link,
    id: String,
)
    requires
        link.connected,
    ensures
        step_of(Cmd::SendPrompt { session_id, request }, link, id) is Ask,
        step_of(Cmd::SendPrompt { session_id, request }, link, id)->Ask_0 is Prompt,
        step_of(Cmd::SendPrompt { session_id, request }, link, id)->Ask_0->Prompt_session_id
            == session_id,
        step_of(
            Cmd::SendPrompt { session_id, request },
            link,
            id,
        )->Ask_0->Prompt_request.request_id == request.request_id,
        step_of(Cmd::SendPrompt { session_id, request }, link, id)->Ask_0->Prompt_request.text
            == request.text,
{
}

/// The fate of a prompt is told under its session and its request id: that it
/// was accepted, or that it failed, and why.
pub proof fn law_fate_of_a_prompt_is_told(
    session_id: SessionId,
    request: PromptRequest,
    fault: Fault,
    link: Link,
    id: String,
    none: Candidates,
)
    requires
        link.connected,
    ensures
        ({
            let asked = step_of(Cmd::SendPrompt { session_id, request }, link, id)->Ask_0;
            &&& settled(asked, Reply::Done, none) == Answer::Tell(
                AppEvent::PromptAccepted { session_id, request_id: request.request_id },
            )
            &&& settled(asked, Reply::Failed(fault), none) == Answer::Tell(
                AppEvent::PromptFailed {
                    session_id,
                    request_id: request.request_id,
                    error: fault,
                },
            )
        }),
{
}

/// A decision on an approval is sent for the very request and as it was taken,
/// and the answer tells that decision.
pub proof fn law_decision_is_sent_as_taken(
    event: ApprovalEvent,
    outcome: ApprovalOutcome,
    fault: Fault,
    link: Link,
    id: String,
    none: Candidates,
)
    requires
        link.connected,
    ensures
        ({
            let s = step_of(Cmd::ReplyApproval { event, outcome }, link, id);
            &&& s is Ask
            &&& s->Ask_0 is Answer
            &&& s->Ask_0->Answer_event == event
            &&& s->Ask_0->Answer_outcome == outcome
            &&& settled(s->Ask_0, Reply::Done, none) == Answer::Tell(
                AppEvent::ApprovalReplied { outcome },
            )
            &&& settled(s->Ask_0, Reply::Failed(fault), none) == Answer::Tell(
                AppEvent::ApprovalReplyFailed { outcome, error: fault },
            )
        }),
{
}

/// A session that is to be stopped is the one that is stopped, and the answer
/// tells which.
pub proof fn law_stop_reaches_its_session(
    session_id: SessionId,
    fault: Fault,
    link: Link,
    id: String,
    none: Candidates,
)
    requires
        link.connected,
    ensures
        ({
            let s = step_of(Cmd::CancelSession(session_id), link, id);
            &&& s is Ask
            &&& s->Ask_0 is Cancel
            &&& s->Ask_0->Cancel_session_id == session_id
            &&& settled(s->Ask_0, Reply::Done, none) == Answer::Tell(
                AppEvent::CancelAccepted { session_id },
            )
            &&& settled(s->Ask_0, Reply::Failed(fault), none) == Answer::Tell(
                AppEvent::CancelFailed { session_id, error: fault },
            )
        }),
{
}

/// A session that is opened is followed, with as many messages as were wanted,
/// and its control is opened for it; that it cannot be is told of it.
pub proof fn law_open_session_is_followed(
    session_id: SessionId,
    max_messages: usize,
    fault: Fault,
    link: Link,
    id: String,
    none: Candidates,
)
    requires
        link.connected,
    ensures
        ({
            let f = step_of(Cmd::OpenFollow { session_id, max_messages }, link, id);
            let c = step_of(Cmd::OpenControl { session_id }, link, id);
            &&& f is Ask && f->Ask_0 is Follow
            &&& f->Ask_0->Follow_session_id == session_id
            &&& f->Ask_0->Follow_max_messages == max_messages
            &&& c is Ask && c->Ask_0 is Control
            &&& c->Ask_0->Control_session_id == session_id
            &&& settled(f->Ask_0, Reply::Failed(fault), none) == Answer::Tell(
                AppEvent::FollowError { session_id, error: fault },
            )
            &&& settled(c->Ask_0, Reply::Failed(fault), none) == Answer::Tell(
                AppEvent::FollowError { session_id, error: fault },
            )
        }),
{
}

/// A page is asked for where it was wanted, and comes back with its records
/// under the generation it was wanted for. It has as many messages as were
/// wanted, or as many as a page holds where that is fewer.
pub proof fn law_page_comes_from_where_it_was_wanted(
    session_id: SessionId,
    generation: u64,
    through_seq: SessionSeq,
    before_seq: Option<SessionSeq>,
    max_messages: usize,
    link: Link,
    id: String,
    records: Vec<SessionHistoryRecord>,
    has_more: bool,
    fault: Fault,
    none: Candidates,
)
    requires
        link.connected,
        !link.reconnecting,
    ensures
        ({
            let s = step_of(
                Cmd::RequestPage { session_id, generation, through_seq, before_seq, max_messages },
                link,
                id,
            );
            let p = s->Ask_0;
            &&& s is Ask && p is Page
            &&& p->Page_session_id == session_id
            &&& p->Page_through_seq == through_seq
            &&& p->Page_before_seq == before_seq
            &&& max_messages <= link.page_size ==> p->Page_max_messages == max_messages
            &&& max_messages > link.page_size > 0 ==> p->Page_max_messages == link.page_size
            &&& max_messages > 0 ==> p->Page_max_messages > 0
            &&& settled(p, Reply::Page { records, has_more }, none) == Answer::Tell(
                AppEvent::PageResult { session_id, generation, records, has_more },
            )
            &&& settled(p, Reply::Failed(fault), none) == Answer::Tell(
                AppEvent::PageError { session_id, generation, error: fault },
            )
        }),
{
}

/// The way to a position leads through pages of the open session that end
/// before what its window shows.
pub proof fn law_jump_loads_what_lies_before_the_window(
    target: Cmd,
    session_id: SessionId,
    window: WindowPlace,
    link: Link,
    id: String,
    records: Vec<SessionHistoryRecord>,
    has_more: bool,
    fault: Fault,
    none: Candidates,
)
    requires
        target is LoadThrough,
        link.connected,
        link.active == Some(session_id),
        link.window == Some(window),
    ensures
        ({
            let s = step_of(target, link, id);
            let p = s->Ask_0;
            &&& s is Ask && p is Page
            &&& p->Page_session_id == session_id
            &&& p->Page_before_seq == window.head
            &&& window.cursor is Some ==> p->Page_through_seq.0 == window.cursor->0
            &&& p->Page_max_messages > 0
            &&& settled(p, Reply::Page { records, has_more }, none) == Answer::Tell(
                AppEvent::LoadThroughPage { session_id, records, has_more },
            )
            &&& settled(p, Reply::Failed(fault), none) == Answer::Leave(
                Note::JumpFailed(fault.message),
            )
        }),
{
}

/// A search asks for its words, and what is found or failed comes back under
/// its generation; so does the rest before a search.
pub proof fn law_search_is_for_its_words(
    query: String,
    generation: u64,
    items: Vec<Json>,
    has_more: bool,
    fault: Fault,
    link: Link,
    id: String,
    none: Candidates,
)
    requires
        link.connected,
    ensures
        ({
            let s = step_of(Cmd::SearchSessions { query, generation }, link, id);
            let w = step_of(Cmd::DebounceSearch { query, generation }, link, id);
            &&& s is Ask && s->Ask_0 is Search
            &&& s->Ask_0->Search_query == query
            &&& s->Ask_0->Search_timeout_ms > 0
            &&& settled(s->Ask_0, Reply::Found { items, has_more }, none) == Answer::Tell(
                AppEvent::SearchResult { generation, items, has_more },
            )
            &&& settled(s->Ask_0, Reply::Failed(fault), none) == Answer::Tell(
                AppEvent::SearchError { generation, error: fault },
            )
            &&& w is Ask && w->Ask_0 is Wait
            &&& 0 < w->Ask_0->Wait_delay_ms < s->Ask_0->Search_timeout_ms
            &&& settled(w->Ask_0, Reply::Done, none) == Answer::Tell(
                AppEvent::SearchHistoryDebounced { query, generation },
            )
        }),
{
}

/// The list of sessions goes on from the place that was asked for, and comes
/// back with its entries and the next place.
pub proof fn law_session_list_goes_on(
    cursor: Option<String>,
    items: Vec<Json>,
    next_cursor: Option<String>,
    fault: Fault,
    link: Link,
    id: String,
    none: Candidates,
)
    requires
        link.connected,
    ensures
        ({
            let s = step_of(Cmd::LoadSessionList { cursor }, link, id);
            let f = step_of(Cmd::OpenWorkspaceFollow, link, id);
            &&& s is Ask && s->Ask_0 is ListSessions
            &&& s->Ask_0->ListSessions_cursor == cursor
            &&& settled(s->Ask_0, Reply::Sessions { items, next_cursor }, none) == Answer::Tell(
                AppEvent::SessionListPage { items, next_cursor },
            )
            &&& settled(s->Ask_0, Reply::Failed(fault), none) == Answer::Tell(
                AppEvent::SessionListError(fault),
            )
            &&& f is Ask && f->Ask_0 is FollowWorkspaces
            &&& settled(f->Ask_0, Reply::Failed(fault), none) == Answer::Tell(
                AppEvent::Disconnected(fault.message),
            )
        }),
{
}

/// A model is chosen for the open session, as it was picked; without a session
/// the choice is refused. The catalog comes back under its generation.
pub proof fn law_model_is_chosen_for_the_open_session(
    provider: String,
    model: String,
    reasoning_effort: Option<String>,
    generation: u64,
    catalog: ModelCatalog,
    selected: WireModelSelection,
    fault: Fault,
    link: Link,
    id: String,
    none: Candidates,
)
    requires
        link.connected,
    ensures
        ({
            let s = step_of(Cmd::SelectModel { provider, model, reasoning_effort }, link, id);
            let c = step_of(Cmd::FetchModelCatalog { generation }, link, id);
            &&& link.active is Some ==> {
                &&& s is Ask && s->Ask_0 is Select
                &&& s->Ask_0->Select_session_id == link.active->0
                &&& s->Ask_0->Select_provider == provider
                &&& s->Ask_0->Select_model == model
                &&& s->Ask_0->Select_reasoning_effort == reasoning_effort
                &&& settled(s->Ask_0, Reply::Selected(selected), none) == Answer::Tell(
                    AppEvent::ModelSelected { selected },
                )
                &&& settled(s->Ask_0, Reply::Failed(fault), none) == Answer::Tell(
                    AppEvent::ModelSelectFailed { error: Trouble::Failed(fault) },
                )
            }
            &&& link.active is None ==> s == Step::Tell(
                AppEvent::ModelSelectFailed {
                    error: Trouble::Refused(Refusal::NoSessionForModel),
                },
            )
            &&& c is Ask && c->Ask_0 is Catalog
            &&& settled(c->Ask_0, Reply::Catalog(catalog), none) == Answer::Tell(
                AppEvent::ModelCatalogLoaded { generation, catalog },
            )
            &&& settled(c->Ask_0, Reply::Failed(fault), none) == Answer::Tell(
                AppEvent::ModelCatalogLoadFailed { generation, error: Trouble::Failed(fault) },
            )
        }),
{
}

/// A slash command runs in the open session, as it was written; without a
/// session it is refused, and so is the list of such commands.
pub proof fn law_commands_run_in_the_open_session(
    line: String,
    commands: Vec<Json>,
    text: Option<String>,
    fault: Fault,
    link: Link,
    id: String,
    none: Candidates,
)
    requires
        link.connected,
    ensures
        ({
            let s = step_of(Cmd::ExecuteCommand { line }, link, id);
            let c = step_of(Cmd::FetchRemoteCommands, link, id);
            &&& link.active is Some ==> {
                &&& s is Ask && s->Ask_0 is Execute
                &&& s->Ask_0->Execute_agent_id == link.active->0
                &&& s->Ask_0->Execute_line == line
                &&& c is Ask && c->Ask_0 is Commands
                &&& c->Ask_0->Commands_agent_id == link.active->0
                &&& settled(s->Ask_0, Reply::Executed(text), none) == Answer::Tell(
                    AppEvent::CommandExecuted { text },
                )
                &&& settled(s->Ask_0, Reply::Failed(fault), none) == Answer::Tell(
                    AppEvent::CommandExecuteFailed { error: Trouble::Failed(fault) },
                )
                &&& settled(c->Ask_0, Reply::Commands(commands), none) == Answer::Tell(
                    AppEvent::RemoteCommandsLoaded { commands },
                )
                &&& settled(c->Ask_0, Reply::Failed(fault), none) == Answer::Tell(
                    AppEvent::RemoteCommandsFailed { error: Trouble::Failed(fault) },
                )
            }
            &&& link.active is None ==> {
                &&& s == Step::Tell(
                    AppEvent::CommandExecuteFailed {
                        error: Trouble::Refused(Refusal::NoSessionForCommands),
                    },
                )
                &&& c == Step::Tell(
                    AppEvent::RemoteCommandsFailed {
                        error: Trouble::Refused(Refusal::NoSessionForCommands),
                    },
                )
            }
        }),
{
}

/// A change of workspaces and sessions is asked for as it was given, and its
/// outcome comes back under its request id: what was made anew, or that it was
/// done, or that it failed and which change that was.
pub proof fn law_workspace_change_is_asked_as_given(
    request_id: String,
    op: WorkspaceOperation,
    made: SessionId,
    workspace_id: String,
    fault: Fault,
    link: Link,
    id: String,
    none: Candidates,
)
    requires
        link.connected,
    ensures
        ({
            let s = step_of(Cmd::WorkspaceOp { request_id, op }, link, id);
            let failed = settled(s->Ask_0, Reply::Failed(fault), none);
            &&& s is Ask && s->Ask_0 is Workspace
            &&& s->Ask_0->Workspace_request_id == request_id
            &&& s->Ask_0->Workspace_op == op
            &&& settled(s->Ask_0, Reply::Done, none) == Answer::Tell(
                AppEvent::WorkspaceOpDone { request_id, outcome: OpOutcome::Ack },
            )
            &&& op is ForkSession ==> settled(s->Ask_0, Reply::Created(made), none)
                == Answer::Tell(
                AppEvent::WorkspaceOpDone {
                    request_id,
                    outcome: OpOutcome::ForkCreated { session_id: made },
                },
            )
            &&& op is NewWorkspace ==> settled(
                s->Ask_0,
                Reply::WorkspaceCreated(workspace_id),
                none,
            ) == Answer::Tell(
                AppEvent::WorkspaceOpDone {
                    request_id,
                    outcome: OpOutcome::WorkspaceCreated { workspace_id },
                },
            )
            &&& failed is Tell && failed->Tell_0 is WorkspaceOpFailed
            &&& failed->Tell_0->WorkspaceOpFailed_request_id == request_id
            &&& failed->Tell_0->WorkspaceOpFailed_error == Trouble::Failed(fault)
        }),
{
}

/// Each change of workspaces and sessions has the name of its own.
pub proof fn law_workspace_changes_have_their_names(op: WorkspaceOperation)
    ensures
        op is ForkSession <==> op.named() == OpName::ForkSession,
        op is RenameSession <==> op.named() == OpName::RenameSession,
        op is ArchiveSession <==> op.named() == OpName::ArchiveSession,
        op is NewWorkspace <==> op.named() == OpName::NewWorkspace,
        op is RenameWorkspace <==> op.named() == OpName::RenameWorkspace,
        op is DeleteWorkspace <==> op.named() == OpName::DeleteWorkspace,
        op is MoveSession <==> op.named() == OpName::MoveSession,
{
}

/// A session is made, and the answer tells which; or why not.
pub proof fn law_new_session_is_told(
    made: SessionId,
    fault: Fault,
    link: Link,
    id: String,
    none: Candidates,
)
    requires
        link.connected,
    ensures
        ({
            let s = step_of(Cmd::CreateSession, link, id);
            &&& s is Ask && s->Ask_0 is CreateSession
            &&& settled(s->Ask_0, Reply::Created(made), none) == Answer::Tell(
                AppEvent::SessionCreated { session_id: made },
            )
            &&& settled(s->Ask_0, Reply::Failed(fault), none) == Answer::Tell(
                AppEvent::SessionCreateFailed { error: Trouble::Failed(fault) },
            )
        }),
{
}

/// A change of the goal is asked for the open session as it was given, on the
/// goal that is shown and the revision it was made on. An edit is refused, and
/// so is every change without a session. The outcome comes back under the
/// request id.
pub proof fn law_goal_change_names_goal_and_revision(
    request_id: String,
    op: GoalMutation,
    snapshot: GoalSnapshot,
    fault: Fault,
    link: Link,
    id: String,
    none: Candidates,
)
    requires
        link.connected,
        is_goal_id(link, id),
    ensures
        ({
            let s = step_of(Cmd::GoalOp { request_id, op }, link, id);
            &&& link.active is Some && !(op is Edit) ==> {
                let g = s->Ask_0;
                &&& s is Ask && g is Goal
                &&& g->Goal_request_id == request_id
                &&& g->Goal_agent_id == link.active->0
                &&& g->Goal_op == op
                &&& link.goal_id is Some ==> g->Goal_target.id == link.goal_id->0
                &&& link.goal_id is None ==> g->Goal_target.id@.len() == 0
                &&& link.sent_revision is Some ==> g->Goal_target.revision
                    == link.sent_revision->0
                &&& link.sent_revision is None ==> g->Goal_target.revision == 0
                &&& settled(g, Reply::Goal(snapshot), none) == Answer::Tell(
                    AppEvent::GoalOpDone { request_id, updated: Some(snapshot), cleared: false },
                )
                &&& op is Clear ==> settled(g, Reply::Done, none) == Answer::Tell(
                    AppEvent::GoalOpDone { request_id, updated: None, cleared: true },
                )
                &&& settled(g, Reply::Failed(fault), none) == Answer::Tell(
                    AppEvent::GoalOpFailed { request_id, op, error: Trouble::Failed(fault) },
                )
            }
            &&& link.active is Some && op is Edit ==> s == Step::Tell(
                AppEvent::GoalOpFailed {
                    request_id,
                    op,
                    error: Trouble::Refused(Refusal::EditNotWired),
                },
            )
            &&& link.active is None ==> s == Step::Tell(
                AppEvent::GoalOpFailed {
                    request_id,
                    op,
                    error: Trouble::Refused(Refusal::NoSession),
                },
            )
        }),
{
}

/// Subagents are listed for their parent and interrupted as they are named,
/// and the answers tell whom they are about.
pub proof fn law_subagents_are_named(
    parent_id: String,
    child_id: String,
    generation: u64,
    catalog: SubagentCatalog,
    fault: Fault,
    link: Link,
    id: String,
    none: Candidates,
)
    requires
        link.connected,
    ensures
        ({
            let l = step_of(Cmd::FetchSubagentList { parent_id, generation }, link, id);
            let i = step_of(Cmd::SubagentInterrupt { child_id, parent_id }, link, id);
            &&& l is Ask && l->Ask_0 is Subagents
            &&& l->Ask_0->Subagents_parent_id == parent_id
            &&& settled(l->Ask_0, Reply::Subagents(catalog), none) == Answer::Tell(
                AppEvent::SubagentListed { parent_id, generation, catalog },
            )
            &&& settled(l->Ask_0, Reply::Failed(fault), none) == Answer::Tell(
                AppEvent::SubagentListFailed {
                    parent_id,
                    generation,
                    error: Trouble::Failed(fault),
                },
            )
            &&& i is Ask && i->Ask_0 is Interrupt
            &&& i->Ask_0->Interrupt_child_id == child_id
            &&& i->Ask_0->Interrupt_parent_id == parent_id
            &&& settled(i->Ask_0, Reply::Done, none) == Answer::Tell(
                AppEvent::SubagentInterruptDone { child_id, error: None },
            )
            &&& settled(i->Ask_0, Reply::Failed(fault), none) == Answer::Tell(
                AppEvent::SubagentInterruptDone { child_id, error: Some(Trouble::Failed(fault)) },
            )
        }),
{
}

/// Candidates of a mention are asked for the agent and the words that were
/// typed. Those that both sources give come back under the generation; where
/// both fail, so does a fault of one of them, that of the files unless it is
/// one of the connection.
pub proof fn law_mentions_are_for_their_words(
    generation: u64,
    agent_id: String,
    query: String,
    files: Vec<FileReferenceCandidate>,
    sessions: Vec<SessionReferenceMentionCandidate>,
    a: Fault,
    b: Fault,
    link: Link,
    id: String,
    none: Candidates,
)
    requires
        link.connected,
    ensures
        ({
            let s = step_of(Cmd::FetchMentionCandidates { generation, agent_id, query }, link, id);
            let failed = settled(
                s->Ask_0,
                Reply::Mentions { files: Err(a), sessions: Err(b) },
                none,
            );
            &&& s is Ask && s->Ask_0 is Mentions
            &&& s->Ask_0->Mentions_agent_id == agent_id
            &&& s->Ask_0->Mentions_query == query
            &&& settled(
                s->Ask_0,
                Reply::Mentions { files: Ok(files), sessions: Ok(sessions) },
                none,
            ) == Answer::Tell(AppEvent::MentionCandidates { generation, files, sessions })
            &&& failed is Tell && failed->Tell_0 is MentionCandidatesFailed
            &&& failed->Tell_0->MentionCandidatesFailed_generation == generation
            &&& a.code@ != "transport"@ ==> failed->Tell_0->MentionCandidatesFailed_error
                == Trouble::Failed(a)
            &&& a.code@ == "transport"@ ==> failed->Tell_0->MentionCandidatesFailed_error
                == Trouble::Failed(b)
        }),
{
}

/// An attachment is fetched as it is named. It is drawn at once only in a
/// terminal that shows images, and not for the viewer. What came, or why
/// nothing did, is told of it.
pub proof fn law_attachment_is_fetched_as_named(
    session_id: SessionId,
    attachment_id: AttachmentId,
    block_seq: SessionSeq,
    for_viewer: bool,
    meta: AttachmentRef,
    entry: ImageCacheEntry,
    drawn: bool,
    trouble: ImageTrouble,
    fault: Fault,
    link: Link,
    id: String,
    none: Candidates,
)
    requires
        link.connected,
    ensures
        ({
            let s = step_of(
                Cmd::FetchAttachment { session_id, attachment_id, block_seq, for_viewer },
                link,
                id,
            );
            let r = s->Ask_0;
            &&& s is Ask && r is Attachment
            &&& r->Attachment_session_id == session_id
            &&& r->Attachment_attachment_id == attachment_id
            &&& r->Attachment_block_seq == block_seq
            &&& r->Attachment_for_viewer == for_viewer
            &&& r->draw <==> link.kitty && !for_viewer
            &&& settled(r, Reply::Image { meta, entry, drawn }, none) == Answer::Tell(
                AppEvent::AttachmentReady {
                    session_id,
                    attachment_id,
                    block_seq,
                    meta,
                    entry,
                    drawn,
                    cached: false,
                    for_viewer,
                },
            )
            &&& settled(r, Reply::ImageFailed(trouble), none) == Answer::Tell(
                AppEvent::AttachmentFailed {
                    session_id,
                    attachment_id,
                    block_seq,
                    error: trouble,
                    for_viewer,
                },
            )
            &&& settled(r, Reply::Failed(fault), none) == Answer::Tell(
                AppEvent::AttachmentFailed {
                    session_id,
                    attachment_id,
                    block_seq,
                    error: ImageTrouble::Fetch(fault),
                    for_viewer,
                },
            )
        }),
{
}

/// What concerns this machine alone is done as it was given, with a connection
/// and without one.
pub proof fn law_local_commands_need_no_connection(
    theme: String,
    palette: Vec<(String, String)>,
    text: String,
    session_id: SessionId,
    attachment_id: AttachmentId,
    block_seq: SessionSeq,
    media_type: MediaType,
    link: Link,
    id: String,
)
    ensures
        step_of(Cmd::SaveUiTheme { theme, palette }, link, id) == Step::Ask(
            Request::SaveTheme { theme, palette },
        ),
        step_of(Cmd::OpenExternal { target: text }, link, id) == Step::Ask(
            Request::Open { target: text },
        ),
        step_of(Cmd::CopyToClipboard { text }, link, id) == Step::Ask(Request::Copy { text }),
        step_of(Cmd::CopyImageText { text }, link, id) == Step::Ask(Request::Copy { text }),
        step_of(Cmd::OpenSystemViewer { path: text }, link, id) == Step::Ask(
            Request::View { path: text },
        ),
        step_of(
            Cmd::RenderCachedImage {
                session_id,
                attachment_id,
                block_seq,
                temp_file: text,
                media_type,
            },
            link,
            id,
        ) == Step::Ask(
            Request::CachedImage {
                session_id,
                attachment_id,
                block_seq,
                temp_file: text,
                media_type,
            },
        ),
        step_of(Cmd::Reconnect, link, id) == Step::Later(Cmd::Reconnect),
        step_of(Cmd::Exit, link, id) == Step::Exit,
{
}

/// What was done on this machine is told: the backend and the success of a
/// copy, the theme that was saved, an image out of the cache, and the reason of
/// each failure.
pub proof fn law_local_outcomes_are_told(
    theme: String,
    palette: Vec<(String, String)>,
    text: String,
    reason: String,
    backend: YankBackend,
    ok: bool,
    none: Candidates,
)
    ensures
        settled(Request::Copy { text }, Reply::Copied { backend, ok }, none) == Answer::Tell(
            AppEvent::CopyDone { backend, ok },
        ),
        settled(Request::SaveTheme { theme, palette }, Reply::Done, none) == Answer::Leave(
            Note::ThemeSaved(theme),
        ),
        settled(
            Request::SaveTheme { theme, palette },
            Reply::LocalFailed(reason),
            none,
        ) == Answer::Leave(Note::ThemeNotSaved(reason)),
        settled(Request::Open { target: text }, Reply::LocalFailed(reason), none)
            == Answer::Leave(Note::NotOpened { target: text, reason }),
        settled(Request::View { path: text }, Reply::Missing, none) == Answer::Leave(
            Note::FileMissing,
        ),
        settled(Request::View { path: text }, Reply::LocalFailed(reason), none)
            == Answer::Leave(Note::ViewerFailed(reason)),
{
}

/// An image out of the cache is told as such, and never for the viewer.
pub proof fn law_cached_image_is_told(
    session_id: SessionId,
    attachment_id: AttachmentId,
    block_seq: SessionSeq,
    temp_file: String,
    media_type: MediaType,
    meta: AttachmentRef,
    entry: ImageCacheEntry,
    drawn: bool,
    trouble: ImageTrouble,
    none: Candidates,
)
    ensures
        ({
            let r = Request::CachedImage {
                session_id,
                attachment_id,
                block_seq,
                temp_file,
                media_type,
            };
            &&& settled(r, Reply::Image { meta, entry, drawn }, none) == Answer::Tell(
                AppEvent::AttachmentReady {
                    session_id,
                    attachment_id,
                    block_seq,
                    meta,
                    entry,
                    drawn,
                    cached: true,
                    for_viewer: false,
                },
            )
            &&& settled(r, Reply::ImageFailed(trouble), none) == Answer::Tell(
                AppEvent::AttachmentFailed {
                    session_id,
                    attachment_id,
                    block_seq,
                    error: trouble,
                    for_viewer: false,
                },
            )
        }),
{
}

/// Without a connection whoever waits for an answer is told at once that there
/// is none, under the ids of what was commanded.
pub proof fn law_offline_commands_are_refused(cmd: Cmd, link: Link, id: String)
    requires
        !link.connected,
    ensures
        ({
            let s = step_of(cmd, link, id);
            let off = Trouble::Refused(Refusal::NotConnected);
            &&& cmd is FetchModelCatalog ==> s is Tell && s->Tell_0
                is ModelCatalogLoadFailed && s->Tell_0->ModelCatalogLoadFailed_generation
                == cmd->FetchModelCatalog_generation && s->Tell_0->ModelCatalogLoadFailed_error
                == Trouble::Refused(Refusal::CatalogOffline)
            &&& cmd is SelectModel ==> s is Tell && s->Tell_0 is ModelSelectFailed
                && s->Tell_0->ModelSelectFailed_error == Trouble::Refused(Refusal::SwitchOffline)
            &&& cmd is FetchRemoteCommands ==> s is Tell && s->Tell_0 is RemoteCommandsFailed
                && s->Tell_0->RemoteCommandsFailed_error == off
            &&& cmd is ExecuteCommand ==> s is Tell && s->Tell_0 is CommandExecuteFailed
                && s->Tell_0->CommandExecuteFailed_error == off
            &&& cmd is CreateSession ==> s is Tell && s->Tell_0 is SessionCreateFailed
                && s->Tell_0->SessionCreateFailed_error == off
            &&& cmd is WorkspaceOp ==> s is Tell && s->Tell_0 is WorkspaceOpFailed
                && s->Tell_0->WorkspaceOpFailed_request_id == cmd->WorkspaceOp_request_id
                && s->Tell_0->WorkspaceOpFailed_error == off
            &&& cmd is FetchSubagentList ==> s is Tell && s->Tell_0 is SubagentListFailed
                && s->Tell_0->SubagentListFailed_parent_id == cmd->FetchSubagentList_parent_id
                && s->Tell_0->SubagentListFailed_generation == cmd->FetchSubagentList_generation
                && s->Tell_0->SubagentListFailed_error == off
            &&& cmd is GoalOp ==> s is Tell && s->Tell_0 is GoalOpFailed
                && s->Tell_0->GoalOpFailed_request_id == cmd->GoalOp_request_id
                && s->Tell_0->GoalOpFailed_op == cmd->GoalOp_op && s->Tell_0->GoalOpFailed_error
                == off
            &&& cmd is SubagentInterrupt ==> s is Tell && s->Tell_0 is SubagentInterruptDone
                && s->Tell_0->SubagentInterruptDone_child_id == cmd->SubagentInterrupt_child_id
                && s->Tell_0->SubagentInterruptDone_error == Some(off)
            &&& cmd is FetchMentionCandidates ==> s is Tell && s->Tell_0
                is MentionCandidatesFailed && s->Tell_0->MentionCandidatesFailed_generation
                == cmd->FetchMentionCandidates_generation
                && s->Tell_0->MentionCandidatesFailed_error == off
            &&& cmd is FetchAttachment ==> s is Tell && s->Tell_0 is AttachmentFailed
                && s->Tell_0->AttachmentFailed_session_id == cmd->FetchAttachment_session_id
                && s->Tell_0->AttachmentFailed_attachment_id
                == cmd->FetchAttachment_attachment_id
                && s->Tell_0->AttachmentFailed_block_seq == cmd->FetchAttachment_block_seq
                && s->Tell_0->AttachmentFailed_for_viewer == cmd->FetchAttachment_for_viewer
                && s->Tell_0->AttachmentFailed_error is NotReady
            &&& cmd is SendPrompt || cmd is CancelSession || cmd is ReplyApproval || cmd
                is RequestPage || cmd is OpenFollow || cmd is OpenControl || cmd
                is LoadSessionList || cmd is OpenWorkspaceFollow || cmd is SearchSessions || cmd
                is LoadThrough ==> s is Idle
        }),
{
}

/// Over a steady connection with an open session nothing that is commanded of
/// the server is dropped: it is asked of the server, and different commands are
/// asked differently, but for the edit of a goal.
pub proof fn law_no_command_is_dropped(a: Cmd, b: Cmd, link: Link, id: String)
    requires
        link.connected,
        !link.reconnecting,
        link.active is Some,
        link.window is Some,
        !(a is GoalOp && a->GoalOp_op is Edit),
        !(a is ExternalEdit || a is RestoreTerminal),
    ensures
        a is Reconnect || a is Exit || step_of(a, link, id) is Ask,
        a is Reconnect || a is Exit || a is DebounceSearch || a is SaveUiTheme || a
            is OpenExternal || a is CopyToClipboard || a is CopyImageText || a
            is RenderCachedImage || a is OpenSystemViewer || is_remote(step_of(a, link, id)->Ask_0),
        step_of(a, link, id) == step_of(b, link, id) && !(a is LoadThrough) && !(a
            is RequestPage) && !(a is CopyToClipboard || a is CopyImageText) ==> a == b,
{
}

/// A page is not asked for while the connection is being made anew.
pub proof fn law_no_page_while_reconnecting(cmd: Cmd, link: Link, id: String)
    requires
        cmd is RequestPage,
        link.connected,
        link.reconnecting,
    ensures
        step_of(cmd, link, id) is Idle,
{
}

} // verus!
