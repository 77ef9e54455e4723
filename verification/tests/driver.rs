//! What the main loop decides.

use dshtui::driver::guidance::{Guidance, GuidanceStep};
use dshtui::driver::modes::{input_mode, Mode, Overlays};
use dshtui::driver::reconnect::{reconnect_step, Attempted, Retry};
use dshtui::driver::settle::{new_workspace_id, settle, Answer, Reply};
use dshtui::driver::start::{
    clipboard_next, clipboard_start, default_log_path, draft_start, editor_failed,
    editor_not_started, monitor_warning, server_warning, ClipboardStep, ClipboardTry, DraftStart,
    LogMeter, LOG_ROTATE_BYTES,
};
use dshtui::driver::step::{
    step, Link, Step, WindowPlace, LOAD_THROUGH_PAGE_SIZE, SEARCH_DEBOUNCE_MS, SEARCH_TIMEOUT_MS,
};
use dshtui::driver::stream::{
    control_frame, follow_fault, follow_frame, link_fault, push_frame, FollowItem, PushStep,
};
use dshtui::driver::types::{
    AppEvent, Cmd, Fault, GoalMutation, GoalRef, GoalSnapshot, ImageTrouble, Note, OpName,
    OpOutcome, PageUse, PromptRequest, Refusal, Request, Trouble, WorkspaceOperation,
};
use dshtui::input::keymap::{Command, InputMode};
use dshtui::json::{parse, Json};
use dshtui::model::approval::ApprovalEvent;
use dshtui::model::mention::FileReferenceCandidate;
use dshtui::model::yank::YankBackend;
use dshtui::wire::{SessionId, SessionSeq};

fn sid(n: &str) -> SessionId {
    SessionId(n.into())
}

fn fault() -> Fault {
    Fault { code: "c".into(), message: "m".into(), remote: true, retryable: false }
}

fn link(connected: bool, active: Option<&str>) -> Link {
    Link {
        connected,
        reconnecting: false,
        page_size: 50,
        active: active.map(sid),
        window: None,
        goal_id: None,
        sent_revision: None,
        kitty: true,
    }
}

#[test]
fn pages_are_no_larger_than_configured() {
    let cmd = |n: usize| Cmd::RequestPage {
        session_id: sid("s"),
        generation: 3,
        through_seq: SessionSeq(9),
        before_seq: None,
        max_messages: n,
    };
    let wanted = |n: usize| match step(cmd(n), &link(true, None)) {
        Step::Ask(Request::Page { max_messages, page_use: PageUse::Window { generation: 3 }, .. }) => {
            max_messages
        }
        _ => unreachable!(),
    };
    assert_eq!(wanted(20), 20);
    assert_eq!(wanted(500), 50);
    let mut busy = link(true, None);
    busy.reconnecting = true;
    assert_eq!(step(cmd(20), &busy), Step::Idle);
}

#[test]
fn nothing_is_asked_without_a_connection() {
    let r = step(Cmd::FetchModelCatalog { generation: 4 }, &link(false, None));
    assert_eq!(
        r,
        Step::Tell(AppEvent::ModelCatalogLoadFailed {
            generation: 4,
            error: Trouble::Refused(Refusal::CatalogOffline),
        })
    );
    assert!(Refusal::CatalogOffline.is_transport());
    assert!(Refusal::CatalogOffline.text().contains("未连接"));
}

#[test]
fn commands_need_an_open_session() {
    assert_eq!(
        step(Cmd::ExecuteCommand { line: "/x".into() }, &link(true, None)),
        Step::Tell(AppEvent::CommandExecuteFailed {
            error: Trouble::Refused(Refusal::NoSessionForCommands),
        })
    );
    assert_eq!(
        step(Cmd::ExecuteCommand { line: "/x".into() }, &link(true, Some("s"))),
        Step::Ask(Request::Execute { agent_id: sid("s"), line: "/x".into() })
    );
}

#[test]
fn local_commands_need_no_connection() {
    assert_eq!(
        step(Cmd::CopyToClipboard { text: "t".into() }, &link(false, None)),
        Step::Ask(Request::Copy { text: "t".into() })
    );
    assert_eq!(
        step(Cmd::DebounceSearch { query: "q".into(), generation: 1 }, &link(false, None)),
        Step::Ask(Request::Wait { query: "q".into(), generation: 1, delay_ms: SEARCH_DEBOUNCE_MS })
    );
    assert_eq!(step(Cmd::Exit, &link(false, None)), Step::Exit);
    assert_eq!(step(Cmd::Reconnect, &link(false, None)), Step::Later(Cmd::Reconnect));
    assert_eq!(step(Cmd::RestoreTerminal, &link(true, None)), Step::Idle);
}

#[test]
fn searches_and_jumps_have_their_limits() {
    assert_eq!(
        step(Cmd::SearchSessions { query: "q".into(), generation: 2 }, &link(true, None)),
        Step::Ask(Request::Search {
            query: "q".into(),
            generation: 2,
            timeout_ms: SEARCH_TIMEOUT_MS,
        })
    );
    let mut l = link(true, Some("s"));
    l.window = Some(WindowPlace { cursor: Some(70), head: Some(SessionSeq(30)) });
    assert_eq!(
        step(Cmd::LoadThrough { seq: SessionSeq(5) }, &l),
        Step::Ask(Request::Page {
            session_id: sid("s"),
            through_seq: SessionSeq(70),
            before_seq: Some(SessionSeq(30)),
            max_messages: LOAD_THROUGH_PAGE_SIZE,
            page_use: PageUse::Jump,
        })
    );
}

#[test]
fn goals_are_changed_on_the_revision_last_seen() {
    let mut l = link(true, Some("s"));
    l.goal_id = Some("g".into());
    l.sent_revision = Some(6);
    assert_eq!(
        step(Cmd::GoalOp { request_id: "r".into(), op: GoalMutation::Pause }, &l),
        Step::Ask(Request::Goal {
            request_id: "r".into(),
            agent_id: sid("s"),
            op: GoalMutation::Pause,
            target: GoalRef { id: "g".into(), revision: 6 },
        })
    );
    let edit = GoalMutation::Edit { objective: "o".into() };
    assert!(matches!(
        step(Cmd::GoalOp { request_id: "r".into(), op: edit }, &l),
        Step::Tell(AppEvent::GoalOpFailed {
            error: Trouble::Refused(Refusal::EditNotWired),
            ..
        })
    ));
}

#[test]
fn answers_name_the_request_they_answer() {
    let prompt = || Request::Prompt {
        session_id: sid("s"),
        request: PromptRequest { request_id: "r1".into(), text: "hi".into() },
    };
    assert_eq!(
        settle(prompt(), Reply::Done),
        Answer::Tell(AppEvent::PromptAccepted { session_id: sid("s"), request_id: "r1".into() })
    );
    assert_eq!(
        settle(prompt(), Reply::Failed(fault())),
        Answer::Tell(AppEvent::PromptFailed {
            session_id: sid("s"),
            request_id: "r1".into(),
            error: fault(),
        })
    );
    let goal = Request::Goal {
        request_id: "r2".into(),
        agent_id: sid("s"),
        op: GoalMutation::Clear,
        target: GoalRef { id: String::new(), revision: 0 },
    };
    assert_eq!(
        settle(goal, Reply::Done),
        Answer::Tell(AppEvent::GoalOpDone {
            request_id: "r2".into(),
            updated: None,
            cleared: true,
        })
    );
    let pause = Request::Goal {
        request_id: "r3".into(),
        agent_id: sid("s"),
        op: GoalMutation::Pause,
        target: GoalRef { id: String::new(), revision: 0 },
    };
    assert_eq!(
        settle(pause, Reply::Goal(GoalSnapshot { id: "g".into(), revision: 2 })),
        Answer::Tell(AppEvent::GoalOpDone {
            request_id: "r3".into(),
            updated: Some(GoalSnapshot { id: "g".into(), revision: 2 }),
            cleared: false,
        })
    );
}

#[test]
fn workspace_changes_are_told_by_their_outcome() {
    let op = || WorkspaceOperation::NewWorkspace { path: "/p".into() };
    assert_eq!(
        settle(
            Request::Workspace { request_id: "r".into(), op: op() },
            Reply::WorkspaceCreated("w".into())
        ),
        Answer::Tell(AppEvent::WorkspaceOpDone {
            request_id: "r".into(),
            outcome: OpOutcome::WorkspaceCreated { workspace_id: "w".into() },
        })
    );
    assert_eq!(
        settle(Request::Workspace { request_id: "r".into(), op: op() }, Reply::Failed(fault())),
        Answer::Tell(AppEvent::WorkspaceOpFailed {
            request_id: "r".into(),
            op_name: OpName::NewWorkspace,
            error: Trouble::Failed(fault()),
        })
    );
    assert_eq!(op().name().text(), "new workspace");
    assert_eq!(new_workspace_id(&parse(r#"{"workspace": {"id": "w9"}}"#).unwrap()), "w9");
    assert_eq!(new_workspace_id(&Json::Null), "");
}

#[test]
fn local_work_leaves_a_note() {
    let save = || Request::SaveTheme { theme: "dark".into(), palette: Vec::new() };
    let done = settle(save(), Reply::Done);
    assert_eq!(done, Answer::Leave(Note::ThemeSaved("dark".into())));
    let note = Note::ThemeNotSaved("why".into());
    assert!(note.is_error() && note.text().contains("why"));
    assert!(!Note::ThemeSaved("dark".into()).is_error());
    assert_eq!(settle(save(), Reply::LocalFailed("why".into())), Answer::Leave(note));
    assert_eq!(settle(Request::CreateSession, Reply::Missing), Answer::Silent);
    assert_eq!(
        settle(Request::Copy { text: "x".into() }, Reply::Copied {
            backend: YankBackend::System,
            ok: true,
        }),
        Answer::Tell(AppEvent::CopyDone { backend: YankBackend::System, ok: true })
    );
}

#[test]
fn image_troubles_can_be_told_apart() {
    assert!(!ImageTrouble::Fetch(fault()).retryable());
    assert_eq!(ImageTrouble::Fetch(fault()).code(), "c");
    let decode = ImageTrouble::Decode { code: "d".into(), message: "e".into() };
    assert_eq!(decode.code(), "d");
    assert!(decode.message().contains('e'));
    assert_ne!(ImageTrouble::NotReady.code(), ImageTrouble::WriteFile("x".into()).code());
    assert!(ImageTrouble::ReadFile("gone".into()).message().contains("gone"));
}

#[test]
fn the_token_is_entered_without_being_shown() {
    let mut g = Guidance::new(None);
    assert!(matches!(g.take(&Command::RetryProbe), GuidanceStep::Nothing));
    assert!(matches!(g.take(&Command::InsertMode), GuidanceStep::Show(_)));
    let shown = g.take(&Command::PickerInput("se cret".into()));
    match shown {
        GuidanceStep::Show(t) => assert!(!t.contains("cret")),
        _ => unreachable!(),
    }
    g.take(&Command::PickerInput(" x".into()));
    g.take(&Command::PickerBackspace);
    assert!(!g.hint_text().contains("cret"));
    assert_eq!(g.take(&Command::SubmitInput), GuidanceStep::Connect("se cret".into()));
    assert_eq!(g.take(&Command::RetryProbe), GuidanceStep::Connect("se cret".into()));
    assert_eq!(g.take(&Command::Quit), GuidanceStep::Exit);
}

#[test]
fn an_empty_token_connects_nowhere() {
    let mut g = Guidance::new(None);
    g.take(&Command::InsertMode);
    g.take(&Command::PickerInput("  ".into()));
    assert!(matches!(g.take(&Command::SubmitInput), GuidanceStep::Show(_)));
    assert_eq!(g.token, None);
    g.take(&Command::InsertMode);
    assert!(matches!(g.take(&Command::ClosePicker), GuidanceStep::Show(_)));
    assert!(!g.entering);
}

#[test]
fn late_frames_of_an_older_stream_are_dropped() {
    assert!(follow_fault(&sid("s"), 2, 1, fault()).is_none());
    assert_eq!(
        follow_fault(&sid("s"), 2, 2, fault()),
        Some(AppEvent::FollowError { session_id: sid("s"), error: fault() })
    );
    assert!(link_fault(2, 1, fault()).is_none());
    assert_eq!(link_fault(2, 2, fault()), Some(AppEvent::Disconnected("m".into())));
    let event = || ApprovalEvent {
        client_id: "c".into(),
        event_id: "e".into(),
        raw: Json::Null,
    };
    assert_eq!(push_frame(1, 2, Some(event())), PushStep::Stop);
    assert_eq!(push_frame(2, 2, None), PushStep::Skip);
    assert_eq!(
        push_frame(2, 2, Some(event())),
        PushStep::Tell(AppEvent::ApprovalRequest { event: event() })
    );
}

#[test]
fn frames_become_events_of_their_session() {
    let snapshot = FollowItem::Snapshot {
        cursor: 4,
        records: Vec::new(),
        has_more: true,
        projections: Json::Null,
    };
    assert!(matches!(
        follow_frame(&sid("s"), Some(snapshot)),
        Some(AppEvent::FollowSnapshot { cursor: 4, has_more: true, .. })
    ));
    assert_eq!(follow_frame(&sid("s"), None), None);
    assert_eq!(
        control_frame(&sid("s"), Some(Json::Bool(true))),
        Some(AppEvent::ControlItem { session_id: sid("s"), item: Json::Bool(true) })
    );
    assert_eq!(control_frame(&sid("s"), None), None);
}

#[test]
fn modes_have_their_keys() {
    let plain = Overlays::default();
    assert_eq!(input_mode(Mode::Normal, plain), InputMode::Normal);
    let help = Overlays { help: true, ..plain };
    assert_eq!(input_mode(Mode::Normal, help), InputMode::Help);
    let list = Overlays { approval_list: true, ..plain };
    assert_eq!(input_mode(Mode::Approval, list), InputMode::ApprovalList);
    assert_eq!(input_mode(Mode::Goal, plain), InputMode::Goal);
    assert_eq!(input_mode(Mode::Jobs, plain), InputMode::Jobs);
}

#[test]
fn the_clipboard_falls_back_twice() {
    assert_eq!(clipboard_start(), ClipboardTry::System);
    assert_eq!(
        clipboard_next(ClipboardTry::System, false),
        ClipboardStep::Try(ClipboardTry::Osc52)
    );
    assert_eq!(
        clipboard_next(ClipboardTry::Osc52, false),
        ClipboardStep::Try(ClipboardTry::Tmux)
    );
    assert_eq!(
        clipboard_next(ClipboardTry::Tmux, false),
        ClipboardStep::Done { backend: YankBackend::Unavailable, ok: false }
    );
    assert_eq!(
        clipboard_next(ClipboardTry::Osc52, true),
        ClipboardStep::Done { backend: YankBackend::Osc52, ok: true }
    );
}

#[test]
fn the_log_is_restarted_before_it_grows_too_large() {
    let mut m = LogMeter { written: 0 };
    let mut restarts = 0;
    for _ in 0..6 * 1024 * 1024 / 1000 {
        if m.is_full_for(1000) {
            m.restart();
            restarts += 1;
        }
        m.add(1000);
        assert!(m.written <= LOG_ROTATE_BYTES);
    }
    assert_eq!(restarts, 1);
}

#[test]
fn the_start_is_decided_by_the_settings() {
    assert_eq!(draft_start(false, true, true), DraftStart::Leave);
    assert_eq!(draft_start(true, true, true), DraftStart::Clear);
    assert_eq!(draft_start(true, false, true), DraftStart::Load);
    assert_eq!(draft_start(true, false, false), DraftStart::Leave);
    assert_eq!(server_warning("http://127.0.0.1:3080"), None);
    assert!(server_warning("http://10.0.0.1").unwrap().contains("http://10.0.0.1"));
    assert_eq!(monitor_warning("http://localhost:1"), None);
    assert!(monitor_warning("http://10.0.0.1").is_some());
    assert_eq!(default_log_path(Some("/h"), "/t"), "/h/.local/state/dshtui/dshtui.log");
    assert_eq!(default_log_path(None, "/t"), "/t/.local/state/dshtui/dshtui.log");
    assert!(editor_not_started("vi", "gone").contains("vi"));
    assert!(editor_failed("vi", "exit 1").contains("exit 1"));
}

#[test]
fn without_a_goal_its_id_is_empty() {
    let l = link(true, Some("s"));
    assert_eq!(
        step(Cmd::GoalOp { request_id: "r".into(), op: GoalMutation::Clear }, &l),
        Step::Ask(Request::Goal {
            request_id: "r".into(),
            agent_id: sid("s"),
            op: GoalMutation::Clear,
            target: GoalRef { id: String::new(), revision: 0 },
        })
    );
}

#[test]
fn a_source_of_candidates_that_fails_has_none() {
    let ask = || Request::Mentions { generation: 4, agent_id: "a".into(), query: "q".into() };
    let file = || FileReferenceCandidate { path: "src/lib.rs".into(), kind: "file".into() };
    assert_eq!(
        settle(ask(), Reply::Mentions { files: Ok(vec![file()]), sessions: Err(fault()) }),
        Answer::Tell(AppEvent::MentionCandidates {
            generation: 4,
            files: vec![file()],
            sessions: Vec::new(),
        })
    );
    assert_eq!(
        settle(ask(), Reply::Mentions { files: Err(fault()), sessions: Ok(Vec::new()) }),
        Answer::Tell(AppEvent::MentionCandidates {
            generation: 4,
            files: Vec::new(),
            sessions: Vec::new(),
        })
    );
    assert!(matches!(
        settle(ask(), Reply::Mentions { files: Err(fault()), sessions: Err(fault()) }),
        Answer::Tell(AppEvent::MentionCandidatesFailed { generation: 4, .. })
    ));
}

#[test]
fn attempts_to_connect_wait_longer_until_one_succeeds() {
    let mut state = Retry::new();
    assert_eq!((state.delay_ms, state.generation), (500, 0));
    for wait in [1000, 2000, 4000, 8000, 10_000, 10_000] {
        let (after, outcome) = reconnect_step(state, Some("refused"));
        assert_eq!(
            outcome,
            Attempted::Failed { event: AppEvent::Disconnected("重连失败: refused".into()) }
        );
        assert_eq!((after.delay_ms, after.generation), (wait, 0));
        state = after;
    }
    let (after, outcome) = reconnect_step(state, None);
    assert_eq!(outcome, Attempted::Connected { then: Cmd::OpenWorkspaceFollow });
    assert_eq!((after.delay_ms, after.generation), (500, 1));
    assert_eq!(link_fault(after.generation, state.generation, fault()), None);
}
