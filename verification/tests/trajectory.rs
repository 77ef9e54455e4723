//! The trajectory of a session, row by row.

use dshtui::json::{parse, Json};
use dshtui::model::trajectory::{
    args_to_show, detail_for, format_args_json, pretty_or, row_from_event, FoldState, GroupId,
    RowId, TrajEffect, TrajIncoming, TrajKind, TrajectoryRow, TrajectoryStore, TrajectoryWindow,
};
use dshtui::wire::{SessionHistoryRecord, SessionSeq, SessionWireEvent};

fn json(text: &str) -> Json {
    parse(text).unwrap()
}

fn ev(seq: u64, kind: &str, rid: Option<&str>, data: &str) -> SessionWireEvent {
    SessionWireEvent {
        event_type: kind.into(),
        seq: Some(SessionSeq::new(seq)),
        time: Some(1000 + seq as i64),
        request_id: rid.map(String::from),
        ignorable: None,
        source_event_seqs: None,
        surface_op: None,
        data: Some(json(data)),
    }
}

fn rec(seq: u64, kind: &str, data: &str) -> SessionHistoryRecord {
    SessionHistoryRecord::Event { event: ev(seq, kind, None, data) }
}

fn turn() -> Vec<SessionHistoryRecord> {
    vec![
        rec(1, "turn/start", r#"{"turn": 1}"#),
        rec(2, "user/message", r#"{"content": "hello"}"#),
        rec(3, "step/start", r#"{"turn": 1, "step": 1}"#),
        rec(4, "assistant/message", r#"{"turn": 1, "step": 1}"#),
        rec(
            5,
            "tool/call",
            r#"{"turn": 1, "step": 1, "callId": "c1", "name": "bash", "args": {"command": "ls"}}"#,
        ),
        rec(6, "tool/result", r#"{"turn": 1, "step": 1, "callId": "c1", "content": "ok"}"#),
        rec(7, "turn/end", r#"{"turn": 1}"#),
    ]
}

fn started(cap: usize, records: Vec<SessionHistoryRecord>) -> TrajectoryWindow {
    let mut w = TrajectoryWindow::new(cap);
    assert_eq!(
        w.apply(TrajIncoming::Snapshot {
            cursor: None,
            records,
            has_more: true,
            projections: None,
        }),
        TrajEffect::Rebuilt
    );
    w
}

fn seqs(w: &TrajectoryWindow) -> Vec<u64> {
    w.raw_rows().iter().map(|r| r.seq().get()).collect()
}

#[test]
fn rows_say_what_happened() {
    let w = started(100, turn());
    let kinds: Vec<TrajKind> = w.raw_rows().iter().map(|r| r.kind()).collect();
    assert_eq!(
        kinds,
        vec![
            TrajKind::TurnStart,
            TrajKind::UserMessage,
            TrajKind::StepStart,
            TrajKind::AssistantMessage,
            TrajKind::ToolCall,
            TrajKind::ToolResult,
            TrajKind::TurnEnd,
        ]
    );
    let call = &w.raw_rows()[4];
    assert_eq!(call.name(), Some("bash"));
    assert_eq!(call.call_id(), Some("c1"));
    assert_eq!((call.turn(), call.step()), (Some(1), Some(1)));
    assert_eq!(w.raw_rows()[1].summary(), "hello");
    assert_eq!(w.head_seq(), Some(SessionSeq::new(1)));
    assert_eq!(w.tail_seq(), Some(SessionSeq::new(7)));
}

#[test]
fn unknown_events_keep_their_payload() {
    let row = row_from_event(&ev(9, "future/thing", None, r#"{"k": 1}"#), SessionSeq::new(9), 4);
    assert_eq!(row.kind(), TrajKind::Unknown);
    assert_eq!(row.event_type(), "future/thing");
    assert_eq!(row.raw().and_then(|r| r.u64_at("k")), Some(1));
    assert_eq!(row.id(), RowId(4));
}

#[test]
fn replays_change_nothing() {
    let mut w = started(100, turn());
    let before = seqs(&w);
    assert_eq!(
        w.apply(TrajIncoming::FollowEvent(ev(4, "assistant/message", None, "{}"))),
        TrajEffect::Noop
    );
    assert_eq!(
        w.apply(TrajIncoming::FollowEvent(ev(8, "user/message", Some("r"), "{}"))),
        TrajEffect::TailAppended { appended: 1 }
    );
    assert_eq!(
        w.apply(TrajIncoming::FollowEvent(ev(9, "user/message", Some("r"), "{}"))),
        TrajEffect::Noop
    );
    assert_eq!(seqs(&w).len(), before.len() + 1);
}

#[test]
fn older_pages_go_in_front() {
    let mut w = started(100, vec![rec(10, "user/message", "{}")]);
    assert_eq!(
        w.apply(TrajIncoming::Page {
            records: vec![rec(5, "user/message", "{}"), rec(6, "user/message", "{}")],
            has_more: Some(false),
        }),
        TrajEffect::HeadPrepend { inserted: 2, anchor_shift: 2 }
    );
    assert_eq!(seqs(&w), vec![5, 6, 10]);
    assert!(!w.head_has_more());
}

#[test]
fn rows_that_left_the_window_stay_out() {
    let mut w = started(3, (1..=3).map(|s| rec(s, "user/message", "{}")).collect());
    for s in 4..=6 {
        w.apply(TrajIncoming::FollowEvent(ev(s, "user/message", None, "{}")));
    }
    assert_eq!(seqs(&w), vec![4, 5, 6]);
    assert_eq!(
        w.apply(TrajIncoming::Page {
            records: vec![rec(2, "user/message", "{}")],
            has_more: None,
        }),
        TrajEffect::Noop
    );
    assert_eq!(seqs(&w), vec![4, 5, 6]);
}

#[test]
fn identities_are_never_given_twice() {
    let mut w = started(100, turn());
    let first: Vec<RowId> = w.raw_rows().iter().map(|r| r.id()).collect();
    w.apply(TrajIncoming::Snapshot {
        cursor: None,
        records: turn(),
        has_more: true,
        projections: None,
    });
    assert!(w.raw_rows().iter().all(|r| !first.contains(&r.id())));
}

#[test]
fn folding_hides_what_belongs_to_the_group() {
    let w = started(100, turn());
    let mut fold = FoldState::new();
    let all = w.view(&fold).len();
    assert_eq!(all, w.len());
    let head = w.raw_rows()[0].id();
    assert_eq!(w.group_of(head), Some(GroupId::Turn(1)));
    assert!(w.toggle_group(&mut fold, head));
    assert!(fold.is_collapsed(GroupId::Turn(1)));
    let folded = w.view(&fold);
    assert!(folded.len() < all);
    assert_eq!(folded[0].id(), head);
    assert!(!w.toggle_group(&mut fold, head));
    assert_eq!(w.view(&fold).len(), all);
}

#[test]
fn steps_fold_their_tools_only() {
    let w = started(100, turn());
    let mut fold = FoldState::new();
    fold.toggle(GroupId::Assistant { turn: 1, step: 1 });
    let kinds: Vec<TrajKind> = w.view(&fold).iter().map(|r| r.kind()).collect();
    assert!(!kinds.contains(&TrajKind::ToolCall));
    assert!(!kinds.contains(&TrajKind::ToolResult));
    assert!(kinds.contains(&TrajKind::AssistantMessage));
}

#[test]
fn details_join_a_call_and_its_result() {
    let w = started(100, turn());
    let call: &TrajectoryRow = &w.raw_rows()[4];
    let d = detail_for(call, &w).unwrap();
    assert_eq!(d.source_kind, TrajKind::ToolCall);
    assert_eq!(d.source_seq, SessionSeq::new(5));
    assert_eq!(d.args_text.as_deref(), Some("{\n  \"command\": \"ls\"\n}"));
    assert!(d.yank_text().is_some());
}

#[test]
fn arguments_are_shown_as_json_where_they_are() {
    assert_eq!(format_args_json(&json(r#"{"a": 1}"#)), "{\n  \"a\": 1\n}");
    assert_eq!(format_args_json(&Json::Str("{\"a\":1}".into())), "{\n  \"a\": 1\n}");
    assert_eq!(format_args_json(&Json::Str("plain".into())), "plain");
    assert_eq!(args_to_show(&Json::Str("plain".into()), None), None);
    assert_eq!(pretty_or(None, "x".into()), "x");
    assert_eq!(pretty_or(Some("y".into()), "x".into()), "y");
}

#[test]
fn the_longest_unused_trajectory_goes_first() {
    let mut store = TrajectoryStore::new(2);
    store.touch("a", 10);
    store.touch("b", 10);
    store.touch("a", 10);
    store.touch("c", 10);
    assert!(store.get("a").is_some());
    assert!(store.get("b").is_none());
    assert!(store.get_mut("c").is_some());
}
