//! The roster of agents.

use dshtui::model::agent_roster::{
    esc, fmt_elapsed, short_session, stage_at, stage_key, stage_meta, stages, AgentKind,
    AgentRosterEntry, AgentStatus, RosterSnapshot, WireAgent, STAGE_COUNT,
};
use dshtui::wire::SessionId;

fn wire(sid: &str, task_status: &str, phase: &str, status: &str) -> WireAgent {
    WireAgent {
        session_id: sid.into(),
        phase: phase.into(),
        task: "任务A\n第二行".into(),
        project: "proj".into(),
        task_id: "TASK-1".into(),
        status: status.into(),
        task_status: task_status.into(),
        elapsed: 3661,
        last_event_at: 1000,
        seq: 5,
        label: "".into(),
        kind: "subagent".into(),
        parent_session_id: "".into(),
        delegation_depth: 1,
        provider: "p".into(),
        model: "m".into(),
    }
}

#[test]
fn from_wire_maps_all_fields() {
    let e = AgentRosterEntry::from_wire(&wire("session-x", "implementing", "x", "working"));
    assert_eq!(e.session_id.0, "session-x");
    assert_eq!(e.status, AgentStatus::Working);
    assert_eq!(e.kind, AgentKind::Subagent);
    assert_eq!(e.elapsed_sec, 3661);
    assert_eq!(e.delegation_depth, 1);
    assert_eq!(e.parent_session_id, None);
    assert_eq!(e.task_first_line(), "任务A");
}

#[test]
fn negative_elapsed_clamped_to_zero() {
    let mut w = wire("s", "", "", "idle");
    w.elapsed = -5;
    let e = AgentRosterEntry::from_wire(&w);
    assert_eq!(e.elapsed_sec, 0);
}

#[test]
fn display_name_precedence_label_task_short_session() {
    let mut w = wire("session-abc123def", "", "", "idle");
    w.label = "子代理A".into();
    assert_eq!(AgentRosterEntry::from_wire(&w).display_name(), "子代理A");

    w.label = "".into();
    assert_eq!(AgentRosterEntry::from_wire(&w).display_name(), "任务A");

    w.task = "".into();
    assert_eq!(AgentRosterEntry::from_wire(&w).display_name(), "abc123");
}

#[test]
fn stage_key_full_mapping_matrix() {
    assert_eq!(
        stage_key("implementing", "x", AgentStatus::Working),
        "implementing",
    );
    assert_eq!(stage_key("round1", "x", AgentStatus::Working), "planning");
    assert_eq!(
        stage_key("round2", "x", AgentStatus::Working),
        "implementing",
    );
    assert_eq!(
        stage_key("plan_review", "x", AgentStatus::Working),
        "plan-review",
    );
    assert_eq!(
        stage_key("unknown-stage", "audit", AgentStatus::Working),
        "audit",
    );
    assert_eq!(
        stage_key("", "needs-grilling", AgentStatus::Working),
        "needs-grilling",
    );
    assert_eq!(stage_key("", "", AgentStatus::Idle), "idle");
    assert_eq!(stage_key("", "", AgentStatus::Working), "working");
    assert_eq!(stage_key("", "unknown", AgentStatus::Working), "working");
    assert_eq!(stage_key("", "", AgentStatus::Working), "working");
    assert_eq!(stages().len(), 21);
    for s in stages() {
        assert_eq!(stage_key(s.key, "", AgentStatus::Working), s.key);
    }
}

#[test]
fn roster_merge_is_idempotent_and_removes_gone_agents() {
    let mut snap = RosterSnapshot::new();
    let (add, upd, rem) = snap.merge(
        &[
            wire("s1", "implementing", "", "working"),
            wire("s2", "", "", "idle"),
        ],
        2,
    );
    assert_eq!((add, upd, rem), (2, 0, 0));
    assert_eq!(snap.len(), 2);
    assert_eq!(snap.finished, 2);
    let order_before = snap.ordered().len();

    let (add, upd, rem) = snap.merge(
        &[
            wire("s1", "implementing", "", "working"),
            wire("s2", "", "", "idle"),
        ],
        2,
    );
    assert_eq!((add, upd, rem), (0, 0, 0));
    assert_eq!(snap.ordered().len(), order_before);

    let mut w1 = wire("s1", "review", "", "working");
    w1.seq = 9;
    let (add, upd, rem) = snap.merge(&[w1, wire("s2", "", "", "idle")], 3);
    assert_eq!((add, upd, rem), (0, 1, 0));
    assert_eq!(snap.ordered()[0].session_id.0, "s1");
    assert_eq!(snap.ordered()[0].seq, 9);
    assert_eq!(snap.finished, 3);

    let (add, _upd, rem) = snap.merge(&[wire("s1", "review", "", "working")], 0);
    assert_eq!((add, rem), (0, 1));
    assert_eq!(snap.len(), 1);
    let (add, _upd, _rem) = snap.merge(
        &[
            wire("s1", "review", "", "working"),
            wire("s2", "", "", "idle"),
        ],
        0,
    );
    assert_eq!(add, 1);
    assert_eq!(snap.len(), 2);
}

#[test]
fn merge_skips_empty_session_ids() {
    let mut snap = RosterSnapshot::new();
    let mut w = wire("", "", "", "idle");
    w.session_id = "".into();
    let (add, _, _) = snap.merge(&[w], 0);
    assert_eq!(add, 0);
    assert!(snap.is_empty());
}

#[test]
fn fmt_elapsed_formats() {
    assert_eq!(fmt_elapsed(0), "0s");
    assert_eq!(fmt_elapsed(59), "59s");
    assert_eq!(fmt_elapsed(61), "1m1s");
    assert_eq!(fmt_elapsed(3661), "1h1m");
}

#[test]
fn short_session_and_esc() {
    assert_eq!(short_session(""), "agent");
    assert_eq!(short_session("session-abcdefgh"), "abcdef");
    assert_eq!(short_session("xyz123456789"), "xyz123");
    assert_eq!(esc("<a>&\"'"), "&lt;a&gt;&amp;&quot;&#39;");
    assert_eq!(esc("普通文本"), "普通文本");
}

#[test]
fn stage_meta_falls_back_to_working() {
    assert_eq!(stage_meta("nope").key, "working");
    assert_eq!(stage_meta("implementing").building, "开发工厂");
}

#[test]
fn words_of_the_wire_are_read() {
    assert_eq!(AgentStatus::from_wire("working").as_str(), "working");
    assert_eq!(AgentStatus::from_wire("anything").as_str(), "working");
    assert_eq!(AgentStatus::from_wire("idle").as_str(), "idle");
    assert_eq!(AgentKind::from_wire("subagent"), AgentKind::Subagent);
    assert_eq!(AgentKind::from_wire("task"), AgentKind::Task);
    assert_eq!(AgentKind::from_wire("?"), AgentKind::Session);
}

#[test]
fn merging_twice_is_merging_once() {
    let poll = [wire("a", "audit", "", "working"), wire("b", "", "", "idle")];
    let mut snap = RosterSnapshot::new();
    snap.merge(&poll, 1);
    assert_eq!(snap.merge(&poll, 1), (0, 0, 0));
    assert!(snap.get(&SessionId("a".into())).is_some());
    assert!(snap.get(&SessionId("c".into())).is_none());
    assert_eq!(stage_at(STAGE_COUNT - 1).key, stages()[STAGE_COUNT - 1].key);
}

#[test]
fn a_lone_word_says_the_stage() {
    for word in ["audit", "round2", " merge\t", "nowhere", ""] {
        for status in [AgentStatus::Idle, AgentStatus::Working] {
            assert_eq!(stage_key("", word, status), stage_key(word, "", status));
        }
    }
    for s in stages() {
        assert_eq!(stage_key(s.key, "audit", AgentStatus::Idle), s.key);
        assert_eq!(stage_key(&format!(" {}\u{3000}", s.key), "", AgentStatus::Idle), s.key);
    }
}

#[test]
fn reports_without_a_session_do_not_disturb_a_poll() {
    let poll = vec![
        wire("", "audit", "", "working"),
        wire("s-1", "merge", "", "working"),
        wire("", "", "", "idle"),
    ];
    let mut roster = RosterSnapshot::new();
    assert_eq!(roster.merge(&poll, 0), (1, 0, 0));
    let once = roster.entries.len();
    assert_eq!(roster.merge(&poll, 0), (0, 0, 0));
    assert_eq!(once, 1);
    assert_eq!(roster.entries.len(), once);
}
