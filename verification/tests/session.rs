//! The window on a session's transcript.

use dshtui::json::{parse, Json};
use dshtui::model::block::Block;
use dshtui::model::session::{
    ApplyEffect, Incoming, PendingEchoStatus, SessionStore, TranscriptWindow,
};
use dshtui::wire::{
    ChunkData, ChunkRow, SessionHistoryRecord, SessionLogOffset, SessionRequestId, SessionSeq,
    SessionWireEvent,
};

fn json(text: &str) -> Json {
    parse(text).unwrap()
}

fn ev(seq: u64, kind: &str, rid: Option<&str>, data: Option<Json>) -> SessionWireEvent {
    SessionWireEvent {
        event_type: kind.into(),
        seq: Some(SessionSeq::new(seq)),
        time: Some(1000 + seq as i64),
        request_id: rid.map(String::from),
        ignorable: None,
        source_event_seqs: None,
        surface_op: None,
        data,
    }
}

fn event_rec(seq: u64, kind: &str, rid: Option<&str>) -> SessionHistoryRecord {
    SessionHistoryRecord::Event {
        event: ev(seq, kind, rid, None),
    }
}

#[test]
fn snapshot_rebuilds_and_sorts() {
    let mut w = TranscriptWindow::new(200);
    let eff = w.apply(Incoming::Snapshot {
        cursor: Some(SessionLogOffset::new(5)),
        records: vec![
            event_rec(10, "user/message", None),
            event_rec(5, "user/message", None),
            event_rec(7, "user/message", None),
        ],
        has_more: true,
        projections: Some(json(r#"{"values": {"title": "t"}}"#)),
    });
    assert_eq!(eff, ApplyEffect::Rebuilt);
    assert_eq!(w.len(), 3);
    let seqs: Vec<u64> = w.blocks().iter().map(|b| b.seq().get()).collect();
    assert_eq!(seqs, vec![5, 7, 10]);
    assert_eq!(w.cursor(), Some(SessionLogOffset::new(5)));
    assert!(w.head_has_more());
    assert_eq!(w.head_seq(), Some(SessionSeq::new(5)));
    assert_eq!(w.tail_seq(), Some(SessionSeq::new(10)));
}

#[test]
fn follow_append_and_seq_dedup() {
    let mut w = TranscriptWindow::new(200);
    w.apply(Incoming::Snapshot {
        cursor: None,
        records: vec![event_rec(1, "user/message", None)],
        has_more: false,
        projections: None,
    });
    assert_eq!(
        w.apply(Incoming::FollowEvent(ev(
            2,
            "assistant/message",
            None,
            None
        ))),
        ApplyEffect::TailAppended {
            appended: 1,
            anchor_stable: true
        },
    );
    assert_eq!(
        w.apply(Incoming::FollowEvent(ev(
            2,
            "assistant/message",
            None,
            None
        ))),
        ApplyEffect::Noop,
    );
    assert_eq!(w.len(), 2);
}

#[test]
fn request_id_idempotent_across_seqs() {
    let mut w = TranscriptWindow::new(200);
    w.apply(Incoming::Snapshot {
        cursor: None,
        records: vec![event_rec(1, "user/message", None)],
        has_more: true,
        projections: None,
    });
    w.apply(Incoming::FollowEvent(ev(
        2,
        "assistant/message",
        Some("r1"),
        None,
    )));
    assert_eq!(
        w.apply(Incoming::FollowEvent(ev(
            3,
            "assistant/message",
            Some("r1"),
            None
        ))),
        ApplyEffect::Noop,
    );
    assert_eq!(
        w.apply(Incoming::FollowEvent(ev(
            2,
            "assistant/message",
            Some("r1"),
            None
        ))),
        ApplyEffect::Noop,
    );
    assert_eq!(w.len(), 2);
    assert_eq!(
        w.apply(Incoming::FollowEvent(ev(
            4,
            "assistant/message",
            Some("r2"),
            None
        ))),
        ApplyEffect::TailAppended {
            appended: 1,
            anchor_stable: true
        },
    );
    assert_eq!(w.tail_seq(), Some(SessionSeq::new(4)));
}

#[test]
fn page_prepend_overlap_dedup_and_order() {
    let mut w = TranscriptWindow::new(200);
    w.apply(Incoming::Snapshot {
        cursor: Some(SessionLogOffset::new(6)),
        records: vec![
            event_rec(6, "user/message", None),
            event_rec(7, "user/message", None),
        ],
        has_more: true,
        projections: None,
    });
    let eff = w.apply(Incoming::Page {
        records: vec![
            event_rec(4, "user/message", None),
            event_rec(5, "user/message", None),
            event_rec(6, "user/message", None),
        ],
        has_more: Some(false),
    });
    assert_eq!(
        eff,
        ApplyEffect::HeadPrepend {
            inserted: 2,
            anchor_shift: 2
        },
    );
    assert!(!w.head_has_more());
    let seqs: Vec<u64> = w.blocks().iter().map(|b| b.seq().get()).collect();
    assert_eq!(seqs, vec![4, 5, 6, 7]);
    assert_eq!(
        w.apply(Incoming::Page {
            records: vec![event_rec(4, "user/message", None)],
            has_more: None,
        }),
        ApplyEffect::Noop,
    );
}

#[test]
fn out_of_order_event_inserted_sorted() {
    let mut w = TranscriptWindow::new(200);
    w.apply(Incoming::Snapshot {
        cursor: None,
        records: vec![
            event_rec(10, "user/message", None),
            event_rec(20, "user/message", None),
        ],
        has_more: true,
        projections: None,
    });
    w.apply(Incoming::FollowEvent(ev(
        30,
        "assistant/message",
        None,
        None,
    )));
    assert_eq!(
        w.apply(Incoming::FollowEvent(ev(15, "user/message", None, None))),
        ApplyEffect::TailAppended {
            appended: 1,
            anchor_stable: true
        },
    );
    let seqs: Vec<u64> = w.blocks().iter().map(|b| b.seq().get()).collect();
    assert_eq!(seqs, vec![10, 15, 20, 30]);
}

#[test]
fn capacity_eviction_keeps_latest_and_anchor() {
    let mut w = TranscriptWindow::new(10);
    let records: Vec<SessionHistoryRecord> = (1..=5)
        .map(|s| event_rec(s, "user/message", None))
        .collect();
    w.apply(Incoming::Snapshot {
        cursor: None,
        records,
        has_more: true,
        projections: None,
    });
    for s in 6..=10 {
        assert_eq!(
            w.apply(Incoming::FollowEvent(ev(
                s,
                "assistant/message",
                None,
                None
            ))),
            ApplyEffect::TailAppended {
                appended: 1,
                anchor_stable: true
            },
        );
    }
    for s in 11..=20 {
        assert_eq!(
            w.apply(Incoming::FollowEvent(ev(
                s,
                "assistant/message",
                None,
                None
            ))),
            ApplyEffect::TailAppended {
                appended: 1,
                anchor_stable: false
            },
        );
    }
    assert_eq!(w.len(), 10);
    let seqs: Vec<u64> = w.blocks().iter().map(|b| b.seq().get()).collect();
    assert_eq!(seqs, (11..=20).collect::<Vec<_>>());
    assert_eq!(w.head_seq(), Some(SessionSeq::new(11)));
    assert_eq!(
        w.apply(Incoming::Page {
            records: vec![event_rec(5, "user/message", None)],
            has_more: None
        }),
        ApplyEffect::Noop,
    );
}

#[test]
fn chunks_attach_to_last_assistant() {
    let mut w = TranscriptWindow::new(200);
    w.apply(Incoming::Snapshot {
        cursor: None,
        records: vec![
            event_rec(1, "user/message", None),
            event_rec(2, "assistant/message", None),
        ],
        has_more: true,
        projections: None,
    });
    let row = ChunkRow::TextChunks(ChunkData {
        texts: vec!["hello".into()],
        ..Default::default()
    });
    assert_eq!(
        w.apply(Incoming::Chunks(row.clone())),
        ApplyEffect::TailAppended {
            appended: 0,
            anchor_stable: true
        },
    );
    let last = w.blocks().last().cloned().unwrap();
    match last {
        Block::AssistantMessage { chunks, .. } => assert_eq!(chunks.rows, vec![row]),
        _ => unreachable!(),
    }
}

#[test]
fn unknown_event_preserves_raw() {
    let mut w = TranscriptWindow::new(200);
    w.apply(Incoming::Snapshot {
        cursor: None,
        records: vec![SessionHistoryRecord::Event {
            event: ev(
                9,
                "future/mystery",
                None,
                Some(json(r#"{"k": "v"}"#)),
            ),
        }],
        has_more: true,
        projections: None,
    });
    let first = w.blocks().first().cloned().unwrap();
    match first {
        Block::Unknown {
            seq,
            event_type,
            raw,
        } => {
            assert_eq!(seq, SessionSeq::new(9));
            assert_eq!(event_type, "future/mystery");
            assert_eq!(raw.str_at("k"), Some("v"));
        }
        _ => unreachable!(),
    }
}

#[test]
fn rebuild_replaces_window_without_residue() {
    let mut w = TranscriptWindow::new(200);
    w.apply(Incoming::Snapshot {
        cursor: None,
        records: vec![
            event_rec(1, "user/message", None),
            event_rec(2, "user/message", None),
        ],
        has_more: true,
        projections: None,
    });
    w.apply(Incoming::FollowEvent(ev(
        3,
        "assistant/message",
        None,
        None,
    )));
    w.apply(Incoming::Snapshot {
        cursor: None,
        records: vec![event_rec(7, "user/message", None)],
        has_more: true,
        projections: None,
    });
    let seqs: Vec<u64> = w.blocks().iter().map(|b| b.seq().get()).collect();
    assert_eq!(seqs, vec![7]);
    assert_eq!(
        w.apply(Incoming::FollowEvent(ev(
            2,
            "assistant/message",
            None,
            None
        ))),
        ApplyEffect::TailAppended {
            appended: 1,
            anchor_stable: false
        },
    );
    assert_eq!(w.head_seq(), Some(SessionSeq::new(2)));
}

#[test]
fn turn_outline_parsed_from_projections() {
    let mut w = TranscriptWindow::new(200);
    w.apply(Incoming::Snapshot {
        cursor: None,
        records: vec![],
        has_more: true,
        projections: Some(json(r#"{"turnOutline": [{"turn": 1, "seq": 3, "prompt": "p1", "response": "r1"},{"turn": 2, "seq": 6, "prompt": "p2", "response": "r2"}]}"#)),
    });
    assert_eq!(w.turn_outline().len(), 2);
    assert_eq!(w.turn_outline()[1].seq, Some(SessionSeq::new(6)));
    assert_eq!(w.turn_outline()[1].response.as_deref(), Some("r2"));
}

#[test]
fn event_without_seq_logged_and_skipped() {
    let mut w = TranscriptWindow::new(200);
    w.apply(Incoming::Snapshot {
        cursor: None,
        records: vec![],
        has_more: true,
        projections: None,
    });
    let mut e = ev(0, "user/message", None, None);
    e.seq = None;
    assert_eq!(w.apply(Incoming::FollowEvent(e)), ApplyEffect::Noop);
    assert!(w.is_empty());
}

#[test]
fn session_store_lru_cap() {
    let mut store = SessionStore::new(3);
    store.touch("a", 200).apply(Incoming::Snapshot {
        cursor: None,
        records: vec![event_rec(1, "user/message", None)],
        has_more: true,
        projections: None,
    });
    store.touch("b", 200);
    store.touch("c", 200);
    store.touch("d", 200);
    assert!(store.get("a").is_none());
    assert!(store.get("b").is_some());
    store.touch("b", 200);
    store.touch("e", 200);
    assert!(store.get("c").is_none());
    assert!(store.get("b").is_some());
}


fn pending_texts(w: &TranscriptWindow) -> Vec<String> {
    w.pending().iter().map(|e| e.text.clone()).collect()
}

#[test]
fn echo_visible_and_reconciled_by_durable_event_ac002_06() {
    let mut w = TranscriptWindow::new(200);
    w.apply(Incoming::Snapshot {
        cursor: None,
        records: vec![],
        has_more: true,
        projections: None,
    });
    w.echo(SessionRequestId::new("req-1".into()), "hello");
    assert_eq!(pending_texts(&w), vec!["hello"]);
    assert_eq!(w.len(), 0);

    assert_eq!(
        w.apply(Incoming::FollowEvent(ev(
            10,
            "user/message",
            Some("req-1"),
            None
        ))),
        ApplyEffect::TailAppended {
            appended: 1,
            anchor_stable: true
        },
    );
    assert!(
        pending_texts(&w).is_empty()
    );
    assert_eq!(w.len(), 1);

    assert_eq!(
        w.apply(Incoming::FollowEvent(ev(
            10,
            "user/message",
            Some("req-1"),
            None
        ))),
        ApplyEffect::Noop,
    );
    assert_eq!(w.len(), 1);
    assert!(pending_texts(&w).is_empty());
}

#[test]
fn pending_never_pollutes_seen_indexes() {
    let mut w = TranscriptWindow::new(200);
    w.apply(Incoming::Snapshot {
        cursor: None,
        records: vec![],
        has_more: true,
        projections: None,
    });
    w.echo(SessionRequestId::new("req-9".into()), "text");
    assert_eq!(
        w.apply(Incoming::FollowEvent(ev(
            3,
            "user/message",
            Some("req-9"),
            None
        ))),
        ApplyEffect::TailAppended {
            appended: 1,
            anchor_stable: true
        },
    );
    assert_eq!(w.len(), 1);
    assert!(pending_texts(&w).is_empty());
}

#[test]
fn snapshot_rebuild_reconciles_pending_without_duplicate() {
    let mut w = TranscriptWindow::new(200);
    w.echo(SessionRequestId::new("req-7".into()), "snap");
    w.apply(Incoming::Snapshot {
        cursor: Some(SessionLogOffset::new(7)),
        records: vec![event_rec(7, "user/message", Some("req-7"))],
        has_more: false,
        projections: None,
    });
    assert!(pending_texts(&w).is_empty());
    assert_eq!(w.len(), 1);
    w.apply(Incoming::Snapshot {
        cursor: Some(SessionLogOffset::new(7)),
        records: vec![event_rec(7, "user/message", Some("req-7"))],
        has_more: false,
        projections: None,
    });
    assert_eq!(w.len(), 1);

    let mut w2 = TranscriptWindow::new(200);
    w2.echo(SessionRequestId::new("req-8".into()), "keep");
    w2.apply(Incoming::Snapshot {
        cursor: Some(SessionLogOffset::new(1)),
        records: vec![event_rec(1, "user/message", None)],
        has_more: false,
        projections: None,
    });
    assert_eq!(pending_texts(&w2), vec!["keep"]);
    w2.apply(Incoming::FollowEvent(ev(
        9,
        "user/message",
        Some("req-8"),
        None,
    )));
    assert!(pending_texts(&w2).is_empty());
    assert_eq!(w2.len(), 2);
}

#[test]
fn fail_echo_marks_error_and_durable_later_retires_it() {
    let mut w = TranscriptWindow::new(200);
    w.echo(SessionRequestId::new("req-f".into()), "boom");
    w.fail_echo(
        &SessionRequestId::new("req-f".into()),
        "gateway/bad-request",
        "非法请求",
    );
    let echo = w.pending().first().unwrap();
    assert!(matches!(
        &echo.status,
        PendingEchoStatus::Failed { code, message }
            if code == "gateway/bad-request" && message == "非法请求"
    ));
    assert_eq!(w.len(), 0);
    assert_eq!(w.pending().len(), 1);
    w.apply(Incoming::FollowEvent(ev(
        20,
        "user/message",
        Some("req-f"),
        None,
    )));
    assert!(
        pending_texts(&w).is_empty()
    );
    assert_eq!(w.len(), 1);
}

#[test]
fn official_nested_source_rpc_id_reconciles_too() {
    let mut w = TranscriptWindow::new(200);
    w.echo(SessionRequestId::new("req-nested".into()), "hi");
    let event = ev(
        5,
        "user/message",
        None,
        Some(json(r#"{"content": "hi","source": {"user-rpc": {"kind": "user", "rpcId": "req-nested"}}}"#)),
    );
    assert_eq!(
        w.apply(Incoming::FollowEvent(event)),
        ApplyEffect::TailAppended {
            appended: 1,
            anchor_stable: true
        },
    );
    assert!(pending_texts(&w).is_empty());
    assert_eq!(w.len(), 1);
}

fn started(records: Vec<SessionHistoryRecord>) -> TranscriptWindow {
    let mut w = TranscriptWindow::new(200);
    w.apply(Incoming::Snapshot { cursor: None, records, has_more: true, projections: None });
    w
}

#[test]
fn windows_are_read_by_place_and_by_position() {
    let w = started(vec![
        event_rec(3, "user/message", None),
        event_rec(8, "user/message", None),
    ]);
    assert_eq!(w.block(1).map(|b| b.seq()), Some(SessionSeq::new(8)));
    assert!(w.block(2).is_none());
    assert_eq!(w.offset_of(SessionSeq::new(8)), Some(1));
    assert_eq!(w.offset_of(SessionSeq::new(4)), None);
    assert!(w.contains_seq(SessionSeq::new(3)));
    assert_eq!(w.block_snapshot().len(), 2);
}

#[test]
fn a_replayed_page_changes_nothing() {
    let mut w = started(vec![event_rec(3, "user/message", None)]);
    let before = w.block_snapshot();
    assert_eq!(
        w.apply(Incoming::Page {
            records: vec![event_rec(3, "user/message", None)],
            has_more: Some(true),
        }),
        ApplyEffect::Noop
    );
    assert_eq!(w.block_snapshot(), before);
}

#[test]
fn chunks_without_a_message_are_dropped() {
    let mut w = started(vec![event_rec(3, "user/message", None)]);
    let row = ChunkRow::TextChunks(ChunkData { texts: vec!["x".into()], ..Default::default() });
    assert_eq!(w.apply(Incoming::Chunks(row)), ApplyEffect::Noop);
}

#[test]
fn echoes_are_found_by_their_request() {
    let mut w = TranscriptWindow::new(200);
    w.echo(SessionRequestId::new("r".into()), "text");
    assert_eq!(w.echo_text(&SessionRequestId::new("r".into())), Some("text"));
    assert_eq!(w.echo_text(&SessionRequestId::new("q".into())), None);
}

#[test]
fn blocks_are_made_of_events() {
    let image = r#"{"content": [{"type": "text", "text": "hi"}]}"#;
    let w = started(vec![SessionHistoryRecord::Event {
        event: ev(1, "user/message", None, Some(json(image))),
    }]);
    assert!(matches!(w.block(0), Some(Block::UserMessage { .. })));
    let w = started(vec![
        SessionHistoryRecord::Event {
            event: ev(1, "tool/call", None, Some(json(r#"{"name": "bash", "callId": "c"}"#))),
        },
    ]);
    assert!(matches!(w.block(0), Some(Block::ToolCall { .. })));
}

#[test]
fn stores_hand_out_their_windows() {
    let mut store = SessionStore::new(2);
    assert!(store.get_mut("a").is_none());
    store.touch("a", 5).apply(Incoming::FollowEvent(ev(1, "user/message", None, None)));
    assert_eq!(store.get_mut("a").map(|w| w.len()), Some(1));
    assert_eq!(store.get("a").map(|w| w.len()), Some(1));
}
