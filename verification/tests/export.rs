//! The export of a session.

use dshtui::json::{parse, Json};
use dshtui::model::export::{
    finish_line, rebuild_header_line, rebuild_jsonl, rebuild_next_cursor, rebuild_record_line,
    rebuild_record_seq, rebuild_record_to_line, rebuild_sort_chronological, ExportPhase,
    ExportState,
};

fn json(text: &str) -> Json {
    parse(text).unwrap()
}

#[test]
fn open_starts_at_path_pick_and_download_is_single_flight() {
    let mut s = ExportState::default();
    s.open("sess-1", "/tmp/out.zip");
    assert_eq!(s.phase, ExportPhase::PickingPath);
    assert!(s.begin_download());
    assert!(!s.begin_download());
    s.mark_progress(100);
    assert_eq!(s.bytes_streamed, 100);
    s.finish();
    assert_eq!(s.phase, ExportPhase::Done);
    assert!(s.begin_download());
}

#[test]
fn missing_session_or_path_refuses() {
    let mut s = ExportState::default();
    s.open("sess-1", "");
    assert!(!s.begin_download());
    let mut s = ExportState::default();
    s.open("", "/tmp/x");
    assert!(!s.begin_download());
    assert!(!s.begin_rebuild());
}

#[test]
fn cancel_and_fail_leave_recoverable_state() {
    let mut s = ExportState::default();
    s.open("sess-1", "/tmp/out.zip");
    s.begin_download();
    s.cancelled = true;
    s.fail("transport".into());
    assert_eq!(s.phase, ExportPhase::Failed);
    assert_eq!(s.last_error_code.as_deref(), Some("transport"));
    assert!(s.begin_download());
}

#[test]
fn rebuild_transitions_and_single_flight_ac007_17() {
    let mut s = ExportState::default();
    s.open("sess-1", "/tmp/out.jsonl");
    assert!(s.begin_download());
    s.fail("http-404".into());
    assert_eq!(s.phase, ExportPhase::Failed);
    assert!(s.begin_rebuild());
    assert_eq!(s.phase, ExportPhase::Rebuilding);
    assert!(!s.begin_rebuild());
    s.mark_rebuild_progress(120);
    assert_eq!(s.records_collected, 120);
    s.finish();
    assert_eq!(s.phase, ExportPhase::Done);
    let mut s2 = ExportState::default();
    s2.open("sess-1", "/tmp/out.jsonl");
    s2.begin_rebuild();
    s2.fail("transport".into());
    assert!(s2.begin_rebuild());
}

#[test]
fn rebuild_jsonl_header_plus_one_line_per_record_ac007_17() {
    let records = vec![
        json(r#"{"type":"event","event":{"seq":2,"type":"assistant/message"}}"#),
        json(r#"{"type":"chunks","event":{"type":"chunkrow/reasoning-chunks","seq":3,"time":123,"data":{"turn":1,"step":1,"index":0,"dt":[1.0],"texts":["x"]}}}"#),
        json(r#"{"type":"event","event":{"seq":1,"type":"user/message"}}"#),
    ];
    let out = rebuild_jsonl("sess-1", &records);
    let lines: Vec<&str> = out.lines().collect();
    assert_eq!(lines.len(), records.len() + 1);
    let header = json(lines[0]);
    assert_eq!(
        header,
        json(r#"{"type":"session","version":0,"id":"sess-1"}"#),
    );
    let expected = [
        json(r#"{"type":"user/message","seq":1}"#),
        json(r#"{"type":"assistant/message","seq":2}"#),
        json(r#"{"type":"reasoning-chunks","seq0":3,"time0":123,"data":{"turn":1,"step":1,"index":0,"dt":[1.0],"texts":["x"]}}"#),
    ];
    for (i, exp) in expected.iter().enumerate() {
        let parsed = json(lines[i + 1]);
        assert_eq!(&parsed, exp);
    }
}

#[test]
fn rebuild_record_line_unwraps_and_maps_chunkrow_ac008_15() {
    let event = json(r#"{"type":"event","event":{"type":"assistant/chunk","seq":7,"time":99,"data":{"turn":1,"step":2,"chunk":{"type":"block-start","index":0}}}}"#);
    let parsed = json(rebuild_record_line(&event).trim());
    assert_eq!(
        parsed,
        json(r#"{"type":"assistant/chunk","seq":7,"time":99,"data":{"turn":1,"step":2,"chunk":{"type":"block-start","index":0}}}"#),
    );
    for (chunkrow, official) in [
        ("chunkrow/reasoning-chunks", "reasoning-chunks"),
        ("chunkrow/text-chunks", "text-chunks"),
        ("chunkrow/tool-call-chunks", "tool-call-chunks"),
    ] {
        let chunks = json(&(r#"{"type":"chunks","event":{"type": "NAME", "seq":14, "time":1788859029701,"data":{"turn":1,"step":1,"index":0,"dt":[1.0,2.0],"texts":["a","b"]}}}"#.replace("NAME", chunkrow)));
        let parsed = json(rebuild_record_line(&chunks).trim());
        assert_eq!(
            parsed,
            json(&(r#"{"type": "NAME", "seq0":14, "time0":1788859029701,"data":{"turn":1,"step":1,"index":0,"dt":[1.0,2.0],"texts":["a","b"]}}"#.replace("NAME", official))),
        );
    }
    let flat = json(r#"{"type":"reasoning-chunks","seq0":5,"time0":1,"data":{"texts":[]}}"#);
    let parsed = json(rebuild_record_line(&flat).trim());
    assert_eq!(parsed, flat);
}

#[test]
fn rebuild_sort_chronological_orders_by_seq_ac008_15() {
    let mut recs = vec![
        json(r#"{"type":"event","event":{"seq":50,"type":"step/end"}}"#),
        json(r#"{"type":"event","event":{"seq":1,"type":"permission/preset"}}"#),
        json(r#"{"type":"chunks","event":{"type":"chunkrow/text-chunks","seq":25,"time":1,"data":{"texts":[]}}}"#),
        json(r#"{"type":"event","event":{"seq":10,"type":"step/start"}}"#),
    ];
    rebuild_sort_chronological(&mut recs);
    let seqs: Vec<u64> = recs
        .iter()
        .map(|r| r.get("event").unwrap().u64_at("seq").unwrap())
        .collect();
    assert_eq!(seqs, vec![1, 10, 25, 50]);
}

#[test]
fn rebuild_cursor_walks_oldest_first_and_stops_ac007_17() {
    let p1 = vec![
        json(r#"{"type":"event","event":{"seq":9}}"#),
        json(r#"{"type":"event","event":{"seq":8}}"#),
        json(r#"{"type":"event","event":{"seq":7}}"#),
    ];
    let (next, stop) = rebuild_next_cursor(None, &p1, true, 0, 100);
    assert_eq!(next, Some(7));
    assert!(!stop);
    let p2 = vec![
        json(r#"{"type":"event","event":{"seq":6}}"#),
        json(r#"{"type":"event","event":{"seq":4}}"#),
    ];
    let (_, stop2) = rebuild_next_cursor(next, &p2, false, 1, 100);
    assert!(stop2);
    assert!(rebuild_next_cursor(Some(6), &Vec::new(), true, 2, 100).1);
    assert!(
        rebuild_next_cursor(
            Some(6),
            &vec![json(r#"{"type":"chunks","event":{}}"#)],
            true,
            3,
            100
        )
        .1
    );
    let p3 = vec![json(r#"{"type":"event","event":{"seq":3}}"#)];
    assert!(
        rebuild_next_cursor(None, &p3, true, 100, 100).1
    );
    let dup = vec![json(r#"{"type":"event","event":{"seq":5}}"#)];
    assert!(
        rebuild_next_cursor(Some(5), &dup, true, 0, 100).1
    );
}

#[test]
fn lines_end_with_a_line_feed() {
    assert_eq!(rebuild_header_line("s"), "{\"id\":\"s\",\"type\":\"session\",\"version\":0}\n");
    assert_eq!(finish_line(Some("x".into())), "x\n");
    assert_eq!(rebuild_record_line(&json("7")), "7\n");
    assert_eq!(rebuild_record_to_line(&json("7")), json("7"));
    assert_eq!(rebuild_record_seq(&json(r#"{"type":"x","seq":4}"#)), Some(4));
    assert_eq!(rebuild_record_seq(&json("7")), None);
}

#[test]
fn closing_an_export_forgets_it() {
    let mut s = ExportState::default();
    s.open("sess-1", "/tmp/x");
    s.close();
    assert_eq!(s, ExportState::default());
}

#[test]
fn no_download_starts_over_a_rebuild() {
    let mut s = ExportState::default();
    s.open("sess-1", "/tmp/out.jsonl");
    assert!(s.begin_rebuild());
    assert!(!s.begin_download());
    assert_eq!(s.phase, ExportPhase::Rebuilding);
    s.fail("transport".into());
    assert!(s.begin_download());
    assert!(s.begin_rebuild());
}

#[test]
fn lines_with_decimals_are_read_back() {
    let rec = json(
        r#"{"type":"chunks","event":{"type":"chunkrow/text-chunks","seq":4,"time":1,
            "data":{"dt":[1.0,2.5,1e300,-0.0],"texts":["a","b\n"]}}}"#,
    );
    let line = rebuild_record_line(&rec);
    assert_eq!(line.matches('\n').count(), 1);
    let back = parse(line.trim_end()).unwrap();
    assert_eq!(back.get("data"), rebuild_record_to_line(&rec).get("data"));
    assert_eq!(back.str_at("type"), Some("text-chunks"));
    assert_eq!(back.u64_at("seq0"), Some(4));
    let mut deep = json("[]");
    for _ in 0..126 {
        deep = Json::Array(vec![deep]);
    }
    assert!(parse(rebuild_record_line(&deep).trim_end()).is_some());
}
