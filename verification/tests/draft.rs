//! Drafts and the history of the input.

use dshtui::model::draft::{DraftRegistry, DraftState, InputHistory};
use dshtui::wire::SessionId;

fn sid(n: &str) -> SessionId {
    SessionId(n.into())
}

#[test]
fn registry_keeps_draft_across_session_switches_ac003_11() {
    let mut reg = DraftRegistry::new(20);
    reg.set(DraftState {
        text: "草稿A".into(),
        cursor: 3,
        bound_session: sid("s1"),
    });
    assert_eq!(reg.get(&sid("s1")).map(|d| d.text.as_str()), Some("草稿A"));
    assert!(reg.take(&sid("s1")).is_some());
    assert!(reg.get(&sid("s1")).is_none());
}

#[test]
fn registry_evicts_lru_over_capacity() {
    let mut reg = DraftRegistry::new(2);
    for n in ["s1", "s2", "s3"] {
        reg.set(DraftState {
            text: n.into(),
            cursor: 0,
            bound_session: sid(n),
        });
    }
    assert_eq!(reg.len(), 2);
    assert!(reg.get(&sid("s1")).is_none());
    assert!(reg.get(&sid("s3")).is_some());
}

#[test]
fn input_history_navigates_and_restores_ac003_10() {
    let mut h = InputHistory::new(50);
    h.push("第一条");
    h.push("第二条");
    assert_eq!(h.prev("正在编辑"), Some("第二条"));
    assert_eq!(h.prev("正在编辑"), Some("第一条"));
    assert_eq!(h.prev("正在编辑"), Some("第一条"));
    assert_eq!(h.next_entry(), Some("第二条"));
    assert_eq!(h.next_entry(), Some("正在编辑"));
}

#[test]
fn input_history_dedupes_consecutive_and_caps() {
    let mut h = InputHistory::new(2);
    h.push("a");
    h.push("a");
    assert_eq!(h.len(), 1);
    h.push("b");
    h.push("c");
    assert_eq!(h.len(), 2);
    h.reset_nav();
    assert_eq!(h.prev("x"), Some("c"));
}

#[test]
fn a_draft_that_is_set_again_is_the_newest() {
    let mut reg = DraftRegistry::new(2);
    for n in ["s1", "s2", "s1", "s3"] {
        reg.set(DraftState { text: n.into(), cursor: 0, bound_session: sid(n) });
    }
    assert!(reg.get(&sid("s1")).is_some());
    assert!(reg.get(&sid("s2")).is_none());
    assert_eq!(reg.session_ids(), vec![sid("s1"), sid("s3")]);
    reg.clear(&sid("s1"));
    assert_eq!(reg.len(), 1);
    reg.clear_all();
    assert!(reg.is_empty());
}

#[test]
fn an_empty_history_has_nothing_to_show() {
    let mut h = InputHistory::new(3);
    assert!(h.is_empty());
    assert_eq!(h.prev("x"), None);
    assert_eq!(h.next_entry(), Some("x"));
    assert_eq!(h.next_entry(), None);
}
