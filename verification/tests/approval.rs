//! The queue of requests for approval.

use dshtui::json::Json;
use dshtui::model::approval::{ApprovalEvent, ApprovalQueue, ApprovalSummary, GRANTED_CAP};

fn ev(id: &str) -> ApprovalEvent {
    ApprovalEvent {
        client_id: format!("c-{id}"),
        event_id: id.to_string(),
        raw: Json::Object(Vec::new()),
    }
}

#[test]
fn enqueue_then_promote_keeps_one_active() {
    let mut q = ApprovalQueue::new();
    assert!(q.enqueue(ev("e1"), false));
    assert!(q.enqueue(ev("e2"), false));
    assert_eq!(q.summary().pending, 2);
    assert!(!q.has_active());
    assert_eq!(q.promote(), Some(ev("e1")));
    assert_eq!(q.active().unwrap().event.event_id, "e1");
    assert_eq!(q.promote(), None);
    assert_eq!(q.summary().pending, 1);
}

#[test]
fn duplicate_and_granted_events_are_rejected() {
    let mut q = ApprovalQueue::new();
    assert!(q.enqueue(ev("e1"), false));
    assert!(!q.enqueue(ev("e1"), false));
    q.promote();
    q.settle(true);
    assert!(q.is_granted("e1"));
    assert!(!q.enqueue(ev("e1"), false));
    assert!(q.enqueue(ev("e2"), false));
}

#[test]
fn settle_granted_then_next_promotes() {
    let mut q = ApprovalQueue::new();
    q.enqueue(ev("e1"), false);
    q.enqueue(ev("e2"), false);
    q.promote();
    q.settle(true);
    assert_eq!(q.active_event(), Some(ev("e2")));
    q.settle(false);
    assert!(!q.is_granted("e2"));
    assert!(q.is_empty());
}

#[test]
fn failed_item_is_kept_and_retryable_others_continue() {
    let mut q = ApprovalQueue::new();
    q.enqueue(ev("e1"), false);
    q.enqueue(ev("e2"), false);
    q.promote();
    assert_eq!(q.fail_active(), Some(ev("e1")));
    assert_eq!(q.summary().failed, 1);
    assert_eq!(q.active().unwrap().event.event_id, "e2");
    assert_eq!(q.fail_active(), Some(ev("e2")));
    assert_eq!(q.summary().failed, 2);
    assert!(!q.has_active());
    assert_eq!(q.retry_failed("e1"), Some(ev("e1")));
    assert_eq!(q.active().unwrap().event.event_id, "e1");
    q.settle(false);
    assert_eq!(q.summary().failed, 1);
    assert_eq!(q.summary().pending, 0);
}

#[test]
fn danger_requires_ack_before_allow_but_never_upgrades() {
    let mut q = ApprovalQueue::new();
    q.enqueue(ev("d1"), true);
    q.promote();
    assert!(q.head_requires_ack());
    assert!(!q.head_acked());
    assert!(q.ack_active());
    assert!(!q.head_requires_ack());
    assert!(q.head_acked());
    assert!(!q.ack_active());
    q.settle(true);
    assert!(q.is_granted("d1"));
    assert!(!q.enqueue(ev("d1"), true));
}

#[test]
fn non_danger_never_requires_ack() {
    let mut q = ApprovalQueue::new();
    q.enqueue(ev("n1"), false);
    q.promote();
    assert!(!q.head_requires_ack());
    assert!(!q.ack_active());
}

#[test]
fn list_order_active_then_pending_then_failed() {
    let mut q = ApprovalQueue::new();
    q.enqueue(ev("e1"), false);
    q.enqueue(ev("e2"), false);
    q.enqueue(ev("e3"), false);
    q.promote();
    let ids: Vec<&str> = q.list().iter().map(|i| i.event.event_id.as_str()).collect();
    assert_eq!(ids, vec!["e1", "e2", "e3"]);
    q.fail_active();
    let ids: Vec<&str> = q.list().iter().map(|i| i.event.event_id.as_str()).collect();
    assert_eq!(ids, vec!["e2", "e3", "e1"]);
}

#[test]
fn clear_drops_everything() {
    let mut q = ApprovalQueue::new();
    q.enqueue(ev("e1"), false);
    q.enqueue(ev("e2"), true);
    q.promote();
    q.clear();
    assert!(q.is_empty());
    assert_eq!(q.summary(), ApprovalSummary::default());
}

#[test]
fn remembered_grants_are_bounded() {
    let mut q = ApprovalQueue::new();
    for i in 0..=GRANTED_CAP {
        q.enqueue(ev(&format!("g{i}")), false);
        q.promote();
        q.settle(true);
    }
    assert!(!q.is_granted("g0"));
    assert!(q.is_granted("g1"));
    assert!(q.is_granted(&format!("g{GRANTED_CAP}")));
}

#[test]
fn retrying_puts_the_request_in_front() {
    let mut q = ApprovalQueue::new();
    assert_eq!(q.retry_failed("e1"), None);
    q.enqueue(ev("e1"), false);
    q.promote();
    q.fail_active();
    assert!(q.is_failed("e1"));
    assert_eq!(q.retry_failed("e1"), Some(ev("e1")));
    assert!(!q.is_failed("e1"));
    assert_eq!(q.len(), 1);
}
