//! Actions on a message.

use dshtui::model::message_action::{can_branch, MessageActionKind, MessageActionState};

#[test]
fn open_and_close_menu() {
    let mut s = MessageActionState::default();
    s.open_menu(7);
    assert_eq!(s.menu_seq, Some(7));
    s.close_menu();
    assert_eq!(s.menu_seq, None);
}

#[test]
fn static_node_single_flight_begins_immediately() {
    let mut s = MessageActionState::default();
    assert!(s.begin(MessageActionKind::Retry, false));
    assert!(!s.begin(MessageActionKind::Branch, false));
    s.fail("transport".into());
    assert!(s.begin(MessageActionKind::Branch, false));
}

#[test]
fn running_node_confirms_then_acts() {
    let mut s = MessageActionState::default();
    assert!(!s.begin(MessageActionKind::Retry, true));
    assert!(s.confirm_running);
    assert!(s.confirm(MessageActionKind::Retry));
    assert_eq!(s.inflight, Some(MessageActionKind::Retry));
    s.settle();
    assert!(!s.confirm_running);
}

#[test]
fn branch_only_on_static_last_user() {
    assert!(can_branch(false, true));
    assert!(!can_branch(true, true));
    assert!(!can_branch(false, false));
}

#[test]
fn actions_have_words() {
    assert_eq!(MessageActionKind::Branch.as_str(), "branch");
    assert_eq!(MessageActionKind::Retry.as_str(), "retry");
}
