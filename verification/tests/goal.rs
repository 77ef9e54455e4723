//! The panel of a session's goal.

use dshtui::model::goal::{GoalOpKind, GoalPanelState, GoalPhase, GoalView};

fn goal(revision: u64, phase: GoalPhase) -> GoalView {
    GoalView {
        id: "g1".into(),
        revision,
        objective: "交付".into(),
        phase: Some(phase),
        blocked_reason: None,
        max_goal_rounds: None,
        rounds_started: None,
        created_at: None,
        updated_at: None,
    }
}

#[test]
fn singleton_semantics_create_blocked_when_goal_exists() {
    let mut s = GoalPanelState::default();
    s.set_goal(Some(goal(1, GoalPhase::Active)), false);
    assert!(!s.begin_op(GoalOpKind::Create));
    assert!(s.begin_op(GoalOpKind::Pause));
    assert!(!s.begin_op(GoalOpKind::Complete));
    s.settle_op(Some(goal(2, GoalPhase::Paused)));
    assert_eq!(s.inflight, None);
}

#[test]
fn stale_revision_blocks_ops_until_goal_read() {
    let mut s = GoalPanelState::default();
    s.set_goal(Some(goal(1, GoalPhase::Active)), false);
    assert!(s.begin_op(GoalOpKind::Pause));
    s.fail_op("GOAL_STALE_REVISION".into(), true);
    assert!(s.stale_revision);
    assert!(!s.begin_op(GoalOpKind::Resume));
    s.set_goal(Some(goal(3, GoalPhase::Paused)), false);
    assert!(!s.stale_revision);
    assert!(s.begin_op(GoalOpKind::Resume));
}

#[test]
fn clear_requires_confirm_stage() {
    let mut s = GoalPanelState::default();
    s.set_goal(Some(goal(1, GoalPhase::Paused)), false);
    s.request_confirm(GoalOpKind::Clear);
    assert_eq!(s.confirm_pending, Some(GoalOpKind::Clear));
    assert_eq!(s.inflight, None);
    assert!(s.begin_op(GoalOpKind::Clear));
    s.settle_op(None);
    assert_eq!(s.goal, None);
}

#[test]
fn opening_and_giving_up_a_confirmation() {
    let mut s = GoalPanelState::default();
    s.open();
    assert!(s.visible);
    s.request_confirm(GoalOpKind::Clear);
    s.cancel_confirm();
    assert_eq!(s.confirm_pending, None);
    assert!(s.begin_op(GoalOpKind::Create));
    assert!(!s.begin_op(GoalOpKind::Create));
    s.close();
    assert!(!s.visible);
    assert_eq!(GoalOpKind::Complete.as_str(), "complete");
}

#[test]
fn nothing_begins_while_the_revision_is_stale() {
    let mut s = GoalPanelState::default();
    s.fail_op("GOAL_STALE_REVISION".into(), true);
    let before = s.clone();
    assert!(!s.begin_op(GoalOpKind::Create));
    assert_eq!(s, before);
    s.set_goal(Some(goal(1, GoalPhase::Active)), true);
    assert!(!s.begin_op(GoalOpKind::Create));
    assert!(!s.begin_op(GoalOpKind::Clear));
    s.set_goal(None, false);
    assert!(s.begin_op(GoalOpKind::Create));
}
