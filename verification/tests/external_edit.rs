//! Editing a draft in an editor of one's own.

use dshtui::model::external_edit::{ExternalEditPhase, ExternalEditState};

#[test]
fn suspend_captures_and_refill_settles() {
    let mut s = ExternalEditState::default();
    assert!(s.suspend("原草稿", "/tmp/draft.md".into(), Some("vim".into())));
    assert_eq!(s.phase, ExternalEditPhase::Editing);
    assert_eq!(s.suspended_text, "原草稿");
    assert!(!s.suspend("x", "/y".into(), None));
    s.mark_exited_ok();
    assert_eq!(s.phase, ExternalEditPhase::RefillPending);
    s.settle();
    assert_eq!(s.phase, ExternalEditPhase::Inactive);
}

#[test]
fn cancel_preserves_original_and_clears_temp() {
    let mut s = ExternalEditState::default();
    s.suspend("原草稿", "/tmp/draft.md".into(), None);
    s.cancel();
    assert_eq!(s.phase, ExternalEditPhase::Inactive);
    assert_eq!(s.suspended_text, "");
    assert_eq!(s.tmp_path, None);
}

#[test]
fn failure_sets_readable_error_and_safe_state() {
    let mut s = ExternalEditState::default();
    s.suspend(
        "原草稿",
        "/tmp/draft.md".into(),
        Some("nonexistent-editor".into()),
    );
    s.fail("编辑器不存在或异常退出".into());
    assert_eq!(s.phase, ExternalEditPhase::Inactive);
    assert_eq!(s.last_error.as_deref(), Some("编辑器不存在或异常退出"));
}

#[test]
fn an_edit_is_active_until_it_is_settled() {
    let mut s = ExternalEditState::default();
    assert!(!s.is_active());
    s.suspend("a", "/t".into(), None);
    assert!(s.is_active());
    s.mark_exited_ok();
    assert!(s.is_active());
    s.settle();
    assert!(!s.is_active());
}
