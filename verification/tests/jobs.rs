//! The panel of background jobs.

use dshtui::model::jobs::{JobsPanelState, SessionJob, SessionJobStatus};

fn job(id: &str, status: SessionJobStatus) -> SessionJob {
    SessionJob {
        id: id.into(),
        kind: "k".into(),
        label: format!("job {id}"),
        status: Some(status),
    }
}

#[test]
fn replacement_semantics_full_swap_and_empty_clears() {
    let mut s = JobsPanelState::default();
    s.replace(vec![
        job("j1", SessionJobStatus::Running),
        job("j2", SessionJobStatus::Completed),
    ]);
    assert_eq!(s.jobs.len(), 2);
    assert_eq!(s.active_count(), 1);
    s.replace(vec![job("j3", SessionJobStatus::Running)]);
    assert_eq!(s.jobs.len(), 1);
    assert_eq!(s.jobs[0].id, "j3");
    s.replace(vec![]);
    assert!(s.jobs.is_empty());
    assert_eq!(s.active_count(), 0);
}

#[test]
fn selection_clamped_and_movable() {
    let mut s = JobsPanelState::default();
    s.replace(vec![
        job("j1", SessionJobStatus::Running),
        job("j2", SessionJobStatus::Failed),
    ]);
    s.move_selection(1);
    assert_eq!(s.selected, 1);
    s.move_selection(5);
    assert_eq!(s.selected, 1);
    s.move_selection(-10);
    assert_eq!(s.selected, 0);
    s.replace(vec![]);
    s.move_selection(1);
    assert_eq!(s.selected, 0);
}

#[test]
fn stopping_is_active_like_running() {
    let mut s = JobsPanelState::default();
    s.replace(vec![
        job("j1", SessionJobStatus::Stopping),
        job("j2", SessionJobStatus::Killed),
        job("j3", SessionJobStatus::Failed),
    ]);
    assert_eq!(
        s.active_count(),
        1,
    );
}

#[test]
fn the_panel_opens_and_closes() {
    let mut s = JobsPanelState::default();
    s.open();
    assert!(s.visible);
    s.close();
    assert!(!s.visible);
}
