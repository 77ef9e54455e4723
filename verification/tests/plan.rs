//! The plan of a session.

use dshtui::model::plan::PlanViewState;

#[test]
fn projection_status_matrix() {
    let mut s = PlanViewState::default();
    s.set_projection(Some(true), Some(false));
    assert_eq!(s.status(), "plan");
    s.set_projection(Some(false), Some(true));
    assert_eq!(s.status(), "switching");
    s.set_projection(Some(false), Some(false));
    assert_eq!(s.status(), "off");
    let s = PlanViewState::default();
    assert_eq!(s.status(), "unsupported");
}

#[test]
fn the_plan_view_opens_and_closes() {
    let mut s = PlanViewState::default();
    s.open();
    assert!(s.visible);
    s.close();
    assert!(!s.visible);
}
