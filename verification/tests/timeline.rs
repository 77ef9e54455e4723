//! The strip of markers beside a session.

use dshtui::model::timeline::{TimelineMarkerKind, TimelineState};

#[test]
fn rebuild_projects_markers_from_kinds() {
    let mut t = TimelineState::default();
    t.rebuild(&[
        TimelineMarkerKind::User,
        TimelineMarkerKind::Assistant,
        TimelineMarkerKind::Tool,
        TimelineMarkerKind::Assistant,
    ]);
    assert_eq!(t.markers.len(), 4);
    assert_eq!(t.markers[0].index, 0);
    assert_eq!(t.markers[0].kind, TimelineMarkerKind::User);
    assert_eq!(t.markers[3].kind, TimelineMarkerKind::Assistant);
}

#[test]
fn empty_strip_no_cursor_and_no_panic() {
    let mut t = TimelineState::default();
    t.rebuild(&[]);
    assert_eq!(t.cursor, 0);
    t.move_cursor(3);
    assert_eq!(t.cursor, 0);
}

#[test]
fn cursor_clamped_to_strip() {
    let mut t = TimelineState::default();
    t.rebuild(&[TimelineMarkerKind::User, TimelineMarkerKind::Assistant]);
    t.move_cursor(5);
    assert_eq!(t.cursor, 1);
    t.move_cursor(-9);
    assert_eq!(t.cursor, 0);
}
