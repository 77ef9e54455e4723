//! Mentions of files and sessions.

use dshtui::model::mention::{
    FileReferenceCandidate, MentionCandidate, MentionKind, MentionState,
    SessionReferenceMentionCandidate,
};

#[test]
fn merges_two_sources_and_filters_locally() {
    let mut m = MentionState::default();
    m.activate();
    m.mark_loading();
    let generation = m.generation;
    m.set_candidates(
        generation,
        &vec![FileReferenceCandidate {
            path: "src/api/mod.rs".into(),
            kind: "file".into(),
        }],
        &vec![SessionReferenceMentionCandidate {
            session_id: "s1".into(),
            label: "部署排查".into(),
            cwd: None,
            same_workspace: true,
            created_at: None,
            mention: "@[部署排查](dsh-session:s1)".into(),
        }],
    );
    assert_eq!(m.candidates.len(), 2);
    assert_eq!(m.filtered().len(), 2);
    m.set_query("mod.rs".into());
    assert_eq!(m.filtered().len(), 1);
    assert_eq!(m.filtered()[0].kind, MentionKind::File);
    m.set_query("部署".into());
    assert_eq!(m.filtered()[0].kind, MentionKind::Session);
    assert_eq!(m.filtered()[0].insert, "@[部署排查](dsh-session:s1)");
}

#[test]
fn stale_generation_dropped() {
    let mut m = MentionState::default();
    m.activate();
    m.mark_loading();
    m.set_candidates(
        0,
        &vec![FileReferenceCandidate {
            path: "old.rs".into(),
            kind: "file".into(),
        }],
        &vec![],
    );
    assert!(m.candidates.is_empty());
    let generation = m.generation;
    m.set_candidates(
        generation,
        &vec![FileReferenceCandidate {
            path: "new.rs".into(),
            kind: "file".into(),
        }],
        &vec![],
    );
    assert_eq!(m.candidates.len(), 1);
    assert!(!m.loading);
}

#[test]
fn fetch_failure_degrades_to_empty_with_error() {
    let mut m = MentionState::default();
    m.activate();
    m.mark_loading();
    m.fail("transport".into());
    assert!(!m.loading);
    assert_eq!(m.last_error_code.as_deref(), Some("transport"));
}

#[test]
fn files_are_inserted_by_their_path() {
    let c = MentionCandidate::from_file(&FileReferenceCandidate {
        path: "a/b.rs".into(),
        kind: "file".into(),
    });
    assert_eq!(c.kind, MentionKind::File);
    assert!(c.insert.contains("a/b.rs"));
    let mut m = MentionState::default();
    m.activate();
    m.move_selection(3);
    assert_eq!(m.selected, 0);
    m.deactivate();
    assert!(!m.active);
}
