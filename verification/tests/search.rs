//! The index of sessions.

use dshtui::model::search::SearchIndex;
use dshtui::wire::SessionId;

#[test]
fn skeleton_index_is_idempotent_on_upsert() {
    let mut index = SearchIndex::new();
    index.upsert(SessionId("s1".into()));
    index.upsert(SessionId("s2".into()));
    index.upsert(SessionId("s1".into()));
    assert_eq!(index.len(), 2);
    assert_eq!(index.session_ids()[0], SessionId("s1".into()));
    assert_eq!(index.session_ids()[1], SessionId("s2".into()));
}
