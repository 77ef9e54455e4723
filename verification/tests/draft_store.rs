//! Drafts on disk.

use dshtui::model::draft_store::{DraftStore, DraftStoreError};
use dshtui::toml_doc::Toml;

#[test]
fn round_trip_toml_preserves_sessions_and_clears_empty() {
    let mut store = DraftStore::default();
    store.set("s1", "草稿一");
    store.set("s2", "");
    assert_eq!(store.len(), 1);
    store.set("s2", "草稿二");
    let toml = store.to_toml().unwrap();
    let back = DraftStore::from_toml(&toml).unwrap();
    assert_eq!(back.get("s1"), Some("草稿一"));
    assert_eq!(back.get("s2"), Some("草稿二"));
    assert_eq!(back, store);
}

#[test]
fn from_toml_corrupt_is_typed_error_not_panic() {
    assert!(DraftStore::from_toml("not [[ valid toml").is_err());
    assert!(DraftStore::from_toml("drafts = 42").is_err());
}

#[test]
fn clear_all_resets_table() {
    let mut store = DraftStore::default();
    store.set("s1", "a");
    store.clear_all();
    assert!(store.is_empty());
}

#[test]
fn each_way_to_be_corrupt_has_its_error() {
    assert!(matches!(
        DraftStore::from_toml("not [[ valid toml"),
        Err(DraftStoreError::Toml(_))
    ));
    assert_eq!(DraftStore::from_toml("drafts = 42"), Err(DraftStoreError::NotATable));
    assert_eq!(
        DraftStore::from_toml("[drafts]\ns1 = 1\n"),
        Err(DraftStoreError::NotAText("s1".into()))
    );
    assert!(!DraftStoreError::NotATable.message().is_empty());
    assert!(DraftStoreError::NotAText("s1".into()).message().contains("s1"));
    assert_eq!(DraftStoreError::Toml("why".into()).message(), "why");
}

#[test]
fn documents_without_drafts_are_empty_stores() {
    assert!(DraftStore::from_toml("").unwrap().is_empty());
    assert!(DraftStore::from_value(&Toml::Table(Vec::new())).unwrap().is_empty());
}

#[test]
fn drafts_of_any_text_survive() {
    let mut store = DraftStore::default();
    store.set("a.b", "one\ntwo \"three\" \\ 'four'");
    store.set("", "empty name");
    let back = DraftStore::from_toml(&store.to_toml().unwrap()).unwrap();
    assert_eq!(back, store);
}
