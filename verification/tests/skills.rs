//! The catalog of skills.

use dshtui::model::skills::{SkillEntry, SkillsCatalogState};

fn entry(name: &str, desc: &str) -> SkillEntry {
    SkillEntry {
        name: name.into(),
        description: desc.into(),
        when_to_use: None,
        model_invocable: true,
    }
}

#[test]
fn filter_matches_name_and_description() {
    let mut s = SkillsCatalogState::default();
    s.set_items(vec![
        entry("bash", "执行 shell 命令"),
        entry("research", "调研查证"),
    ]);
    assert_eq!(s.filtered().len(), 2);
    s.query = "research".into();
    assert_eq!(s.filtered().len(), 1);
    assert_eq!(s.filtered()[0].name, "research");
    s.query = "查证".into();
    assert_eq!(s.filtered()[0].name, "research");
    s.query = "zzz".into();
    assert!(s.filtered().is_empty());
}

#[test]
fn copy_ref_produces_slash_name() {
    let mut s = SkillsCatalogState::default();
    s.set_items(vec![entry("bash", "x")]);
    assert_eq!(s.copy_ref().as_deref(), Some("/bash"));
}

#[test]
fn the_selection_stays_in_the_list() {
    let mut s = SkillsCatalogState::default();
    s.open();
    assert_eq!(s.copy_ref(), None);
    s.set_items(vec![entry("a", ""), entry("b", "")]);
    s.move_selection(7);
    assert_eq!(s.copy_ref().as_deref(), Some("/b"));
    s.close();
    assert!(!s.visible);
}
