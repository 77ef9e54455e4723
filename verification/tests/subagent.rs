//! The tree of subagents.

use dshtui::model::subagent::{
    lineage_breadcrumbs, Parents, SubagentCatalog, SubagentListEntry, SubagentViewState,
};

fn child(
    id: &str,
    activity: &str,
    has_children: bool,
    mode: Option<&str>,
) -> SubagentListEntry {
    SubagentListEntry::Child {
        id: id.into(),
        activity: activity.into(),
        has_children,
        mode: mode.map(String::from),
        label: None,
    }
}

fn catalog(entries: Vec<SubagentListEntry>) -> SubagentCatalog {
    SubagentCatalog {
        entries,
        parent_available: true,
    }
}

#[test]
fn open_sets_parent_and_loading() {
    let mut s = SubagentViewState::default();
    s.open("parent-1");
    assert!(s.visible);
    assert_eq!(s.parent_session_id.as_deref(), Some("parent-1"));
    assert!(s.loading);
}

#[test]
fn set_catalog_roots_at_parent_level() {
    let mut s = SubagentViewState::default();
    s.open("p1");
    s.set_catalog(
        "p1",
        &catalog(vec![child("c1", "running", true, Some("continuable"))]),
    );
    assert!(!s.loading);
    assert_eq!(s.roots.len(), 1);
    assert_eq!(s.roots[0].id, "c1");
    assert_eq!(s.flatten().len(), 1);
}

#[test]
fn set_catalog_attaches_to_nav_child_and_drops_diagnostics() {
    let mut s = SubagentViewState::default();
    s.open("p1");
    s.set_catalog(
        "p1",
        &catalog(vec![
            child("c1", "running", true, Some("continuable")),
            SubagentListEntry::Diagnostic {
                id: "c9".into(),
                reason: "corrupt".into(),
            },
        ]),
    );
    s.nav_path = vec!["c1".into()];
    s.set_catalog("c1", &catalog(vec![child("gc1", "inactive", false, None)]));
    let rows = s.flatten();
    assert_eq!(rows.len(), 2);
    assert_eq!(rows[0].node.id, "c1");
    assert_eq!(rows[1].depth, 1);
    assert_eq!(rows[1].node.id, "gc1");
}

#[test]
fn lineage_breadcrumbs_reverse_chain_no_fabrication() {
    let mut parents: Parents = Vec::new();
    parents.push(("leaf".into(), (Some("叶子".into()), Some("mid".into()))));
    parents.push(("mid".into(), (Some("中间".into()), Some("root".into()))));
    parents.push(("root".into(), (Some("根".into()), None)));
    let crumbs = lineage_breadcrumbs("leaf", &parents);
    let ids: Vec<&str> = crumbs.iter().map(|c| c.session_id.as_str()).collect();
    assert_eq!(ids, vec!["root", "mid", "leaf"]);
    assert_eq!(crumbs[0].title.as_deref(), Some("根"));
    let crumbs = lineage_breadcrumbs("ghost", &parents);
    assert_eq!(crumbs.len(), 1);
    assert_eq!(crumbs[0].title, None);
}

#[test]
fn lineage_guard_breaks_cycles() {
    let mut parents: Parents = Vec::new();
    parents.push(("a".into(), (None, Some("b".into()))));
    parents.push(("b".into(), (None, Some("a".into()))));
    let crumbs = lineage_breadcrumbs("a", &parents);
    assert!(crumbs.len() <= 65);
}
