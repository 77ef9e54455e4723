//! Workspaces, sessions and the sidebar.

use dshtui::model::workspace::{
    pick_sessions, sidebar_rows, GroupBy, OrderBy, SessionMeta, SidebarRow, WorkspaceStore,
    WorkspaceViewState,
};
use dshtui::wire::{SessionId, WorkspaceId};

fn meta(id: &str, updated: i64, ws: Option<&str>) -> SessionMeta {
    SessionMeta {
        id: SessionId::new(id.into()),
        title: Some(format!("t-{id}")),
        cwd: None,
        updated_at_ms: updated,
        running: false,
        blank: false,
        origin: None,
        parent_id: None,
        workspace: ws.map(|s| WorkspaceId::new(s.into())),
        last_turn_preview: None,
    }
}

#[test]
fn upsert_merges_pages() {
    let mut store = WorkspaceStore::new();
    store.upsert_session(meta("a", 1, None));
    store.upsert_session(meta("b", 2, None));
    store.upsert_session(meta("a", 9, None));
    store.upsert_session(meta("c", 3, None));
    assert_eq!(store.session_count(), 3);
    assert_eq!(store.session(&SessionId::new("a".into())).unwrap().updated_at_ms, 9);
}

#[test]
fn sessions_sorted_by_updated_desc() {
    let mut store = WorkspaceStore::new();
    store.upsert_session(meta("old", 1, None));
    store.upsert_session(meta("new", 100, None));
    store.upsert_session(meta("mid", 50, None));
    let sorted = store.sessions_sorted();
    assert_eq!(sorted[0].id, SessionId::new("new".into()));
    assert_eq!(sorted[2].id, SessionId::new("old".into()));
}

#[test]
fn workspace_attach_and_upsert() {
    let mut store = WorkspaceStore::new();
    store.upsert_workspace(WorkspaceId::new("ws1".into()), Some("项目A".into()));
    store.upsert_session(meta("s1", 1, Some("ws1")));
    store.attach_session_to_workspace(
        &WorkspaceId::new("ws1".into()),
        &SessionId::new("s1".into()),
    );
    store.attach_session_to_workspace(
        &WorkspaceId::new("ws1".into()),
        &SessionId::new("s1".into()),
    );
    assert_eq!(store.workspaces.len(), 1);
    assert_eq!(store.workspaces[0].session_ids.len(), 1);
    store.attach_session_to_workspace(
        &WorkspaceId::new("nope".into()),
        &SessionId::new("s1".into()),
    );
    store.clear_workspaces();
    assert!(store.workspaces.is_empty());
    assert_eq!(store.session_count(), 1);
}

#[test]
fn match_sessions_empty_query_returns_updated_desc_order() {
    let mut store = WorkspaceStore::new();
    store.upsert_session(meta("old", 1, None));
    store.upsert_session(meta("new", 100, None));
    store.upsert_session(meta("mid", 50, None));
    let matched = store.match_sessions("  ");
    let ids: Vec<&str> = matched.iter().map(|m| m.id.get()).collect();
    assert_eq!(ids, vec!["new", "mid", "old"]);
}

#[test]
fn match_sessions_fuzzy_ranks_across_fields_and_keeps_order_ties() {
    let mut store = WorkspaceStore::new();
    store.upsert_session(meta("s-1", 100, None));
    store.upsert_session(meta("s-2", 90, None));
    let mut cwd_match = meta("s-3", 80, None);
    cwd_match.cwd = Some("/home/nd/src/deploy-target".into());
    store.upsert_session(cwd_match);
    let mut preview_match = meta("s-2", 90, None);
    preview_match.last_turn_preview = Some("deploy 到生产".into());
    store.upsert_session(preview_match);

    let matched = store.match_sessions("deploy");
    assert!(!matched.is_empty());
    assert!(!matched.iter().any(|m| m.id == SessionId::new("s-1".into())));
    assert!(matched.len() >= 2);

    let specific = store.match_sessions("deploy-target");
    assert_eq!(specific.len(), 1);
    assert_eq!(specific[0].id, SessionId::new("s-3".into()));
}

#[test]
fn picker_match_1042_sessions_is_bounded() {
    let mut store = WorkspaceStore::new();
    for i in 0..1042 {
        let mut m = meta(&format!("sess-{i:04}"), i as i64, None);
        m.title = Some(format!("Session {i} deploy build"));
        m.cwd = Some(format!("/home/nd/projects/p{}", i % 40));
        m.last_turn_preview = Some(format!("turn preview {i}"));
        store.upsert_session(m);
    }
    let start = std::time::Instant::now();
    let matched = store.match_sessions("depl");
    let elapsed = start.elapsed();
    assert!(!matched.is_empty());
    assert!(
        elapsed.as_millis() < 30
    );
}

#[test]
fn session_list_over_20000_keeps_recent_5000() {
    let mut store = WorkspaceStore::new();
    for i in 0..20_001 {
        store.upsert_session(meta(&format!("s{i:05}"), i as i64, None));
    }
    assert_eq!(store.session_count(), 5_000);
    assert!(store.session(&SessionId::new("s20000".into())).is_some());
    assert!(!store.session(&SessionId::new("s00000".into())).is_some());
}


fn ws(store: &mut WorkspaceStore, id: &str) -> WorkspaceId {
    let wid = WorkspaceId::new(id.into());
    store.upsert_workspace(wid.clone(), Some(format!("项目{id}")));
    wid
}

fn row_ids(rows: &[SidebarRow]) -> Vec<String> {
    rows.iter()
        .map(|r| match r {
            SidebarRow::WorkspaceHeader { id, .. } => format!("[{}]", id.get()),
            SidebarRow::Session(id) => id.get().to_string(),
        })
        .collect()
}

#[test]
fn sidebar_view_state_gv_cycles_group_and_order_ac006_03() {
    let mut view = WorkspaceViewState::default();
    assert_eq!(view.group_by, GroupBy::Workspace);
    assert_eq!(view.order_by, OrderBy::Updated);
    view.cycle();
    assert_eq!(view.group_by, GroupBy::Workspace);
    assert_eq!(view.order_by, OrderBy::Manual);
    view.cycle();
    assert_eq!(view.group_by, GroupBy::Flat);
    assert_eq!(view.order_by, OrderBy::Manual);
    view.cycle();
    assert_eq!(view.group_by, GroupBy::Flat);
    assert_eq!(view.order_by, OrderBy::Updated);
    view.cycle();
    assert_eq!(view.group_by, GroupBy::Workspace);
    assert_eq!(view.order_by, OrderBy::Updated);
}

#[test]
fn sidebar_rows_grouped_manual_order_and_collapse() {
    let mut store = WorkspaceStore::new();
    let ws1 = ws(&mut store, "ws1");
    store.upsert_session(meta("a", 1, None));
    store.upsert_session(meta("b", 200, None));
    store.upsert_session(meta("c", 50, None));
    store.upsert_session(meta("free", 999, None));
    for sid in ["b", "a", "c"] {
        store.attach_session_to_workspace(&ws1, &SessionId::new(sid.into()));
    }
    let view = WorkspaceViewState {
        group_by: GroupBy::Workspace,
        order_by: OrderBy::Manual,
        collapsed: Default::default(),
    };
    let rows = sidebar_rows(&view, &store);
    assert_eq!(
        row_ids(&rows),
        vec!["[ws1]", "b", "a", "c", "free"],
    );
    let view = WorkspaceViewState {
        group_by: GroupBy::Workspace,
        order_by: OrderBy::Updated,
        collapsed: Default::default(),
    };
    let rows = sidebar_rows(&view, &store);
    assert_eq!(
        row_ids(&rows),
        vec!["[ws1]", "b", "c", "a", "free"],
    );
    let mut view = view;
    view.collapsed.insert("ws1".into());
    let rows = sidebar_rows(&view, &store);
    assert_eq!(
        row_ids(&rows),
        vec!["[ws1]", "free"],
    );
    view.toggle(&ws1);
    assert!(!view.is_collapsed(&ws1));
}

#[test]
fn sidebar_rows_flat_lists_all_sessions_sorted_ac006_03() {
    let mut store = WorkspaceStore::new();
    let ws1 = ws(&mut store, "ws1");
    store.upsert_session(meta("old", 1, None));
    store.upsert_session(meta("new", 100, None));
    store.attach_session_to_workspace(&ws1, &SessionId::new("old".into()));
    let view = WorkspaceViewState {
        group_by: GroupBy::Flat,
        order_by: OrderBy::Updated,
        collapsed: Default::default(),
    };
    let rows = sidebar_rows(&view, &store);
    assert_eq!(
        row_ids(&rows),
        vec!["new", "old"],
    );
    let empty = WorkspaceStore::new();
    let view = WorkspaceViewState::default();
    let rows = sidebar_rows(&view, &empty);
    assert!(rows.is_empty());
}

#[test]
fn sessions_are_picked_by_their_scores() {
    let a = meta("a", 3, None);
    let b = meta("b", 2, None);
    let c = meta("c", 1, None);
    let picked = pick_sessions(&vec![&a, &b, &c], &vec![Some(1), None, Some(9)]);
    let ids: Vec<&str> = picked.iter().map(|m| m.id.get()).collect();
    assert_eq!(ids, vec!["c", "a"]);
}

#[test]
fn every_workspace_folds_and_unfolds() {
    let mut store = WorkspaceStore::new();
    let one = ws(&mut store, "ws1");
    let mut view = WorkspaceViewState::default();
    view.collapse_all(&store);
    assert!(view.is_collapsed(&one));
    let rows = sidebar_rows(&view, &store);
    assert_eq!(rows[0].workspace_id(), Some(&one));
    assert_eq!(rows[0].session_id(), None);
    view.expand_all();
    assert!(!view.is_collapsed(&one));
    assert_eq!(GroupBy::Flat.as_str(), "flat");
    assert_eq!(OrderBy::Manual.as_str(), "manual");
}

#[test]
fn sessions_that_cannot_be_searched_say_so() {
    let mut store = WorkspaceStore::new();
    let mut m = meta("s-1", 1, None);
    m.title = Some("ςσxä".into());
    store.upsert_session(m);
    store.upsert_session(meta("s-2", 2, None));
    assert!(store.try_match_sessions("σä").is_none());
    assert_eq!(store.try_match_sessions("").unwrap().len(), 2);
    let found = store.try_match_sessions("s-2").unwrap();
    assert_eq!(found.len(), 1);
    assert_eq!(found[0].id, SessionId::new("s-2".into()));
}
