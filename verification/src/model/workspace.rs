//! Projects and sessions: what is known of each, and the rows that the sidebar
//! shows of them.

use vstd::prelude::*;

use crate::fuzzy::{
    all_searchable, best_score, best_scores, can_search_all, field_texts, fuzzy_score,
    law_best_score_is_the_greatest, law_matches_are_the_best_first, matched, rank_matches, scores,
};
use crate::order::{law_ranking_is_stable, numbers, rank, ranked};
use crate::sets::TextSet;
use crate::text::{copy_opt, opt_text, same, texts, trim, trimmed, whitespace};
use crate::text_laws::law_blank_texts_are_whitespace;
use crate::wire::{SessionId, WorkspaceId};

verus! {

/// More sessions than this are not kept.
pub const SESSION_CAP: usize = 20_000;

/// How many of the latest sessions stay where there are too many.
pub const SESSION_KEEP: usize = 5_000;

/// What is known of a session.
#[derive(Debug, PartialEq, Eq)]
pub struct SessionMeta {
    pub id: SessionId,
    pub title: Option<String>,
    pub cwd: Option<String>,
    pub updated_at_ms: i64,
    pub running: bool,
    pub blank: bool,
    pub origin: Option<String>,
    pub parent_id: Option<String>,
    pub workspace: Option<WorkspaceId>,
    pub last_turn_preview: Option<String>,
}

/// What is known of a session, with texts as characters.
pub struct MetaView {
    pub id: Seq<char>,
    pub title: Option<Seq<char>>,
    pub cwd: Option<Seq<char>>,
    pub updated_at_ms: i64,
    pub running: bool,
    pub blank: bool,
    pub origin: Option<Seq<char>>,
    pub parent_id: Option<Seq<char>>,
    pub workspace: Option<Seq<char>>,
    pub last_turn_preview: Option<Seq<char>>,
}

/// The view of an optional project.
pub open spec fn opt_workspace(o: Option<WorkspaceId>) -> Option<Seq<char>> {
    match o {
        Some(w) => Some(w@),
        None => None,
    }
}

impl View for SessionMeta {
    type V = MetaView;

    open spec fn view(&self) -> MetaView {
        MetaView {
            id: self.id@,
            title: opt_text(self.title),
            cwd: opt_text(self.cwd),
            updated_at_ms: self.updated_at_ms,
            running: self.running,
            blank: self.blank,
            origin: opt_text(self.origin),
            parent_id: opt_text(self.parent_id),
            workspace: opt_workspace(self.workspace),
            last_turn_preview: opt_text(self.last_turn_preview),
        }
    }
}

impl Clone for SessionMeta {
    fn clone(&self) -> (r: Self)
        ensures
            r@ == self@,
    {
        SessionMeta {
            id: self.id.clone(),
            title: copy_opt(&self.title),
            cwd: copy_opt(&self.cwd),
            updated_at_ms: self.updated_at_ms,
            running: self.running,
            blank: self.blank,
            origin: copy_opt(&self.origin),
            parent_id: copy_opt(&self.parent_id),
            workspace: match &self.workspace {
                Some(w) => Some(w.clone()),
                None => None,
            },
            last_turn_preview: copy_opt(&self.last_turn_preview),
        }
    }
}

/// The views of a list of sessions.
pub open spec fn metas(v: Seq<SessionMeta>) -> Seq<MetaView> {
    v.map_values(|m: SessionMeta| m@)
}

/// A project and its sessions, in the order that the user gave them.
#[derive(Debug, PartialEq, Eq)]
pub struct WorkspaceMeta {
    pub id: WorkspaceId,
    pub title: Option<String>,
    pub session_ids: Vec<SessionId>,
}

/// A project, with texts as characters.
#[verifier::ext_equal]
pub struct GroupView {
    pub id: Seq<char>,
    pub title: Option<Seq<char>>,
    pub session_ids: Seq<Seq<char>>,
}

/// The identities of sessions, as characters.
pub open spec fn ids(v: Seq<SessionId>) -> Seq<Seq<char>> {
    v.map_values(|s: SessionId| s@)
}

impl View for WorkspaceMeta {
    type V = GroupView;

    open spec fn view(&self) -> GroupView {
        GroupView {
            id: self.id@,
            title: opt_text(self.title),
            session_ids: ids(self.session_ids@),
        }
    }
}

/// The views of a list of projects.
pub open spec fn groups(v: Seq<WorkspaceMeta>) -> Seq<GroupView> {
    v.map_values(|w: WorkspaceMeta| w@)
}

/// How the sidebar groups sessions.
#[derive(Debug, Clone, Copy, PartialEq, Eq, Structural)]
pub enum GroupBy {
    /// By project; without any project, all in one list.
    Workspace,
    /// All in one list, the latest first.
    Flat,
}

impl Default for GroupBy {
    fn default() -> (r: Self)
        ensures
            r == GroupBy::Workspace,
    {
        GroupBy::Workspace
    }
}

impl GroupBy {
    /// The word for a grouping.
    pub fn as_str(&self) -> (r: &'static str)
        ensures
            r@ == match *self {
                GroupBy::Workspace => "workspace"@,
                GroupBy::Flat => "flat"@,
            },
    {
        match self {
            GroupBy::Workspace => "workspace",
            GroupBy::Flat => "flat",
        }
    }
}

/// How the sidebar orders the sessions of a project.
#[derive(Debug, Clone, Copy, PartialEq, Eq, Structural)]
pub enum OrderBy {
    /// As the user ordered them.
    Manual,
    /// The latest first.
    Updated,
}

impl Default for OrderBy {
    fn default() -> (r: Self)
        ensures
            r == OrderBy::Updated,
    {
        OrderBy::Updated
    }
}

impl OrderBy {
    /// The word for an order.
    pub fn as_str(&self) -> (r: &'static str)
        ensures
            r@ == match *self {
                OrderBy::Manual => "manual"@,
                OrderBy::Updated => "updated"@,
            },
    {
        match self {
            OrderBy::Manual => "manual",
            OrderBy::Updated => "updated",
        }
    }
}

/// How the sidebar shows projects and sessions.
#[derive(Debug, Clone, PartialEq, Eq)]
pub struct WorkspaceViewState {
    pub group_by: GroupBy,
    pub order_by: OrderBy,
    /// Projects that are folded.
    pub collapsed: TextSet,
}

impl Default for WorkspaceViewState {
    fn default() -> (r: Self)
        ensures
            r.group_by == GroupBy::Workspace,
            r.order_by == OrderBy::Updated,
            r.collapsed@ == Set::<Seq<char>>::empty(),
    {
        WorkspaceViewState {
            group_by: GroupBy::Workspace,
            order_by: OrderBy::Updated,
            collapsed: TextSet::new(),
        }
    }
}

/// The identities of the first `n` projects.
pub open spec fn group_ids(gs: Seq<GroupView>, n: nat) -> Set<Seq<char>>
    decreases n,
{
    if n == 0 {
        Set::empty()
    } else {
        group_ids(gs, (n - 1) as nat).insert(gs[n - 1].id)
    }
}

/// The view that follows another: first the order changes, then the grouping,
/// and so round through all four.
pub open spec fn next_view(g: GroupBy, o: OrderBy) -> (GroupBy, OrderBy) {
    match (g, o) {
        (GroupBy::Workspace, OrderBy::Updated) => (GroupBy::Workspace, OrderBy::Manual),
        (GroupBy::Workspace, OrderBy::Manual) => (GroupBy::Flat, OrderBy::Manual),
        (GroupBy::Flat, OrderBy::Manual) => (GroupBy::Flat, OrderBy::Updated),
        (GroupBy::Flat, OrderBy::Updated) => (GroupBy::Workspace, OrderBy::Updated),
    }
}

impl WorkspaceViewState {
    /// Folds every project.
    pub fn collapse_all(&mut self, store: &WorkspaceStore)
        ensures
            final(self).collapsed@ == old(self).collapsed@.union(
                group_ids(groups(store.workspaces@), store.workspaces@.len()),
            ),
            final(self).group_by == old(self).group_by,
            final(self).order_by == old(self).order_by,
    {
        let ghost gs = groups(store.workspaces@);
        let ghost before = self.collapsed@;
        let mut i: usize = 0;
        assert(before =~= before.union(group_ids(gs, 0)));
        while i < store.workspaces.len()
            invariant
                i <= store.workspaces@.len(),
                gs == groups(store.workspaces@),
                self.collapsed@ == before.union(group_ids(gs, i as nat)),
                self.group_by == old(self).group_by,
                self.order_by == old(self).order_by,
            decreases store.workspaces@.len() - i,
        {
            self.collapsed.insert(store.workspaces[i].id.0.clone());
            assert(gs[i as int].id == store.workspaces@[i as int].id@);
            assert(self.collapsed@ =~= before.union(group_ids(gs, (i + 1) as nat)));
            i = i + 1;
        }
    }

    /// Unfolds every project.
    pub fn expand_all(&mut self)
        ensures
            final(self).collapsed@ == Set::<Seq<char>>::empty(),
            final(self).group_by == old(self).group_by,
            final(self).order_by == old(self).order_by,
    {
        self.collapsed.clear();
    }

    /// Folds a project that is unfolded, and the other way round.
    pub fn toggle(&mut self, id: &WorkspaceId)
        ensures
            final(self).collapsed@ == if old(self).collapsed@.contains(id@) {
                old(self).collapsed@.remove(id@)
            } else {
                old(self).collapsed@.insert(id@)
            },
            final(self).group_by == old(self).group_by,
            final(self).order_by == old(self).order_by,
    {
        if self.collapsed.contains(id.0.as_str()) {
            self.collapsed.remove(id.0.as_str());
        } else {
            self.collapsed.insert(id.0.clone());
        }
    }

    /// Whether a project is folded.
    pub fn is_collapsed(&self, id: &WorkspaceId) -> (r: bool)
        ensures
            r == self.collapsed@.contains(id@),
    {
        self.collapsed.contains(id.0.as_str())
    }

    /// Goes on to the next of the four views.
    pub fn cycle(&mut self)
        ensures
            (final(self).group_by, final(self).order_by) == next_view(
                old(self).group_by,
                old(self).order_by,
            ),
            final(self).collapsed == old(self).collapsed,
    {
        match (self.group_by, self.order_by) {
            (GroupBy::Workspace, OrderBy::Updated) => {
                self.order_by = OrderBy::Manual;
            },
            (GroupBy::Workspace, OrderBy::Manual) => {
                self.group_by = GroupBy::Flat;
            },
            (GroupBy::Flat, OrderBy::Manual) => {
                self.order_by = OrderBy::Updated;
            },
            (GroupBy::Flat, OrderBy::Updated) => {
                self.group_by = GroupBy::Workspace;
            },
        }
    }
}

/// Each step of the views changes one thing, and four steps lead back.
pub proof fn law_views_go_round(g: GroupBy, o: OrderBy)
    ensures
        (next_view(g, o).0 == g) != (next_view(g, o).1 == o),
        ({
            let a = next_view(g, o);
            let b = next_view(a.0, a.1);
            let c = next_view(b.0, b.1);
            next_view(c.0, c.1) == (g, o)
        }),
{
}

/// A row of the sidebar.
#[derive(Debug, Clone, PartialEq, Eq)]
pub enum SidebarRow {
    /// The head of a project.
    WorkspaceHeader { id: WorkspaceId, collapsed: bool },
    /// A session.
    Session(SessionId),
}

/// A row of the sidebar, with texts as characters.
pub enum RowView {
    Header { id: Seq<char>, collapsed: bool },
    Session(Seq<char>),
}

impl View for SidebarRow {
    type V = RowView;

    open spec fn view(&self) -> RowView {
        match *self {
            SidebarRow::WorkspaceHeader { id, collapsed } => RowView::Header {
                id: id@,
                collapsed,
            },
            SidebarRow::Session(id) => RowView::Session(id@),
        }
    }
}

impl SidebarRow {
    /// The session of a row.
    pub fn session_id(&self) -> (r: Option<&SessionId>)
        ensures
            match r {
                Some(s) => self@ == RowView::Session(s@),
                None => self@ is Header,
            },
    {
        match self {
            SidebarRow::Session(id) => Some(id),
            _ => None,
        }
    }

    /// The project whose head a row is.
    pub fn workspace_id(&self) -> (r: Option<&WorkspaceId>)
        ensures
            match r {
                Some(w) => self@ matches RowView::Header { id, .. } && id == w@,
                None => self@ is Session,
            },
    {
        match self {
            SidebarRow::WorkspaceHeader { id, .. } => Some(id),
            _ => None,
        }
    }
}

/// The views of a list of rows.
pub open spec fn rows_view(v: Seq<SidebarRow>) -> Seq<RowView> {
    v.map_values(|r: SidebarRow| r@)
}

/// Place of the first session with an identity; the length where there is none.
pub open spec fn meta_index(v: Seq<MetaView>, id: Seq<char>) -> nat
    decreases v.len(),
{
    if v.len() == 0 || v[0].id == id {
        0
    } else {
        1 + meta_index(v.skip(1), id)
    }
}

proof fn lemma_meta_index(v: Seq<MetaView>, id: Seq<char>, i: int)
    requires
        0 <= i <= v.len(),
        forall|j: int| 0 <= j < i ==> (#[trigger] v[j]).id != id,
        i < v.len() ==> v[i].id == id,
    ensures
        meta_index(v, id) == i,
    decreases v.len(),
{
    if i > 0 {
        assert(v[0].id != id);
        assert forall|j: int| 0 <= j < i - 1 implies (#[trigger] v.skip(1)[j]).id != id by {
            assert(v[j + 1].id != id);
        }
        lemma_meta_index(v.skip(1), id, i - 1);
    }
}

proof fn lemma_meta_found(v: Seq<MetaView>, id: Seq<char>)
    ensures
        meta_index(v, id) <= v.len(),
        meta_index(v, id) < v.len() ==> v[meta_index(v, id) as int].id == id,
        forall|j: int| 0 <= j < meta_index(v, id) ==> (#[trigger] v[j]).id != id,
    decreases v.len(),
{
    if v.len() > 0 && v[0].id != id {
        let rest = v.skip(1);
        lemma_meta_found(rest, id);
        assert forall|j: int| 0 <= j < meta_index(v, id) implies (#[trigger] v[j]).id != id by {
            if j > 0 {
                assert(rest[j - 1].id != id);
            }
        }
    }
}

/// Whether a session is known.
pub open spec fn known(v: Seq<MetaView>, id: Seq<char>) -> bool {
    meta_index(v, id) < v.len()
}

/// Times of the last change, to rank by.
pub open spec fn times(v: Seq<MetaView>) -> Seq<Option<i128>> {
    v.map_values(|m: MetaView| Some(m.updated_at_ms as i128))
}

/// Sessions by their last change, the latest first, as numbers.
pub open spec fn latest_first(v: Seq<MetaView>) -> Seq<int> {
    ranked(times(v), v.len())
}

/// Sessions by their last change, the latest first.
pub open spec fn sorted_metas(v: Seq<MetaView>) -> Seq<MetaView> {
    latest_first(v).map_values(|i: int| v[i])
}

/// The sessions with one put in its place, at the end where it is new.
pub open spec fn with_meta(v: Seq<MetaView>, m: MetaView) -> Seq<MetaView> {
    let i = meta_index(v, m.id);
    if i < v.len() {
        v.update(i as int, m)
    } else {
        v.push(m)
    }
}

/// The sessions after one was added: too many are cut to the latest.
pub open spec fn upserted(v: Seq<MetaView>, m: MetaView) -> Seq<MetaView> {
    let all = with_meta(v, m);
    if all.len() > SESSION_CAP {
        sorted_metas(all).take(SESSION_KEEP as int)
    } else {
        all
    }
}

/// Place of the first project with an identity; the length where there is none.
pub open spec fn group_index(v: Seq<GroupView>, id: Seq<char>) -> nat
    decreases v.len(),
{
    if v.len() == 0 || v[0].id == id {
        0
    } else {
        1 + group_index(v.skip(1), id)
    }
}

proof fn lemma_group_index(v: Seq<GroupView>, id: Seq<char>, i: int)
    requires
        0 <= i <= v.len(),
        forall|j: int| 0 <= j < i ==> (#[trigger] v[j]).id != id,
        i < v.len() ==> v[i].id == id,
    ensures
        group_index(v, id) == i,
    decreases v.len(),
{
    if i > 0 {
        assert(v[0].id != id);
        assert forall|j: int| 0 <= j < i - 1 implies (#[trigger] v.skip(1)[j]).id != id by {
            assert(v[j + 1].id != id);
        }
        lemma_group_index(v.skip(1), id, i - 1);
    }
}

/// The texts of a session that are searched.
pub open spec fn meta_fields(m: MetaView) -> Seq<Seq<char>> {
    seq![
        m.id,
        or_nothing(m.title),
        or_nothing(m.cwd),
        or_nothing(m.workspace),
        or_nothing(m.last_turn_preview),
    ]
}

/// A text, or nothing.
pub open spec fn or_nothing(o: Option<Seq<char>>) -> Seq<char> {
    match o {
        Some(s) => s,
        None => Seq::empty(),
    }
}

/// The texts of each session that are searched.
pub open spec fn fields_of(v: Seq<MetaView>) -> Seq<Seq<Seq<char>>> {
    v.map_values(|m: MetaView| meta_fields(m))
}

/// The sessions that a query shows: all for a blank query, else those that
/// match, the best first; equal ones, and all for a blank query, the latest
/// first.
pub open spec fn found_metas(v: Seq<MetaView>, query: Seq<char>) -> Seq<MetaView> {
    let sorted = sorted_metas(v);
    if trimmed(query).len() == 0 {
        sorted
    } else {
        matched(best_scores(trimmed(query), fields_of(sorted))).map_values(|i: int| sorted[i])
    }
}

fn text_or_nothing(o: &Option<String>) -> (r: String)
    ensures
        r@ == or_nothing(opt_text(*o)),
{
    match o {
        Some(s) => s.clone(),
        None => {
            let r = String::new();
            assert(r@ =~= Seq::<char>::empty());
            r
        },
    }
}

/// What the sidebar draws on: the projects and the sessions.
#[derive(Debug)]
pub struct WorkspaceStore {
    pub workspaces: Vec<WorkspaceMeta>,
    pub sessions: Vec<SessionMeta>,
    /// Where the list of sessions goes on; none at its end.
    pub next_cursor: Option<String>,
}

impl WorkspaceStore {
    /// A store without projects and sessions.
    pub fn new() -> (r: WorkspaceStore)
        ensures
            r.workspaces@.len() == 0,
            r.sessions@.len() == 0,
            r.next_cursor is None,
    {
        WorkspaceStore { workspaces: Vec::new(), sessions: Vec::new(), next_cursor: None }
    }

    fn position(&self, id: &str) -> (r: usize)
        ensures
            r == meta_index(metas(self.sessions@), id@),
            r <= self.sessions@.len(),
    {
        let ghost v = metas(self.sessions@);
        let n: usize = self.sessions.len();
        let mut i: usize = 0;
        while i < n
            invariant
                i <= n,
                n == self.sessions@.len(),
                v == metas(self.sessions@),
                forall|j: int| 0 <= j < i ==> (#[trigger] v[j]).id != id@,
            decreases n - i,
        {
            assert(v[i as int].id == self.sessions@[i as int].id@);
            if same(self.sessions[i].id.0.as_str(), id) {
                proof {
                    lemma_meta_index(v, id@, i as int);
                }
                return i;
            }
            i = i + 1;
        }
        proof {
            lemma_meta_index(v, id@, i as int);
        }
        i
    }

    /// The session with an identity.
    pub fn session(&self, id: &SessionId) -> (r: Option<&SessionMeta>)
        ensures
            match r {
                Some(m) => known(metas(self.sessions@), id@) && m@ == metas(
                    self.sessions@,
                )[meta_index(metas(self.sessions@), id@) as int],
                None => !known(metas(self.sessions@), id@),
            },
    {
        let i: usize = self.position(id.0.as_str());
        if i < self.sessions.len() {
            Some(&self.sessions[i])
        } else {
            None
        }
    }

    /// Adds a session, or puts it in the place of what was known of it. Of
    /// more than 20000 sessions the 5000 latest are kept.
    pub fn upsert_session(&mut self, meta: SessionMeta)
        ensures
            metas(final(self).sessions@) == upserted(metas(old(self).sessions@), meta@),
            final(self).workspaces == old(self).workspaces,
            final(self).next_cursor == old(self).next_cursor,
    {
        let ghost before = metas(self.sessions@);
        let ghost m = meta@;
        let at: usize = self.position(meta.id.0.as_str());
        if at < self.sessions.len() {
            self.sessions.set(at, meta);
            assert(metas(self.sessions@) =~= before.update(at as int, m));
        } else {
            self.sessions.push(meta);
            assert(metas(self.sessions@) =~= before.push(m));
        }
        let ghost all = metas(self.sessions@);
        assert(all == with_meta(before, m));
        if self.sessions.len() > SESSION_CAP {
            let order = self.latest();
            proof {
                law_ranking_is_stable(times(all), all.len());
                lemma_full_ranking(all);
            }
            let mut kept: Vec<SessionMeta> = Vec::new();
            let mut i: usize = 0;
            while i < SESSION_KEEP
                invariant
                    i <= 5000,
                    order@.len() >= 5000,
                    all == metas(self.sessions@),
                    numbers(order@) == latest_first(all),
                    forall|k: int| 0 <= k < order@.len() ==> #[trigger] order@[k] < all.len(),
                    self.workspaces == old(self).workspaces,
                    self.next_cursor == old(self).next_cursor,
                    metas(kept@) == sorted_metas(all).take(i as int),
                decreases 5000 - i,
            {
                let ghost was = metas(kept@);
                let e = self.sessions[order[i]].clone();
                let ghost v = e@;
                kept.push(e);
                assert(metas(kept@) =~= was.push(v));
                assert(numbers(order@)[i as int] == order@[i as int]);
                assert(sorted_metas(all).take(i + 1) =~= sorted_metas(all).take(i as int).push(v));
                i = i + 1;
            }
            self.sessions = kept;
        }
    }

    /// The places of the sessions, the latest first.
    fn latest(&self) -> (r: Vec<usize>)
        ensures
            numbers(r@) == latest_first(metas(self.sessions@)),
            forall|k: int| 0 <= k < r@.len() ==> #[trigger] r@[k] < self.sessions@.len(),
    {
        let ghost v = metas(self.sessions@);
        let mut keys: Vec<Option<i128>> = Vec::new();
        let mut i: usize = 0;
        while i < self.sessions.len()
            invariant
                i <= self.sessions@.len(),
                v == metas(self.sessions@),
                keys@.len() == i,
                forall|k: int| 0 <= k < i ==> #[trigger] keys@[k] == times(v)[k],
            decreases self.sessions@.len() - i,
        {
            keys.push(Some(self.sessions[i].updated_at_ms as i128));
            i = i + 1;
        }
        assert(keys@ =~= times(v));
        rank(&keys)
    }

    /// Adds a session to a project, once; an unknown project is passed over.
    pub fn attach_session_to_workspace(&mut self, ws: &WorkspaceId, sid: &SessionId)
        ensures
            final(self).sessions == old(self).sessions,
            final(self).next_cursor == old(self).next_cursor,
            ({
                let before = groups(old(self).workspaces@);
                let i = group_index(before, ws@);
                groups(final(self).workspaces@) == if i < before.len()
                    && !before[i as int].session_ids.contains(sid@) {
                    before.update(
                        i as int,
                        GroupView {
                            session_ids: before[i as int].session_ids.push(sid@),
                            ..before[i as int]
                        },
                    )
                } else {
                    before
                }
            }),
    {
        let ghost before = groups(self.workspaces@);
        let i: usize = self.group_position(ws.0.as_str());
        if i < self.workspaces.len() {
            assert(before[i as int] == self.workspaces@[i as int]@);
            if !lists(&self.workspaces[i].session_ids, sid.0.as_str()) {
                let mut members: Vec<SessionId> = Vec::new();
                std::mem::swap(&mut members, &mut self.workspaces[i].session_ids);
                let ghost was = ids(members@);
                members.push(sid.clone());
                assert(ids(members@) =~= was.push(sid@));
                std::mem::swap(&mut members, &mut self.workspaces[i].session_ids);
                assert(self.workspaces@[i as int]@ =~= (GroupView {
                    session_ids: before[i as int].session_ids.push(sid@),
                    ..before[i as int]
                }));
                assert(groups(self.workspaces@) =~= before.update(
                    i as int,
                    self.workspaces@[i as int]@,
                ));
            }
        }
    }

    fn group_position(&self, id: &str) -> (r: usize)
        ensures
            r == group_index(groups(self.workspaces@), id@),
            r <= self.workspaces@.len(),
    {
        let ghost v = groups(self.workspaces@);
        let mut i: usize = 0;
        while i < self.workspaces.len()
            invariant
                i <= self.workspaces@.len(),
                v == groups(self.workspaces@),
                forall|j: int| 0 <= j < i ==> (#[trigger] v[j]).id != id@,
            decreases self.workspaces@.len() - i,
        {
            assert(v[i as int].id == self.workspaces@[i as int].id@);
            if same(self.workspaces[i].id.0.as_str(), id) {
                proof {
                    lemma_group_index(v, id@, i as int);
                }
                return i;
            }
            i = i + 1;
        }
        proof {
            lemma_group_index(v, id@, i as int);
        }
        i
    }

    /// Adds a project, or gives a known one a new title where there is one.
    pub fn upsert_workspace(&mut self, id: WorkspaceId, title: Option<String>)
        ensures
            final(self).sessions == old(self).sessions,
            final(self).next_cursor == old(self).next_cursor,
            ({
                let before = groups(old(self).workspaces@);
                let i = group_index(before, id@);
                groups(final(self).workspaces@) == if i >= before.len() {
                    before.push(
                        GroupView {
                            id: id@,
                            title: opt_text(title),
                            session_ids: Seq::empty(),
                        },
                    )
                } else if title is Some {
                    before.update(
                        i as int,
                        GroupView { title: opt_text(title), ..before[i as int] },
                    )
                } else {
                    before
                }
            }),
    {
        let ghost before = groups(self.workspaces@);
        let i: usize = self.group_position(id.0.as_str());
        if i < self.workspaces.len() {
            assert(before[i as int] == self.workspaces@[i as int]@);
            if title.is_some() {
                let ghost t = opt_text(title);
                let mut slot = title;
                std::mem::swap(&mut slot, &mut self.workspaces[i].title);
                assert(self.workspaces@[i as int]@ =~= (GroupView {
                    title: t,
                    ..before[i as int]
                }));
                assert(groups(self.workspaces@) =~= before.update(
                    i as int,
                    self.workspaces@[i as int]@,
                ));
            }
        } else {
            let w = WorkspaceMeta { id, title, session_ids: Vec::new() };
            assert(ids(w.session_ids@) =~= Seq::<Seq<char>>::empty());
            let ghost v = w@;
            self.workspaces.push(w);
            assert(groups(self.workspaces@) =~= before.push(v));
        }
    }

    /// Drops every project; the sessions stay.
    pub fn clear_workspaces(&mut self)
        ensures
            final(self).workspaces@.len() == 0,
            final(self).sessions == old(self).sessions,
            final(self).next_cursor == old(self).next_cursor,
    {
        self.workspaces.clear();
    }

    /// Number of sessions.
    pub fn session_count(&self) -> (r: usize)
        ensures
            r == self.sessions@.len(),
    {
        self.sessions.len()
    }

    /// The sessions, the latest first.
    pub fn sessions_sorted(&self) -> (r: Vec<&SessionMeta>)
        ensures
            r@.map_values(|m: &SessionMeta| m@) == sorted_metas(metas(self.sessions@)),
    {
        let ghost v = metas(self.sessions@);
        let order = self.latest();
        let mut r: Vec<&SessionMeta> = Vec::new();
        let mut i: usize = 0;
        while i < order.len()
            invariant
                i <= order@.len(),
                v == metas(self.sessions@),
                numbers(order@) == latest_first(v),
                forall|k: int| 0 <= k < order@.len() ==> #[trigger] order@[k] < v.len(),
                r@.len() == i,
                forall|k: int| 0 <= k < i ==> (#[trigger] r@[k])@ == sorted_metas(v)[k],
            decreases order@.len() - i,
        {
            assert(numbers(order@)[i as int] == order@[i as int]);
            r.push(&self.sessions[order[i]]);
            i = i + 1;
        }
        assert(r@.map_values(|m: &SessionMeta| m@) =~= sorted_metas(v)) by {
            assert(latest_first(v).len() == order@.len());
        }
        r
    }

    /// Whether the sessions can be searched for a query.
    pub open spec fn answers(&self, query: Seq<char>) -> bool {
        trimmed(query).len() > 0 ==> all_searchable(
            trimmed(query),
            fields_of(sorted_metas(metas(self.sessions@))),
        )
    }

    /// The sessions that a query shows.
    pub fn match_sessions(&self, query: &str) -> (r: Vec<&SessionMeta>)
        requires
            self.answers(query@),
        ensures
            r@.map_values(|m: &SessionMeta| m@) == found_metas(metas(self.sessions@), query@),
    {
        let sorted = self.sessions_sorted();
        let needle = trim(query);
        if needle.as_str().is_empty() {
            return sorted;
        }
        let fields = search_fields(&sorted);
        let found = scores(needle.as_str(), &fields);
        pick_sessions(&sorted, &found)
    }

    /// The sessions that a query shows, none where the sessions cannot be
    /// searched for it.
    pub fn try_match_sessions(&self, query: &str) -> (r: Option<Vec<&SessionMeta>>)
        ensures
            r is Some == self.answers(query@),
            r is Some ==> r->0@.map_values(|m: &SessionMeta| m@) == found_metas(
                metas(self.sessions@),
                query@,
            ),
    {
        let needle = trim(query);
        if needle.as_str().is_empty() || can_search_all(
            needle.as_str(),
            &search_fields(&self.sessions_sorted()),
        ) {
            Some(self.match_sessions(query))
        } else {
            None
        }
    }
}

/// The texts of each session that are searched.
fn search_fields(sorted: &Vec<&SessionMeta>) -> (r: Vec<Vec<String>>)
    ensures
        field_texts(r@) == fields_of(sorted@.map_values(|m: &SessionMeta| m@)),
{
    let ghost rows = sorted@.map_values(|m: &SessionMeta| m@);
    let mut fields: Vec<Vec<String>> = Vec::new();
    let mut i: usize = 0;
    while i < sorted.len()
        invariant
            i <= sorted@.len(),
            sorted@.map_values(|m: &SessionMeta| m@) == rows,
            fields@.len() == i,
            forall|k: int|
                0 <= k < i ==> texts((#[trigger] fields@[k])@) == meta_fields(rows[k]),
        decreases sorted@.len() - i,
    {
        let m: &SessionMeta = sorted[i];
        assert(sorted@.map_values(|m: &SessionMeta| m@)[i as int] == m@);
        let mut f: Vec<String> = Vec::new();
        f.push(m.id.0.clone());
        f.push(text_or_nothing(&m.title));
        f.push(text_or_nothing(&m.cwd));
        f.push(
            match &m.workspace {
                Some(w) => w.0.clone(),
                None => {
                    let e = String::new();
                    assert(e@ =~= Seq::<char>::empty());
                    e
                },
            },
        );
        f.push(text_or_nothing(&m.last_turn_preview));
        assert(texts(f@) =~= meta_fields(rows[i as int]));
        fields.push(f);
        i = i + 1;
    }
    assert(field_texts(fields@) =~= fields_of(rows));
    fields
}

/// The sessions with a score, the best first, equal ones in their order.
pub fn pick_sessions<'a>(sorted: &Vec<&'a SessionMeta>, found: &Vec<Option<u32>>) -> (r: Vec<
    &'a SessionMeta,
>)
    requires
        found@.len() == sorted@.len(),
    ensures
        r@ == matched(found@).map_values(|i: int| sorted@[i]),
        r@.map_values(|m: &SessionMeta| m@) == matched(found@).map_values(
            |i: int| sorted@.map_values(|m: &SessionMeta| m@)[i],
        ),
{
    let order = rank_matches(found);
    let mut r: Vec<&'a SessionMeta> = Vec::new();
    let mut i: usize = 0;
    while i < order.len()
        invariant
            i <= order@.len(),
            found@.len() == sorted@.len(),
            forall|k: int| 0 <= k < order@.len() ==> #[trigger] order@[k] < found@.len(),
            r@.len() == i,
            forall|k: int| 0 <= k < i ==> #[trigger] r@[k] == sorted@[order@[k] as int],
        decreases order@.len() - i,
    {
        r.push(sorted[order[i]]);
        i = i + 1;
    }
    proof {
        assert forall|k: int| 0 <= k < r@.len() implies 0 <= matched(found@)[k] < sorted@.len()
            && #[trigger] r@[k] == sorted@[matched(found@)[k]] by {
            assert(numbers(order@)[k] == order@[k]);
        }
        assert(r@ =~= matched(found@).map_values(|i: int| sorted@[i]));
        assert(r@.map_values(|m: &SessionMeta| m@) =~= matched(found@).map_values(
            |i: int| sorted@.map_values(|m: &SessionMeta| m@)[i],
        ));
    }
    r
}

/// Every session is ranked.
proof fn lemma_full_ranking(v: Seq<MetaView>)
    ensures
        latest_first(v).len() == v.len(),
{
    lemma_full_ranking_to(v, v.len());
}

proof fn lemma_full_ranking_to(v: Seq<MetaView>, n: nat)
    requires
        n <= v.len(),
    ensures
        ranked(times(v), n).len() == n,
    decreases n,
{
    if n > 0 {
        lemma_full_ranking_to(v, (n - 1) as nat);
        let before = ranked(times(v), (n - 1) as nat);
        lemma_slot_range(before, times(v), v[n - 1].updated_at_ms as i128);
    }
}

proof fn lemma_slot_range(order: Seq<int>, s: Seq<Option<i128>>, x: i128)
    ensures
        0 <= crate::order::slot(order, s, x) <= order.len(),
    decreases order.len(),
{
    if order.len() > 0 && s[order.last()]->0 < x {
        lemma_slot_range(order.drop_last(), s, x);
    }
}

/// Whether a list holds a session.
fn lists(v: &Vec<SessionId>, id: &str) -> (r: bool)
    ensures
        r == ids(v@).contains(id@),
{
    let ghost all = ids(v@);
    let mut i: usize = 0;
    while i < v.len()
        invariant
            i <= v@.len(),
            all == ids(v@),
            forall|j: int| 0 <= j < i ==> #[trigger] all[j] != id@,
        decreases v@.len() - i,
    {
        assert(all[i as int] == v@[i as int]@);
        if same(v[i].0.as_str(), id) {
            return true;
        }
        i = i + 1;
    }
    false
}

/// The sessions of a project that are known, in the user's order.
pub open spec fn present(v: Seq<MetaView>, g: GroupView) -> Seq<Seq<char>> {
    g.session_ids.filter(|id: Seq<char>| known(v, id))
}

/// Times of the last change of known sessions, to rank by.
pub open spec fn member_times(v: Seq<MetaView>, p: Seq<Seq<char>>) -> Seq<Option<i128>> {
    p.map_values(|id: Seq<char>| Some(v[meta_index(v, id) as int].updated_at_ms as i128))
}

/// The sessions of a project, in the order that is shown.
pub open spec fn members(v: Seq<MetaView>, g: GroupView, o: OrderBy) -> Seq<Seq<char>> {
    let p = present(v, g);
    match o {
        OrderBy::Manual => p,
        OrderBy::Updated => ranked(member_times(v, p), p.len()).map_values(|i: int| p[i]),
    }
}

/// Rows of sessions.
pub open spec fn session_rows(v: Seq<Seq<char>>) -> Seq<RowView> {
    v.map_values(|id: Seq<char>| RowView::Session(id))
}

/// The rows of a project: its head, and its sessions where it is unfolded.
pub open spec fn project_rows(
    v: Seq<MetaView>,
    g: GroupView,
    o: OrderBy,
    folded: Set<Seq<char>>,
) -> Seq<RowView> {
    let head = seq![RowView::Header { id: g.id, collapsed: folded.contains(g.id) }];
    if folded.contains(g.id) {
        head
    } else {
        head + session_rows(members(v, g, o))
    }
}

/// The rows of the first `n` projects.
pub open spec fn projects_rows(
    v: Seq<MetaView>,
    gs: Seq<GroupView>,
    o: OrderBy,
    folded: Set<Seq<char>>,
    n: nat,
) -> Seq<RowView>
    decreases n,
{
    if n == 0 {
        Seq::empty()
    } else {
        projects_rows(v, gs, o, folded, (n - 1) as nat) + project_rows(v, gs[n - 1], o, folded)
    }
}

/// Whether a session belongs to a project.
pub open spec fn grouped(gs: Seq<GroupView>, id: Seq<char>) -> bool {
    exists|i: int| 0 <= i < gs.len() && (#[trigger] gs[i]).session_ids.contains(id)
}

/// The sessions without a project, the latest first.
pub open spec fn free_sessions(v: Seq<MetaView>, gs: Seq<GroupView>) -> Seq<MetaView> {
    sorted_metas(v).filter(|m: MetaView| !grouped(gs, m.id))
}

/// Rows of sessions by what is known of them.
pub open spec fn meta_rows(v: Seq<MetaView>) -> Seq<RowView> {
    v.map_values(|m: MetaView| RowView::Session(m.id))
}

/// The rows of the sidebar.
pub open spec fn sidebar(
    g: GroupBy,
    o: OrderBy,
    folded: Set<Seq<char>>,
    gs: Seq<GroupView>,
    v: Seq<MetaView>,
) -> Seq<RowView> {
    if g == GroupBy::Flat || gs.len() == 0 {
        meta_rows(sorted_metas(v))
    } else {
        projects_rows(v, gs, o, folded, gs.len()) + meta_rows(free_sessions(v, gs))
    }
}

/// The rows of the sidebar. In one list: every session, the latest first. By
/// project: the head of each project and, where it is unfolded, its known
/// sessions in the chosen order; then the sessions without a project, the
/// latest first.
pub fn sidebar_rows(view: &WorkspaceViewState, store: &WorkspaceStore) -> (r: Vec<SidebarRow>)
    ensures
        rows_view(r@) == sidebar(
            view.group_by,
            view.order_by,
            view.collapsed@,
            groups(store.workspaces@),
            metas(store.sessions@),
        ),
{
    let ghost v = metas(store.sessions@);
    let ghost gs = groups(store.workspaces@);
    let ghost folded = view.collapsed@;
    let ghost o = view.order_by;
    let sorted = store.sessions_sorted();
    let ghost all = sorted_metas(v);
    let mut rows: Vec<SidebarRow> = Vec::new();
    if view.group_by == GroupBy::Flat || store.workspaces.len() == 0 {
        let mut i: usize = 0;
        while i < sorted.len()
            invariant
                i <= sorted@.len(),
                sorted@.map_values(|m: &SessionMeta| m@) == all,
                rows@.len() == i,
                forall|k: int| 0 <= k < i ==> (#[trigger] rows@[k])@ == meta_rows(all)[k],
            decreases sorted@.len() - i,
        {
            assert(sorted@.map_values(|m: &SessionMeta| m@)[i as int] == sorted@[i as int]@);
            rows.push(SidebarRow::Session(sorted[i].id.clone()));
            i = i + 1;
        }
        assert(rows_view(rows@) =~= meta_rows(all));
        return rows;
    }
    let mut w: usize = 0;
    assert(rows_view(rows@) =~= projects_rows(v, gs, o, folded, 0));
    while w < store.workspaces.len()
        invariant
            w <= store.workspaces@.len(),
            v == metas(store.sessions@),
            gs == groups(store.workspaces@),
            folded == view.collapsed@,
            o == view.order_by,
            rows_view(rows@) == projects_rows(v, gs, o, folded, w as nat),
        decreases store.workspaces@.len() - w,
    {
        let ghost base = rows_view(rows@);
        let workspace = &store.workspaces[w];
        assert(gs[w as int] == workspace@);
        let collapsed = view.is_collapsed(&workspace.id);
        rows.push(SidebarRow::WorkspaceHeader { id: workspace.id.clone(), collapsed });
        let ghost head = RowView::Header { id: workspace@.id, collapsed };
        assert(rows_view(rows@) =~= base.push(head));
        assert(base.push(head) =~= base + seq![head]);
        if !collapsed {
            let shown = store.ordered_members(workspace, view.order_by);
            let ghost m = ids(shown@);
            let mut i: usize = 0;
            assert(session_rows(m.take(0)) =~= Seq::<RowView>::empty());
            assert(base + seq![head] =~= base + seq![head] + session_rows(m.take(0)));
            while i < shown.len()
                invariant
                    i <= shown@.len(),
                    m == ids(shown@),
                    rows_view(rows@) == base + seq![head] + session_rows(m.take(i as int)),
                decreases shown@.len() - i,
            {
                let ghost before = rows_view(rows@);
                let id = shown[i].clone();
                let ghost row = RowView::Session(id@);
                rows.push(SidebarRow::Session(id));
                assert(rows_view(rows@) =~= before.push(row));
                assert(session_rows(m.take(i + 1)) =~= session_rows(m.take(i as int)).push(row));
                assert(rows_view(rows@) =~= base + seq![head] + session_rows(m.take(i + 1)));
                i = i + 1;
            }
            assert(m.take(i as int) =~= m);
            assert(base + seq![head] + session_rows(m) =~= base + (seq![head] + session_rows(m)));
        }
        w = w + 1;
    }
    let ghost base = rows_view(rows@);
    let ghost p = |m: MetaView| !grouped(gs, m.id);
    let mut i: usize = 0;
    assert(all.take(0).filter(p) =~= Seq::<MetaView>::empty()) by {
        reveal(Seq::filter);
    }
    assert(base =~= base + meta_rows(all.take(0).filter(p)));
    while i < sorted.len()
        invariant
            i <= sorted@.len(),
            gs == groups(store.workspaces@),
            sorted@.map_values(|m: &SessionMeta| m@) == all,
            p == (|m: MetaView| !grouped(gs, m.id)),
            rows_view(rows@) == base + meta_rows(all.take(i as int).filter(p)),
        decreases sorted@.len() - i,
    {
        reveal(Seq::filter);
        let meta: &SessionMeta = sorted[i];
        assert(sorted@.map_values(|m: &SessionMeta| m@)[i as int] == meta@);
        assert(all.take(i + 1).drop_last() =~= all.take(i as int));
        let ghost before = rows_view(rows@);
        let ghost kept = all.take(i as int).filter(p);
        if !store.is_grouped(meta.id.0.as_str()) {
            let ghost row = RowView::Session(meta@.id);
            rows.push(SidebarRow::Session(meta.id.clone()));
            assert(rows_view(rows@) =~= before.push(row));
            assert(meta_rows(kept.push(meta@)) =~= meta_rows(kept).push(row));
            assert(rows_view(rows@) =~= base + meta_rows(all.take(i + 1).filter(p)));
        }
        i = i + 1;
    }
    assert(all.take(i as int) =~= all);
    rows
}

impl WorkspaceStore {
    /// The known sessions of a project, in the chosen order.
    fn ordered_members(&self, w: &WorkspaceMeta, o: OrderBy) -> (r: Vec<SessionId>)
        ensures
            ids(r@) == members(metas(self.sessions@), w@, o),
    {
        let ghost v = metas(self.sessions@);
        let ghost list = w@.session_ids;
        let ghost p = |id: Seq<char>| known(v, id);
        let mut kept: Vec<SessionId> = Vec::new();
        let mut keys: Vec<Option<i128>> = Vec::new();
        let mut i: usize = 0;
        assert(list.take(0).filter(p) =~= Seq::<Seq<char>>::empty()) by {
            reveal(Seq::filter);
        }
        assert(ids(kept@) =~= list.take(0).filter(p));
        while i < w.session_ids.len()
            invariant
                i <= w.session_ids@.len(),
                v == metas(self.sessions@),
                list == ids(w.session_ids@),
                p == (|id: Seq<char>| known(v, id)),
                ids(kept@) == list.take(i as int).filter(p),
                keys@ == member_times(v, ids(kept@)),
            decreases w.session_ids@.len() - i,
        {
            reveal(Seq::filter);
            assert(list.take(i + 1).drop_last() =~= list.take(i as int));
            assert(list[i as int] == w.session_ids@[i as int]@);
            let ghost before = ids(kept@);
            let ghost kb = keys@;
            let found = self.session(&w.session_ids[i]);
            if let Some(m) = found {
                keys.push(Some(m.updated_at_ms as i128));
                kept.push(w.session_ids[i].clone());
                assert(ids(kept@) =~= before.push(list[i as int]));
                assert(keys@ =~= member_times(v, ids(kept@)));
            }
            i = i + 1;
        }
        assert(list.take(i as int) =~= list);
        match o {
            OrderBy::Manual => kept,
            OrderBy::Updated => {
                let order = rank(&keys);
                let ghost pr = ids(kept@);
                let mut r: Vec<SessionId> = Vec::new();
                let mut k: usize = 0;
                while k < order.len()
                    invariant
                        k <= order@.len(),
                        pr == ids(kept@),
                        keys@ == member_times(v, pr),
                        numbers(order@) == ranked(keys@, keys@.len()),
                        forall|n: int|
                            0 <= n < order@.len() ==> #[trigger] order@[n] < keys@.len(),
                        r@.len() == k,
                        forall|n: int|
                            0 <= n < k ==> (#[trigger] r@[n])@ == pr[order@[n] as int],
                    decreases order@.len() - k,
                {
                    r.push(kept[order[k]].clone());
                    k = k + 1;
                }
                proof {
                    assert forall|n: int| 0 <= n < r@.len() implies (#[trigger] r@[n])@
                        == pr[ranked(keys@, keys@.len())[n]] by {
                        assert(numbers(order@)[n] == order@[n]);
                    }
                    assert(ids(r@) =~= ranked(keys@, keys@.len()).map_values(|i: int| pr[i]));
                }
                r
            },
        }
    }

    /// Whether a session belongs to a project.
    fn is_grouped(&self, id: &str) -> (r: bool)
        ensures
            r == grouped(groups(self.workspaces@), id@),
    {
        let ghost gs = groups(self.workspaces@);
        let mut i: usize = 0;
        while i < self.workspaces.len()
            invariant
                i <= self.workspaces@.len(),
                gs == groups(self.workspaces@),
                forall|k: int| 0 <= k < i ==> !(#[trigger] gs[k]).session_ids.contains(id@),
            decreases self.workspaces@.len() - i,
        {
            assert(gs[i as int] == self.workspaces@[i as int]@);
            if lists(&self.workspaces[i].session_ids, id) {
                return true;
            }
            i = i + 1;
        }
        false
    }
}

/// Whether no identity occurs twice.
pub open spec fn distinct_ids(v: Seq<MetaView>) -> bool {
    forall|i: int, j: int| 0 <= i < j < v.len() ==> (#[trigger] v[i]).id != (#[trigger] v[j]).id
}

/// Adding a session keeps one entry for each identity and the number of
/// sessions bounded.
pub proof fn law_sessions_stay_bounded(v: Seq<MetaView>, m: MetaView)
    requires
        distinct_ids(v),
        v.len() <= SESSION_CAP,
    ensures
        distinct_ids(upserted(v, m)),
        upserted(v, m).len() <= SESSION_CAP,
{
    lemma_meta_found(v, m.id);
    let all = with_meta(v, m);
    assert(distinct_ids(all));
    if all.len() > SESSION_CAP {
        let times = times(all);
        law_ranking_is_stable(times, all.len());
        lemma_full_ranking(all);
        let order = latest_first(all);
        let kept = upserted(v, m);
        assert forall|i: int, j: int| 0 <= i < j < kept.len() implies (#[trigger] kept[i]).id != (
        #[trigger] kept[j]).id by {
            let a = order[i];
            let b = order[j];
            assert(crate::order::stands_before(times, a, b));
            assert(a != b);
            if a < b {
                assert(all[a].id != all[b].id);
            } else {
                assert(all[b].id != all[a].id);
            }
        }
    }
}

/// Of too many sessions those that stay are at least as recent as those that
/// go.
pub proof fn law_latest_sessions_stay(v: Seq<MetaView>, i: int, j: int)
    requires
        0 <= i < j < v.len(),
    ensures
        sorted_metas(v).len() == v.len(),
        sorted_metas(v)[i].updated_at_ms >= sorted_metas(v)[j].updated_at_ms,
{
    law_ranking_is_stable(times(v), v.len());
    lemma_full_ranking(v);
    let order = latest_first(v);
    assert(crate::order::stands_before(times(v), order[i], order[j]));
    assert(0 <= order[i] < v.len() && 0 <= order[j] < v.len());
}

/// What is known of a session is replaced where it is known, and added behind
/// the others where it is new; every other session stays as it is and where it
/// is, as long as there are not too many.
pub proof fn law_session_is_updated_in_place(v: Seq<MetaView>, m: MetaView, k: int)
    requires
        v.len() < 20_000,
        0 <= k <= v.len(),
        forall|j: int| 0 <= j < k ==> (#[trigger] v[j]).id != m.id,
        k < v.len() ==> v[k].id == m.id,
    ensures
        ({
            let out = upserted(v, m);
            &&& out[k] == m
            &&& k < v.len() ==> out.len() == v.len()
            &&& k == v.len() ==> out.len() == v.len() + 1
            &&& forall|j: int| 0 <= j < v.len() && j != k ==> out[j] == #[trigger] v[j]
        }),
{
    lemma_meta_index(v, m.id, k);
}

/// Sorting by the last change loses no session and makes none up: each is
/// there as it was, the latest first, and of equally late ones the one that
/// was listed first.
pub proof fn law_sorting_keeps_every_session(v: Seq<MetaView>)
    ensures
        sorted_metas(v).len() == v.len(),
        forall|i: int|
            0 <= i < v.len() ==> sorted_metas(v).contains(#[trigger] v[i]),
        forall|k: int|
            0 <= k < sorted_metas(v).len() ==> v.contains(#[trigger] sorted_metas(v)[k]),
        forall|a: int, b: int|
            0 <= a < b < sorted_metas(v).len() ==> (#[trigger] sorted_metas(v)[a]).updated_at_ms
                >= (#[trigger] sorted_metas(v)[b]).updated_at_ms,
{
    let order = latest_first(v);
    let keys = times(v);
    lemma_full_ranking(v);
    law_ranking_is_stable(keys, v.len());
    let out = sorted_metas(v);
    assert forall|i: int| 0 <= i < v.len() implies out.contains(#[trigger] v[i]) by {
        assert(keys[i] is Some);
        assert(order.contains(i));
        let k = choose|k: int| 0 <= k < order.len() && order[k] == i;
        assert(out[k] == v[i]);
    }
    assert forall|k: int| 0 <= k < out.len() implies v.contains(#[trigger] out[k]) by {
        assert(0 <= order[k] < v.len());
        assert(out[k] == v[order[k]]);
    }
    assert forall|a: int, b: int| 0 <= a < b < out.len() implies (#[trigger] out[a]).updated_at_ms
        >= (#[trigger] out[b]).updated_at_ms by {
        assert(out[a] == v[order[a]] && out[b] == v[order[b]]);
        assert(crate::order::stands_before(keys, order[a], order[b]));
        assert(keys[order[a]] == Some(v[order[a]].updated_at_ms as i128));
    }
}

/// Of too many sessions exactly the latest are kept: as many as are to stay,
/// and none that goes is later than one that stays.
pub proof fn law_too_many_sessions_are_cut(v: Seq<MetaView>, m: MetaView)
    requires
        v.len() == 20_000,
        forall|j: int| 0 <= j < v.len() ==> (#[trigger] v[j]).id != m.id,
    ensures
        upserted(v, m).len() == 5_000,
        forall|k: int|
            0 <= k < 5_000 ==> v.push(m).contains(#[trigger] upserted(v, m)[k]),
        forall|x: MetaView, k: int|
            v.push(m).contains(x) && !upserted(v, m).contains(x) && 0 <= k < 5_000 ==> x.updated_at_ms
                <= (#[trigger] upserted(v, m)[k]).updated_at_ms && #[trigger] v.push(m).contains(x),
{
    lemma_meta_index(v, m.id, v.len() as int);
    let all = v.push(m);
    law_sorting_keeps_every_session(all);
    let sorted = sorted_metas(all);
    let out = upserted(v, m);
    assert(out == sorted.take(5_000));
    assert forall|k: int| 0 <= k < 5_000 implies all.contains(#[trigger] out[k]) by {
        assert(out[k] == sorted[k]);
    }
    assert forall|x: MetaView, k: int|
        all.contains(x) && !out.contains(x) && 0 <= k < 5_000 implies x.updated_at_ms <= (
    #[trigger] out[k]).updated_at_ms && #[trigger] all.contains(x) by {
        let i = choose|i: int| 0 <= i < all.len() && all[i] == x;
        assert(sorted.contains(all[i]));
        let n = choose|n: int| 0 <= n < sorted.len() && sorted[n] == x;
        if n < 5_000 {
            assert(out[n] == x);
        }
        assert(out[k] == sorted[k]);
        assert(sorted[k].updated_at_ms >= sorted[n].updated_at_ms);
    }
}

/// In one list the sidebar shows every session once in the order of its last
/// change, and nothing else; so it does without any project.
pub proof fn law_flat_sidebar_shows_every_session(
    g: GroupBy,
    o: OrderBy,
    folded: Set<Seq<char>>,
    gs: Seq<GroupView>,
    v: Seq<MetaView>,
)
    requires
        g == GroupBy::Flat || gs.len() == 0,
    ensures
        sidebar(g, o, folded, gs, v).len() == v.len(),
        forall|k: int|
            0 <= k < v.len() ==> #[trigger] sidebar(g, o, folded, gs, v)[k] == RowView::Session(
                sorted_metas(v)[k].id,
            ),
        forall|i: int|
            0 <= i < v.len() ==> sidebar(g, o, folded, gs, v).contains(
                RowView::Session((#[trigger] v[i]).id),
            ),
{
    law_sorting_keeps_every_session(v);
    let out = sidebar(g, o, folded, gs, v);
    let sorted = sorted_metas(v);
    assert forall|i: int| 0 <= i < v.len() implies out.contains(
        RowView::Session((#[trigger] v[i]).id),
    ) by {
        assert(sorted.contains(v[i]));
        let k = choose|k: int| 0 <= k < sorted.len() && sorted[k] == v[i];
        assert(out[k] == RowView::Session(v[i].id));
    }
}

proof fn lemma_project_rows_part(
    v: Seq<MetaView>,
    gs: Seq<GroupView>,
    o: OrderBy,
    folded: Set<Seq<char>>,
    n: nat,
    i: int,
    r: RowView,
)
    requires
        n <= gs.len(),
        0 <= i < n,
        project_rows(v, gs[i], o, folded).contains(r),
    ensures
        projects_rows(v, gs, o, folded, n).contains(r),
    decreases n,
{
    let before = projects_rows(v, gs, o, folded, (n - 1) as nat);
    let last = project_rows(v, gs[n - 1], o, folded);
    if i < n - 1 {
        lemma_project_rows_part(v, gs, o, folded, (n - 1) as nat, i, r);
        let k = choose|k: int| 0 <= k < before.len() && before[k] == r;
        assert((before + last)[k] == r);
    } else {
        let k = choose|k: int| 0 <= k < last.len() && last[k] == r;
        assert((before + last)[before.len() + k] == r);
    }
}

proof fn lemma_kept_by_filter<T>(s: Seq<T>, keep: spec_fn(T) -> bool, x: T)
    requires
        s.contains(x),
        keep(x),
    ensures
        s.filter(keep).contains(x),
    decreases s.len(),
{
    reveal(Seq::filter);
    let i = choose|i: int| 0 <= i < s.len() && s[i] == x;
    if i == s.len() - 1 {
        assert(s.filter(keep).last() == x);
    } else {
        assert(s.drop_last()[i] == x);
        lemma_kept_by_filter(s.drop_last(), keep, x);
        let f = s.drop_last().filter(keep);
        let n = choose|n: int| 0 <= n < f.len() && f[n] == x;
        assert(s.filter(keep)[n] == x);
    }
}

proof fn lemma_came_through_filter<T>(s: Seq<T>, keep: spec_fn(T) -> bool, x: T)
    requires
        s.filter(keep).contains(x),
    ensures
        s.contains(x),
        keep(x),
    decreases s.len(),
{
    reveal(Seq::filter);
    if s.len() > 0 {
        let rest = s.drop_last();
        let f = s.filter(keep);
        let i = choose|i: int| 0 <= i < f.len() && f[i] == x;
        if keep(s.last()) && i == f.len() - 1 {
            assert(s[s.len() - 1] == x);
        } else {
            assert(rest.filter(keep)[i] == x);
            lemma_came_through_filter(rest, keep, x);
            let n = choose|n: int| 0 <= n < rest.len() && rest[n] == x;
            assert(s[n] == x);
        }
    }
}

/// The sessions of a project that are shown are the known ones on its list, and
/// all of them: as the user ordered them, or the latest first.
pub proof fn law_members_are_the_known_sessions(
    v: Seq<MetaView>,
    g: GroupView,
    o: OrderBy,
    id: Seq<char>,
)
    ensures
        members(v, g, o).contains(id) <==> g.session_ids.contains(id) && exists|i: int|
            0 <= i < v.len() && (#[trigger] v[i]).id == id,
{
    let keep = |x: Seq<char>| known(v, x);
    let p = present(v, g);
    lemma_meta_found(v, id);
    if p.contains(id) {
        lemma_came_through_filter(g.session_ids, keep, id);
    }
    if g.session_ids.contains(id) && known(v, id) {
        assert(keep(id));
        lemma_kept_by_filter(g.session_ids, keep, id);
    }
    assert(p.contains(id) <==> g.session_ids.contains(id) && known(v, id));
    assert(known(v, id) <==> exists|i: int| 0 <= i < v.len() && (#[trigger] v[i]).id == id) by {
        if known(v, id) {
            assert(v[meta_index(v, id) as int].id == id);
        }
    }
    if o == OrderBy::Updated {
        let keys = member_times(v, p);
        let order = ranked(keys, p.len());
        law_ranking_is_stable(keys, p.len());
        let out = members(v, g, o);
        if p.contains(id) {
            let i = choose|i: int| 0 <= i < p.len() && p[i] == id;
            assert(keys[i] is Some);
            assert(order.contains(i));
            let k = choose|k: int| 0 <= k < order.len() && order[k] == i;
            assert(out[k] == id);
        }
        if out.contains(id) {
            let k = choose|k: int| 0 <= k < out.len() && out[k] == id;
            assert(0 <= order[k] < p.len());
            assert(p[order[k]] == id);
        }
    }
}

/// By project, the latest sessions of a project come first where that order is
/// chosen.
pub proof fn law_members_are_the_latest_first(
    v: Seq<MetaView>,
    g: GroupView,
    a: int,
    b: int,
    i: int,
    j: int,
)
    requires
        distinct_ids(v),
        0 <= a < b < members(v, g, OrderBy::Updated).len(),
        0 <= i < v.len(),
        0 <= j < v.len(),
        v[i].id == members(v, g, OrderBy::Updated)[a],
        v[j].id == members(v, g, OrderBy::Updated)[b],
    ensures
        v[i].updated_at_ms >= v[j].updated_at_ms,
{
    let p = present(v, g);
    let keys = member_times(v, p);
    let order = ranked(keys, p.len());
    law_ranking_is_stable(keys, p.len());
    assert(crate::order::stands_before(keys, order[a], order[b]));
    assert(p[order[a]] == v[i].id && p[order[b]] == v[j].id);
    assert forall|n: int| 0 <= n < i implies (#[trigger] v[n]).id != v[i].id by {}
    assert forall|n: int| 0 <= n < j implies (#[trigger] v[n]).id != v[j].id by {}
    lemma_meta_index(v, v[i].id, i);
    lemma_meta_index(v, v[j].id, j);
    assert(keys[order[a]] == Some(v[i].updated_at_ms as i128));
    assert(keys[order[b]] == Some(v[j].updated_at_ms as i128));
}

/// By project the sidebar shows the head of every project, folded or not, and
/// the known sessions of each that is unfolded.
pub proof fn law_sidebar_shows_every_project(
    o: OrderBy,
    folded: Set<Seq<char>>,
    gs: Seq<GroupView>,
    v: Seq<MetaView>,
    i: int,
    m: int,
)
    requires
        0 <= i < gs.len(),
    ensures
        ({
            let out = sidebar(GroupBy::Workspace, o, folded, gs, v);
            &&& out.contains(
                RowView::Header { id: gs[i].id, collapsed: folded.contains(gs[i].id) },
            )
            &&& !folded.contains(gs[i].id) && 0 <= m < v.len() && gs[i].session_ids.contains(
                v[m].id,
            ) ==> out.contains(RowView::Session(v[m].id))
        }),
{
    let head = RowView::Header { id: gs[i].id, collapsed: folded.contains(gs[i].id) };
    let rows = project_rows(v, gs[i], o, folded);
    assert(rows[0] == head);
    lemma_project_rows_part(v, gs, o, folded, gs.len(), i, head);
    let all = projects_rows(v, gs, o, folded, gs.len());
    let free = meta_rows(free_sessions(v, gs));
    let k = choose|k: int| 0 <= k < all.len() && all[k] == head;
    assert((all + free)[k] == head);
    if !folded.contains(gs[i].id) && 0 <= m < v.len() && gs[i].session_ids.contains(v[m].id) {
        let id = v[m].id;
        law_members_are_the_known_sessions(v, gs[i], o, id);
        let list = members(v, gs[i], o);
        let n = choose|n: int| 0 <= n < list.len() && list[n] == id;
        assert(rows[n + 1] == RowView::Session(id));
        lemma_project_rows_part(v, gs, o, folded, gs.len(), i, RowView::Session(id));
        let q = choose|q: int| 0 <= q < all.len() && all[q] == RowView::Session(id);
        assert((all + free)[q] == RowView::Session(id));
    }
}

/// A session without a project is shown too, behind the projects: no session
/// is lost by grouping.
pub proof fn law_sidebar_shows_free_sessions(
    o: OrderBy,
    folded: Set<Seq<char>>,
    gs: Seq<GroupView>,
    v: Seq<MetaView>,
    m: int,
)
    requires
        gs.len() > 0,
        0 <= m < v.len(),
        forall|i: int| 0 <= i < gs.len() ==> !(#[trigger] gs[i]).session_ids.contains(v[m].id),
    ensures
        sidebar(GroupBy::Workspace, o, folded, gs, v).contains(RowView::Session(v[m].id)),
{
    law_sorting_keeps_every_session(v);
    let keep = |x: MetaView| !grouped(gs, x.id);
    let sorted = sorted_metas(v);
    assert(sorted.contains(v[m]));
    assert(keep(v[m]));
    lemma_kept_by_filter(sorted, keep, v[m]);
    let free = free_sessions(v, gs);
    let n = choose|n: int| 0 <= n < free.len() && free[n] == v[m];
    let all = projects_rows(v, gs, o, folded, gs.len());
    let rows = meta_rows(free);
    assert(rows[n] == RowView::Session(v[m].id));
    assert((all + rows)[all.len() + n] == RowView::Session(v[m].id));
}

/// Folding every project folds each of them and no other.
pub proof fn law_folding_all_folds_each(gs: Seq<GroupView>, n: nat, id: Seq<char>)
    requires
        n <= gs.len(),
    ensures
        group_ids(gs, n).contains(id) <==> exists|i: int|
            0 <= i < n && (#[trigger] gs[i]).id == id,
    decreases n,
{
    if n > 0 {
        law_folding_all_folds_each(gs, (n - 1) as nat, id);
        if gs[n - 1].id == id {
            assert(group_ids(gs, n).contains(id));
        }
    }
}

/// A blank query shows every session, the latest first; any other shows only
/// sessions that are there.
pub proof fn law_queries_show_known_sessions(v: Seq<MetaView>, query: Seq<char>)
    ensures
        (forall|k: int| 0 <= k < query.len() ==> whitespace(#[trigger] query[k])) ==> found_metas(
            v,
            query,
        ) == sorted_metas(v),
        forall|k: int|
            0 <= k < found_metas(v, query).len() ==> v.contains(#[trigger] found_metas(v, query)[k]),
        found_metas(v, query).len() <= v.len(),
{
    law_blank_texts_are_whitespace(query);
    law_sorting_keeps_every_session(v);
    let sorted = sorted_metas(v);
    if trimmed(query).len() > 0 {
        let found = best_scores(trimmed(query), fields_of(sorted));
        law_matches_are_the_best_first(found);
        law_ranking_is_stable(crate::fuzzy::as_keys(found), found.len());
        assert forall|k: int| 0 <= k < found_metas(v, query).len() implies v.contains(
            #[trigger] found_metas(v, query)[k],
        ) by {
            assert(found_metas(v, query)[k] == sorted[matched(found)[k]]);
        }
    }
}

/// A session is found by any of its texts: where its id, title, directory,
/// project or last words match a query, the query shows it.
pub proof fn law_sessions_are_found_by_any_text(
    v: Seq<MetaView>,
    query: Seq<char>,
    i: int,
    f: Seq<char>,
)
    requires
        0 <= i < v.len(),
        f.len() > 0,
        f == v[i].id || Some(f) == v[i].title || Some(f) == v[i].cwd || Some(f) == v[i].workspace
            || Some(f) == v[i].last_turn_preview,
        trimmed(query).len() > 0,
    ensures
        fuzzy_score(trimmed(query), f) is Some ==> found_metas(v, query).contains(v[i]),
{
    let q = trimmed(query);
    law_sorting_keeps_every_session(v);
    let sorted = sorted_metas(v);
    assert(sorted.contains(v[i]));
    let n = choose|n: int| 0 <= n < sorted.len() && sorted[n] == v[i];
    let fields = meta_fields(v[i]);
    law_best_score_is_the_greatest(q, fields);
    if f == v[i].id {
        assert(fields[0] == f);
    } else if Some(f) == v[i].title {
        assert(fields[1] == f);
    } else if Some(f) == v[i].cwd {
        assert(fields[2] == f);
    } else if Some(f) == v[i].workspace {
        assert(fields[3] == f);
    } else {
        assert(fields[4] == f);
    }
    if fuzzy_score(q, f) is Some {
        let found = best_scores(q, fields_of(sorted));
        assert(found[n] == best_score(q, fields));
        law_matches_are_the_best_first(found);
        assert(matched(found).contains(n));
        let k = choose|k: int| 0 <= k < matched(found).len() && matched(found)[k] == n;
        assert(found_metas(v, query)[k] == v[i]);
    }
}

} // verus!
