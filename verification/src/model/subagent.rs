//! The panel of a session's subagents. The server lists direct children only,
//! so the tree grows along the way that the user takes through it.

use vstd::prelude::*;

use crate::text::{copy_opt, opt_text, same, texts};

verus! {

/// A row of what the server lists of a session's children.
#[derive(Debug, Clone, PartialEq, Eq)]
pub enum SubagentListEntry {
    Child {
        id: String,
        activity: String,
        has_children: bool,
        mode: Option<String>,
        label: Option<String>,
    },
    /// A child that cannot be shown, with the reason.
    Diagnostic { id: String, reason: String },
}

/// What the server lists of a session's children.
#[derive(Debug, Clone, PartialEq, Eq)]
pub struct SubagentCatalog {
    pub entries: Vec<SubagentListEntry>,
    pub parent_available: bool,
}

/// A subagent in the tree.
#[derive(Debug, PartialEq, Eq)]
pub struct SubagentNode {
    pub id: String,
    pub activity: String,
    pub has_children: bool,
    pub mode: Option<String>,
    pub label: Option<String>,
    /// Its children; none until the user opens it.
    pub children: Option<Vec<SubagentNode>>,
}

/// The contents of a subagent in the tree.
#[verifier::ext_equal]
pub struct NodeView {
    pub id: Seq<char>,
    pub activity: Seq<char>,
    pub has_children: bool,
    pub mode: Option<Seq<char>>,
    pub label: Option<Seq<char>>,
    pub children: Option<Seq<NodeView>>,
}

/// The contents of a subagent in the tree.
pub open spec fn node_view(n: SubagentNode) -> NodeView
    decreases n,
{
    NodeView {
        id: n.id@,
        activity: n.activity@,
        has_children: n.has_children,
        mode: opt_text(n.mode),
        label: opt_text(n.label),
        children: match n.children {
            Some(c) => Some(
                Seq::new(
                    c@.len(),
                    |i: int|
                        if 0 <= i < c@.len() {
                            node_view(c@[i])
                        } else {
                            arbitrary()
                        },
                ),
            ),
            None => None,
        },
    }
}

impl View for SubagentNode {
    type V = NodeView;

    open spec fn view(&self) -> NodeView {
        node_view(*self)
    }
}

/// The contents of nodes.
pub open spec fn node_views(v: Seq<SubagentNode>) -> Seq<NodeView> {
    v.map_values(|n: SubagentNode| n@)
}

/// The contents of the children of a node.
pub open spec fn child_views(c: Option<Vec<SubagentNode>>) -> Option<Seq<NodeView>> {
    match c {
        Some(v) => Some(node_views(v@)),
        None => None,
    }
}

proof fn lemma_children(n: SubagentNode)
    ensures
        n@.children == child_views(n.children),
{
    if let Some(c) = n.children {
        assert(n@.children->0 =~= node_views(c@));
    }
}

/// Position of the first node with an id, or the number of nodes.
pub open spec fn node_index(nodes: Seq<NodeView>, id: Seq<char>) -> int
    decreases nodes.len(),
{
    if nodes.len() == 0 {
        0
    } else if nodes[0].id == id {
        0
    } else {
        1 + node_index(nodes.skip(1), id)
    }
}

proof fn lemma_node_index(nodes: Seq<NodeView>, id: Seq<char>, i: int)
    requires
        0 <= i <= nodes.len(),
        forall|k: int| 0 <= k < i ==> (#[trigger] nodes[k]).id != id,
        i < nodes.len() ==> nodes[i].id == id,
    ensures
        node_index(nodes, id) == i,
    decreases nodes.len(),
{
    if i > 0 {
        assert(nodes[0].id != id);
        assert forall|k: int| 0 <= k < i - 1 implies (#[trigger] nodes.skip(1)[k]).id != id by {
            assert(nodes.skip(1)[k] == nodes[k + 1]);
        }
        lemma_node_index(nodes.skip(1), id, i - 1);
    }
}

fn find_node(nodes: &Vec<SubagentNode>, id: &str) -> (r: usize)
    ensures
        r == node_index(node_views(nodes@), id@),
        r <= nodes@.len(),
{
    let ghost views = node_views(nodes@);
    let mut i: usize = 0;
    while i < nodes.len()
        invariant
            i <= nodes@.len(),
            views == node_views(nodes@),
            forall|k: int| 0 <= k < i ==> (#[trigger] views[k]).id != id@,
        decreases nodes@.len() - i,
    {
        assert(views[i as int].id == nodes@[i as int].id@);
        if same(nodes[i].id.as_str(), id) {
            proof {
                lemma_node_index(views, id@, i as int);
            }
            return i;
        }
        i = i + 1;
    }
    proof {
        lemma_node_index(views, id@, i as int);
    }
    i
}

/// Position of the first text of a list that is `t`, or the length.
pub open spec fn text_index(v: Seq<Seq<char>>, t: Seq<char>) -> int
    decreases v.len(),
{
    if v.len() == 0 {
        0
    } else if v[0] == t {
        0
    } else {
        1 + text_index(v.skip(1), t)
    }
}

proof fn lemma_text_index(v: Seq<Seq<char>>, t: Seq<char>, i: int)
    requires
        0 <= i <= v.len(),
        forall|k: int| 0 <= k < i ==> #[trigger] v[k] != t,
        i < v.len() ==> v[i] == t,
    ensures
        text_index(v, t) == i,
    decreases v.len(),
{
    if i > 0 {
        assert(v[0] != t);
        assert forall|k: int| 0 <= k < i - 1 implies #[trigger] v.skip(1)[k] != t by {
            assert(v.skip(1)[k] == v[k + 1]);
        }
        lemma_text_index(v.skip(1), t, i - 1);
    }
}

fn find_text(v: &Vec<String>, t: &str) -> (r: usize)
    ensures
        r == text_index(texts(v@), t@),
        r <= v@.len(),
        r < v@.len() ==> v@[r as int]@ == t@,
{
    let ghost views = texts(v@);
    let mut i: usize = 0;
    while i < v.len()
        invariant
            i <= v@.len(),
            views == texts(v@),
            forall|k: int| 0 <= k < i ==> #[trigger] views[k] != t@,
        decreases v@.len() - i,
    {
        assert(views[i as int] == v@[i as int]@);
        if same(v[i].as_str(), t) {
            proof {
                lemma_text_index(views, t@, i as int);
            }
            return i;
        }
        i = i + 1;
    }
    proof {
        lemma_text_index(views, t@, i as int);
    }
    i
}

/// The tree with children put below the node that the steps lead to. Where a
/// step leads nowhere, or to a node that is not open yet, nothing changes.
pub open spec fn attached(
    nodes: Seq<NodeView>,
    steps: Seq<Seq<char>>,
    new: Seq<NodeView>,
) -> Seq<NodeView>
    decreases steps.len(),
{
    if steps.len() == 0 {
        nodes
    } else {
        let pos = node_index(nodes, steps[0]);
        if pos >= nodes.len() {
            nodes
        } else if steps.len() == 1 {
            nodes.update(pos, NodeView { children: Some(new), ..nodes[pos] })
        } else {
            match nodes[pos].children {
                Some(c) => nodes.update(
                    pos,
                    NodeView { children: Some(attached(c, steps.skip(1), new)), ..nodes[pos] },
                ),
                None => nodes,
            }
        }
    }
}

fn attach(nodes: &mut Vec<SubagentNode>, steps: &Vec<String>, at: usize, last: usize, new: Vec<
    SubagentNode,
>)
    requires
        at <= last < steps@.len(),
    ensures
        node_views(final(nodes)@) == attached(
            node_views(old(nodes)@),
            texts(steps@).subrange(at as int, last + 1),
            node_views(new@),
        ),
    decreases last - at,
{
    let ghost way = texts(steps@).subrange(at as int, last + 1);
    let ghost before = node_views(nodes@);
    let ghost old_nodes = nodes@;
    assert(way[0] == steps@[at as int]@);
    let pos: usize = find_node(nodes, steps[at].as_str());
    if pos >= nodes.len() {
        return;
    }
    proof {
        lemma_children(nodes@[pos as int]);
    }
    if at == last {
        let mut c: Option<Vec<SubagentNode>> = Some(new);
        std::mem::swap(&mut nodes[pos].children, &mut c);
        proof {
            lemma_children(nodes@[pos as int]);
            assert(node_views(nodes@) =~= attached(before, way, node_views(new@)));
        }
    } else {
        let mut c: Option<Vec<SubagentNode>> = None;
        std::mem::swap(&mut nodes[pos].children, &mut c);
        match c {
            Some(mut inner) => {
                assert(way.skip(1) =~= texts(steps@).subrange(at + 1, last + 1));
                attach(&mut inner, steps, at + 1, last, new);
                let mut d: Option<Vec<SubagentNode>> = Some(inner);
                std::mem::swap(&mut nodes[pos].children, &mut d);
            },
            None => {},
        }
        proof {
            lemma_children(nodes@[pos as int]);
            assert(node_views(nodes@) =~= attached(before, way, node_views(new@)));
        }
    }
}

impl SubagentNode {
    /// A copy of the node and all below it.
    pub fn dup(&self) -> (r: SubagentNode)
        ensures
            r@ == self@,
        decreases *self,
    {
        let children: Option<Vec<SubagentNode>> = match &self.children {
            Some(c) => {
                let mut out: Vec<SubagentNode> = Vec::new();
                let mut i: usize = 0;
                while i < c.len()
                    invariant
                        i <= c@.len(),
                        out@.len() == i,
                        self.children == Some(*c),
                        forall|k: int| 0 <= k < i ==> (#[trigger] out@[k])@ == c@[k]@,
                    decreases c@.len() - i,
                {
                    assert(decreases_to!(*self => self.children));
                    assert(decreases_to!(self.children => self.children->0));
                    assert(decreases_to!(*c => c[i as int]));
                    out.push(c[i].dup());
                    i = i + 1;
                }
                assert(node_views(out@) =~= node_views(c@));
                Some(out)
            },
            None => None,
        };
        let r = SubagentNode {
            id: self.id.clone(),
            activity: self.activity.clone(),
            has_children: self.has_children,
            mode: copy_opt(&self.mode),
            label: copy_opt(&self.label),
            children,
        };
        proof {
            lemma_children(*self);
            lemma_children(r);
        }
        r
    }
}

impl Clone for SubagentNode {
    fn clone(&self) -> (r: Self)
        ensures
            r@ == self@,
    {
        self.dup()
    }
}

/// The node of a listed child; rows that cannot be shown have none.
pub open spec fn listed_node(e: SubagentListEntry) -> Option<NodeView> {
    match e {
        SubagentListEntry::Child { id, activity, has_children, mode, label } => Some(
            NodeView {
                id: id@,
                activity: activity@,
                has_children,
                mode: opt_text(mode),
                label: opt_text(label),
                children: None,
            },
        ),
        SubagentListEntry::Diagnostic { .. } => None,
    }
}

/// The nodes of the first `n` rows of a list.
pub open spec fn listed_nodes(entries: Seq<SubagentListEntry>, n: int) -> Seq<NodeView>
    decreases n,
{
    if n <= 0 {
        Seq::empty()
    } else {
        match listed_node(entries[n - 1]) {
            Some(v) => listed_nodes(entries, n - 1).push(v),
            None => listed_nodes(entries, n - 1),
        }
    }
}

fn nodes_of(entries: &Vec<SubagentListEntry>) -> (r: Vec<SubagentNode>)
    ensures
        node_views(r@) == listed_nodes(entries@, entries@.len() as int),
{
    let mut r: Vec<SubagentNode> = Vec::new();
    let mut i: usize = 0;
    assert(node_views(r@) =~= Seq::empty());
    while i < entries.len()
        invariant
            i <= entries@.len(),
            node_views(r@) == listed_nodes(entries@, i as int),
        decreases entries@.len() - i,
    {
        match &entries[i] {
            SubagentListEntry::Child { id, activity, has_children, mode, label } => {
                let node = SubagentNode {
                    id: id.clone(),
                    activity: activity.clone(),
                    has_children: *has_children,
                    mode: copy_opt(mode),
                    label: copy_opt(label),
                    children: None,
                };
                let ghost before = node_views(r@);
                let ghost added = node@;
                r.push(node);
                assert(node_views(r@) =~= before.push(added));
            },
            SubagentListEntry::Diagnostic { .. } => {},
        }
        i = i + 1;
    }
    r
}

/// The panel of the subagents.
#[derive(Debug, PartialEq, Eq)]
pub struct SubagentViewState {
    pub visible: bool,
    /// The session whose subagents are shown.
    pub parent_session_id: Option<String>,
    pub parent_available: bool,
    pub roots: Vec<SubagentNode>,
    /// The nodes that the user opened, from the top down.
    pub nav_path: Vec<String>,
    pub selected: usize,
    /// The subagent that is to be stopped, once the user confirms.
    pub interrupt_target: Option<String>,
    pub last_error_code: Option<String>,
    pub loading: bool,
}

/// Whether the panel is as at the start.
pub open spec fn is_blank_view(s: SubagentViewState) -> bool {
    &&& !s.visible
    &&& s.parent_session_id is None
    &&& !s.parent_available
    &&& s.roots@.len() == 0
    &&& s.nav_path@.len() == 0
    &&& s.selected == 0
    &&& s.interrupt_target is None
    &&& s.last_error_code is None
    &&& !s.loading
}

/// The tree once a list of children came in: that of the parent is the top,
/// that of an opened node goes below it, any other is dropped.
pub open spec fn tree_after(
    s: SubagentViewState,
    children_of: Seq<char>,
    nodes: Seq<NodeView>,
) -> Seq<NodeView> {
    let path = texts(s.nav_path@);
    let level = text_index(path, children_of);
    if opt_text(s.parent_session_id) == Some(children_of) && path.len() == 0 {
        nodes
    } else if level < path.len() {
        attached(node_views(s.roots@), path.take(level + 1), nodes)
    } else {
        node_views(s.roots@)
    }
}

/// How many levels a list of nodes has.
pub open spec fn levels(nodes: Seq<SubagentNode>) -> nat
    decreases nodes,
{
    if nodes.len() == 0 {
        0
    } else {
        let below = match nodes.last().children {
            Some(c) => 1 + levels(c@),
            None => 1,
        };
        let before = levels(nodes.drop_last());
        if below > before {
            below
        } else {
            before
        }
    }
}

/// The rows of a list of nodes: each node, then those below it, one deeper.
pub open spec fn rows_of(nodes: Seq<SubagentNode>, depth: nat) -> Seq<(SubagentNode, nat)>
    decreases nodes,
{
    if nodes.len() == 0 {
        Seq::empty()
    } else {
        let n = nodes.last();
        let below = match n.children {
            Some(c) => rows_of(c@, depth + 1),
            None => Seq::empty(),
        };
        rows_of(nodes.drop_last(), depth).push((n, depth)) + below
    }
}

/// A row of the tree: a node, and how deep it stands.
#[derive(Debug, Clone, Copy)]
pub struct SubagentNodeRef<'a> {
    pub node: &'a SubagentNode,
    pub depth: usize,
}

/// What rows show.
pub open spec fn row_contents(v: Seq<SubagentNodeRef>) -> Seq<(SubagentNode, nat)> {
    v.map_values(|r: SubagentNodeRef| (*r.node, r.depth as nat))
}

proof fn lemma_levels_prefix(nodes: Seq<SubagentNode>, i: int)
    requires
        0 <= i < nodes.len(),
    ensures
        levels(nodes) >= match nodes[i].children {
            Some(c) => 1 + levels(c@),
            None => 1nat,
        },
    decreases nodes.len(),
{
    if i < nodes.len() - 1 {
        lemma_levels_prefix(nodes.drop_last(), i);
        assert(nodes.drop_last()[i] == nodes[i]);
    }
}

fn walk<'a>(nodes: &'a Vec<SubagentNode>, depth: usize, out: &mut Vec<SubagentNodeRef<'a>>)
    requires
        depth + levels(nodes@) <= usize::MAX,
    ensures
        row_contents(final(out)@) == row_contents(old(out)@) + rows_of(nodes@, depth as nat),
    decreases *nodes,
{
    let ghost start = row_contents(out@);
    let mut i: usize = 0;
    assert(start + rows_of(nodes@.take(0), depth as nat) =~= start);
    while i < nodes.len()
        invariant
            i <= nodes@.len(),
            depth + levels(nodes@) <= usize::MAX,
            row_contents(out@) == start + rows_of(nodes@.take(i as int), depth as nat),
        decreases nodes@.len() - i,
    {
        let n = &nodes[i];
        let ghost before = row_contents(out@);
        proof {
            lemma_levels_prefix(nodes@, i as int);
            assert(nodes@.take(i + 1).drop_last() =~= nodes@.take(i as int));
            assert(nodes@.take(i + 1).last() == nodes@[i as int]);
        }
        out.push(SubagentNodeRef { node: n, depth });
        assert(row_contents(out@) =~= before.push((*n, depth as nat)));
        match &n.children {
            Some(c) => {
                assert(decreases_to!(*nodes => nodes[i as int]));
                assert(decreases_to!(nodes[i as int] => nodes[i as int].children));
                assert(decreases_to!(nodes[i as int].children => nodes[i as int].children->0));
                walk(c, depth + 1, out);
                assert(row_contents(out@) =~= start + rows_of(nodes@.take(i + 1), depth as nat));
            },
            None => {
                assert(row_contents(out@) =~= start + rows_of(nodes@.take(i + 1), depth as nat));
            },
        }
        i = i + 1;
    }
    assert(nodes@.take(i as int) =~= nodes@);
}

impl Default for SubagentViewState {
    fn default() -> (r: Self)
        ensures
            is_blank_view(r),
    {
        SubagentViewState {
            visible: false,
            parent_session_id: None,
            parent_available: false,
            roots: Vec::new(),
            nav_path: Vec::new(),
            selected: 0,
            interrupt_target: None,
            last_error_code: None,
            loading: false,
        }
    }
}

impl SubagentViewState {
    /// Opens the panel for a session while its children are fetched.
    pub fn open(&mut self, parent_session_id: &str)
        ensures
            final(self).visible,
            opt_text(final(self).parent_session_id) == Some(parent_session_id@),
            final(self).roots@.len() == 0,
            final(self).nav_path@.len() == 0,
            final(self).selected == 0,
            final(self).loading,
            final(self).last_error_code is None,
            final(self).parent_available == old(self).parent_available,
            final(self).interrupt_target == old(self).interrupt_target,
    {
        self.visible = true;
        self.parent_session_id = Some(parent_session_id.to_owned());
        self.roots = Vec::new();
        self.nav_path = Vec::new();
        self.selected = 0;
        self.loading = true;
        self.last_error_code = None;
    }

    /// Closes the panel and forgets it.
    pub fn close(&mut self)
        ensures
            is_blank_view(*final(self)),
    {
        *self = SubagentViewState::default();
    }

    /// Takes the list of the children of a session.
    pub fn set_catalog(&mut self, children_of: &str, cat: &SubagentCatalog)
        ensures
            *final(self) == (SubagentViewState {
                loading: false,
                parent_available: cat.parent_available,
                roots: final(self).roots,
                ..*old(self)
            }),
            node_views(final(self).roots@) == tree_after(
                *old(self),
                children_of@,
                listed_nodes(cat.entries@, cat.entries@.len() as int),
            ),
    {
        self.loading = false;
        self.parent_available = cat.parent_available;
        let nodes = nodes_of(&cat.entries);
        let of_parent = match &self.parent_session_id {
            Some(p) => same(p.as_str(), children_of),
            None => false,
        };
        assert(texts(self.nav_path@).len() == self.nav_path@.len());
        if of_parent && self.nav_path.len() == 0 {
            self.roots = nodes;
        } else {
            let level: usize = find_text(&self.nav_path, children_of);
            if level < self.nav_path.len() {
                let ghost path = texts(self.nav_path@);
                assert(path.take(level + 1) =~= path.subrange(0, level + 1));
                attach(&mut self.roots, &self.nav_path, 0, level, nodes);
            }
        }
    }

    /// The rows of the tree, from the top down.
    pub fn flatten(&self) -> (r: Vec<SubagentNodeRef<'_>>)
        requires
            levels(self.roots@) <= usize::MAX,
        ensures
            row_contents(r@) == rows_of(self.roots@, 0),
    {
        let mut out: Vec<SubagentNodeRef<'_>> = Vec::new();
        assert(row_contents(out@) =~= Seq::empty());
        walk(&self.roots, 0, &mut out);
        assert(Seq::<(SubagentNode, nat)>::empty() + rows_of(self.roots@, 0) =~= rows_of(
            self.roots@,
            0,
        ));
        out
    }
}

/// A list of children that comes in never adds, removes or renames a node that
/// is there: only children change.
pub proof fn law_known_nodes_stay(
    nodes: Seq<NodeView>,
    steps: Seq<Seq<char>>,
    new: Seq<NodeView>,
    i: int,
)
    requires
        0 <= i < nodes.len(),
    ensures
        attached(nodes, steps, new).len() == nodes.len(),
        attached(nodes, steps, new)[i] == (NodeView {
            children: attached(nodes, steps, new)[i].children,
            ..nodes[i]
        }),
        steps.len() > 0 && i != node_index(nodes, steps[0]) ==> attached(nodes, steps, new)[i]
            == nodes[i],
{
    if steps.len() > 0 {
        lemma_index_bounds(nodes, steps[0]);
    }
}

proof fn lemma_index_bounds(nodes: Seq<NodeView>, id: Seq<char>)
    ensures
        0 <= node_index(nodes, id) <= nodes.len(),
    decreases nodes.len(),
{
    if nodes.len() > 0 && nodes[0].id != id {
        lemma_index_bounds(nodes.skip(1), id);
    }
}

/// A step on the way from a session up to where it came from.
#[derive(Debug, Clone, PartialEq, Eq)]
pub struct LineageCrumb {
    pub session_id: String,
    pub title: Option<String>,
    /// "session" or "subagent".
    pub kind: String,
}

/// The contents of a step.
#[verifier::ext_equal]
pub struct CrumbView {
    pub session_id: Seq<char>,
    pub title: Option<Seq<char>>,
    pub kind: Seq<char>,
}

impl View for LineageCrumb {
    type V = CrumbView;

    open spec fn view(&self) -> CrumbView {
        CrumbView {
            session_id: self.session_id@,
            title: opt_text(self.title),
            kind: self.kind@,
        }
    }
}

impl Default for LineageCrumb {
    fn default() -> (r: Self)
        ensures
            r@.session_id.len() == 0,
            r@.title is None,
            r@.kind.len() == 0,
    {
        LineageCrumb { session_id: String::new(), title: None, kind: String::new() }
    }
}

/// What is known of sessions: title and parent of each, by its id.
pub type Parents = Vec<(String, (Option<String>, Option<String>))>;

/// Title and parent of sessions by their ids.
pub open spec fn known(v: Seq<(String, (Option<String>, Option<String>))>) -> Seq<
    (Seq<char>, Option<Seq<char>>, Option<Seq<char>>),
> {
    v.map_values(
        |e: (String, (Option<String>, Option<String>))|
            (e.0@, opt_text((e.1).0), opt_text((e.1).1)),
    )
}

/// Title and parent of a session, where it is known.
pub open spec fn origin(
    known: Seq<(Seq<char>, Option<Seq<char>>, Option<Seq<char>>)>,
    id: Seq<char>,
) -> Option<(Option<Seq<char>>, Option<Seq<char>>)>
    decreases known.len(),
{
    if known.len() == 0 {
        None
    } else if known[0].0 == id {
        Some((known[0].1, known[0].2))
    } else {
        origin(known.skip(1), id)
    }
}

/// How many steps a way has at most, also where sessions name each other.
pub const LINEAGE_MAX: usize = 64;

/// The step for a session.
pub open spec fn crumb(id: Seq<char>, title: Option<Seq<char>>) -> CrumbView {
    CrumbView { session_id: id, title, kind: "session"@ }
}

/// The way from a session up, in `left` steps at most: it ends at a session
/// that is not known or names no other as its parent.
pub open spec fn way_up(
    known: Seq<(Seq<char>, Option<Seq<char>>, Option<Seq<char>>)>,
    id: Seq<char>,
    left: nat,
) -> Seq<CrumbView>
    decreases left,
{
    if left == 0 {
        Seq::empty()
    } else {
        match origin(known, id) {
            None => seq![crumb(id, None)],
            Some((title, parent)) => seq![crumb(id, title)] + match parent {
                Some(p) => if p.len() > 0 && p != id {
                    way_up(known, p, (left - 1) as nat)
                } else {
                    Seq::empty()
                },
                None => Seq::empty(),
            },
        }
    }
}

/// The contents of steps.
pub open spec fn crumbs(v: Seq<LineageCrumb>) -> Seq<CrumbView> {
    v.map_values(|c: LineageCrumb| c@)
}

fn find_origin<'a>(parents: &'a Parents, id: &str) -> (r: Option<
    &'a (String, (Option<String>, Option<String>)),
>)
    ensures
        match r {
            Some(e) => origin(known(parents@), id@) == Some(
                (opt_text((e.1).0), opt_text((e.1).1)),
            ),
            None => origin(known(parents@), id@) is None,
        },
{
    let ghost all = known(parents@);
    let mut i: usize = 0;
    assert(all.skip(0) =~= all);
    while i < parents.len()
        invariant
            i <= parents@.len(),
            all == known(parents@),
            origin(all.skip(i as int), id@) == origin(all, id@),
        decreases parents@.len() - i,
    {
        let e = &parents[i];
        assert(all.skip(i as int)[0] == all[i as int]);
        if same(e.0.as_str(), id) {
            return Some(e);
        }
        assert(all.skip(i as int).skip(1) =~= all.skip(i + 1));
        i = i + 1;
    }
    None
}

fn climb(parents: &Parents, id: &str, left: usize) -> (r: Vec<LineageCrumb>)
    ensures
        crumbs(r@) == way_up(known(parents@), id@, left as nat).reverse(),
    decreases left,
{
    let mut r: Vec<LineageCrumb> = Vec::new();
    if left == 0 {
        assert(crumbs(r@) =~= way_up(known(parents@), id@, 0).reverse());
        return r;
    }
    match find_origin(parents, id) {
        None => {
            r.push(
                LineageCrumb {
                    session_id: id.to_owned(),
                    title: None,
                    kind: "session".to_owned(),
                },
            );
            assert(crumbs(r@) =~= way_up(known(parents@), id@, left as nat).reverse());
            r
        },
        Some(e) => {
            let mut r: Vec<LineageCrumb> = match &(e.1).1 {
                Some(p) => if !p.as_str().is_empty() && !same(p.as_str(), id) {
                    climb(parents, p.as_str(), left - 1)
                } else {
                    Vec::new()
                },
                None => Vec::new(),
            };
            let ghost above = crumbs(r@);
            let c = LineageCrumb {
                session_id: id.to_owned(),
                title: copy_opt(&(e.1).0),
                kind: "session".to_owned(),
            };
            r.push(c);
            assert(crumbs(r@) =~= above.push(c@));
            assert(crumbs(r@) =~= way_up(known(parents@), id@, left as nat).reverse());
            r
        },
    }
}

/// The way from where a session came from down to it, over what is known.
pub fn lineage_breadcrumbs(leaf: &str, parents: &Parents) -> (r: Vec<LineageCrumb>)
    ensures
        crumbs(r@) == way_up(known(parents@), leaf@, LINEAGE_MAX as nat).reverse(),
{
    climb(parents, leaf, LINEAGE_MAX)
}

/// A way has `left` steps at most, starts with the session itself, and each
/// step is the parent of the one before it; no title is made up.
pub proof fn law_way_follows_parents(
    known: Seq<(Seq<char>, Option<Seq<char>>, Option<Seq<char>>)>,
    id: Seq<char>,
    left: nat,
    i: int,
)
    requires
        left > 0,
        0 <= i < way_up(known, id, left).len(),
    ensures
        way_up(known, id, left).len() <= left,
        way_up(known, id, left)[0].session_id == id,
        ({
            let w = way_up(known, id, left);
            let at = origin(known, w[i].session_id);
            &&& w[i].title == match at {
                Some((title, _)) => title,
                None => None,
            }
            &&& i + 1 < w.len() ==> at is Some && (at->0).1 == Some(w[i + 1].session_id)
        }),
    decreases left,
{
    let w = way_up(known, id, left);
    match origin(known, id) {
        Some((title, Some(p))) => {
            if p.len() > 0 && p != id && left > 1 {
                let above = way_up(known, p, (left - 1) as nat);
                lemma_way_starts(known, p, (left - 1) as nat);
                if i > 0 {
                    law_way_follows_parents(known, p, (left - 1) as nat, i - 1);
                    assert(w[i] == above[i - 1]);
                    if i + 1 < w.len() {
                        assert(w[i + 1] == above[i]);
                    }
                } else {
                    law_way_follows_parents(known, p, (left - 1) as nat, 0);
                    assert(w[1] == above[0]);
                }
            }
        },
        _ => {},
    }
}

proof fn lemma_way_starts(
    known: Seq<(Seq<char>, Option<Seq<char>>, Option<Seq<char>>)>,
    id: Seq<char>,
    left: nat,
)
    requires
        left > 0,
    ensures
        way_up(known, id, left).len() > 0,
{
}

/// The children that were listed for a node on the way go below that node, and
/// every other node stays as it is.
pub proof fn law_children_go_below_their_node(
    nodes: Seq<NodeView>,
    id: Seq<char>,
    new: Seq<NodeView>,
    k: int,
)
    requires
        0 <= k < nodes.len(),
        nodes[k].id == id,
        forall|j: int| 0 <= j < k ==> (#[trigger] nodes[j]).id != id,
    ensures
        attached(nodes, seq![id], new).len() == nodes.len(),
        attached(nodes, seq![id], new)[k].children == Some(new),
        attached(nodes, seq![id], new)[k].id == id,
        forall|j: int|
            0 <= j < nodes.len() && j != k ==> attached(nodes, seq![id], new)[j]
                == #[trigger] nodes[j],
{
    lemma_node_index(nodes, id, k);
}

/// A longer way is followed step by step: below an opened node the rest of the
/// way leads on among its children; below one that is not open, and behind a
/// step that leads nowhere, nothing changes.
pub proof fn law_ways_are_followed(
    nodes: Seq<NodeView>,
    id: Seq<char>,
    rest: Seq<Seq<char>>,
    new: Seq<NodeView>,
    k: int,
)
    requires
        rest.len() > 0,
        0 <= k <= nodes.len(),
        forall|j: int| 0 <= j < k ==> (#[trigger] nodes[j]).id != id,
        k < nodes.len() ==> nodes[k].id == id,
    ensures
        ({
            let out = attached(nodes, seq![id] + rest, new);
            &&& k == nodes.len() ==> out == nodes
            &&& k < nodes.len() && nodes[k].children is None ==> out == nodes
            &&& k < nodes.len() && nodes[k].children is Some ==> out[k].children == Some(
                attached(nodes[k].children->0, rest, new),
            )
        }),
{
    lemma_node_index(nodes, id, k);
    assert((seq![id] + rest).skip(1) =~= rest);
}

/// A listed child becomes a node with all that is said of it, behind those
/// before it and not open yet; a row that cannot be shown becomes none.
pub proof fn law_listed_children_become_nodes(
    entries: Seq<SubagentListEntry>,
    more: SubagentListEntry,
)
    ensures
        ({
            let before = listed_nodes(entries, entries.len() as int);
            let after = listed_nodes(entries.push(more), (entries.len() + 1) as int);
            &&& more is Diagnostic ==> after == before
            &&& more is Child ==> {
                &&& after.len() == before.len() + 1
                &&& before.is_prefix_of(after)
                &&& after.last().id == more->Child_id@
                &&& after.last().activity == more->activity@
                &&& after.last().has_children == more->has_children
                &&& after.last().mode == opt_text(more->mode)
                &&& after.last().label == opt_text(more->label)
                &&& after.last().children is None
            }
        }),
{
    lemma_listed_prefix(entries, more, entries.len() as int);
    assert(entries.push(more)[entries.len() as int] == more);
    let before = listed_nodes(entries, entries.len() as int);
    let after = listed_nodes(entries.push(more), (entries.len() + 1) as int);
    if more is Child {
        assert(before =~= after.take(before.len() as int));
    }
}

proof fn lemma_listed_prefix(entries: Seq<SubagentListEntry>, more: SubagentListEntry, n: int)
    requires
        0 <= n <= entries.len(),
    ensures
        listed_nodes(entries.push(more), n) == listed_nodes(entries, n),
    decreases n,
{
    if n > 0 {
        lemma_listed_prefix(entries, more, n - 1);
        assert(entries.push(more)[n - 1] == entries[n - 1]);
    }
}

/// A list of children goes where it belongs: that of the session itself is the
/// top of the tree while nothing is opened, and one of a session that is
/// neither shown nor opened changes nothing.
pub proof fn law_lists_go_where_they_belong(
    s: SubagentViewState,
    children_of: Seq<char>,
    nodes: Seq<NodeView>,
)
    ensures
        s.nav_path@.len() == 0 && opt_text(s.parent_session_id) == Some(children_of)
            ==> tree_after(s, children_of, nodes) == nodes,
        s.nav_path@.len() == 0 && opt_text(s.parent_session_id) != Some(children_of)
            ==> tree_after(s, children_of, nodes) == node_views(s.roots@),
        (forall|j: int| 0 <= j < s.nav_path@.len() ==> (#[trigger] s.nav_path@[j])@ != children_of)
            && s.nav_path@.len() > 0 ==> tree_after(s, children_of, nodes) == node_views(s.roots@),
        s.nav_path@.len() == 1 && s.nav_path@[0]@ == children_of ==> tree_after(
            s,
            children_of,
            nodes,
        ) == attached(node_views(s.roots@), seq![children_of], nodes),
{
    let path = texts(s.nav_path@);
    if forall|j: int| 0 <= j < s.nav_path@.len() ==> (#[trigger] s.nav_path@[j])@ != children_of {
        assert forall|j: int| 0 <= j < path.len() implies #[trigger] path[j] != children_of by {
            assert(path[j] == s.nav_path@[j]@);
        }
        lemma_text_index(path, children_of, path.len() as int);
    }
    if s.nav_path@.len() == 1 && s.nav_path@[0]@ == children_of {
        lemma_text_index(path, children_of, 0);
        assert(path.take(1) =~= seq![children_of]);
    }
}

/// Every node of the tree has a row as deep as it stands, and its children have
/// rows one deeper; there are no rows without nodes.
pub proof fn law_every_node_has_its_row(
    nodes: Seq<SubagentNode>,
    depth: nat,
    i: int,
    j: int,
)
    requires
        0 <= i < nodes.len(),
    ensures
        rows_of(Seq::empty(), depth).len() == 0,
        rows_of(nodes, depth).contains((nodes[i], depth)),
        nodes[i].children is Some && 0 <= j < nodes[i].children->0@.len() ==> rows_of(
            nodes,
            depth,
        ).contains((nodes[i].children->0@[j], depth + 1)),
        rows_of(nodes, depth).len() >= nodes.len(),
        rows_of(nodes, depth)[0] == (nodes[0], depth),
    decreases nodes,
{
    let n = nodes.last();
    let below = match n.children {
        Some(c) => rows_of(c@, depth + 1),
        None => Seq::empty(),
    };
    let front = nodes.drop_last();
    let before = rows_of(front, depth);
    let all = rows_of(nodes, depth);
    assert(all == before.push((n, depth)) + below);
    if front.len() > 0 {
        law_every_node_has_its_row(front, depth, if i < front.len() {
            i
        } else {
            0
        }, j);
        assert(all[0] == before[0]);
        assert(front[0] == nodes[0]);
    } else {
        assert(before.len() == 0);
        assert(all[0] == (n, depth));
    }
    if i < front.len() {
        assert(front[i] == nodes[i]);
        let k = choose|k: int| 0 <= k < before.len() && before[k] == (nodes[i], depth);
        assert(all[k] == (nodes[i], depth));
        if nodes[i].children is Some && 0 <= j < nodes[i].children->0@.len() {
            let x = (nodes[i].children->0@[j], depth + 1);
            let m = choose|m: int| 0 <= m < before.len() && before[m] == x;
            assert(all[m] == x);
        }
    } else {
        assert(all[before.len() as int] == (nodes[i], depth));
        if n.children is Some && 0 <= j < n.children->0@.len() {
            let c = n.children->0@;
            law_every_node_has_its_row(c, depth + 1, j, 0);
            let x = (c[j], depth + 1);
            let m = choose|m: int| 0 <= m < below.len() && below[m] == x;
            assert(all[before.len() + 1 + m] == x);
        }
    }
}

/// What is known of a session is what is first said of it.
pub proof fn law_origin_is_the_first_entry(
    known: Seq<(Seq<char>, Option<Seq<char>>, Option<Seq<char>>)>,
    id: Seq<char>,
    k: int,
)
    requires
        0 <= k <= known.len(),
        forall|j: int| 0 <= j < k ==> (#[trigger] known[j]).0 != id,
        k < known.len() ==> known[k].0 == id,
    ensures
        k < known.len() ==> origin(known, id) == Some((known[k].1, known[k].2)),
        k == known.len() ==> origin(known, id) is None,
    decreases k,
{
    if k > 0 {
        assert(known[0].0 != id);
        let rest = known.skip(1);
        assert forall|j: int| 0 <= j < k - 1 implies (#[trigger] rest[j]).0 != id by {
            assert(rest[j] == known[j + 1]);
        }
        law_origin_is_the_first_entry(rest, id, k - 1);
    }
}

/// The way up goes on as long as a parent is named: where steps are left, the
/// way from a session with a parent is the session and then the way from the
/// parent.
pub proof fn law_way_goes_on_to_the_parent(
    known: Seq<(Seq<char>, Option<Seq<char>>, Option<Seq<char>>)>,
    id: Seq<char>,
    title: Option<Seq<char>>,
    p: Seq<char>,
    left: nat,
)
    requires
        origin(known, id) == Some((title, Some(p))),
        p.len() > 0,
        p != id,
    ensures
        ({
            let w = way_up(known, id, left + 1);
            &&& w.len() == way_up(known, p, left).len() + 1
            &&& w[0].session_id == id
            &&& w[0].title == title
            &&& w.skip(1) == way_up(known, p, left)
        }),
{
    assert(way_up(known, id, left + 1).skip(1) =~= way_up(known, p, left));
}

} // verus!
