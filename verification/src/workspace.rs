//! A workspace: a layout graph of windows with a name and a layout.
use std::collections::HashMap;
use vstd::prelude::*;
use vstd::std_specs::hash::*;
use vstd::std_specs::iter::IteratorSpec;
use crate::direction::Direction;
use crate::graph::{
    children_of, chain_ends, direction_container, first_child_index, focus_step, levels_ok, group_counts_ok, tree_wf,
    walk_ends, walk_result, lemma_first_child_index, lemma_focus_walk_step, direction_ok, direction_target, find_index, focus_chain,
    focus_walk_ends, focused_window_child, index_of, lemma_index_of_some, lemma_parent_has_child,
    node_is_group, parent_of, set_focus, Graph, GraphEdge, GraphNode, GraphNodeId, GraphView,
};
use crate::platform::WindowId;
use crate::text::{decimal, spec_decimal};
use crate::graph_laws::{lemma_children_of_edge, lemma_wf_walk_ends};

verus! {

broadcast use vstd::std_specs::hash::group_hash_axioms;

#[derive(Clone, Copy, Debug, PartialEq, Eq, Structural)]
pub enum WorkspaceState {
    Fullscreen,
    Normal,
}

#[derive(Clone, Copy, Debug, PartialEq, Eq, Structural)]
pub struct WorkspaceId(pub usize);

#[derive(Debug)]
pub struct Workspace {
    pub id: WorkspaceId,
    /// Initially the id of the workspace.
    pub display_name: String,
    pub layout_name: String,
    pub state: WorkspaceState,
    pub graph: Graph,
}

#[derive(Debug, Clone, Copy, PartialEq, Eq, Structural)]
pub enum WorkspaceError {
    WindowNodeNotFound,
}

pub type WorkspaceResult<T = ()> = Result<T, WorkspaceError>;

/// The window of the node at which the focus walk from the root (node 0) ends.
pub open spec fn focused_window(g: GraphView) -> Option<WindowId> {
    match focused_window_child(g, 0) {
        Some(id) => match g.nodes.get(id) {
            Some(GraphNode::Window(w)) => Some(w),
            _ => None,
        },
        None => None,
    }
}

/// Some node of the graph holds the window `w`.
pub open spec fn holds_window(g: GraphView, w: WindowId) -> bool {
    exists|k: usize| #[trigger] g.nodes.contains_key(k) && g.nodes[k] == GraphNode::Window(w)
}

/// Every edge leads from a group of the graph.
pub open spec fn parents_are_groups(g: GraphView) -> bool {
    forall|i: int| 0 <= i < g.edges.len() ==> node_is_group(g, (#[trigger] g.edges[i]).parent)
}

/// Focusing `id` meets only groups on its way up, and that way comes to an end.
pub open spec fn focus_node_ok(g: GraphView, id: usize) -> bool {
    &&& parents_are_groups(g)
    &&& exists|f: nat| chain_ends(g.edges, id, f)
}

/// The graph after focusing `id`.
pub open spec fn focus_node_result(g: GraphView, id: usize) -> GraphView {
    GraphView { nodes: focus_chain(g, id, choose|f: nat| chain_ends(g.edges, id, f)), ..g }
}

pub proof fn lemma_focus_chain_fuel(g: GraphView, id: usize, f1: nat, f2: nat)
    requires
        chain_ends(g.edges, id, f1),
        chain_ends(g.edges, id, f2),
    ensures
        focus_chain(g, id, f1) == focus_chain(g, id, f2),
    decreases f1,
{
    match parent_of(g.edges, id) {
        Some(p) => {
            let idx = index_of(children_of(g.edges, p), id)->0;
            let g2 = GraphView { nodes: g.nodes.insert(p, set_focus(g.nodes[p], idx as usize)), ..g };
            lemma_focus_chain_fuel(g2, p, (f1 - 1) as nat, (f2 - 1) as nat);
        },
        None => {},
    }
}

/// The graph of a workspace is a well-formed tree rooted at node 0.
pub open spec fn ws_graph_wf(g: GraphView) -> bool {
    tree_wf(g) && g.root == 0
}

/// In a well-formed tree the way up from any node of the graph comes to an end.
pub proof fn lemma_wf_chain_ends(g: GraphView, k: usize)
    requires
        tree_wf(g),
        g.nodes.contains_key(k),
    ensures
        exists|f: nat| chain_ends(g.edges, k, f),
{
    let (lvl, b) = choose|lvl: Map<usize, nat>, b: nat| levels_ok(g, lvl, b);
    lemma_chain_ends_from(g, lvl, b, k);
}

proof fn lemma_chain_ends_from(g: GraphView, lvl: Map<usize, nat>, b: nat, k: usize)
    requires
        tree_wf(g),
        levels_ok(g, lvl, b),
        lvl.contains_key(k),
    ensures
        chain_ends(g.edges, k, lvl[k]),
    decreases lvl[k],
{
    lemma_first_child_index(g.edges, k);
    match parent_of(g.edges, k) {
        Some(p) => {
            let i = first_child_index(g.edges, k)->0;
            assert(lvl[k] == lvl[p] + 1);
            lemma_chain_ends_from(g, lvl, b, p);
        },
        None => {},
    }
}

/// Where the focus walk from a node of a well-formed tree ends, there is a
/// node of the graph that is no group.
pub proof fn lemma_walk_result_node(g: GraphView, id: usize, f: nat)
    requires
        tree_wf(g),
        g.nodes.contains_key(id),
        walk_ends(g, id, f),
    ensures
        walk_result(g, id, f) matches Some(x) ==> g.nodes.contains_key(x) && !node_is_group(g, x),
    decreases f,
{
    if node_is_group(g, id) {
        match focus_step(g, id) {
            Some(c) => {
                let fo = g.nodes[id]->focus;
                lemma_children_of_edge(g.edges, id, fo as int);
                lemma_walk_result_node(g, c, (f - 1) as nat);
            },
            None => {},
        }
    }
}

/// The focus walk from the root of a workspace graph ends at a window node.
pub proof fn lemma_focused_child_is_window(g: GraphView)
    requires
        ws_graph_wf(g),
    ensures
        focus_walk_ends(g, 0),
        focused_window_child(g, 0) matches Some(x) ==> g.nodes.contains_key(x) && g.nodes[x] is Window,
{
    lemma_wf_walk_ends(g, 0);
    let f = choose|f: nat| walk_ends(g, 0, f);
    lemma_walk_result_node(g, 0, f);
}

/// Setting the focus of a group to one of its children keeps a well-formed tree.
pub proof fn lemma_set_focus_wf(g: GraphView, p: usize, idx: usize)
    requires
        tree_wf(g),
        node_is_group(g, p),
        idx < children_of(g.edges, p).len(),
    ensures
        tree_wf(GraphView { nodes: g.nodes.insert(p, set_focus(g.nodes[p], idx)), ..g }),
        forall|lvl: Map<usize, nat>, b: nat| levels_ok(g, lvl, b) ==> levels_ok(
            GraphView { nodes: g.nodes.insert(p, set_focus(g.nodes[p], idx)), ..g }, lvl, b),
{
    let h = GraphView { nodes: g.nodes.insert(p, set_focus(g.nodes[p], idx)), ..g };
    assert(h.nodes.dom() == g.nodes.dom());
    assert forall|k: usize| #[trigger] h.nodes.contains_key(k) implies group_counts_ok(h, k) by {
        assert(group_counts_ok(g, k));
    }
    assert forall|i: int| 0 <= i < h.edges.len() implies node_is_group(h, (#[trigger] h.edges[i]).parent)
        && h.nodes.contains_key(h.edges[i].child) by {}
    let (lvl, b) = choose|lvl: Map<usize, nat>, b: nat| levels_ok(g, lvl, b);
    assert(levels_ok(h, lvl, b));
    assert forall|lvl: Map<usize, nat>, b: nat| levels_ok(g, lvl, b) implies levels_ok(h, lvl, b) by {}
}

/// Focusing `c` changes only groups above `c`, keeps a well-formed tree, and
/// makes the focus walk from the root lead to `c`.
pub proof fn lemma_focus_chain_effect(g: GraphView, lvl: Map<usize, nat>, b: nat, c: usize, f: nat)
    requires
        tree_wf(g),
        levels_ok(g, lvl, b),
        g.nodes.contains_key(c),
        chain_ends(g.edges, c, f),
    ensures
        ({
            let h = GraphView { nodes: focus_chain(g, c, f), ..g };
            &&& tree_wf(h)
            &&& levels_ok(h, lvl, b)
            &&& h.nodes.dom() == g.nodes.dom()
            &&& forall|k: usize| h.nodes.contains_key(k) && h.nodes[k] != g.nodes[k] ==> lvl[k] < lvl[c]
            &&& focus_walk_ends(h, g.root)
            &&& focus_walk_ends(h, c)
            &&& focused_window_child(h, g.root) == focused_window_child(h, c)
        }),
    decreases f,
{
    lemma_first_child_index(g.edges, c);
    match parent_of(g.edges, c) {
        Some(p) => {
            let i = first_child_index(g.edges, c)->0;
            lemma_parent_has_child(g.edges, c);
            let ch = children_of(g.edges, p);
            lemma_index_of_some(ch, c);
            let idx = index_of(ch, c)->0;
            lemma_set_focus_wf(g, p, idx as usize);
            let g1 = GraphView { nodes: g.nodes.insert(p, set_focus(g.nodes[p], idx as usize)), ..g };
            assert(levels_ok(g1, lvl, b));
            lemma_focus_chain_effect(g1, lvl, b, p, (f - 1) as nat);
            let h = GraphView { nodes: focus_chain(g, c, f), ..g };
            assert(h.nodes == focus_chain(g1, p, (f - 1) as nat));
            assert(h.nodes[p] == g1.nodes[p]);
            assert(focus_step(h, p) == Some(c));
            lemma_wf_walk_ends(h, p);
            lemma_wf_walk_ends(h, c);
            lemma_focus_walk_step(h, p);
        },
        None => {
            assert(c == g.root);
            lemma_wf_walk_ends(g, c);
        },
    }
}

/// The node at which a move from the focused window in direction `dir` arrives.
pub open spec fn direction_result(g: GraphView, dir: Direction) -> Option<usize> {
    match focused_window_child(g, 0) {
        Some(id) => match direction_target(g, id, dir) {
            Some(t) => focused_window_child(g, t),
            None => None,
        },
        None => None,
    }
}

/// Focusing a node of a workspace graph needs no panicking step, keeps the
/// graph well-formed and makes the focus walk from the root lead to that node;
/// where the node holds a window, that window becomes the focused window.
pub proof fn lemma_focus_node_effect(g: GraphView, n: usize)
    requires
        ws_graph_wf(g),
        g.nodes.contains_key(n),
    ensures
        focus_node_ok(g, n),
        ws_graph_wf(focus_node_result(g, n)),
        !node_is_group(g, n) ==> focused_window_child(focus_node_result(g, n), 0) == Some(n),
        g.nodes[n] matches GraphNode::Window(w) ==> focused_window(focus_node_result(g, n)) == Some(w),
        focus_node_result(g, n).nodes.contains_key(n),
        focus_node_result(g, n).nodes[n] == g.nodes[n],
{
    lemma_wf_chain_ends(g, n);
    let f = choose|f: nat| chain_ends(g.edges, n, f);
    let (lvl, b) = choose|lvl: Map<usize, nat>, b: nat| levels_ok(g, lvl, b);
    lemma_focus_chain_effect(g, lvl, b, n, f);
    let h = focus_node_result(g, n);
    assert(h.nodes[n] == g.nodes[n]);
}

/// From the focused window of a workspace graph, a move in any direction needs
/// no panicking step, and where it arrives there is a node of the graph.
pub proof fn lemma_direction_ok(g: GraphView, dir: Direction)
    requires
        ws_graph_wf(g),
    ensures
        focus_walk_ends(g, 0),
        focused_window_child(g, 0) matches Some(id) ==> direction_ok(g, id, dir),
        direction_result(g, dir) matches Some(x) ==> g.nodes.contains_key(x) && !node_is_group(g, x),
{
    lemma_focused_child_is_window(g);
    if let Some(id) = focused_window_child(g, 0) {
        lemma_first_child_index(g.edges, id);
        let p = parent_of(g.edges, id)->0;
        lemma_first_child_index(g.edges, p);
        match direction_target(g, id, dir) {
            Some(t) => {
                let (parent, child) = direction_container(g, id, dir)->0;
                let ch = children_of(g.edges, parent);
                lemma_parent_has_child(g.edges, child);
                lemma_index_of_some(ch, child);
                let idx = index_of(ch, child)->0;
                let j = if idx > 0 && (dir == Direction::Left || dir == Direction::Up) { idx - 1 } else { idx + 1 };
                lemma_children_of_edge(g.edges, parent, j);
                assert(g.nodes.contains_key(t));
                lemma_wf_walk_ends(g, t);
                let f = choose|f: nat| walk_ends(g, t, f);
                lemma_walk_result_node(g, t, f);
            },
            None => {},
        }
    }
}

impl Workspace {
    pub fn new(id: WorkspaceId, layout_name: &str) -> (ws: Self)
        ensures
            ws.id == id,
            ws.display_name@ == spec_decimal(id.0 as nat),
            ws.layout_name@ == layout_name@,
            ws.state == WorkspaceState::Normal,
            ws.graph@ == Graph::new_view(),
            crate::graph::tree_wf(ws.graph@),
    {
        Self {
            id,
            display_name: decimal(id.0),
            layout_name: layout_name.to_owned(),
            state: WorkspaceState::Normal,
            graph: Graph::new(),
        }
    }

    pub fn is_fullscreen(&self) -> (r: bool)
        ensures
            r == (self.state == WorkspaceState::Fullscreen),
    {
        self.state == WorkspaceState::Fullscreen
    }

    /// The window at which the focus walk from the root ends.
    pub fn get_focused_win(&self) -> (r: Option<WindowId>)
        requires
            focus_walk_ends(self.graph@, 0),
        ensures
            r == focused_window(self.graph@),
    {
        match self.graph.get_focused_window_child(0) {
            Some(id) => match self.graph.get_node(id) {
                Some(n) => n.try_get_window_id(),
                None => None,
            },
            None => None,
        }
    }

    /// A workspace without edges holds nothing but its root.
    pub fn is_empty(&self) -> (r: bool)
        ensures
            r == (self.graph@.edges.len() == 0),
    {
        self.graph.edges.len() == 0
    }

    /// The windows of the workspace, one for each window node, in the order in
    /// which the hash map of nodes is walked.
    pub fn windows(&self) -> (r: Vec<WindowId>)
        ensures
            exists|ks: Seq<usize>| {
                &&& ks.no_duplicates()
                &&& forall|k: usize| #[trigger] ks.contains(k) <==> (self.graph@.nodes.contains_key(k)
                    && self.graph@.nodes[k] is Window)
                &&& r@ == ks.map_values(|k: usize| self.graph@.nodes[k]->Window_0)
            },
    {
        let mut r: Vec<WindowId> = Vec::new();
        let ghost mut ks: Seq<usize> = Seq::empty();
        let ghost sq = spec_hash_map_iter(&self.graph.nodes).remaining();
        for (id, node) in it: self.graph.nodes.iter()
            invariant
                it.seq() == sq,
                sq == spec_hash_map_iter(&self.graph.nodes).remaining(),
                sq.no_duplicates(),
                ks.no_duplicates(),
                forall|k: usize| #[trigger] ks.contains(k) <==> (exists|j: int| 0 <= j < it.index()
                    && *sq[j].0 == k && sq[j].1 is Window),
                forall|k: usize| ks.contains(k) ==> self.graph@.nodes.contains_key(k),
                r@ == ks.map_values(|k: usize| self.graph@.nodes[k]->Window_0),
        {
            let ghost i = it.index();
            let ghost old_ks = ks;
            proof {
                assert(sq[i as int] == (id, node));
                assert(self.graph@.nodes.contains_key(*id));
            }
            match node {
                GraphNode::Window(w) => {
                    proof {
                        assert(!ks.contains(*id)) by {
                            if ks.contains(*id) {
                                let j = choose|j: int| 0 <= j < i && *sq[j].0 == *id && sq[j].1 is Window;
                                assert(sq[j].0 == sq[i as int].0);
                            }
                        }
                        ks = ks.push(*id);
                    }
                    r.push(*w);
                    assert(r@ =~= ks.map_values(|k: usize| self.graph@.nodes[k]->Window_0));
                },
                GraphNode::Group { .. } => {},
            }
            proof {
                assert forall|k: usize| #[trigger] ks.contains(k) <==> (exists|j: int| 0 <= j < i + 1
                    && *sq[j].0 == k && sq[j].1 is Window) by {
                    if ks.contains(k) && !old_ks.contains(k) {
                        assert(*sq[i as int].0 == k && sq[i as int].1 is Window);
                    }
                    if exists|j: int| 0 <= j < i + 1 && *sq[j].0 == k && sq[j].1 is Window {
                        let j = choose|j: int| 0 <= j < i + 1 && *sq[j].0 == k && sq[j].1 is Window;
                        if j < i {
                            assert(old_ks.contains(k));
                            assert(ks.contains(k)) by {
                                if ks != old_ks {
                                    assert(ks == old_ks.push(*id));
                                    let w = choose|w: int| 0 <= w < old_ks.len() && old_ks[w] == k;
                                    assert(ks[w] == k);
                                }
                            }
                        } else {
                            assert(ks.contains(k)) by {
                                assert(ks.last() == k);
                            }
                        }
                    }
                }
            }
        }
        proof {
            assert forall|k: usize| #[trigger] ks.contains(k) <==> (self.graph@.nodes.contains_key(k)
                && self.graph@.nodes[k] is Window) by {
                if self.graph@.nodes.contains_key(k) && self.graph@.nodes[k] is Window {
                    assert(sq.contains((&k, &self.graph@.nodes[k])));
                    let j = choose|j: int| 0 <= j < sq.len() && sq[j] == (&k, &self.graph@.nodes[k]);
                    assert(*sq[j].0 == k && sq[j].1 is Window);
                }
            }
        }
        r
    }

    /// The node at which the focus walk from the root ends.
    pub fn get_focused_node(&self) -> (r: Option<&GraphNode>)
        requires
            focus_walk_ends(self.graph@, 0),
        ensures
            match focused_window_child(self.graph@, 0) {
                Some(id) => match r {
                    Some(n) => self.graph@.nodes.contains_key(id) && *n == self.graph@.nodes[id],
                    None => !self.graph@.nodes.contains_key(id),
                },
                None => r is None,
            },
    {
        match self.graph.get_focused_window_child(0) {
            Some(id) => self.graph.get_node(id),
            None => None,
        }
    }

    pub fn has_window(&self, id: WindowId) -> (r: bool)
        ensures
            r == holds_window(self.graph@, id),
    {
        self.graph.get_window_node(id).is_some()
    }

    /// Focuses the node that holds the window `id`, so that the focus walk from
    /// the root leads to it.
    pub fn focus_window(&mut self, id: WindowId) -> (r: WorkspaceResult)
        requires
            ws_graph_wf(old(self).graph@),
        ensures
            r is Ok <==> holds_window(old(self).graph@, id),
            r is Err ==> r == Err::<(), WorkspaceError>(WorkspaceError::WindowNodeNotFound)
                && final(self).graph@ == old(self).graph@,
            r is Ok ==> exists|n: usize| old(self).graph@.nodes.contains_key(n)
                && old(self).graph@.nodes[n] == GraphNode::Window(id)
                && final(self).graph@ == focus_node_result(old(self).graph@, n),
            r is Ok ==> focused_window(final(self).graph@) == Some(id),
            ws_graph_wf(final(self).graph@),
            final(self).id == old(self).id,
            final(self).state == old(self).state,
            final(self).display_name == old(self).display_name,
            final(self).layout_name == old(self).layout_name,
    {
        let node_id = match self.graph.get_window_node(id) {
            Some(n) => n,
            None => return Err(WorkspaceError::WindowNodeNotFound),
        };
        proof {
            lemma_focus_node_effect(self.graph@, node_id);
        }
        self.focus_node(node_id);
        Ok(())
    }

    /// Moves the focus from the focused window to the window in direction `dir`
    /// and gives the node of that window.
    pub fn focus_in_direction(&mut self, dir: Direction) -> (r: Option<GraphNodeId>)
        requires
            ws_graph_wf(old(self).graph@),
        ensures
            r == direction_result(old(self).graph@, dir),
            match r {
                Some(n) => final(self).graph@ == focus_node_result(old(self).graph@, n)
                    && focused_window_child(final(self).graph@, 0) == Some(n),
                None => *final(self) == *old(self),
            },
            ws_graph_wf(final(self).graph@),
            final(self).id == old(self).id,
            final(self).state == old(self).state,
            final(self).display_name == old(self).display_name,
            final(self).layout_name == old(self).layout_name,
    {
        proof {
            lemma_direction_ok(self.graph@, dir);
        }
        match self.graph.get_focused_window_child(0) {
            Some(id) => match self.graph.get_window_node_in_direction(id, dir) {
                Some(node_id) => {
                    proof {
                        lemma_focus_node_effect(self.graph@, node_id);
                    }
                    self.focus_node(node_id);
                    Some(node_id)
                },
                None => None,
            },
            None => None,
        }
    }

    /// Does what `focus_in_direction` does: it moves the focus, it swaps no
    /// windows.
    pub fn swap_in_direction(&mut self, dir: Direction) -> (r: Option<GraphNodeId>)
        requires
            ws_graph_wf(old(self).graph@),
        ensures
            r == direction_result(old(self).graph@, dir),
            match r {
                Some(n) => final(self).graph@ == focus_node_result(old(self).graph@, n)
                    && focused_window_child(final(self).graph@, 0) == Some(n),
                None => *final(self) == *old(self),
            },
            ws_graph_wf(final(self).graph@),
            final(self).id == old(self).id,
            final(self).state == old(self).state,
            final(self).display_name == old(self).display_name,
            final(self).layout_name == old(self).layout_name,
    {
        proof {
            lemma_direction_ok(self.graph@, dir);
        }
        match self.graph.get_focused_window_child(0) {
            Some(id) => match self.graph.get_window_node_in_direction(id, dir) {
                Some(node_id) => {
                    proof {
                        lemma_focus_node_effect(self.graph@, node_id);
                    }
                    self.focus_node(node_id);
                    Some(node_id)
                },
                None => None,
            },
            None => None,
        }
    }

    /// Makes every group on the way from `id` up to the root focus the child
    /// through which that way passes, so that the focus walk from the root
    /// leads to `id`.
    fn focus_node(&mut self, id: GraphNodeId)
        requires
            focus_node_ok(old(self).graph@, id),
        ensures
            final(self).graph@ == focus_node_result(old(self).graph@, id),
            final(self).id == old(self).id,
            final(self).state == old(self).state,
            final(self).display_name == old(self).display_name,
            final(self).layout_name == old(self).layout_name,
    {
        let ghost f = choose|f: nat| chain_ends(self.graph@.edges, id, f);
        self.focus_node_within(id, Ghost(f));
    }

    fn focus_node_within(&mut self, id: GraphNodeId, Ghost(fuel): Ghost<nat>)
        requires
            parents_are_groups(old(self).graph@),
            chain_ends(old(self).graph@.edges, id, fuel),
        ensures
            final(self).graph@ == (GraphView { nodes: focus_chain(old(self).graph@, id, fuel), ..old(self).graph@ }),
            final(self).id == old(self).id,
            final(self).state == old(self).state,
            final(self).display_name == old(self).display_name,
            final(self).layout_name == old(self).layout_name,
        decreases fuel,
    {
        if let Some(parent) = self.graph.get_parent_node(id) {
            proof {
                lemma_parent_has_child(self.graph@.edges, id);
                crate::graph::lemma_first_child_index(self.graph@.edges, id);
            }
            let children = self.graph.get_children(parent);
            let idx = find_index(&children, id).unwrap();
            match self.graph.get_node(parent) {
                Some(GraphNode::Group { kind, child_count, .. }) => {
                    let updated = GraphNode::Group { kind: *kind, focus: idx, child_count: *child_count };
                    self.graph.nodes.insert(parent, updated);
                },
                _ => {},
            }
            // The groups further up must focus the way to `parent` as well.
            self.focus_node_within(parent, Ghost((fuel - 1) as nat));
        }
    }
}

} // verus!
