//! The layout graph of a workspace: a tree of row and column groups whose
//! leaves are windows.
use std::collections::HashMap;
use vstd::prelude::*;
use vstd::std_specs::hash::*;
use vstd::std_specs::iter::IteratorSpec;
use crate::platform::WindowId;
use crate::direction::Direction;

verus! {

broadcast use vstd::std_specs::hash::group_hash_axioms;

pub type WindowNodeId = WindowId;
pub type GraphNodeId = usize;

#[derive(Debug, Clone, Copy, PartialEq, Eq, Structural)]
pub enum GraphNodeGroupKind {
    Row,
    Col,
}

#[derive(Debug, Clone, Copy, PartialEq, Eq, Structural)]
pub enum GraphNode {
    /// A row or a column. `focus` is the position of the focused child among the
    /// children of this group (not a node id); `child_count` is how many nodes
    /// are connected to this group as its children.
    Group { kind: GraphNodeGroupKind, focus: usize, child_count: usize },
    Window(WindowNodeId),
}

impl GraphNode {
    pub fn try_get_window_id(&self) -> (r: Option<WindowNodeId>)
        ensures
            r == (match *self {
                GraphNode::Window(w) => Some(w),
                _ => None,
            }),
    {
        match self {
            GraphNode::Window(win_id) => Some(*win_id),
            _ => None,
        }
    }

    pub fn try_get_group_kind(&self) -> (r: Option<GraphNodeGroupKind>)
        ensures
            r == (match *self {
                GraphNode::Group { kind, .. } => Some(kind),
                _ => None,
            }),
    {
        match self {
            GraphNode::Group { kind, .. } => Some(*kind),
            _ => None,
        }
    }
}

#[derive(Debug, Copy, Clone, PartialEq, Eq, Structural)]
pub enum GraphError {
    /// The node is not a group node.
    NotAGroupNode,
    NodeNotFound,
}

pub type GraphResult<T = ()> = Result<T, GraphError>;

#[derive(Debug, Clone, Copy, PartialEq, Eq, Structural)]
pub struct GraphEdge {
    pub parent: GraphNodeId,
    pub child: GraphNodeId,
}

#[derive(Debug, Clone)]
pub struct Graph {
    /// The biggest id that has been given out; it grows whenever a node is added.
    pub max_id: GraphNodeId,
    /// Whether the graph has been modified and not yet handled.
    pub dirty: bool,
    pub nodes: HashMap<GraphNodeId, GraphNode>,
    pub edges: Vec<GraphEdge>,
    pub root_node_id: GraphNodeId,
}

/// The mathematical value of a graph.
#[verifier::ext_equal]
pub struct GraphView {
    pub max_id: usize,
    pub dirty: bool,
    pub nodes: Map<usize, GraphNode>,
    pub edges: Seq<GraphEdge>,
    pub root: usize,
}

impl View for Graph {
    type V = GraphView;

    open spec fn view(&self) -> GraphView {
        GraphView {
            max_id: self.max_id,
            dirty: self.dirty,
            nodes: self.nodes@,
            edges: self.edges@,
            root: self.root_node_id,
        }
    }
}

/// The children of `p`, in the order in which their edges were added.
pub open spec fn children_of(edges: Seq<GraphEdge>, p: usize) -> Seq<usize>
    decreases edges.len(),
{
    if edges.len() == 0 {
        Seq::empty()
    } else {
        let rest = children_of(edges.drop_last(), p);
        if edges.last().parent == p {
            rest.push(edges.last().child)
        } else {
            rest
        }
    }
}

/// The index of the first edge whose child is `c`: the parent edge of `c`.
pub open spec fn first_child_index(edges: Seq<GraphEdge>, c: usize) -> Option<int>
    decreases edges.len(),
{
    if edges.len() == 0 {
        None
    } else {
        match first_child_index(edges.drop_last(), c) {
            Some(i) => Some(i),
            None => if edges.last().child == c {
                Some(edges.len() - 1)
            } else {
                None
            },
        }
    }
}

/// The parent of `c`: the parent of its parent edge.
pub open spec fn parent_of(edges: Seq<GraphEdge>, c: usize) -> Option<usize> {
    match first_child_index(edges, c) {
        Some(i) => Some(edges[i].parent),
        None => None,
    }
}

pub proof fn lemma_first_child_index(edges: Seq<GraphEdge>, c: usize)
    ensures
        match first_child_index(edges, c) {
            Some(i) => 0 <= i < edges.len() && edges[i].child == c
                && forall|j: int| 0 <= j < i ==> edges[j].child != c,
            None => forall|j: int| 0 <= j < edges.len() ==> edges[j].child != c,
        },
    decreases edges.len(),
{
    if edges.len() > 0 {
        let d = edges.drop_last();
        lemma_first_child_index(d, c);
        assert(forall|j: int| 0 <= j < d.len() ==> d[j] == edges[j]);
    }
}

pub proof fn lemma_children_of_len(edges: Seq<GraphEdge>, p: usize)
    ensures
        children_of(edges, p).len() <= edges.len(),
    decreases edges.len(),
{
    if edges.len() > 0 {
        lemma_children_of_len(edges.drop_last(), p);
    }
}

/// `HashMap::get_mut`: the value stored under `id`, to be changed in place.
#[verifier::external_body]
fn node_slot<'a>(nodes: &'a mut HashMap<GraphNodeId, GraphNode>, id: &GraphNodeId) -> (r: Option<&'a mut GraphNode>)
    ensures
        r is None ==> !old(nodes)@.contains_key(*id) && final(nodes)@ == old(nodes)@,
        r is Some ==> old(nodes)@.contains_key(*id) && *r.unwrap() == old(nodes)@[*id]
            && final(nodes)@ == old(nodes)@.insert(*id, *final(r.unwrap())),
{
    nodes.get_mut(id)
}

/// `lvl` gives each node its depth below the root, counted along the edges.
pub open spec fn levels_ok(v: GraphView, lvl: Map<usize, nat>, bound: nat) -> bool {
    &&& forall|k: usize| #[trigger] v.nodes.contains_key(k) ==> lvl.contains_key(k) && lvl[k] <= bound
    &&& lvl.contains_key(v.root) && lvl[v.root] == 0
    &&& forall|i: int| 0 <= i < v.edges.len() ==> lvl.contains_key(#[trigger] v.edges[i].child)
        && lvl.contains_key(v.edges[i].parent) && lvl[v.edges[i].child] == lvl[v.edges[i].parent] + 1
}

/// The graph is a tree of groups with windows (or empty groups) as leaves:
/// the root is a group without a parent; every edge leads from a group to a
/// node of the graph; every other node has exactly one parent edge; no node id
/// exceeds `max_id`; each group counts its children and focuses one of them
/// (or none, when it has none); and no path of edges runs in a circle.
pub open spec fn tree_wf(v: GraphView) -> bool {
    &&& node_is_group(v, v.root)
    &&& forall|i: int| 0 <= i < v.edges.len() ==> (#[trigger] v.edges[i]).child != v.root
    &&& forall|i: int| 0 <= i < v.edges.len() ==> node_is_group(v, (#[trigger] v.edges[i]).parent)
        && v.nodes.contains_key(v.edges[i].child)
    &&& forall|i: int, j: int| 0 <= i < v.edges.len() && 0 <= j < v.edges.len()
        && (#[trigger] v.edges[i]).child == (#[trigger] v.edges[j]).child ==> i == j
    &&& forall|k: usize| #[trigger] v.nodes.contains_key(k) && k != v.root
        ==> first_child_index(v.edges, k) is Some
    &&& forall|k: usize| #[trigger] v.nodes.contains_key(k) ==> k <= v.max_id
    &&& forall|k: usize| #[trigger] v.nodes.contains_key(k) ==> group_counts_ok(v, k)
    &&& exists|lvl: Map<usize, nat>, bound: nat| levels_ok(v, lvl, bound)
}

/// A group counts exactly its children and focuses one of them, or has focus 0
/// when it has none.
pub open spec fn group_counts_ok(v: GraphView, k: usize) -> bool {
    match v.nodes[k] {
        GraphNode::Group { focus, child_count, .. } => child_count == children_of(v.edges, k).len()
            && (focus < child_count || (child_count == 0 && focus == 0)),
        GraphNode::Window(_) => true,
    }
}

/// What adding `child` under `parent` makes of a graph, and what it answers.
pub open spec fn spec_add_child(v: GraphView, parent: usize, child: GraphNode) -> (GraphView, GraphResult<usize>) {
    match v.nodes.get(parent) {
        Some(GraphNode::Group { kind, focus, child_count }) => {
            let new_id = (v.max_id + 1) as usize;
            let count = (child_count + 1) as usize;
            (
                GraphView {
                    max_id: new_id,
                    dirty: true,
                    nodes: v.nodes.insert(parent, GraphNode::Group { kind, focus: child_count, child_count: count })
                        .insert(new_id, child),
                    edges: v.edges.push(GraphEdge { parent, child: new_id }),
                    root: v.root,
                },
                Ok(new_id),
            )
        },
        _ => (v, Err(GraphError::NotAGroupNode)),
    }
}

/// Adding a child under `parent` does not overflow a counter.
pub open spec fn can_add_child(v: GraphView, parent: usize) -> bool {
    match v.nodes.get(parent) {
        Some(GraphNode::Group { child_count, .. }) => child_count < usize::MAX && v.max_id < usize::MAX,
        _ => true,
    }
}

pub open spec fn swapped_edge(e: GraphEdge, x: usize, y: usize) -> GraphEdge {
    if e.child == x {
        GraphEdge { parent: e.parent, child: y }
    } else if e.child == y {
        GraphEdge { parent: e.parent, child: x }
    } else {
        e
    }
}

pub open spec fn swapped_edges(edges: Seq<GraphEdge>, x: usize, y: usize) -> Seq<GraphEdge> {
    edges.map_values(|e: GraphEdge| swapped_edge(e, x, y))
}

pub open spec fn node_is_group(v: GraphView, id: usize) -> bool {
    v.nodes.contains_key(id) && v.nodes[id] is Group
}

/// The focused child of `id`, if `id` is a group whose focus points at one of its children.
pub open spec fn focus_step(v: GraphView, id: usize) -> Option<usize> {
    match v.nodes.get(id) {
        Some(GraphNode::Group { focus, .. }) => {
            let ch = children_of(v.edges, id);
            if focus < ch.len() {
                Some(ch[focus as int])
            } else {
                None
            }
        },
        _ => None,
    }
}

/// Following the focus down from `id` stops within `fuel` steps.
pub open spec fn walk_ends(v: GraphView, id: usize, fuel: nat) -> bool
    decreases fuel,
{
    if node_is_group(v, id) {
        match focus_step(v, id) {
            Some(c) => fuel > 0 && walk_ends(v, c, (fuel - 1) as nat),
            None => true,
        }
    } else {
        true
    }
}

/// Where following the focus down from `id` ends: the first node that is not a
/// group, or nothing where a group's focus points at no child.
pub open spec fn walk_result(v: GraphView, id: usize, fuel: nat) -> Option<usize>
    decreases fuel,
{
    if node_is_group(v, id) {
        match focus_step(v, id) {
            Some(c) => if fuel > 0 {
                walk_result(v, c, (fuel - 1) as nat)
            } else {
                None
            },
            None => None,
        }
    } else {
        Some(id)
    }
}

/// The focus walk from `id` comes to an end.
pub open spec fn focus_walk_ends(v: GraphView, id: usize) -> bool {
    exists|f: nat| walk_ends(v, id, f)
}

/// The node at which the focus walk from `id` ends.
pub open spec fn focused_window_child(v: GraphView, id: usize) -> Option<usize> {
    walk_result(v, id, choose|f: nat| walk_ends(v, id, f))
}

pub proof fn lemma_walk_fuel(v: GraphView, id: usize, f1: nat, f2: nat)
    requires
        walk_ends(v, id, f1),
        walk_ends(v, id, f2),
    ensures
        walk_result(v, id, f1) == walk_result(v, id, f2),
    decreases f1,
{
    if node_is_group(v, id) {
        match focus_step(v, id) {
            Some(c) => lemma_walk_fuel(v, c, (f1 - 1) as nat, (f2 - 1) as nat),
            None => {},
        }
    }
}

/// One step of the focus walk: a group passes the walk on to its focused child.
pub proof fn lemma_focus_walk_step(v: GraphView, id: usize)
    requires
        focus_walk_ends(v, id),
        node_is_group(v, id),
        focus_step(v, id) is Some,
    ensures
        focus_walk_ends(v, focus_step(v, id)->0),
        focused_window_child(v, id) == focused_window_child(v, focus_step(v, id)->0),
{
    let f = choose|f: nat| walk_ends(v, id, f);
    let c = focus_step(v, id)->0;
    assert(walk_ends(v, c, (f - 1) as nat));
    let g = choose|g: nat| walk_ends(v, c, g);
    lemma_walk_fuel(v, c, (f - 1) as nat, g);
}

/// What deleting `id` (without touching its children) makes of a graph, and
/// what it answers.
pub open spec fn spec_delete_node(v: GraphView, id: usize) -> (GraphView, GraphResult<()>) {
    if !v.nodes.contains_key(id) {
        (v, Err(GraphError::NodeNotFound))
    } else {
        let max_id = if v.max_id == id { (v.max_id - 1) as usize } else { v.max_id };
        let nodes = v.nodes.remove(id);
        match first_child_index(v.edges, id) {
            None => (GraphView { max_id, dirty: true, nodes, ..v }, Err(GraphError::NodeNotFound)),
            Some(i) => {
                let p = v.edges[i].parent;
                let pnode = match nodes[p] {
                    GraphNode::Group { kind, focus, child_count } => GraphNode::Group {
                        kind,
                        focus: (if focus > 1 { focus } else { 1 } - 1) as usize,
                        child_count: (child_count - 1) as usize,
                    },
                    other => other,
                };
                (
                    GraphView {
                        max_id,
                        dirty: true,
                        nodes: nodes.insert(p, pnode),
                        edges: v.edges.remove(i),
                        root: v.root,
                    },
                    Ok(()),
                )
            },
        }
    }
}

/// Each prefix of a deletion order that does not underflow the largest id
/// does not underflow it either.
pub proof fn lemma_lowered_ok_prefix(m: int, s: Seq<usize>)
    requires
        lowered_ok(m, s),
    ensures
        forall|t: int| 0 <= t <= s.len() ==> lowered_ok(m, #[trigger] s.take(t)),
    decreases s.len(),
{
    if s.len() > 0 {
        lemma_lowered_ok_prefix(m, s.drop_last());
        assert forall|t: int| 0 <= t <= s.len() implies lowered_ok(m, #[trigger] s.take(t)) by {
            if t == s.len() {
                assert(s.take(t) == s);
            } else {
                assert(s.take(t) == s.drop_last().take(t));
            }
        }
    }
}

/// A parent group after losing one child (see `parent_after_delete`).
fn parent_after_node(n: &GraphNode) -> (r: GraphNode)
    requires
        n matches GraphNode::Group { child_count, .. } ==> child_count >= 1,
    ensures
        r == parent_after_delete(*n),
{
    match n {
        GraphNode::Group { kind, focus, child_count } => {
            let focus = if *focus > 1 { *focus } else { 1 } - 1;
            GraphNode::Group { kind: *kind, focus, child_count: *child_count - 1 }
        },
        GraphNode::Window(w) => GraphNode::Window(*w),
    }
}

/// Some edge other than edge `i` leads from `id`.
pub open spec fn other_children(edges: Seq<GraphEdge>, id: usize, i: int) -> bool {
    exists|j: int| 0 <= j < edges.len() && j != i && (#[trigger] edges[j]).parent == id
}

/// Deleting `id` without `shallow` takes its descendants along: `id` has a
/// parent edge and children.
pub open spec fn deletes_tree(v: GraphView, id: usize, shallow: bool) -> bool {
    &&& !shallow
    &&& v.nodes.contains_key(id)
    &&& first_child_index(v.edges, id) matches Some(i) && other_children(v.edges, id, i)
}

/// The nodes of the subtree of `id`, `id` first, each followed by the
/// subtrees of its children in order, down `fuel` levels.
pub open spec fn subtree(v: GraphView, id: usize, fuel: nat) -> Seq<usize>
    decreases fuel, 0nat,
{
    if fuel == 0 {
        Seq::empty()
    } else {
        seq![id] + subtrees(v, children_of(v.edges, id), 0, (fuel - 1) as nat)
    }
}

/// The subtrees of the children `ch[j..]`, one after the other.
pub open spec fn subtrees(v: GraphView, ch: Seq<usize>, j: nat, fuel: nat) -> Seq<usize>
    decreases fuel, ch.len() - j,
{
    if j >= ch.len() {
        Seq::empty()
    } else {
        subtree(v, ch[j as int], fuel) + subtrees(v, ch, j + 1, fuel)
    }
}

/// `id` and all nodes below it, in the order in which deleting `id` deletes
/// them (for a well-formed tree, whose levels bound the depth).
pub open spec fn descendants(v: GraphView, id: usize) -> Seq<usize> {
    let (lvl, b) = choose|lvl: Map<usize, nat>, b: nat| levels_ok(v, lvl, b);
    subtree(v, id, (b - lvl[id] + 1) as nat)
}

/// The largest id after deleting the nodes `s` one after the other from a
/// graph whose largest id is `m`: each deletion of the node with the largest
/// id lowers it by one.
pub open spec fn lowered_max(m: int, s: Seq<usize>) -> int
    decreases s.len(),
{
    if s.len() == 0 {
        m
    } else {
        let l = lowered_max(m, s.drop_last());
        if l == s.last() { l - 1 } else { l }
    }
}

/// Lowering the largest id while deleting `s` never goes below zero.
pub open spec fn lowered_ok(m: int, s: Seq<usize>) -> bool
    decreases s.len(),
{
    s.len() == 0 || (lowered_ok(m, s.drop_last()) && !(lowered_max(m, s.drop_last()) == 0 && s.last() == 0))
}

/// `nodes` without the keys of `s`.
pub open spec fn removed(nodes: Map<usize, GraphNode>, s: Seq<usize>) -> Map<usize, GraphNode>
    decreases s.len(),
{
    if s.len() == 0 {
        nodes
    } else {
        removed(nodes, s.drop_last()).remove(s.last())
    }
}

/// The edges whose child is not in `s`, in their order.
pub open spec fn kept_edges(edges: Seq<GraphEdge>, s: Seq<usize>) -> Seq<GraphEdge>
    decreases edges.len(),
{
    if edges.len() == 0 {
        edges
    } else {
        let rest = kept_edges(edges.drop_last(), s);
        if s.contains(edges.last().child) { rest } else { rest.push(edges.last()) }
    }
}

/// A parent group after losing one child: one child fewer, and the focus one
/// place up (it stays at 0).
pub open spec fn parent_after_delete(n: GraphNode) -> GraphNode {
    match n {
        GraphNode::Group { kind, focus, child_count } => GraphNode::Group {
            kind,
            focus: (if focus > 1 { focus } else { 1 } - 1) as usize,
            child_count: (child_count - 1) as usize,
        },
        other => other,
    }
}

/// What deleting `id` together with its descendants makes of a graph: their
/// nodes and every edge to one of them go, the parent of `id` counts one child
/// fewer, and the largest id is lowered as they are deleted.
pub open spec fn spec_delete_tree(v: GraphView, id: usize) -> GraphView {
    let s = descendants(v, id);
    let p = v.edges[first_child_index(v.edges, id)->0].parent;
    GraphView {
        max_id: lowered_max(v.max_id as int, s) as usize,
        dirty: true,
        nodes: removed(v.nodes, s).insert(p, parent_after_delete(v.nodes[p])),
        edges: kept_edges(v.edges, s),
        root: v.root,
    }
}

/// Deleting `id` neither underflows a counter nor meets a parent that is
/// missing or no group; where it takes descendants along, the graph is a
/// well-formed tree and lowering the largest id does not underflow.
pub open spec fn delete_node_ok(v: GraphView, id: usize, shallow: bool) -> bool {
    v.nodes.contains_key(id) ==> {
        &&& !(v.max_id == id && id == 0)
        &&& match first_child_index(v.edges, id) {
            Some(i) => {
                let p = v.edges[i].parent;
                &&& p != id
                &&& v.nodes.contains_key(p)
                &&& v.nodes[p] matches GraphNode::Group { child_count, .. } && child_count >= 1
                &&& (shallow || !other_children(v.edges, id, i)
                    || (tree_wf(v) && lowered_ok(v.max_id as int, descendants(v, id))))
            },
            None => true,
        }
    }
}

pub open spec fn target_group_kind(dir: Direction) -> GraphNodeGroupKind {
    match dir {
        Direction::Left | Direction::Right => GraphNodeGroupKind::Row,
        Direction::Up | Direction::Down => GraphNodeGroupKind::Col,
    }
}

/// The index of the first occurrence of `x` in `s`.
pub open spec fn index_of(s: Seq<usize>, x: usize) -> Option<int>
    decreases s.len(),
{
    if s.len() == 0 {
        None
    } else {
        match index_of(s.drop_last(), x) {
            Some(i) => Some(i),
            None => if s.last() == x { Some(s.len() - 1) } else { None },
        }
    }
}

/// The group in which a move from `start` in direction `dir` happens, and the
/// child of that group which holds `start`; nothing where the move would leave
/// the root.
pub open spec fn direction_container(v: GraphView, start: usize, dir: Direction) -> Option<(usize, usize)> {
    let p = parent_of(v.edges, start)->0;
    let pk = v.nodes[p]->kind;
    if pk == target_group_kind(dir) {
        Some((p, start))
    } else if p != v.root {
        Some((parent_of(v.edges, p)->0, p))
    } else {
        None
    }
}

/// The sibling at which a move from `start` in direction `dir` arrives.
pub open spec fn direction_target(v: GraphView, start: usize, dir: Direction) -> Option<usize> {
    match direction_container(v, start, dir) {
        Some((parent, child)) => {
            let ch = children_of(v.edges, parent);
            let idx = index_of(ch, child)->0;
            match dir {
                Direction::Left | Direction::Up => if idx > 0 { Some(ch[idx - 1]) } else { None },
                Direction::Right | Direction::Down => if idx + 1 < ch.len() { Some(ch[idx + 1]) } else { None },
            }
        },
        None => None,
    }
}

/// The lookups of a move from `start` find what they expect: a parent group,
/// and a grand parent where the parent is of the other kind and not the root.
pub open spec fn direction_ok(v: GraphView, start: usize, dir: Direction) -> bool {
    &&& parent_of(v.edges, start) is Some
    &&& node_is_group(v, parent_of(v.edges, start)->0)
    &&& ({
        let p = parent_of(v.edges, start)->0;
        (v.nodes[p]->kind != target_group_kind(dir) && p != v.root) ==> parent_of(v.edges, p) is Some
    })
    &&& (direction_target(v, start, dir) matches Some(t) ==> focus_walk_ends(v, t))
}

pub proof fn lemma_parent_has_child(edges: Seq<GraphEdge>, c: usize)
    requires
        parent_of(edges, c) is Some,
    ensures
        index_of(children_of(edges, parent_of(edges, c)->0), c) is Some,
{
    lemma_first_child_index(edges, c);
    let i = first_child_index(edges, c)->0;
    lemma_children_contains(edges, edges[i].parent, i);
    lemma_index_of_contains(children_of(edges, edges[i].parent), c);
}

pub proof fn lemma_children_contains(edges: Seq<GraphEdge>, p: usize, i: int)
    requires
        0 <= i < edges.len(),
        edges[i].parent == p,
    ensures
        children_of(edges, p).contains(edges[i].child),
    decreases edges.len(),
{
    let d = edges.drop_last();
    if i == edges.len() - 1 {
        assert(children_of(edges, p).last() == edges[i].child);
    } else {
        lemma_children_contains(d, p, i);
        let w = choose|k: int| 0 <= k < children_of(d, p).len() && children_of(d, p)[k] == edges[i].child;
        if edges.last().parent == p {
            assert(children_of(edges, p)[w] == edges[i].child);
        }
    }
}

pub proof fn lemma_index_of_contains(s: Seq<usize>, x: usize)
    requires
        s.contains(x),
    ensures
        index_of(s, x) matches Some(i) && 0 <= i < s.len() && s[i] == x,
    decreases s.len(),
{
    let d = s.drop_last();
    if d.contains(x) {
        lemma_index_of_contains(d, x);
    } else {
        let k = choose|k: int| 0 <= k < s.len() && s[k] == x;
        if k < s.len() - 1 {
            assert(d[k] == x);
        }
        lemma_index_of_none(d, x);
    }
}

pub proof fn lemma_index_of_some(s: Seq<usize>, x: usize)
    requires
        index_of(s, x) is Some,
    ensures
        index_of(s, x) matches Some(i) && 0 <= i < s.len() && s[i] == x,
    decreases s.len(),
{
    let d = s.drop_last();
    if index_of(d, x) is Some {
        lemma_index_of_some(d, x);
    }
}

pub proof fn lemma_index_of_none(s: Seq<usize>, x: usize)
    requires
        !s.contains(x),
    ensures
        index_of(s, x) is None,
    decreases s.len(),
{
    if s.len() > 0 {
        let d = s.drop_last();
        assert(!d.contains(x)) by {
            if d.contains(x) {
                let k = choose|k: int| 0 <= k < d.len() && d[k] == x;
                assert(s[k] == x);
            }
        }
        lemma_index_of_none(d, x);
    }
}

impl Graph {
    /// The value of a new graph: a root row without children.
    pub open spec fn new_view() -> GraphView {
        GraphView {
            max_id: 0,
            dirty: false,
            nodes: map![0usize => GraphNode::Group { kind: GraphNodeGroupKind::Row, focus: 0, child_count: 0 }],
            edges: Seq::empty(),
            root: 0,
        }
    }

    pub fn new() -> (g: Self)
        ensures
            g@.nodes == map![0usize => GraphNode::Group { kind: GraphNodeGroupKind::Row, focus: 0, child_count: 0 }],
            g@.edges == Seq::<GraphEdge>::empty(),
            g@.max_id == 0,
            !g@.dirty,
            g@.root == 0,
            g@ == Graph::new_view(),
            tree_wf(g@),
    {
        proof {
            crate::graph_laws::lemma_new_graph_wf(GraphView {
                max_id: 0,
                dirty: false,
                nodes: map![0usize => GraphNode::Group { kind: GraphNodeGroupKind::Row, focus: 0, child_count: 0 }],
                edges: Seq::empty(),
                root: 0,
            });
        }
        let mut nodes = HashMap::new();
        nodes.insert(0, GraphNode::Group { kind: GraphNodeGroupKind::Row, focus: 0, child_count: 0 });
        Self { max_id: 0, dirty: false, root_node_id: 0, nodes, edges: Vec::new() }
    }

    pub fn get_node_mut(&mut self, id: GraphNodeId) -> (r: Option<&mut GraphNode>)
        ensures
            r is None ==> !old(self)@.nodes.contains_key(id) && final(self)@ == old(self)@,
            r is Some ==> old(self)@.nodes.contains_key(id) && *r.unwrap() == old(self)@.nodes[id]
                && final(self)@ == (GraphView {
                    nodes: old(self)@.nodes.insert(id, *final(r.unwrap())),
                    ..old(self)@
                }),
    {
        node_slot(&mut self.nodes, &id)
    }

    pub fn get_node(&self, id: GraphNodeId) -> (r: Option<&GraphNode>)
        ensures
            r is None <==> !self@.nodes.contains_key(id),
            r is Some ==> *r.unwrap() == self@.nodes[id],
    {
        self.nodes.get(&id)
    }

    fn add_child_node(&mut self, parent_id: GraphNodeId, child: GraphNode) -> (r: GraphResult<GraphNodeId>)
        requires
            can_add_child(old(self)@, parent_id),
        ensures
            final(self)@ == spec_add_child(old(self)@, parent_id, child).0,
            r == spec_add_child(old(self)@, parent_id, child).1,
    {
        match self.nodes.get(&parent_id) {
            Some(GraphNode::Group { kind, focus: _, child_count }) => {
                let kind = *kind;
                let child_count = *child_count + 1;
                self.nodes.insert(parent_id, GraphNode::Group { kind, focus: child_count - 1, child_count });
                self.max_id += 1;
                self.nodes.insert(self.max_id, child);
                self.add_edge(parent_id, self.max_id);
                self.dirty = true;
                return Ok(self.max_id);
            },
            _ => {},
        }
        Err(GraphError::NotAGroupNode)
    }

    /// Connects `child` to `parent`. The `child_count` and `focus` of the parent
    /// node are left as they are.
    pub fn add_edge(&mut self, parent: GraphNodeId, child: GraphNodeId)
        ensures
            final(self)@ == (GraphView {
                dirty: true,
                edges: old(self)@.edges.push(GraphEdge { parent, child }),
                ..old(self)@
            }),
    {
        self.dirty = true;
        self.edges.push(GraphEdge { parent, child });
    }

    pub fn add_row(&mut self, parent_id: GraphNodeId) -> (r: GraphResult<GraphNodeId>)
        requires
            can_add_child(old(self)@, parent_id),
        ensures
            ({
                let s = spec_add_child(old(self)@, parent_id,
                    GraphNode::Group { kind: GraphNodeGroupKind::Row, focus: 0, child_count: 0 });
                final(self)@ == s.0 && r == s.1
            }),
            tree_wf(old(self)@) && node_is_group(old(self)@, parent_id) ==> tree_wf(final(self)@)
                && (r matches Ok(n) && !old(self)@.nodes.contains_key(n) && focus_step(final(self)@, parent_id) == Some(n)),
    {
        proof {
            if tree_wf(self@) && node_is_group(self@, parent_id) {
                crate::graph_laws::lemma_add_child_fresh_focused(self@, parent_id,
                    GraphNode::Group { kind: GraphNodeGroupKind::Row, focus: 0, child_count: 0 });
            }
        }
        self.add_child_node(parent_id, GraphNode::Group { kind: GraphNodeGroupKind::Row, child_count: 0, focus: 0 })
    }

    pub fn add_col(&mut self, parent_id: GraphNodeId) -> (r: GraphResult<GraphNodeId>)
        requires
            can_add_child(old(self)@, parent_id),
        ensures
            ({
                let s = spec_add_child(old(self)@, parent_id,
                    GraphNode::Group { kind: GraphNodeGroupKind::Col, focus: 0, child_count: 0 });
                final(self)@ == s.0 && r == s.1
            }),
            tree_wf(old(self)@) && node_is_group(old(self)@, parent_id) ==> tree_wf(final(self)@)
                && (r matches Ok(n) && !old(self)@.nodes.contains_key(n) && focus_step(final(self)@, parent_id) == Some(n)),
    {
        proof {
            if tree_wf(self@) && node_is_group(self@, parent_id) {
                crate::graph_laws::lemma_add_child_fresh_focused(self@, parent_id,
                    GraphNode::Group { kind: GraphNodeGroupKind::Col, focus: 0, child_count: 0 });
            }
        }
        self.add_child_node(parent_id, GraphNode::Group { kind: GraphNodeGroupKind::Col, child_count: 0, focus: 0 })
    }

    pub fn add_window(&mut self, parent_id: GraphNodeId, window_id: WindowNodeId) -> (r: GraphResult<GraphNodeId>)
        requires
            can_add_child(old(self)@, parent_id),
        ensures
            ({
                let s = spec_add_child(old(self)@, parent_id, GraphNode::Window(window_id));
                final(self)@ == s.0 && r == s.1
            }),
            tree_wf(old(self)@) && node_is_group(old(self)@, parent_id) ==> tree_wf(final(self)@)
                && (r matches Ok(n) && !old(self)@.nodes.contains_key(n)
                && focused_window_child(final(self)@, parent_id) == Some(n)),
    {
        proof {
            if tree_wf(self@) && node_is_group(self@, parent_id) {
                crate::graph_laws::lemma_add_child_fresh_focused(self@, parent_id, GraphNode::Window(window_id));
            }
        }
        self.add_child_node(parent_id, GraphNode::Window(window_id))
    }

    /// A node that holds the window `win_id`. Which one, where several do, depends
    /// on the order in which the hash map of nodes is walked.
    pub fn get_window_node(&self, win_id: WindowNodeId) -> (r: Option<GraphNodeId>)
        ensures
            match r {
                Some(id) => self@.nodes.contains_key(id) && self@.nodes[id] == GraphNode::Window(win_id),
                None => forall|k: usize| #[trigger] self@.nodes.contains_key(k)
                    ==> self@.nodes[k] != GraphNode::Window(win_id),
            },
    {
        for (id, node) in it: self.nodes.iter()
            invariant
                it.seq() == spec_hash_map_iter(&self.nodes).remaining(),
                forall|j: int| 0 <= j < it.index() ==> *(#[trigger] it.seq()[j]).1 != GraphNode::Window(win_id),
        {
            match node {
                GraphNode::Window(w) => {
                    if *w == win_id {
                        return Some(*id);
                    }
                },
                GraphNode::Group { .. } => {},
            }
        }
        proof {
            let sq = spec_hash_map_iter(&self.nodes).remaining();
            assert forall|k: usize| #[trigger] self@.nodes.contains_key(k)
                implies self@.nodes[k] != GraphNode::Window(win_id) by {
                assert(sq.contains((&k, &self@.nodes[k])));
                let j = choose|j: int| 0 <= j < sq.len() && sq[j] == (&k, &self@.nodes[k]);
                assert(*sq[j].1 != GraphNode::Window(win_id));
            }
        }
        None
    }

    pub fn get_children(&self, parent: GraphNodeId) -> (r: Vec<GraphNodeId>)
        ensures
            r@ == children_of(self@.edges, parent),
    {
        let mut r: Vec<GraphNodeId> = Vec::new();
        let mut i: usize = 0;
        while i < self.edges.len()
            invariant
                i <= self.edges@.len(),
                r@ == children_of(self.edges@.take(i as int), parent),
            decreases self.edges@.len() - i,
        {
            assert(self.edges@.take(i as int + 1).drop_last() == self.edges@.take(i as int));
            if self.edges[i].parent == parent {
                r.push(self.edges[i].child);
            }
            i += 1;
        }
        assert(self.edges@.take(self.edges@.len() as int) == self.edges@);
        r
    }

    /// The index of the parent edge of `id`: the first edge whose child is `id`.
    pub fn get_parent_edge(&self, id: GraphNodeId) -> (r: Option<usize>)
        ensures
            match r {
                Some(i) => first_child_index(self@.edges, id) == Some(i as int),
                None => first_child_index(self@.edges, id) is None,
            },
    {
        let mut i: usize = 0;
        while i < self.edges.len()
            invariant
                i <= self.edges@.len(),
                first_child_index(self.edges@.take(i as int), id) is None,
            decreases self.edges@.len() - i,
        {
            assert(self.edges@.take(i as int + 1).drop_last() == self.edges@.take(i as int));
            if self.edges[i].child == id {
                proof { lemma_first_child_index_prefix(self.edges@, id, i as int + 1); }
                return Some(i);
            }
            i += 1;
        }
        assert(self.edges@.take(self.edges@.len() as int) == self.edges@);
        None
    }

    pub fn get_parent_node(&self, child: GraphNodeId) -> (r: Option<GraphNodeId>)
        ensures
            r == parent_of(self@.edges, child),
    {
        match self.get_parent_edge(child) {
            Some(edge) => {
                proof { lemma_first_child_index(self@.edges, child); }
                Some(self.edges[edge].parent)
            },
            None => None,
        }
    }

    /// Follows the focus of the groups down from `id` to a node that is no group.
    ///
    /// Row
    /// |  Col
    /// |  |  Win(1)
    /// |  Win(2)
    ///
    /// gives Win(1) when the row and the column focus their first child.
    pub fn get_focused_window_child(&self, id: GraphNodeId) -> (r: Option<GraphNodeId>)
        requires
            focus_walk_ends(self@, id),
        ensures
            r == focused_window_child(self@, id),
    {
        let ghost f = choose|f: nat| walk_ends(self@, id, f);
        self.focused_child_within(id, Ghost(f))
    }

    fn focused_child_within(&self, id: GraphNodeId, Ghost(fuel): Ghost<nat>) -> (r: Option<GraphNodeId>)
        requires
            walk_ends(self@, id, fuel),
        ensures
            r == walk_result(self@, id, fuel),
        decreases fuel,
    {
        match self.get_node(id) {
            Some(GraphNode::Group { focus, .. }) => {
                let children = self.get_children(id);
                if *focus < children.len() {
                    self.focused_child_within(children[*focus], Ghost((fuel - 1) as nat))
                } else {
                    None
                }
            },
            _ => Some(id),
        }
    }

    /// The window node at which a move from `start` in direction `dir` arrives:
    /// the focused window of the neighbouring child of the nearest enclosing
    /// group of the fitting kind (a row for left and right, a column for up and
    /// down). `start` is usually the focused node of a workspace.
    pub fn get_window_node_in_direction(&self, start: GraphNodeId, dir: Direction) -> (r: Option<GraphNodeId>)
        requires
            direction_ok(self@, start, dir),
        ensures
            r == (match direction_target(self@, start, dir) {
                Some(t) => focused_window_child(self@, t),
                None => None,
            }),
    {
        let parent_node_id = self.get_parent_node(start).unwrap();
        let parent_node_group_kind = self.get_node(parent_node_id).unwrap().try_get_group_kind().unwrap();
        let target_group_kind = match dir {
            Direction::Left | Direction::Right => GraphNodeGroupKind::Row,
            Direction::Up | Direction::Down => GraphNodeGroupKind::Col,
        };
        // The container is the parent of the focused node, or its grand parent
        // where the parent is a group of the other kind: groups of one kind are
        // not nested in each other.
        let (parent_id, child_id) = if parent_node_group_kind == target_group_kind {
            (parent_node_id, start)
        } else if parent_node_id != self.root_node_id {
            (self.get_parent_node(parent_node_id).unwrap(), parent_node_id)
        } else {
            return None;
        };
        proof {
            lemma_parent_has_child(self@.edges, child_id);
        }
        let children = self.get_children(parent_id);
        let idx = find_index(&children, child_id).unwrap();
        proof {
            lemma_index_of_some(children@, child_id);
        }
        match dir {
            Direction::Left | Direction::Up => {
                if idx == 0 {
                    None
                } else {
                    self.get_focused_window_child(children[idx - 1])
                }
            },
            Direction::Right | Direction::Down => {
                if idx + 1 >= children.len() {
                    None
                } else {
                    self.get_focused_window_child(children[idx + 1])
                }
            },
        }
    }

    /// Deletes the node `id` and its parent edge, and updates the focus and
    /// child count of its parent. Unless `shallow`, the nodes below `id` and
    /// their edges are deleted too.
    pub fn delete_node(&mut self, id: GraphNodeId, shallow: bool) -> (r: GraphResult)
        requires
            delete_node_ok(old(self)@, id, shallow),
        ensures
            if deletes_tree(old(self)@, id, shallow) {
                final(self)@ == spec_delete_tree(old(self)@, id) && r is Ok
            } else {
                final(self)@ == spec_delete_node(old(self)@, id).0 && r == spec_delete_node(old(self)@, id).1
            },
    {
        if !shallow && self.nodes.contains_key(&id) {
            match self.get_parent_edge(id) {
                Some(i) => {
                    if self.has_other_children(id, i) {
                        self.delete_tree(id, i);
                        return Ok(());
                    }
                },
                None => {},
            }
        }
        if self.nodes.remove(&id).is_some() {
            self.dirty = true;
            if self.max_id == id {
                self.max_id -= 1;
            }
            let parent_edge_idx = match self.get_parent_edge(id) {
                Some(i) => i,
                None => return Err(GraphError::NodeNotFound),
            };
            proof {
                lemma_first_child_index(self@.edges, id);
            }
            let parent_id = self.edges[parent_edge_idx].parent;
            let parent = self.get_node(parent_id).unwrap();
            match parent {
                GraphNode::Group { kind, focus, child_count } => {
                    let focus = if *focus > 1 { *focus } else { 1 } - 1;
                    let updated = GraphNode::Group { kind: *kind, focus, child_count: *child_count - 1 };
                    self.nodes.insert(parent_id, updated);
                },
                _ => {},
            }
            self.edges.remove(parent_edge_idx);
            Ok(())
        } else {
            Err(GraphError::NodeNotFound)
        }
    }

    /// Whether some edge other than edge `i` leads from `id`.
    fn has_other_children(&self, id: GraphNodeId, i: usize) -> (r: bool)
        ensures
            r == other_children(self@.edges, id, i as int),
    {
        let mut j: usize = 0;
        while j < self.edges.len()
            invariant
                j <= self.edges@.len(),
                forall|k: int| 0 <= k < j && k != i ==> (#[trigger] self.edges@[k]).parent != id,
            decreases self.edges@.len() - j,
        {
            if j != i && self.edges[j].parent == id {
                return true;
            }
            j += 1;
        }
        false
    }

    /// The nodes of the subtree of `id`, in the order of `subtree`.
    fn collect_subtree(&self, id: GraphNodeId, Ghost(lvl): Ghost<Map<usize, nat>>, Ghost(b): Ghost<nat>) -> (r: Vec<GraphNodeId>)
        requires
            tree_wf(self@),
            levels_ok(self@, lvl, b),
            self@.nodes.contains_key(id),
        ensures
            r@ == subtree(self@, id, (b - lvl[id] + 1) as nat),
        decreases b - lvl[id],
    {
        let ghost v = self@;
        let ghost fuel = (b - lvl[id] + 1) as nat;
        let children = self.get_children(id);
        let ghost ch = children@;
        let mut r: Vec<GraphNodeId> = Vec::new();
        r.push(id);
        let mut k: usize = 0;
        while k < children.len()
            invariant
                children@ == ch,
                ch == children_of(v.edges, id),
                self@ == v,
                tree_wf(v),
                levels_ok(v, lvl, b),
                v.nodes.contains_key(id),
                lvl[id] <= b,
                fuel == (b - lvl[id] + 1) as nat,
                k <= ch.len(),
                r@ + subtrees(v, ch, k as nat, (fuel - 1) as nat) == seq![id] + subtrees(v, ch, 0, (fuel - 1) as nat),
            decreases ch.len() - k,
        {
            let c = children[k];
            proof {
                crate::graph_laws::lemma_children_of_edge(v.edges, id, k as int);
                let e = choose|e: int| 0 <= e < v.edges.len() && (#[trigger] v.edges[e]).parent == id
                    && v.edges[e].child == ch[k as int];
                assert(lvl[v.edges[e].child] == lvl[v.edges[e].parent] + 1);
                assert(v.nodes.contains_key(c));
            }
            let mut part = self.collect_subtree(c, Ghost(lvl), Ghost(b));
            r.append(&mut part);
            k += 1;
        }
        r
    }

    /// Deletes `id`, whose parent edge is edge `i`, together with all nodes
    /// below it.
    fn delete_tree(&mut self, id: GraphNodeId, i: usize)
        requires
            delete_node_ok(old(self)@, id, false),
            deletes_tree(old(self)@, id, false),
            first_child_index(old(self)@.edges, id) == Some(i as int),
        ensures
            final(self)@ == spec_delete_tree(old(self)@, id),
    {
        let ghost v = self@;
        let ghost (lvl, b) = choose|lvl: Map<usize, nat>, b: nat| levels_ok(v, lvl, b);
        proof {
            lemma_first_child_index(v.edges, id);
            lemma_lowered_ok_prefix(v.max_id as int, descendants(v, id));
        }
        let order = self.collect_subtree(id, Ghost(lvl), Ghost(b));
        assert(order@ == descendants(v, id));
        let p = self.edges[i].parent;
        let pnode = parent_after_node(self.get_node(p).unwrap());
        let mut k: usize = 0;
        while k < order.len()
            invariant
                k <= order@.len(),
                order@ == descendants(v, id),
                lowered_ok(v.max_id as int, order@),
                forall|t: int| 0 <= t <= order@.len() ==> lowered_ok(v.max_id as int, #[trigger] order@.take(t)),
                self@.nodes == removed(v.nodes, order@.take(k as int)),
                self.max_id == lowered_max(v.max_id as int, order@.take(k as int)),
                self@.edges == v.edges,
                self@.root == v.root,
            decreases order@.len() - k,
        {
            let x = order[k];
            assert(order@.take(k as int + 1).drop_last() == order@.take(k as int));
            assert(lowered_ok(v.max_id as int, order@.take(k as int + 1)));
            self.nodes.remove(&x);
            if self.max_id == x {
                self.max_id = self.max_id - 1;
            }
            k += 1;
        }
        assert(order@.take(order@.len() as int) == order@);
        self.nodes.insert(p, pnode);
        let mut kept: Vec<GraphEdge> = Vec::new();
        let mut j: usize = 0;
        while j < self.edges.len()
            invariant
                j <= self.edges@.len(),
                self@.edges == v.edges,
                kept@ == kept_edges(v.edges.take(j as int), order@),
            decreases self.edges@.len() - j,
        {
            assert(v.edges.take(j as int + 1).drop_last() == v.edges.take(j as int));
            let e = self.edges[j];
            match find_index(&order, e.child) {
                Some(_) => {
                    proof { lemma_index_of_some(order@, e.child); }
                },
                None => {
                    proof {
                        if order@.contains(e.child) {
                            lemma_index_of_contains(order@, e.child);
                        }
                    }
                    kept.push(e);
                },
            }
            j += 1;
        }
        assert(v.edges.take(v.edges.len() as int) == v.edges);
        self.edges = kept;
        self.dirty = true;
    }

    /// Moves `node` (a copy of it, under a new id) to the end of the children of
    /// `new_parent`. The children of a moved group stay where they were.
    pub fn move_node(&mut self, new_parent: GraphNodeId, node: GraphNodeId)
        requires
            move_node_ok(old(self)@, new_parent, node),
        ensures
            final(self)@ == spec_add_child(spec_delete_node(old(self)@, node).0, new_parent, old(self)@.nodes[node]).0,
    {
        let node_cpy = *self.get_node(node).unwrap();
        self.delete_node(node, true).unwrap();
        self.add_child_node(new_parent, node_cpy).unwrap();
    }

    /// Exchanges the places of `x` and `y` in the tree: every edge to `x` leads to
    /// `y` afterwards and every edge to `y` leads to `x`.
    pub fn swap_nodes(&mut self, x: GraphNodeId, y: GraphNodeId)
        ensures
            final(self)@ == (GraphView {
                dirty: true,
                edges: swapped_edges(old(self)@.edges, x, y),
                ..old(self)@
            }),
    {
        let mut i: usize = 0;
        while i < self.edges.len()
            invariant
                i <= self.edges@.len(),
                self.edges@.len() == old(self).edges@.len(),
                self.nodes@ == old(self).nodes@,
                self.max_id == old(self).max_id,
                self.root_node_id == old(self).root_node_id,
                forall|j: int| 0 <= j < i ==> self.edges@[j] == swapped_edge(old(self).edges@[j], x, y),
                forall|j: int| i <= j < self.edges@.len() ==> self.edges@[j] == old(self).edges@[j],
            decreases self.edges@.len() - i,
        {
            let edge = self.edges[i];
            if edge.child == x {
                self.edges.set(i, GraphEdge { parent: edge.parent, child: y });
            } else if edge.child == y {
                self.edges.set(i, GraphEdge { parent: edge.parent, child: x });
            }
            i += 1;
        }
        self.dirty = true;
        assert(self.edges@ =~= swapped_edges(old(self).edges@, x, y));
    }
}

impl Default for Graph {
    fn default() -> (g: Self)
        ensures
            g@.nodes == map![0usize => GraphNode::Group { kind: GraphNodeGroupKind::Row, focus: 0, child_count: 0 }],
            g@.edges == Seq::<GraphEdge>::empty(),
            g@.max_id == 0,
            !g@.dirty,
            g@.root == 0,
    {
        Self::new()
    }
}

/// Walking up the parent edges from `id` reaches a node without parent within
/// `fuel` steps.
pub open spec fn chain_ends(edges: Seq<GraphEdge>, id: usize, fuel: nat) -> bool
    decreases fuel,
{
    match parent_of(edges, id) {
        Some(p) => fuel > 0 && chain_ends(edges, p, (fuel - 1) as nat),
        None => true,
    }
}

/// `n` with its focus set to `f`, where `n` is a group.
pub open spec fn set_focus(n: GraphNode, f: usize) -> GraphNode {
    match n {
        GraphNode::Group { kind, child_count, .. } => GraphNode::Group { kind, focus: f, child_count },
        other => other,
    }
}

/// The nodes after focusing `id`: every group on the way up from `id` focuses
/// the child through which the way passes.
pub open spec fn focus_chain(v: GraphView, id: usize, fuel: nat) -> Map<usize, GraphNode>
    decreases fuel,
{
    match parent_of(v.edges, id) {
        Some(p) => if fuel > 0 {
            let idx = index_of(children_of(v.edges, p), id)->0;
            focus_chain(
                GraphView { nodes: v.nodes.insert(p, set_focus(v.nodes[p], idx as usize)), ..v },
                p,
                (fuel - 1) as nat,
            )
        } else {
            v.nodes
        },
        None => v.nodes,
    }
}

/// `move_node` finds `node`, deletes it without error and can add its copy
/// under `new_parent`.
pub open spec fn move_node_ok(v: GraphView, new_parent: usize, node: usize) -> bool {
    let d = spec_delete_node(v, node);
    &&& v.nodes.contains_key(node)
    &&& delete_node_ok(v, node, true)
    &&& d.1 is Ok
    &&& can_add_child(d.0, new_parent)
    &&& spec_add_child(d.0, new_parent, v.nodes[node]).1 is Ok
}

/// The position of the first `x` in `v`.
pub fn find_index(v: &Vec<usize>, x: usize) -> (r: Option<usize>)
    ensures
        match r {
            Some(i) => index_of(v@, x) == Some(i as int),
            None => index_of(v@, x) is None,
        },
{
    let mut i: usize = 0;
    while i < v.len()
        invariant
            i <= v@.len(),
            index_of(v@.take(i as int), x) is None,
        decreases v@.len() - i,
    {
        assert(v@.take(i as int + 1).drop_last() == v@.take(i as int));
        if v[i] == x {
            proof { lemma_index_of_prefix(v@, x, i as int + 1); }
            return Some(i);
        }
        i += 1;
    }
    assert(v@.take(v@.len() as int) == v@);
    None
}

pub proof fn lemma_index_of_prefix(s: Seq<usize>, x: usize, k: int)
    requires
        0 < k <= s.len(),
        index_of(s.take(k - 1), x) is None,
        s[k - 1] == x,
    ensures
        index_of(s, x) == Some(k - 1),
    decreases s.len(),
{
    assert(s.take(k).drop_last() == s.take(k - 1));
    if s.len() == k {
        assert(s.take(k) == s);
    } else {
        let d = s.drop_last();
        assert(d.take(k) == s.take(k));
        assert(d.take(k - 1) == s.take(k - 1));
        lemma_index_of_prefix(d, x, k);
    }
}

/// A prefix that ends right after an edge to `c`, with no earlier edge to `c`,
/// puts the parent edge of `c` at that edge in the whole sequence too.
pub proof fn lemma_first_child_index_prefix(edges: Seq<GraphEdge>, c: usize, k: int)
    requires
        0 < k <= edges.len(),
        first_child_index(edges.take(k - 1), c) is None,
        edges[k - 1].child == c,
    ensures
        first_child_index(edges, c) == Some(k - 1),
    decreases edges.len(),
{
    assert(edges.take(k).drop_last() == edges.take(k - 1));
    if edges.len() == k {
        assert(edges.take(k) == edges);
    } else {
        let d = edges.drop_last();
        assert(d.take(k) == edges.take(k));
        assert(d.take(k - 1) == edges.take(k - 1));
        lemma_first_child_index_prefix(d, c, k);
    }
}

} // verus!
