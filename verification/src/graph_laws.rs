//! Laws of the layout graph: which operations keep it a well-formed tree, and
//! how its queries relate.
use vstd::prelude::*;
use crate::graph::{
    delete_node_ok, lemma_children_contains, lemma_first_child_index, move_node_ok, spec_delete_node,
    can_add_child, children_of, focused_window_child, lemma_walk_fuel, walk_result, first_child_index, focus_step, focus_walk_ends, group_counts_ok,
    levels_ok, node_is_group, spec_add_child, swapped_edge, swapped_edges, tree_wf, walk_ends, GraphEdge, GraphNode,
    GraphNodeGroupKind, GraphView,
};

verus! {

/// A node that may be added as a new leaf: a window, or a group that neither
/// counts nor focuses any child.
pub open spec fn fresh_node(n: GraphNode) -> bool {
    match n {
        GraphNode::Group { focus, child_count, .. } => focus == 0 && child_count == 0,
        GraphNode::Window(_) => true,
    }
}

pub proof fn lemma_children_of_push(edges: Seq<GraphEdge>, e: GraphEdge, p: usize)
    ensures
        children_of(edges.push(e), p) == (if e.parent == p {
            children_of(edges, p).push(e.child)
        } else {
            children_of(edges, p)
        }),
{
    assert(edges.push(e).drop_last() == edges);
}

pub proof fn lemma_children_of_none(edges: Seq<GraphEdge>, p: usize)
    requires
        forall|i: int| 0 <= i < edges.len() ==> (#[trigger] edges[i]).parent != p,
    ensures
        children_of(edges, p) == Seq::<usize>::empty(),
    decreases edges.len(),
{
    if edges.len() > 0 {
        let d = edges.drop_last();
        assert forall|i: int| 0 <= i < d.len() implies (#[trigger] d[i]).parent != p by {
            assert(d[i] == edges[i]);
        }
        lemma_children_of_none(d, p);
    }
}

/// Every child of `p` is the child of an edge from `p`.
pub proof fn lemma_children_of_edge(edges: Seq<GraphEdge>, p: usize, j: int)
    requires
        0 <= j < children_of(edges, p).len(),
    ensures
        exists|i: int| 0 <= i < edges.len() && (#[trigger] edges[i]).parent == p
            && edges[i].child == children_of(edges, p)[j],
    decreases edges.len(),
{
    let d = edges.drop_last();
    if edges.last().parent == p && j == children_of(edges, p).len() - 1 {
        assert(edges[edges.len() - 1].parent == p);
    } else {
        lemma_children_of_edge(d, p, j);
        let i = choose|i: int| 0 <= i < d.len() && (#[trigger] d[i]).parent == p && d[i].child == children_of(d, p)[j];
        assert(edges[i] == d[i]);
    }
}

/// Removing edge `i` drops one child from its parent and changes no other list
/// of children.
pub proof fn lemma_children_of_remove(edges: Seq<GraphEdge>, i: int, p: usize)
    requires
        0 <= i < edges.len(),
    ensures
        children_of(edges.remove(i), p).len() == children_of(edges, p).len() - (if edges[i].parent == p { 1int } else { 0 }),
        edges[i].parent != p ==> children_of(edges.remove(i), p) == children_of(edges, p),
    decreases edges.len(),
{
    let d = edges.drop_last();
    if i == edges.len() - 1 {
        assert(edges.remove(i) == d);
    } else {
        assert(edges.remove(i).drop_last() == d.remove(i));
        assert(edges.remove(i).last() == edges.last());
        lemma_children_of_remove(d, i, p);
    }
}

pub proof fn lemma_first_child_index_push(edges: Seq<GraphEdge>, e: GraphEdge, c: usize)
    ensures
        first_child_index(edges.push(e), c) == (match first_child_index(edges, c) {
            Some(i) => Some(i),
            None => if e.child == c { Some(edges.len() as int) } else { None },
        }),
{
    assert(edges.push(e).drop_last() == edges);
}

/// A new graph is a well-formed tree.
pub proof fn lemma_new_graph_wf(v: GraphView)
    requires
        v.nodes == map![0usize => GraphNode::Group { kind: GraphNodeGroupKind::Row, focus: 0, child_count: 0 }],
        v.edges == Seq::<GraphEdge>::empty(),
        v.max_id == 0,
        v.root == 0,
    ensures
        tree_wf(v),
{
    let lvl = map![0usize => 0nat];
    assert(levels_ok(v, lvl, 0));
    assert forall|k: usize| #[trigger] v.nodes.contains_key(k) implies group_counts_ok(v, k) by {
        assert(children_of(v.edges, k) == Seq::<usize>::empty());
    }
}

/// Adding a window or an empty group under a group of a well-formed tree keeps
/// it a well-formed tree.
pub proof fn lemma_add_child_wf(v: GraphView, parent: usize, child: GraphNode)
    requires
        tree_wf(v),
        node_is_group(v, parent),
        can_add_child(v, parent),
        fresh_node(child),
    ensures
        spec_add_child(v, parent, child).1 is Ok,
        tree_wf(spec_add_child(v, parent, child).0),
{
    let w = spec_add_child(v, parent, child).0;
    let new_id = (v.max_id + 1) as usize;
    let e = GraphEdge { parent, child: new_id };
    assert(w.edges == v.edges.push(e));
    assert(!v.nodes.contains_key(new_id));
    assert forall|i: int| 0 <= i < v.edges.len() implies (#[trigger] v.edges[i]).child != new_id
        && v.edges[i].parent != new_id by {}
    // Every edge of the new graph joins a group to a node of the graph.
    assert forall|i: int| 0 <= i < w.edges.len() implies node_is_group(w, (#[trigger] w.edges[i]).parent)
        && w.nodes.contains_key(w.edges[i].child) by {
        if i < v.edges.len() {
            assert(w.edges[i] == v.edges[i]);
        }
    }
    assert forall|i: int| 0 <= i < w.edges.len() implies (#[trigger] w.edges[i]).child != w.root by {
        if i < v.edges.len() {
            assert(w.edges[i] == v.edges[i]);
        }
    }
    assert forall|i: int, j: int| 0 <= i < w.edges.len() && 0 <= j < w.edges.len()
        && (#[trigger] w.edges[i]).child == (#[trigger] w.edges[j]).child implies i == j by {
        if i < v.edges.len() {
            assert(w.edges[i] == v.edges[i]);
        }
        if j < v.edges.len() {
            assert(w.edges[j] == v.edges[j]);
        }
    }
    assert forall|k: usize| #[trigger] w.nodes.contains_key(k) && k != w.root
        implies first_child_index(w.edges, k) is Some by {
        lemma_first_child_index_push(v.edges, e, k);
    }
    assert forall|k: usize| #[trigger] w.nodes.contains_key(k) implies group_counts_ok(w, k) by {
        lemma_children_of_push(v.edges, e, k);
        if k == new_id {
            lemma_children_of_none(v.edges, new_id);
        }
    }
    let (lvl, bound) = choose|lvl: Map<usize, nat>, bound: nat| levels_ok(v, lvl, bound);
    let lvl2 = lvl.insert(new_id, lvl[parent] + 1);
    assert(levels_ok(w, lvl2, bound + 1)) by {
        assert forall|i: int| 0 <= i < w.edges.len() implies lvl2.contains_key(#[trigger] w.edges[i].child)
            && lvl2.contains_key(w.edges[i].parent)
            && lvl2[w.edges[i].child] == lvl2[w.edges[i].parent] + 1 by {
            if i < v.edges.len() {
                assert(w.edges[i] == v.edges[i]);
            }
        }
    }
}

/// In a well-formed tree the focus walk from any node comes to an end.
pub proof fn lemma_wf_walk_ends(v: GraphView, id: usize)
    requires
        tree_wf(v),
    ensures
        focus_walk_ends(v, id),
{
    let (lvl, bound) = choose|lvl: Map<usize, nat>, bound: nat| levels_ok(v, lvl, bound);
    if v.nodes.contains_key(id) {
        lemma_walk_ends_from(v, lvl, bound, id);
        assert(walk_ends(v, id, (bound - lvl[id] + 1) as nat));
    } else {
        assert(walk_ends(v, id, 0));
    }
}

proof fn lemma_walk_ends_from(v: GraphView, lvl: Map<usize, nat>, bound: nat, id: usize)
    requires
        tree_wf(v),
        levels_ok(v, lvl, bound),
        v.nodes.contains_key(id),
    ensures
        walk_ends(v, id, (bound - lvl[id] + 1) as nat),
    decreases bound - lvl[id],
{
    if node_is_group(v, id) {
        match focus_step(v, id) {
            Some(c) => {
                let f = v.nodes[id]->focus;
                lemma_children_of_edge(v.edges, id, f as int);
                let i = choose|i: int| 0 <= i < v.edges.len() && (#[trigger] v.edges[i]).parent == id
                    && v.edges[i].child == children_of(v.edges, id)[f as int];
                assert(v.nodes.contains_key(c));
                assert(lvl[c] == lvl[id] + 1);
                lemma_walk_ends_from(v, lvl, bound, c);
            },
            None => {},
        }
    }
}

/// A node with an edge to it has a parent edge.
pub proof fn lemma_first_child_index_some(edges: Seq<GraphEdge>, c: usize, j: int)
    requires
        0 <= j < edges.len(),
        edges[j].child == c,
    ensures
        first_child_index(edges, c) is Some,
{
    lemma_first_child_index(edges, c);
}

/// Deleting a node other than the root that has no children from a
/// well-formed tree succeeds, needs no panicking step, and keeps a well-formed
/// tree.
pub proof fn lemma_delete_leaf_wf(v: GraphView, id: usize)
    requires
        tree_wf(v),
        v.nodes.contains_key(id),
        id != v.root,
        children_of(v.edges, id).len() == 0,
    ensures
        delete_node_ok(v, id, false),
        delete_node_ok(v, id, true),
        spec_delete_node(v, id).1 is Ok,
        tree_wf(spec_delete_node(v, id).0),
{
    lemma_first_child_index(v.edges, id);
    let i = first_child_index(v.edges, id)->0;
    let p = v.edges[i].parent;
    assert(v.nodes.contains_key(v.root));
    lemma_children_contains(v.edges, p, i);
    assert(p != id);
    assert(group_counts_ok(v, p));
    lemma_children_of_remove(v.edges, i, id);
    lemma_children_of_remove(v.edges, i, p);
    assert forall|j: int| 0 <= j < v.edges.len() implies (#[trigger] v.edges[j]).parent != id by {
        if v.edges[j].parent == id {
            lemma_children_contains(v.edges, id, j);
        }
    }
    let w = spec_delete_node(v, id).0;
    let re = v.edges.remove(i);
    assert(w.edges == re);
    assert forall|j: int| 0 <= j < re.len() implies (#[trigger] re[j]) == (if j < i { v.edges[j] } else { v.edges[j + 1] }) by {}
    assert forall|j: int| 0 <= j < re.len() implies node_is_group(w, (#[trigger] w.edges[j]).parent)
        && w.nodes.contains_key(w.edges[j].child) by {
        let k = if j < i { j } else { j + 1 };
        assert(re[j] == v.edges[k]);
        assert(v.edges[k].child != id);
    }
    assert forall|j: int| 0 <= j < w.edges.len() implies (#[trigger] w.edges[j]).child != w.root by {
        let k = if j < i { j } else { j + 1 };
        assert(re[j] == v.edges[k]);
    }
    assert forall|j1: int, j2: int| 0 <= j1 < w.edges.len() && 0 <= j2 < w.edges.len()
        && (#[trigger] w.edges[j1]).child == (#[trigger] w.edges[j2]).child implies j1 == j2 by {
        let k1 = if j1 < i { j1 } else { j1 + 1 };
        let k2 = if j2 < i { j2 } else { j2 + 1 };
        assert(re[j1] == v.edges[k1]);
        assert(re[j2] == v.edges[k2]);
    }
    assert forall|k: usize| #[trigger] w.nodes.contains_key(k) && k != w.root
        implies first_child_index(w.edges, k) is Some by {
        assert(v.nodes.contains_key(k));
        lemma_first_child_index(v.edges, k);
        let j = first_child_index(v.edges, k)->0;
        assert(j != i);
        let jj = if j < i { j } else { j - 1 };
        assert(re[jj] == v.edges[j]);
        lemma_first_child_index_some(re, k, jj);
    }
    assert forall|k: usize| #[trigger] w.nodes.contains_key(k) implies k <= w.max_id by {
        assert(v.nodes.contains_key(k));
    }
    assert forall|k: usize| #[trigger] w.nodes.contains_key(k) implies group_counts_ok(w, k) by {
        assert(v.nodes.contains_key(k));
        assert(group_counts_ok(v, k));
        lemma_children_of_remove(v.edges, i, k);
    }
    let (lvl, bound) = choose|lvl: Map<usize, nat>, bound: nat| levels_ok(v, lvl, bound);
    assert(levels_ok(w, lvl, bound)) by {
        assert forall|j: int| 0 <= j < w.edges.len() implies lvl.contains_key(#[trigger] w.edges[j].child)
            && lvl.contains_key(w.edges[j].parent)
            && lvl[w.edges[j].child] == lvl[w.edges[j].parent] + 1 by {
            let k = if j < i { j } else { j + 1 };
            assert(re[j] == v.edges[k]);
        }
        assert forall|k: usize| #[trigger] w.nodes.contains_key(k) implies lvl.contains_key(k) && lvl[k] <= bound by {
            assert(v.nodes.contains_key(k));
        }
    }
}

/// Swapping the same two nodes twice gives back the edges one started with.
pub proof fn lemma_swap_twice(edges: Seq<GraphEdge>, x: usize, y: usize)
    ensures
        swapped_edges(swapped_edges(edges, x, y), x, y) == edges,
{
    assert(swapped_edges(swapped_edges(edges, x, y), x, y) =~= edges);
}


/// Moving a window of a well-formed tree under a group of it keeps it a
/// well-formed tree, and the move needs no panicking step.
pub proof fn lemma_move_window_wf(v: GraphView, new_parent: usize, node: usize)
    requires
        tree_wf(v),
        v.nodes.contains_key(node),
        v.nodes[node] is Window,
        node_is_group(v, new_parent),
        can_add_child(spec_delete_node(v, node).0, new_parent),
    ensures
        move_node_ok(v, new_parent, node),
        tree_wf(spec_add_child(spec_delete_node(v, node).0, new_parent, v.nodes[node]).0),
{
    assert forall|i: int| 0 <= i < v.edges.len() implies (#[trigger] v.edges[i]).parent != node by {
        assert(node_is_group(v, v.edges[i].parent));
    }
    lemma_children_of_none(v.edges, node);
    lemma_delete_leaf_wf(v, node);
    let d = spec_delete_node(v, node).0;
    lemma_first_child_index(v.edges, node);
    assert(node_is_group(d, new_parent));
    lemma_add_child_wf(d, new_parent, v.nodes[node]);
}


/// The id that swapping `x` and `y` puts in place of `c`.
pub open spec fn swapped_id(c: usize, x: usize, y: usize) -> usize {
    if c == x {
        y
    } else if c == y {
        x
    } else {
        c
    }
}

/// Swapping keeps the number of children of every node.
proof fn lemma_swapped_children_len(edges: Seq<GraphEdge>, x: usize, y: usize, p: usize)
    ensures
        children_of(swapped_edges(edges, x, y), p).len() == children_of(edges, p).len(),
    decreases edges.len(),
{
    if edges.len() > 0 {
        let d = edges.drop_last();
        assert(swapped_edges(edges, x, y).drop_last() =~= swapped_edges(d, x, y));
        lemma_swapped_children_len(d, x, y, p);
    }
}

/// Swapping two nodes of a well-formed tree, neither of them the root nor a
/// node with children, keeps it a well-formed tree.
pub proof fn lemma_swap_leaves_wf(v: GraphView, x: usize, y: usize)
    requires
        tree_wf(v),
        v.nodes.contains_key(x),
        v.nodes.contains_key(y),
        x != v.root,
        y != v.root,
        children_of(v.edges, x).len() == 0,
        children_of(v.edges, y).len() == 0,
    ensures
        tree_wf(GraphView { dirty: true, edges: swapped_edges(v.edges, x, y), ..v }),
{
    let w = GraphView { dirty: true, edges: swapped_edges(v.edges, x, y), ..v };
    assert forall|i: int| 0 <= i < v.edges.len() implies (#[trigger] v.edges[i]).parent != x
        && v.edges[i].parent != y by {
        if v.edges[i].parent == x {
            lemma_children_contains(v.edges, x, i);
        }
        if v.edges[i].parent == y {
            lemma_children_contains(v.edges, y, i);
        }
    }
    assert forall|i: int| 0 <= i < w.edges.len() implies (#[trigger] w.edges[i]) == GraphEdge {
        parent: v.edges[i].parent,
        child: swapped_id(v.edges[i].child, x, y),
    } by {
        assert(w.edges[i] == swapped_edge(v.edges[i], x, y));
    }
    assert forall|i: int, j: int| 0 <= i < w.edges.len() && 0 <= j < w.edges.len()
        && (#[trigger] w.edges[i]).child == (#[trigger] w.edges[j]).child implies i == j by {
        assert(v.edges[i].child == v.edges[j].child);
    }
    assert forall|k: usize| #[trigger] w.nodes.contains_key(k) && k != w.root
        implies first_child_index(w.edges, k) is Some by {
        let k2 = swapped_id(k, x, y);
        lemma_first_child_index(v.edges, k2);
        let i = first_child_index(v.edges, k2)->0;
        assert(w.edges[i].child == k);
        lemma_first_child_index(w.edges, k);
    }
    assert forall|k: usize| #[trigger] w.nodes.contains_key(k) implies group_counts_ok(w, k) by {
        assert(group_counts_ok(v, k));
        lemma_swapped_children_len(v.edges, x, y, k);
    }
    let (lvl, b) = choose|lvl: Map<usize, nat>, b: nat| levels_ok(v, lvl, b);
    let lvl2 = Map::new(|k: usize| lvl.contains_key(k), |k: usize| lvl[swapped_id(k, x, y)]);
    assert(lvl.contains_key(x) && lvl.contains_key(y));
    assert forall|k: usize| #[trigger] w.nodes.contains_key(k) implies lvl2.contains_key(k) && lvl2[k] <= b by {
        assert(v.nodes.contains_key(swapped_id(k, x, y)));
    }
    assert forall|i: int| 0 <= i < w.edges.len() implies lvl2.contains_key(#[trigger] w.edges[i].child)
        && lvl2.contains_key(w.edges[i].parent)
        && lvl2[w.edges[i].child] == lvl2[w.edges[i].parent] + 1 by {
        let c = v.edges[i].child;
        assert(lvl.contains_key(c) && lvl.contains_key(v.edges[i].parent));
        assert(swapped_id(swapped_id(c, x, y), x, y) == c);
    }
    assert(levels_ok(w, lvl2, b));
}


/// Adding a window or an empty group under a group of a well-formed tree
/// succeeds, keeps it a well-formed tree, gives the new node an id that no
/// node had, and makes the new node the focused child of the group; a new
/// window is then where the focus walk from the group ends.
pub proof fn lemma_add_child_fresh_focused(v: GraphView, parent: usize, child: GraphNode)
    requires
        tree_wf(v),
        node_is_group(v, parent),
        can_add_child(v, parent),
        fresh_node(child),
    ensures
        ({
            let (w, r) = spec_add_child(v, parent, child);
            &&& r matches Ok(n) && !v.nodes.contains_key(n) && w.nodes.contains_key(n) && w.nodes[n] == child
                && focus_step(w, parent) == Some(n)
                && (child is Window ==> focused_window_child(w, parent) == Some(n))
            &&& tree_wf(w)
        }),
{
    lemma_add_child_wf(v, parent, child);
    let w = spec_add_child(v, parent, child).0;
    let n = (v.max_id + 1) as usize;
    let e = GraphEdge { parent, child: n };
    assert(w.edges == v.edges.push(e));
    lemma_children_of_push(v.edges, e, parent);
    let old_count = v.nodes[parent]->child_count;
    assert(children_of(v.edges, parent).len() == old_count);
    assert(children_of(w.edges, parent)[old_count as int] == n);
    assert(focus_step(w, parent) == Some(n));
    if child is Window {
        assert(walk_ends(w, n, 0));
        assert(walk_ends(w, parent, 1));
        let f = choose|f: nat| walk_ends(w, parent, f);
        lemma_walk_fuel(w, parent, f, 1);
        assert(walk_result(w, n, 0) == Some(n));
    }
}

} // verus!
