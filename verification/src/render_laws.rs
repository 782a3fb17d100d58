//! What a layout promises of the screen: every window lands inside the area
//! that its workspace is laid out in, and no two windows overlap.
use vstd::prelude::*;
use crate::graph::{children_of, node_is_group, first_child_index, lemma_children_contains, lemma_first_child_index, levels_ok, parent_of,
    tree_wf, GraphEdge, GraphNode, GraphNodeGroupKind, GraphView};
use crate::platform::{Area, WindowId};
use crate::render::{child_area, layout, layout_from, layout_from_ok, layout_ok, node_fuel, render_layout, render_ok,
    render_start, shrunk, slot, slot_start};
use crate::graph_laws::lemma_children_of_edge;
use crate::workspace::{holds_window, ws_graph_wf, WorkspaceState};

verus! {

/// `b` lies within `a`.
pub open spec fn area_within(b: Area, a: Area) -> bool {
    &&& a.pos.x <= b.pos.x
    &&& b.pos.x + b.size.width <= a.pos.x + a.size.width
    &&& a.pos.y <= b.pos.y
    &&& b.pos.y + b.size.height <= a.pos.y + a.size.height
}

/// `a` and `b` share no point.
pub open spec fn areas_disjoint(a: Area, b: Area) -> bool {
    ||| a.pos.x + a.size.width <= b.pos.x
    ||| b.pos.x + b.size.width <= a.pos.x
    ||| a.pos.y + a.size.height <= b.pos.y
    ||| b.pos.y + b.size.height <= a.pos.y
}

/// The windows of `s` lie within `a`, and no two of them overlap.
pub open spec fn tiles(s: Seq<(WindowId, Area)>, a: Area) -> bool {
    &&& forall|k: int| 0 <= k < s.len() ==> area_within(#[trigger] s[k].1, a)
    &&& forall|k1: int, k2: int| 0 <= k1 < k2 < s.len() ==> areas_disjoint(#[trigger] s[k1].1, #[trigger] s[k2].1)
}

/// Where `b` starts along a group of kind `kind`.
pub open spec fn along_start(kind: GraphNodeGroupKind, b: Area) -> int {
    match kind {
        GraphNodeGroupKind::Row => b.pos.x as int,
        GraphNodeGroupKind::Col => b.pos.y as int,
    }
}

/// Where `b` ends along a group of kind `kind`.
pub open spec fn along_end(kind: GraphNodeGroupKind, b: Area) -> int {
    match kind {
        GraphNodeGroupKind::Row => b.pos.x + b.size.width,
        GraphNodeGroupKind::Col => b.pos.y + b.size.height,
    }
}

/// The length of `a` along a group of kind `kind`.
pub open spec fn along_len(kind: GraphNodeGroupKind, a: Area) -> int {
    match kind {
        GraphNodeGroupKind::Row => a.size.width as int,
        GraphNodeGroupKind::Col => a.size.height as int,
    }
}

proof fn lemma_within_trans(c: Area, b: Area, a: Area)
    requires
        area_within(c, b),
        area_within(b, a),
    ensures
        area_within(c, a),
{
}

/// A window laid out in `a` lies within `a`.
proof fn lemma_shrunk_within(a: Area, gap: int)
    requires
        gap >= 0,
        a.pos.x + gap <= isize::MAX,
        a.pos.y + gap <= isize::MAX,
        2 * gap <= a.size.width,
        2 * gap <= a.size.height,
    ensures
        area_within(shrunk(a, gap), a),
{
}

/// Laying out a node puts its windows within its area, none overlapping.
proof fn lemma_layout_tiles(g: GraphView, id: usize, a: Area, gap: int, fuel: nat)
    requires
        layout_ok(g, id, a, gap, fuel),
        gap >= 0,
    ensures
        tiles(layout(g, id, a, gap, fuel), a),
    decreases fuel, 0nat,
{
    match g.nodes[id] {
        GraphNode::Group { kind, .. } => {
            let ch = children_of(g.edges, id);
            if ch.len() > 0 {
                let n = ch.len();
                let d = along_len(kind, a);
                let step = slot(kind, a, n);
                assert(step == d / (n as int));
                assert(n * step <= d) by (nonlinear_arith)
                    requires
                        step == d / (n as int),
                        n > 0,
                        d >= 0,
                ;
                lemma_layout_from_tiles(g, ch, kind, a, step, 0, gap, (fuel - 1) as nat);
            }
        },
        GraphNode::Window(_) => {
            lemma_shrunk_within(a, gap);
        },
    }
}

/// Laying out the children `ch[j..]` of a group side by side puts their
/// windows within the group's area, from the start of slot `j` on, none
/// overlapping.
proof fn lemma_layout_from_tiles(
    g: GraphView,
    ch: Seq<usize>,
    kind: GraphNodeGroupKind,
    a: Area,
    step: nat,
    j: nat,
    gap: int,
    fuel: nat,
)
    requires
        layout_from_ok(g, ch, kind, a, step, j, gap, fuel),
        ch.len() * step <= along_len(kind, a),
        slot_start(kind, a) + ch.len() * step <= isize::MAX,
        gap >= 0,
    ensures
        tiles(layout_from(g, ch, kind, a, step, j, gap, fuel), a),
        forall|k: int| 0 <= k < layout_from(g, ch, kind, a, step, j, gap, fuel).len()
            ==> along_start(kind, #[trigger] layout_from(g, ch, kind, a, step, j, gap, fuel)[k].1)
                >= slot_start(kind, a) + j * step,
    decreases fuel, ch.len() - j,
{
    if j < ch.len() {
        let ca = child_area(kind, a, step, j);
        let first = layout(g, ch[j as int], ca, gap, fuel);
        let rest = layout_from(g, ch, kind, a, step, j + 1, gap, fuel);
        let s = layout_from(g, ch, kind, a, step, j, gap, fuel);
        assert(s == first + rest);
        lemma_layout_tiles(g, ch[j as int], ca, gap, fuel);
        lemma_layout_from_tiles(g, ch, kind, a, step, j + 1, gap, fuel);
        assert(j * step + step == (j + 1) * step) by (nonlinear_arith);
        assert((j + 1) * step <= ch.len() * step) by (nonlinear_arith)
            requires
                j + 1 <= ch.len(),
        ;
        assert(0 <= j * step) by (nonlinear_arith);
        assert(step <= along_len(kind, a)) by (nonlinear_arith)
            requires
                ch.len() * step <= along_len(kind, a),
                j < ch.len(),
        ;
        assert(area_within(ca, a));
        assert(along_start(kind, ca) == slot_start(kind, a) + j * step);
        assert(along_end(kind, ca) == slot_start(kind, a) + (j + 1) * step);
        assert forall|k: int| 0 <= k < s.len() implies area_within(#[trigger] s[k].1, a)
            && along_start(kind, s[k].1) >= slot_start(kind, a) + j * step by {
            if k < first.len() {
                assert(s[k] == first[k]);
                lemma_within_trans(first[k].1, ca, a);
            } else {
                assert(s[k] == rest[k - first.len()]);
            }
        }
        assert forall|k1: int, k2: int| 0 <= k1 < k2 < s.len()
            implies areas_disjoint(#[trigger] s[k1].1, #[trigger] s[k2].1) by {
            if k2 < first.len() {
                assert(s[k1] == first[k1] && s[k2] == first[k2]);
            } else if k1 >= first.len() {
                assert(s[k1] == rest[k1 - first.len()] && s[k2] == rest[k2 - first.len()]);
            } else {
                assert(s[k1] == first[k1] && s[k2] == rest[k2 - first.len()]);
                assert(area_within(first[k1].1, ca));
                assert(along_end(kind, s[k1].1) <= along_end(kind, ca));
                assert(along_start(kind, s[k2].1) >= slot_start(kind, a) + (j + 1) * step);
            }
        }
    }
}

/// Rendering a workspace puts each of its windows within the area that it is
/// rendered in, and no two of its windows overlap.
pub proof fn lemma_render_tiles(ws_state: WorkspaceState, g: GraphView, area: Area, outer: int, inner: int)
    requires
        render_ok(ws_state, g, area, outer, inner),
        outer >= 0,
        inner >= 0,
    ensures
        tiles(render_layout(ws_state, g, area, outer, inner), area),
{
    match render_start(ws_state, g) {
        Some(s) => {
            let inside = shrunk(area, outer);
            lemma_shrunk_within(area, outer);
            lemma_layout_tiles(g, s, inside, inner, node_fuel(g, s));
            let l = layout(g, s, inside, inner, node_fuel(g, s));
            assert forall|k: int| 0 <= k < l.len() implies area_within(#[trigger] l[k].1, area) by {
                lemma_within_trans(l[k].1, inside, area);
            }
        },
        None => {},
    }
}


/// Some window of `s` is `w`.
pub open spec fn places(s: Seq<(WindowId, Area)>, w: WindowId) -> bool {
    exists|t: int| 0 <= t < s.len() && (#[trigger] s[t]).0 == w
}

/// The node `m` steps up from `k` along parent edges.
pub open spec fn ancestor(edges: Seq<GraphEdge>, k: usize, m: nat) -> Option<usize>
    decreases m,
{
    if m == 0 {
        Some(k)
    } else {
        match parent_of(edges, k) {
            Some(p) => ancestor(edges, p, (m - 1) as nat),
            None => None,
        }
    }
}

pub proof fn lemma_ancestor_step(edges: Seq<GraphEdge>, k: usize, m: nat)
    requires
        m > 0,
    ensures
        ancestor(edges, k, m) == match ancestor(edges, k, (m - 1) as nat) {
            Some(y) => parent_of(edges, y),
            None => None,
        },
    decreases m,
{
    match parent_of(edges, k) {
        Some(p) => {
            if m > 1 {
                lemma_ancestor_step(edges, p, (m - 1) as nat);
            } else {
                assert(ancestor(edges, p, 0) == Some(p));
            }
        },
        None => {},
    }
}

/// In a tree every node reaches the root by going up as many steps as its level.
proof fn lemma_reaches_root(g: GraphView, lvl: Map<usize, nat>, b: nat, k: usize)
    requires
        tree_wf(g),
        levels_ok(g, lvl, b),
        g.nodes.contains_key(k),
    ensures
        ancestor(g.edges, k, lvl[k]) == Some(g.root),
    decreases lvl[k],
{
    if k != g.root {
        lemma_first_child_index(g.edges, k);
        let i = first_child_index(g.edges, k)->0;
        let p = g.edges[i].parent;
        assert(lvl[g.edges[i].child] == lvl[p] + 1);
        lemma_reaches_root(g, lvl, b, p);
    }
}

/// Each entry of the layout of child `j` is an entry of the layout of the
/// children from `j0` on.
proof fn lemma_layout_from_has(
    g: GraphView,
    ch: Seq<usize>,
    kind: GraphNodeGroupKind,
    a: Area,
    step: nat,
    j0: nat,
    j: nat,
    gap: int,
    fuel: nat,
    t: int,
)
    requires
        j0 <= j < ch.len(),
        0 <= t < layout(g, ch[j as int], child_area(kind, a, step, j), gap, fuel).len(),
    ensures
        exists|u: int| 0 <= u < layout_from(g, ch, kind, a, step, j0, gap, fuel).len()
            && layout_from(g, ch, kind, a, step, j0, gap, fuel)[u]
                == layout(g, ch[j as int], child_area(kind, a, step, j), gap, fuel)[t],
    decreases j - j0,
{
    let first = layout(g, ch[j0 as int], child_area(kind, a, step, j0), gap, fuel);
    let rest = layout_from(g, ch, kind, a, step, j0 + 1, gap, fuel);
    let s = layout_from(g, ch, kind, a, step, j0, gap, fuel);
    assert(s == first + rest);
    if j0 == j {
        assert(s[t] == first[t]);
    } else {
        lemma_layout_from_has(g, ch, kind, a, step, j0 + 1, j, gap, fuel, t);
        let u = choose|u: int| 0 <= u < rest.len()
            && rest[u] == layout(g, ch[j as int], child_area(kind, a, step, j), gap, fuel)[t];
        assert(s[first.len() + u] == rest[u]);
    }
}

/// The window of node `k` gets an area when an ancestor of `k`, `m` levels
/// up, is laid out with more than `m` levels to go.
proof fn lemma_window_laid_out(g: GraphView, k: usize, w: WindowId, m: nat, x: usize, a: Area, gap: int, fuel: nat)
    requires
        tree_wf(g),
        g.nodes.contains_key(k),
        g.nodes[k] == GraphNode::Window(w),
        ancestor(g.edges, k, m) == Some(x),
        m < fuel,
    ensures
        places(layout(g, x, a, gap, fuel), w),
    decreases m,
{
    if m == 0 {
        assert(layout(g, x, a, gap, fuel)[0].0 == w);
    } else {
        lemma_ancestor_step(g.edges, k, m);
        let y = ancestor(g.edges, k, (m - 1) as nat)->0;
        lemma_first_child_index(g.edges, y);
        let i = first_child_index(g.edges, y)->0;
        assert(g.edges[i].parent == x);
        lemma_children_contains(g.edges, x, i);
        let ch = children_of(g.edges, x);
        let j = choose|j: int| 0 <= j < ch.len() && ch[j] == y;
        match g.nodes[x] {
            GraphNode::Group { kind, .. } => {
                let step = slot(kind, a, ch.len());
                let ca = child_area(kind, a, step, j as nat);
                lemma_window_laid_out(g, k, w, (m - 1) as nat, y, ca, gap, (fuel - 1) as nat);
                let inner = layout(g, y, ca, gap, (fuel - 1) as nat);
                let t = choose|t: int| 0 <= t < inner.len() && (#[trigger] inner[t]).0 == w;
                lemma_layout_from_has(g, ch, kind, a, step, 0, j as nat, gap, (fuel - 1) as nat, t);
                let s = layout_from(g, ch, kind, a, step, 0, gap, (fuel - 1) as nat);
                assert(layout(g, x, a, gap, fuel) == s);
                let u = choose|u: int| 0 <= u < s.len() && s[u] == inner[t];
                assert(s[u].0 == w);
            },
            GraphNode::Window(_) => {},
        }
    }
}

/// Every window that a layout places is a window of the graph.
proof fn lemma_layout_windows(g: GraphView, id: usize, a: Area, gap: int, fuel: nat)
    requires
        layout_ok(g, id, a, gap, fuel),
    ensures
        forall|t: int| 0 <= t < layout(g, id, a, gap, fuel).len()
            ==> holds_window(g, (#[trigger] layout(g, id, a, gap, fuel)[t]).0),
    decreases fuel, 0nat,
{
    match g.nodes[id] {
        GraphNode::Group { kind, .. } => {
            let ch = children_of(g.edges, id);
            if ch.len() > 0 {
                lemma_layout_from_windows(g, ch, kind, a, slot(kind, a, ch.len()), 0, gap, (fuel - 1) as nat);
                assert(layout(g, id, a, gap, fuel)
                    == layout_from(g, ch, kind, a, slot(kind, a, ch.len()), 0, gap, (fuel - 1) as nat));
            }
        },
        GraphNode::Window(w) => {
            assert(g.nodes.contains_key(id) && g.nodes[id] == GraphNode::Window(w));
            assert(holds_window(g, w));
            assert(layout(g, id, a, gap, fuel) == seq![(w, shrunk(a, gap))]);
        },
    }
}

proof fn lemma_layout_from_windows(
    g: GraphView,
    ch: Seq<usize>,
    kind: GraphNodeGroupKind,
    a: Area,
    step: nat,
    j: nat,
    gap: int,
    fuel: nat,
)
    requires
        layout_from_ok(g, ch, kind, a, step, j, gap, fuel),
    ensures
        forall|t: int| 0 <= t < layout_from(g, ch, kind, a, step, j, gap, fuel).len()
            ==> holds_window(g, (#[trigger] layout_from(g, ch, kind, a, step, j, gap, fuel)[t]).0),
    decreases fuel, ch.len() - j,
{
    if j < ch.len() {
        let first = layout(g, ch[j as int], child_area(kind, a, step, j), gap, fuel);
        let rest = layout_from(g, ch, kind, a, step, j + 1, gap, fuel);
        let s = layout_from(g, ch, kind, a, step, j, gap, fuel);
        assert(s == first + rest);
        lemma_layout_windows(g, ch[j as int], child_area(kind, a, step, j), gap, fuel);
        lemma_layout_from_windows(g, ch, kind, a, step, j + 1, gap, fuel);
        assert forall|t: int| 0 <= t < s.len() implies holds_window(g, (#[trigger] s[t]).0) by {
            if t < first.len() {
                assert(s[t] == first[t]);
            } else {
                assert(s[t] == rest[t - first.len()]);
            }
        }
    }
}

/// Rendering a workspace in its normal state gives an area to each of its
/// windows, and to nothing else.
pub proof fn lemma_render_places_windows(g: GraphView, area: Area, outer: int, inner: int)
    requires
        ws_graph_wf(g),
        render_ok(WorkspaceState::Normal, g, area, outer, inner),
    ensures
        forall|w: WindowId| #![trigger holds_window(g, w)]
            holds_window(g, w) <==> places(render_layout(WorkspaceState::Normal, g, area, outer, inner), w),
{
    let (lvl, b) = choose|lvl: Map<usize, nat>, b: nat| levels_ok(g, lvl, b);
    let root = g.root;
    let fuel = node_fuel(g, root);
    let inside = shrunk(area, outer);
    let l = layout(g, root, inside, inner, fuel);
    assert(render_layout(WorkspaceState::Normal, g, area, outer, inner) == l);
    lemma_layout_windows(g, root, inside, inner, fuel);
    assert forall|w: WindowId| holds_window(g, w) implies places(l, w) by {
        let k = choose|k: usize| #[trigger] g.nodes.contains_key(k) && g.nodes[k] == GraphNode::Window(w);
        lemma_reaches_root(g, lvl, b, k);
        lemma_window_laid_out(g, k, w, lvl[k], root, inside, inner, fuel);
    }
    assert forall|w: WindowId| places(l, w) implies holds_window(g, w) by {
        let t = choose|t: int| 0 <= t < l.len() && (#[trigger] l[t]).0 == w;
    }
}


/// The window nodes below `id`, in the order in which a layout with `fuel`
/// levels to go places them.
pub open spec fn layout_nodes(g: GraphView, id: usize, fuel: nat) -> Seq<usize>
    decreases fuel, 0nat,
{
    if fuel == 0 {
        Seq::empty()
    } else {
        match g.nodes[id] {
            GraphNode::Group { .. } => {
                let ch = children_of(g.edges, id);
                if ch.len() == 0 {
                    Seq::empty()
                } else {
                    nodes_from(g, ch, 0, (fuel - 1) as nat)
                }
            },
            GraphNode::Window(_) => seq![id],
        }
    }
}

/// The window nodes below the children `ch[j..]`, one child after the other.
pub open spec fn nodes_from(g: GraphView, ch: Seq<usize>, j: nat, fuel: nat) -> Seq<usize>
    decreases fuel, ch.len() - j,
{
    if j >= ch.len() {
        Seq::empty()
    } else {
        layout_nodes(g, ch[j as int], fuel) + nodes_from(g, ch, j + 1, fuel)
    }
}

/// A layout places the windows of the nodes of `layout_nodes`, in that order.
proof fn lemma_layout_nodes(g: GraphView, id: usize, a: Area, gap: int, fuel: nat)
    ensures
        layout(g, id, a, gap, fuel).len() == layout_nodes(g, id, fuel).len(),
        forall|t: int| 0 <= t < layout(g, id, a, gap, fuel).len()
            ==> g.nodes[layout_nodes(g, id, fuel)[t]] == GraphNode::Window((#[trigger] layout(g, id, a, gap, fuel)[t]).0),
    decreases fuel, 0nat,
{
    if fuel > 0 {
        match g.nodes[id] {
            GraphNode::Group { kind, .. } => {
                let ch = children_of(g.edges, id);
                if ch.len() > 0 {
                    let step = slot(kind, a, ch.len());
                    lemma_nodes_from(g, ch, kind, a, step, 0, gap, (fuel - 1) as nat);
                    assert(layout(g, id, a, gap, fuel) == layout_from(g, ch, kind, a, step, 0, gap, (fuel - 1) as nat));
                    assert(layout_nodes(g, id, fuel) == nodes_from(g, ch, 0, (fuel - 1) as nat));
                }
            },
            GraphNode::Window(w) => {
                assert(layout(g, id, a, gap, fuel) == seq![(w, shrunk(a, gap))]);
                assert(layout_nodes(g, id, fuel) == seq![id]);
            },
        }
    }
}

proof fn lemma_nodes_from(
    g: GraphView,
    ch: Seq<usize>,
    kind: GraphNodeGroupKind,
    a: Area,
    step: nat,
    j: nat,
    gap: int,
    fuel: nat,
)
    ensures
        layout_from(g, ch, kind, a, step, j, gap, fuel).len() == nodes_from(g, ch, j, fuel).len(),
        forall|t: int| 0 <= t < layout_from(g, ch, kind, a, step, j, gap, fuel).len()
            ==> g.nodes[nodes_from(g, ch, j, fuel)[t]]
                == GraphNode::Window((#[trigger] layout_from(g, ch, kind, a, step, j, gap, fuel)[t]).0),
    decreases fuel, ch.len() - j,
{
    if j < ch.len() {
        let ca = child_area(kind, a, step, j);
        lemma_layout_nodes(g, ch[j as int], ca, gap, fuel);
        lemma_nodes_from(g, ch, kind, a, step, j + 1, gap, fuel);
        let l1 = layout(g, ch[j as int], ca, gap, fuel);
        let l2 = layout_from(g, ch, kind, a, step, j + 1, gap, fuel);
        let n1 = layout_nodes(g, ch[j as int], fuel);
        let n2 = nodes_from(g, ch, j + 1, fuel);
        let l = layout_from(g, ch, kind, a, step, j, gap, fuel);
        let n = nodes_from(g, ch, j, fuel);
        assert(l == l1 + l2);
        assert(n == n1 + n2);
        assert forall|t: int| 0 <= t < l.len() implies g.nodes[n[t]] == GraphNode::Window((#[trigger] l[t]).0) by {
            if t < l1.len() {
                assert(l[t] == l1[t] && n[t] == n1[t]);
            } else {
                assert(l[t] == l2[t - l1.len()] && n[t] == n2[t - l1.len()]);
            }
        }
    }
}

/// Going up `m` steps from `k` to `y` passes `m` levels.
pub proof fn lemma_ancestor_level(g: GraphView, lvl: Map<usize, nat>, b: nat, k: usize, m: nat, y: usize)
    requires
        tree_wf(g),
        levels_ok(g, lvl, b),
        g.nodes.contains_key(k),
        ancestor(g.edges, k, m) == Some(y),
    ensures
        g.nodes.contains_key(y),
        lvl[k] == lvl[y] + m,
    decreases m,
{
    if m > 0 {
        lemma_first_child_index(g.edges, k);
        let i = first_child_index(g.edges, k)->0;
        let p = g.edges[i].parent;
        assert(lvl[g.edges[i].child] == lvl[p] + 1);
        assert(node_is_group(g, p));
        lemma_ancestor_level(g, lvl, b, p, (m - 1) as nat, y);
    }
}

/// Each node that a layout of `x` places lies below `x`.
proof fn lemma_layout_nodes_below(g: GraphView, x: usize, fuel: nat, t: int)
    requires
        tree_wf(g),
        g.nodes.contains_key(x),
        0 <= t < layout_nodes(g, x, fuel).len(),
    ensures
        g.nodes.contains_key(layout_nodes(g, x, fuel)[t]),
        exists|m: nat| ancestor(g.edges, layout_nodes(g, x, fuel)[t], m) == Some(x),
    decreases fuel, 0nat,
{
    match g.nodes[x] {
        GraphNode::Group { .. } => {
            let ch = children_of(g.edges, x);
            assert(layout_nodes(g, x, fuel) == nodes_from(g, ch, 0, (fuel - 1) as nat));
            lemma_nodes_from_below(g, x, ch, 0, (fuel - 1) as nat, t);
        },
        GraphNode::Window(_) => {
            assert(layout_nodes(g, x, fuel) == seq![x]);
            assert(ancestor(g.edges, layout_nodes(g, x, fuel)[t], 0) == Some(x));
        },
    }
}

proof fn lemma_nodes_from_below(g: GraphView, x: usize, ch: Seq<usize>, j: nat, fuel: nat, t: int)
    requires
        tree_wf(g),
        ch == children_of(g.edges, x),
        0 <= t < nodes_from(g, ch, j, fuel).len(),
    ensures
        g.nodes.contains_key(nodes_from(g, ch, j, fuel)[t]),
        exists|m: nat| ancestor(g.edges, nodes_from(g, ch, j, fuel)[t], m) == Some(x),
    decreases fuel, ch.len() - j,
{
    let n1 = layout_nodes(g, ch[j as int], fuel);
    let n2 = nodes_from(g, ch, j + 1, fuel);
    let n = nodes_from(g, ch, j, fuel);
    assert(n == n1 + n2);
    if t < n1.len() {
        let c = ch[j as int];
        lemma_children_of_edge(g.edges, x, j as int);
        let i = choose|i: int| 0 <= i < g.edges.len() && (#[trigger] g.edges[i]).parent == x
            && g.edges[i].child == c;
        lemma_layout_nodes_below(g, c, fuel, t);
        let k = n1[t];
        let m = choose|m: nat| ancestor(g.edges, k, m) == Some(c);
        // the parent edge of `c` is edge `i`, children being unique
        lemma_first_child_index(g.edges, c);
        assert(first_child_index(g.edges, c) == Some(i));
        lemma_ancestor_step(g.edges, k, m + 1);
        assert(ancestor(g.edges, k, m + 1) == Some(x));
        assert(n[t] == k);
    } else {
        lemma_nodes_from_below(g, x, ch, j + 1, fuel, t - n1.len());
        assert(n[t] == n2[t - n1.len()]);
    }
}

/// The children of a node of a tree are all different.
proof fn lemma_children_distinct(g: GraphView, p: usize)
    requires
        tree_wf(g),
    ensures
        children_of(g.edges, p).no_duplicates(),
{
    let ch = children_of(g.edges, p);
    assert forall|a: int, c: int| 0 <= a < ch.len() && 0 <= c < ch.len() && a != c implies ch[a] != ch[c] by {
        lemma_children_of_index(g.edges, p, a);
        lemma_children_of_index(g.edges, p, c);
        let ia = edge_of_child(g.edges, p, a);
        let ic = edge_of_child(g.edges, p, c);
        if ch[a] == ch[c] {
            assert(g.edges[ia].child == g.edges[ic].child);
            assert(ia == ic);
        }
    }
}

/// The edge that gives child `j` of `p`.
pub open spec fn edge_of_child(edges: Seq<GraphEdge>, p: usize, j: int) -> int
    decreases edges.len(),
{
    if edges.len() == 0 {
        0
    } else {
        let d = edges.drop_last();
        if j < children_of(d, p).len() {
            edge_of_child(d, p, j)
        } else {
            edges.len() - 1
        }
    }
}

/// Child `j` of `p` comes from edge `edge_of_child(edges, p, j)`, and later
/// children from later edges.
proof fn lemma_children_of_index(edges: Seq<GraphEdge>, p: usize, j: int)
    requires
        0 <= j < children_of(edges, p).len(),
    ensures
        0 <= edge_of_child(edges, p, j) < edges.len(),
        edges[edge_of_child(edges, p, j)].child == children_of(edges, p)[j],
        edges[edge_of_child(edges, p, j)].parent == p,
        forall|c: int| j < c < children_of(edges, p).len() ==> edge_of_child(edges, p, j) < #[trigger] edge_of_child(edges, p, c),
    decreases edges.len(),
{
    let d = edges.drop_last();
    if j < children_of(d, p).len() {
        lemma_children_of_index(d, p, j);
        assert(d[edge_of_child(d, p, j)] == edges[edge_of_child(d, p, j)]);
        assert forall|c: int| j < c < children_of(edges, p).len() implies edge_of_child(edges, p, j) < #[trigger] edge_of_child(edges, p, c) by {
            if c < children_of(d, p).len() {
                lemma_children_of_index(d, p, c);
            }
        }
    }
}


/// Each node that the layout of the children `ch[j..]` of `x` places lies
/// below one of those children.
proof fn lemma_nodes_from_child(g: GraphView, x: usize, ch: Seq<usize>, j: nat, fuel: nat, t: int)
    requires
        tree_wf(g),
        ch == children_of(g.edges, x),
        0 <= t < nodes_from(g, ch, j, fuel).len(),
    ensures
        exists|j2: int, m: nat| j <= j2 < ch.len()
            && #[trigger] ancestor(g.edges, nodes_from(g, ch, j, fuel)[t], m) == Some(#[trigger] ch[j2]),
    decreases ch.len() - j,
{
    let n1 = layout_nodes(g, ch[j as int], fuel);
    let n2 = nodes_from(g, ch, j + 1, fuel);
    let n = nodes_from(g, ch, j, fuel);
    assert(n == n1 + n2);
    if t < n1.len() {
        lemma_children_of_edge(g.edges, x, j as int);
        lemma_layout_nodes_below(g, ch[j as int], fuel, t);
        assert(n[t] == n1[t]);
        let m = choose|m: nat| ancestor(g.edges, n1[t], m) == Some(ch[j as int]);
        assert(ancestor(g.edges, n[t], m) == Some(ch[j as int]));
    } else {
        lemma_nodes_from_child(g, x, ch, j + 1, fuel, t - n1.len());
        assert(n[t] == n2[t - n1.len()]);
        let (j2, m) = choose|j2: int, m: nat| j + 1 <= j2 < ch.len()
            && #[trigger] ancestor(g.edges, n2[t - n1.len()], m) == Some(#[trigger] ch[j2]);
        assert(ancestor(g.edges, n[t], m) == Some(ch[j2]));
    }
}

/// A child of `x` is one level below it.
proof fn lemma_child_level(g: GraphView, lvl: Map<usize, nat>, b: nat, x: usize, j: int)
    requires
        tree_wf(g),
        levels_ok(g, lvl, b),
        0 <= j < children_of(g.edges, x).len(),
    ensures
        g.nodes.contains_key(children_of(g.edges, x)[j]),
        lvl[children_of(g.edges, x)[j]] == lvl[x] + 1,
{
    lemma_children_of_edge(g.edges, x, j);
    let i = choose|i: int| 0 <= i < g.edges.len() && (#[trigger] g.edges[i]).parent == x
        && g.edges[i].child == children_of(g.edges, x)[j];
}

/// A layout places no node twice.
proof fn lemma_layout_nodes_distinct(g: GraphView, lvl: Map<usize, nat>, b: nat, x: usize, fuel: nat)
    requires
        tree_wf(g),
        levels_ok(g, lvl, b),
        g.nodes.contains_key(x),
    ensures
        layout_nodes(g, x, fuel).no_duplicates(),
    decreases fuel, 0nat,
{
    if fuel > 0 {
        match g.nodes[x] {
            GraphNode::Group { .. } => {
                let ch = children_of(g.edges, x);
                if ch.len() > 0 {
                    lemma_children_distinct(g, x);
                    lemma_nodes_from_distinct(g, lvl, b, x, ch, 0, (fuel - 1) as nat);
                    assert(layout_nodes(g, x, fuel) == nodes_from(g, ch, 0, (fuel - 1) as nat));
                }
            },
            GraphNode::Window(_) => {
                assert(layout_nodes(g, x, fuel) == seq![x]);
            },
        }
    }
}

proof fn lemma_nodes_from_distinct(g: GraphView, lvl: Map<usize, nat>, b: nat, x: usize, ch: Seq<usize>, j: nat, fuel: nat)
    requires
        tree_wf(g),
        levels_ok(g, lvl, b),
        g.nodes.contains_key(x),
        ch == children_of(g.edges, x),
        ch.no_duplicates(),
    ensures
        nodes_from(g, ch, j, fuel).no_duplicates(),
    decreases fuel, ch.len() - j,
{
    if j < ch.len() {
        let c = ch[j as int];
        lemma_child_level(g, lvl, b, x, j as int);
        lemma_layout_nodes_distinct(g, lvl, b, c, fuel);
        lemma_nodes_from_distinct(g, lvl, b, x, ch, j + 1, fuel);
        let n1 = layout_nodes(g, c, fuel);
        let n2 = nodes_from(g, ch, j + 1, fuel);
        let n = nodes_from(g, ch, j, fuel);
        assert(n == n1 + n2);
        assert forall|t1: int, t2: int| 0 <= t1 < n1.len() && 0 <= t2 < n2.len() implies n1[t1] != n2[t2] by {
            lemma_layout_nodes_below(g, c, fuel, t1);
            let k = n1[t1];
            let m1 = choose|m: nat| ancestor(g.edges, k, m) == Some(c);
            lemma_nodes_from_child(g, x, ch, j + 1, fuel, t2);
            if k == n2[t2] {
                let (j2, m2) = choose|j2: int, m: nat| j + 1 <= j2 < ch.len()
                    && #[trigger] ancestor(g.edges, n2[t2], m) == Some(#[trigger] ch[j2]);
                lemma_ancestor_level(g, lvl, b, k, m1, c);
                lemma_ancestor_level(g, lvl, b, k, m2, ch[j2]);
                lemma_child_level(g, lvl, b, x, j2);
                assert(m1 == m2);
                assert(ch[j2] == c);
                assert(ch[j2] == ch[j as int]);
            }
        }
        assert forall|a: int, d: int| 0 <= a < n.len() && 0 <= d < n.len() && a != d implies n[a] != n[d] by {
            if a < n1.len() && d < n1.len() {
                assert(n[a] == n1[a] && n[d] == n1[d]);
            } else if a >= n1.len() && d >= n1.len() {
                assert(n[a] == n2[a - n1.len()] && n[d] == n2[d - n1.len()]);
            } else if a < n1.len() {
                assert(n[a] == n1[a] && n[d] == n2[d - n1.len()]);
            } else {
                assert(n[d] == n1[d] && n[a] == n2[a - n1.len()]);
            }
        }
    }
}

/// Each entry of the nodes below child `j` is an entry of the nodes below the
/// children from `j0` on.
proof fn lemma_nodes_from_has(g: GraphView, ch: Seq<usize>, j0: nat, j: nat, fuel: nat, t: int)
    requires
        j0 <= j < ch.len(),
        0 <= t < layout_nodes(g, ch[j as int], fuel).len(),
    ensures
        nodes_from(g, ch, j0, fuel).contains(layout_nodes(g, ch[j as int], fuel)[t]),
    decreases j - j0,
{
    let first = layout_nodes(g, ch[j0 as int], fuel);
    let rest = nodes_from(g, ch, j0 + 1, fuel);
    let s = nodes_from(g, ch, j0, fuel);
    assert(s == first + rest);
    if j0 == j {
        assert(s[t] == first[t]);
    } else {
        lemma_nodes_from_has(g, ch, j0 + 1, j, fuel, t);
        let u = choose|u: int| 0 <= u < rest.len() && rest[u] == layout_nodes(g, ch[j as int], fuel)[t];
        assert(s[first.len() + u] == rest[u]);
    }
}

/// A window node is placed by the layout of each of its ancestors that has
/// enough levels to go.
proof fn lemma_node_laid_out(g: GraphView, k: usize, m: nat, x: usize, fuel: nat)
    requires
        tree_wf(g),
        g.nodes.contains_key(k),
        g.nodes[k] is Window,
        ancestor(g.edges, k, m) == Some(x),
        m < fuel,
    ensures
        layout_nodes(g, x, fuel).contains(k),
    decreases m,
{
    if m == 0 {
        assert(layout_nodes(g, x, fuel) == seq![k]);
        assert(layout_nodes(g, x, fuel)[0] == k);
    } else {
        lemma_ancestor_step(g.edges, k, m);
        let y = ancestor(g.edges, k, (m - 1) as nat)->0;
        lemma_first_child_index(g.edges, y);
        let i = first_child_index(g.edges, y)->0;
        assert(g.edges[i].parent == x);
        lemma_children_contains(g.edges, x, i);
        let ch = children_of(g.edges, x);
        let j = choose|j: int| 0 <= j < ch.len() && ch[j] == y;
        assert(node_is_group(g, x));
        lemma_node_laid_out(g, k, (m - 1) as nat, y, (fuel - 1) as nat);
        let below = layout_nodes(g, y, (fuel - 1) as nat);
        let t = choose|t: int| 0 <= t < below.len() && below[t] == k;
        lemma_nodes_from_has(g, ch, 0, j as nat, (fuel - 1) as nat, t);
        assert(layout_nodes(g, x, fuel) == nodes_from(g, ch, 0, (fuel - 1) as nat));
    }
}

/// Rendering a workspace in its normal state places every window node of its
/// graph exactly once: it places, in order, the windows of the nodes of
/// `layout_nodes` from the root, which holds each window node of the graph
/// once and nothing else.
pub proof fn lemma_render_places_each_window_once(g: GraphView, area: Area, outer: int, inner: int)
    requires
        ws_graph_wf(g),
    ensures
        ({
            let ns = layout_nodes(g, g.root, node_fuel(g, g.root));
            let l = render_layout(WorkspaceState::Normal, g, area, outer, inner);
            &&& ns.no_duplicates()
            &&& forall|k: usize| #[trigger] ns.contains(k) <==> g.nodes.contains_key(k) && g.nodes[k] is Window
            &&& ns.len() == l.len()
            &&& forall|t: int| 0 <= t < l.len() ==> g.nodes[ns[t]] == GraphNode::Window((#[trigger] l[t]).0)
        }),
{
    let (lvl, b) = choose|lvl: Map<usize, nat>, b: nat| levels_ok(g, lvl, b);
    let root = g.root;
    let fuel = node_fuel(g, root);
    let inside = shrunk(area, outer);
    let l = layout(g, root, inside, inner, fuel);
    let ns = layout_nodes(g, root, fuel);
    assert(render_layout(WorkspaceState::Normal, g, area, outer, inner) == l);
    lemma_layout_nodes(g, root, inside, inner, fuel);
    lemma_layout_nodes_distinct(g, lvl, b, root, fuel);
    assert forall|k: usize| #[trigger] ns.contains(k) <==> g.nodes.contains_key(k) && g.nodes[k] is Window by {
        if ns.contains(k) {
            let t = choose|t: int| 0 <= t < ns.len() && ns[t] == k;
            lemma_layout_nodes_below(g, root, fuel, t);
            assert(g.nodes[ns[t]] == GraphNode::Window(l[t].0));
        }
        if g.nodes.contains_key(k) && g.nodes[k] is Window {
            lemma_reaches_root(g, lvl, b, k);
            lemma_node_laid_out(g, k, lvl[k], root, fuel);
        }
    }
}

} // verus!
