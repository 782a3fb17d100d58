//! Where the windows of a workspace go on the screen.
use vstd::prelude::*;
use crate::config::Config;
use crate::graph::{children_of, focused_window_child, levels_ok, tree_wf, Graph, GraphNode, GraphNodeGroupKind, GraphNodeId, GraphView};
use crate::graph_laws::lemma_children_of_edge;
use crate::platform::{Area, Position, Size, WindowId};
use crate::workspace::{lemma_focused_child_is_window, ws_graph_wf, Workspace, WorkspaceState};

verus! {

/// `a` shrunk by `gap` on each side.
pub open spec fn shrunk(a: Area, gap: int) -> Area {
    Area {
        size: Size { width: (a.size.width - 2 * gap) as usize, height: (a.size.height - 2 * gap) as usize },
        pos: Position { x: (a.pos.x + gap) as isize, y: (a.pos.y + gap) as isize },
    }
}

/// Shrinking `a` by `gap` on each side neither overflows nor underflows.
pub open spec fn shrink_ok(a: Area, gap: int) -> bool {
    &&& a.pos.x + gap <= isize::MAX
    &&& a.pos.y + gap <= isize::MAX
    &&& 2 * gap <= usize::MAX
    &&& 2 * gap <= a.size.width
    &&& 2 * gap <= a.size.height
}

/// The width (for a row) or height (for a column) of each of `n` children.
pub open spec fn slot(kind: GraphNodeGroupKind, a: Area, n: nat) -> nat {
    match kind {
        GraphNodeGroupKind::Row => a.size.width as nat / n,
        GraphNodeGroupKind::Col => a.size.height as nat / n,
    }
}

/// Where the children of a group in `a` start, along the group.
pub open spec fn slot_start(kind: GraphNodeGroupKind, a: Area) -> int {
    match kind {
        GraphNodeGroupKind::Row => a.pos.x as int,
        GraphNodeGroupKind::Col => a.pos.y as int,
    }
}

/// The area of child `j` of a group in `a` whose children take `step` each.
pub open spec fn child_area(kind: GraphNodeGroupKind, a: Area, step: nat, j: nat) -> Area {
    match kind {
        GraphNodeGroupKind::Row => Area {
            size: Size { width: step as usize, height: a.size.height },
            pos: Position { x: (a.pos.x + j * step) as isize, y: a.pos.y },
        },
        GraphNodeGroupKind::Col => Area {
            size: Size { width: a.size.width, height: step as usize },
            pos: Position { x: a.pos.x, y: (a.pos.y + j * step) as isize },
        },
    }
}

/// The windows below `id` and their areas, when the node is laid out in `a`:
/// a row splits its width evenly among its children from left to right, a
/// column its height from top to bottom, and a window keeps `gap` free on
/// each side.
pub open spec fn layout(g: GraphView, id: usize, a: Area, gap: int, fuel: nat) -> Seq<(WindowId, Area)>
    decreases fuel, 0nat,
{
    if fuel == 0 {
        Seq::empty()
    } else {
        match g.nodes[id] {
            GraphNode::Group { kind, .. } => {
                let ch = children_of(g.edges, id);
                if ch.len() == 0 {
                    Seq::empty()
                } else {
                    layout_from(g, ch, kind, a, slot(kind, a, ch.len()), 0, gap, (fuel - 1) as nat)
                }
            },
            GraphNode::Window(w) => seq![(w, shrunk(a, gap))],
        }
    }
}

/// The layouts of the children `ch[j..]` of a group in `a`, one after the other.
pub open spec fn layout_from(
    g: GraphView,
    ch: Seq<usize>,
    kind: GraphNodeGroupKind,
    a: Area,
    step: nat,
    j: nat,
    gap: int,
    fuel: nat,
) -> Seq<(WindowId, Area)>
    decreases fuel, ch.len() - j,
{
    if j >= ch.len() {
        Seq::empty()
    } else {
        layout(g, ch[j as int], child_area(kind, a, step, j), gap, fuel)
            + layout_from(g, ch, kind, a, step, j + 1, gap, fuel)
    }
}

/// Laying out `id` in `a` reaches only nodes of the graph, stops within `fuel`
/// levels, and no coordinate or size overflows or underflows.
pub open spec fn layout_ok(g: GraphView, id: usize, a: Area, gap: int, fuel: nat) -> bool
    decreases fuel, 0nat,
{
    &&& fuel > 0
    &&& g.nodes.contains_key(id)
    &&& match g.nodes[id] {
        GraphNode::Group { kind, .. } => {
            let ch = children_of(g.edges, id);
            let step = slot(kind, a, ch.len());
            ch.len() == 0 || {
                &&& step <= isize::MAX
                &&& slot_start(kind, a) + ch.len() * step <= isize::MAX
                &&& layout_from_ok(g, ch, kind, a, step, 0, gap, (fuel - 1) as nat)
            }
        },
        GraphNode::Window(_) => shrink_ok(a, gap),
    }
}

pub open spec fn layout_from_ok(
    g: GraphView,
    ch: Seq<usize>,
    kind: GraphNodeGroupKind,
    a: Area,
    step: nat,
    j: nat,
    gap: int,
    fuel: nat,
) -> bool
    decreases fuel, ch.len() - j,
{
    j >= ch.len() || {
        &&& layout_ok(g, ch[j as int], child_area(kind, a, step, j), gap, fuel)
        &&& layout_from_ok(g, ch, kind, a, step, j + 1, gap, fuel)
    }
}

/// How many levels a layout from `id` may descend: the depth of the deepest
/// node below the depth of `id`, plus one.
pub open spec fn node_fuel(g: GraphView, id: usize) -> nat {
    let (lvl, b) = choose|lvl: Map<usize, nat>, b: nat| levels_ok(g, lvl, b);
    (b - lvl[id] + 1) as nat
}

/// The node from which a workspace is laid out: the focused window when it is
/// fullscreen, else the root.
pub open spec fn render_start(ws_state: WorkspaceState, g: GraphView) -> Option<usize> {
    match ws_state {
        WorkspaceState::Fullscreen => focused_window_child(g, 0),
        WorkspaceState::Normal => Some(g.root),
    }
}

/// The windows of a workspace and their areas, when it is laid out in `a`.
pub open spec fn render_layout(ws_state: WorkspaceState, g: GraphView, a: Area, outer: int, inner: int) -> Seq<(WindowId, Area)> {
    match render_start(ws_state, g) {
        Some(s) => layout(g, s, shrunk(a, outer), inner, node_fuel(g, s)),
        None => Seq::empty(),
    }
}

pub open spec fn render_ok(ws_state: WorkspaceState, g: GraphView, a: Area, outer: int, inner: int) -> bool {
    &&& shrink_ok(a, outer)
    &&& render_start(ws_state, g) matches Some(s) ==> layout_ok(g, s, shrunk(a, outer), inner, node_fuel(g, s))
}

impl Workspace {
    /// Lays out the workspace in `area` and gives each window the area that it
    /// is to be moved and resized to, in the order in which they are placed.
    pub fn render(&self, config: &Config, area: Area) -> (r: Vec<(WindowId, Area)>)
        requires
            ws_graph_wf(self.graph@),
            render_ok(self.state, self.graph@, area, config.outer_gap as int, config.inner_gap as int),
        ensures
            r@ == render_layout(self.state, self.graph@, area, config.outer_gap as int, config.inner_gap as int),
    {
        let mut area = area;
        area.pos.x += config.outer_gap as isize;
        area.pos.y += config.outer_gap as isize;
        area.size.width -= config.outer_gap as usize * 2;
        area.size.height -= config.outer_gap as usize * 2;
        let ghost g = self.graph@;
        let ghost (lvl, b) = choose|lvl: Map<usize, nat>, b: nat| levels_ok(g, lvl, b);
        proof {
            lemma_focused_child_is_window(g);
        }
        match self.state {
            WorkspaceState::Fullscreen => {
                match self.graph.get_focused_window_child(0) {
                    Some(win_node_id) => render_node(win_node_id, &self.graph, config, area, Ghost(lvl), Ghost(b)),
                    None => Vec::new(),
                }
            },
            WorkspaceState::Normal => {
                render_node(self.graph.root_node_id, &self.graph, config, area, Ghost(lvl), Ghost(b))
            },
        }
    }
}

fn render_node(
    id: GraphNodeId,
    graph: &Graph,
    config: &Config,
    area: Area,
    Ghost(lvl): Ghost<Map<usize, nat>>,
    Ghost(b): Ghost<nat>,
) -> (r: Vec<(WindowId, Area)>)
    requires
        tree_wf(graph@),
        levels_ok(graph@, lvl, b),
        graph@.nodes.contains_key(id),
        layout_ok(graph@, id, area, config.inner_gap as int, (b - lvl[id] + 1) as nat),
    ensures
        r@ == layout(graph@, id, area, config.inner_gap as int, (b - lvl[id] + 1) as nat),
    decreases b - lvl[id],
{
    let ghost g = graph@;
    let ghost fuel = (b - lvl[id] + 1) as nat;
    let ghost gap = config.inner_gap as int;
    let node = graph.get_node(id).unwrap();
    match node {
        GraphNode::Group { kind, .. } => {
            let children = graph.get_children(id);
            if children.len() == 0 {
                return Vec::new();
            }
            let n = children.len();
            let ghost ch = children@;
            let mut r: Vec<(WindowId, Area)> = Vec::new();
            let mut sub = area;
            match kind {
                GraphNodeGroupKind::Row => {
                    let col_width = area.size.width / n;
                    let ghost step = col_width as nat;
                    assert(step == slot(*kind, area, ch.len()));
                    let mut x = area.pos.x;
                    let mut j: usize = 0;
                    while j < n
                        invariant
                            n == ch.len(),
                            children@ == ch,
                            ch == children_of(g.edges, id),
                            graph@ == g,
                            tree_wf(g),
                            levels_ok(g, lvl, b),
                            g.nodes.contains_key(id),
                            lvl[id] <= b,
                            fuel == (b - lvl[id] + 1) as nat,
                            gap == config.inner_gap as int,
                            *kind == GraphNodeGroupKind::Row,
                            step == col_width,
                            step <= isize::MAX,
                            area.pos.x + n * step <= isize::MAX,
                            j <= n,
                            x == area.pos.x + j * step,
                            sub.size.height == area.size.height,
                            sub.pos.y == area.pos.y,
                            layout_from_ok(g, ch, *kind, area, step, j as nat, gap, (fuel - 1) as nat),
                            r@ + layout_from(g, ch, *kind, area, step, j as nat, gap, (fuel - 1) as nat)
                                == layout_from(g, ch, *kind, area, step, 0, gap, (fuel - 1) as nat),
                        decreases n - j,
                    {
                        let child_id = children[j];
                        proof {
                            lemma_children_of_edge(g.edges, id, j as int);
                            assert(x + step <= area.pos.x + n * step) by (nonlinear_arith)
                                requires x == area.pos.x + j * step, j < n, step >= 0;
                        }
                        sub.pos.x = x;
                        sub.size.width = col_width;
                        assert(sub == child_area(*kind, area, step, j as nat));
                        let mut part = render_node(child_id, graph, config, sub, Ghost(lvl), Ghost(b));
                        r.append(&mut part);
                        x += col_width as isize;
                        proof {
                            assert(x == area.pos.x + (j + 1) * step) by (nonlinear_arith)
                                requires x == area.pos.x + j * step + step;
                        }
                        j += 1;
                    }
                },
                GraphNodeGroupKind::Col => {
                    let row_height = area.size.height / n;
                    let ghost step = row_height as nat;
                    assert(step == slot(*kind, area, ch.len()));
                    let mut y = area.pos.y;
                    let mut j: usize = 0;
                    while j < n
                        invariant
                            n == ch.len(),
                            children@ == ch,
                            ch == children_of(g.edges, id),
                            graph@ == g,
                            tree_wf(g),
                            levels_ok(g, lvl, b),
                            g.nodes.contains_key(id),
                            lvl[id] <= b,
                            fuel == (b - lvl[id] + 1) as nat,
                            gap == config.inner_gap as int,
                            *kind == GraphNodeGroupKind::Col,
                            step == row_height,
                            step <= isize::MAX,
                            area.pos.y + n * step <= isize::MAX,
                            j <= n,
                            y == area.pos.y + j * step,
                            sub.size.width == area.size.width,
                            sub.pos.x == area.pos.x,
                            layout_from_ok(g, ch, *kind, area, step, j as nat, gap, (fuel - 1) as nat),
                            r@ + layout_from(g, ch, *kind, area, step, j as nat, gap, (fuel - 1) as nat)
                                == layout_from(g, ch, *kind, area, step, 0, gap, (fuel - 1) as nat),
                        decreases n - j,
                    {
                        let child_id = children[j];
                        proof {
                            lemma_children_of_edge(g.edges, id, j as int);
                            assert(y + step <= area.pos.y + n * step) by (nonlinear_arith)
                                requires y == area.pos.y + j * step, j < n, step >= 0;
                        }
                        sub.pos.y = y;
                        sub.size.height = row_height;
                        assert(sub == child_area(*kind, area, step, j as nat));
                        let mut part = render_node(child_id, graph, config, sub, Ghost(lvl), Ghost(b));
                        r.append(&mut part);
                        y += row_height as isize;
                        proof {
                            assert(y == area.pos.y + (j + 1) * step) by (nonlinear_arith)
                                requires y == area.pos.y + j * step + step;
                        }
                        j += 1;
                    }
                },
            }
            assert(r@ == layout_from(g, ch, *kind, area, slot(*kind, area, ch.len()), 0, gap, (fuel - 1) as nat));
            r
        },
        GraphNode::Window(win_id) => {
            let mut area = area;
            area.pos.x += config.inner_gap as isize;
            area.pos.y += config.inner_gap as isize;
            area.size.width -= config.inner_gap as usize * 2;
            area.size.height -= config.inner_gap as usize * 2;
            let mut r = Vec::new();
            r.push((*win_id, area));
            r
        },
    }
}

} // verus!
