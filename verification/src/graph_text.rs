//! How a layout graph is written out: one line per node, children below their
//! group and indented one step further.
use vstd::prelude::*;
use crate::graph::{children_of, levels_ok, tree_wf, Graph, GraphNode, GraphNodeGroupKind, GraphNodeId, GraphView};
use crate::graph_laws::lemma_children_of_edge;
use crate::render::node_fuel;
use crate::text::{decimal, join, spec_decimal, spec_join, views};

verus! {

/// `depth` steps of indentation, each a bar and three spaces.
pub open spec fn indent(depth: nat) -> Seq<char>
    decreases depth,
{
    if depth == 0 {
        Seq::empty()
    } else {
        indent((depth - 1) as nat) + seq!['|', ' ', ' ', ' ']
    }
}

pub open spec fn kind_name(kind: GraphNodeGroupKind) -> Seq<char> {
    match kind {
        GraphNodeGroupKind::Row => seq!['R', 'o', 'w'],
        GraphNodeGroupKind::Col => seq!['C', 'o', 'l'],
    }
}

/// The line of the node `id`, without indentation: its id in brackets, then a
/// group's kind, focus and child count, or a window's id.
pub open spec fn node_line(id: usize, node: GraphNode) -> Seq<char> {
    match node {
        GraphNode::Group { kind, focus, child_count } => seq!['['] + spec_decimal(id as nat) + seq![']'] + kind_name(kind)
            + seq![' ', 'f', 'o', 'c', 'u', 's', ':', ' '] + spec_decimal(focus as nat) + seq![' ', 'c', 'h', 'i', 'l', 'd', '_', 'c', 'o', 'u', 'n', 't', ':', ' '] + spec_decimal(child_count as nat),
        GraphNode::Window(w) => seq!['['] + spec_decimal(id as nat) + seq![']', 'W', 'i', 'n', '('] + spec_decimal(w.0 as nat) + seq![')'],
    }
}

/// The lines of the node `id` at indentation `depth` and of everything below it.
pub open spec fn node_lines(g: GraphView, id: usize, depth: nat, fuel: nat) -> Seq<Seq<char>>
    decreases fuel, 0nat,
{
    if fuel == 0 {
        Seq::empty()
    } else {
        let head = indent(depth) + node_line(id, g.nodes[id]);
        match g.nodes[id] {
            GraphNode::Group { .. } => seq![head] + child_lines(g, children_of(g.edges, id), depth + 1, 0, (fuel - 1) as nat),
            GraphNode::Window(_) => seq![head],
        }
    }
}

/// The lines of the children `ch[j..]`, one after the other.
pub open spec fn child_lines(g: GraphView, ch: Seq<usize>, depth: nat, j: nat, fuel: nat) -> Seq<Seq<char>>
    decreases fuel, ch.len() - j,
{
    if j >= ch.len() {
        Seq::empty()
    } else {
        node_lines(g, ch[j as int], depth, fuel) + child_lines(g, ch, depth, j + 1, fuel)
    }
}

/// The text of a graph: the lines from its root, joined by line breaks.
pub open spec fn graph_text(g: GraphView) -> Seq<char> {
    spec_join(node_lines(g, g.root, 0, node_fuel(g, g.root)), seq!['\n'])
}

fn append_chars(v: &mut Vec<char>, cs: &[char])
    ensures
        final(v)@ == old(v)@ + cs@,
{
    let mut i: usize = 0;
    let ghost v0 = v@;
    while i < cs.len()
        invariant
            i <= cs@.len(),
            v@ == v0 + cs@.take(i as int),
        decreases cs@.len() - i,
    {
        v.push(cs[i]);
        assert(cs@.take(i as int + 1) == cs@.take(i as int).push(cs@[i as int]));
        i += 1;
    }
    assert(cs@.take(cs@.len() as int) == cs@);
}

fn append_decimal(v: &mut Vec<char>, n: usize)
    ensures
        final(v)@ == old(v)@ + spec_decimal(n as nat),
{
    let d = decimal(n);
    let cs = crate::text::chars_of(d.as_str());
    append_chars(v, cs.as_slice());
}

fn line_of(indentation: &Vec<char>, id: GraphNodeId, node: &GraphNode) -> (r: Vec<char>)
    ensures
        r@ == indentation@ + node_line(id, *node),
{
    let mut r: Vec<char> = Vec::new();
    append_chars(&mut r, indentation.as_slice());
    append_chars(&mut r, &['[']);
    append_decimal(&mut r, id);
    match node {
        GraphNode::Group { kind, focus, child_count } => {
            append_chars(&mut r, &[']']);
            match kind {
                GraphNodeGroupKind::Row => append_chars(&mut r, &['R', 'o', 'w']),
                GraphNodeGroupKind::Col => append_chars(&mut r, &['C', 'o', 'l']),
            }
            append_chars(&mut r, &[' ', 'f', 'o', 'c', 'u', 's', ':', ' ']);
            append_decimal(&mut r, *focus);
            append_chars(&mut r, &[' ', 'c', 'h', 'i', 'l', 'd', '_', 'c', 'o', 'u', 'n', 't', ':', ' ']);
            append_decimal(&mut r, *child_count);
        },
        GraphNode::Window(w) => {
            append_chars(&mut r, &[']', 'W', 'i', 'n', '(']);
            append_decimal(&mut r, w.0);
            append_chars(&mut r, &[')']);
        },
    }
    assert(r@ =~= indentation@ + node_line(id, *node));
    r
}

fn node_to_string(
    indentation: &Vec<char>,
    id: GraphNodeId,
    graph: &Graph,
    Ghost(depth): Ghost<nat>,
    Ghost(lvl): Ghost<Map<usize, nat>>,
    Ghost(b): Ghost<nat>,
) -> (r: Vec<Vec<char>>)
    requires
        tree_wf(graph@),
        levels_ok(graph@, lvl, b),
        graph@.nodes.contains_key(id),
        indentation@ == indent(depth),
    ensures
        views(r@) == node_lines(graph@, id, depth, (b - lvl[id] + 1) as nat),
    decreases b - lvl[id],
{
    let ghost g = graph@;
    let ghost fuel = (b - lvl[id] + 1) as nat;
    let node = graph.get_node(id).unwrap();
    let head = line_of(indentation, id, node);
    let mut r: Vec<Vec<char>> = Vec::new();
    r.push(head);
    match node {
        GraphNode::Group { .. } => {
            let children = graph.get_children(id);
            let ghost ch = children@;
            let mut deeper = indentation.clone();
            append_chars(&mut deeper, &['|', ' ', ' ', ' ']);
            assert(deeper@ == indent(depth + 1));
            let mut j: usize = 0;
            while j < children.len()
                invariant
                    children@ == ch,
                    ch == children_of(g.edges, id),
                    graph@ == g,
                    tree_wf(g),
                    levels_ok(g, lvl, b),
                    g.nodes.contains_key(id),
                    lvl[id] <= b,
                    fuel == (b - lvl[id] + 1) as nat,
                    deeper@ == indent(depth + 1),
                    j <= ch.len(),
                    g.nodes[id] is Group,
                    views(r@) + child_lines(g, ch, depth + 1, j as nat, (fuel - 1) as nat) == node_lines(g, id, depth, fuel),
                decreases ch.len() - j,
            {
                let child_id = children[j];
                proof {
                    lemma_children_of_edge(g.edges, id, j as int);
                }
                let mut part = node_to_string(&deeper, child_id, graph, Ghost(depth + 1), Ghost(lvl), Ghost(b));
                let ghost before = r@;
                let ghost added = part@;
                r.append(&mut part);
                assert(views(r@) =~= views(before) + views(added));
                j += 1;
            }
            r
        },
        GraphNode::Window(_) => {
            assert(views(r@) =~= seq![head@]);
            r
        },
    }
}

impl Graph {
    /// The graph written out: one line per node from the root down, each child
    /// below its group and indented one step further.
    pub fn to_string(&self) -> (r: String)
        requires
            tree_wf(self@),
        ensures
            r@ == graph_text(self@),
    {
        let ghost (lvl, b) = choose|lvl: Map<usize, nat>, b: nat| levels_ok(self@, lvl, b);
        let lines = node_to_string(&Vec::new(), self.root_node_id, self, Ghost(0), Ghost(lvl), Ghost(b));
        let sep: &[char] = &['\n'];
        assert(sep@ =~= seq!['\n']);
        join(&lines, sep)
    }
}

} // verus!
