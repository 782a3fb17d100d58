//! Sessions: the layouts of the workspaces, written to a text and read back,
//! like vim sessions. The text holds one section per workspace, between
//! `@workspace <id>` and `@endworkspace`. A section has two paragraphs,
//! separated by an empty line: the nodes, one per line as `<id>:row`,
//! `<id>:col` or `<id>:win:<window id>`, and the edges, one per line as
//! `<child id>:<parent id>`.
use vstd::prelude::*;
use std::collections::HashMap;
use crate::graph::{Graph, GraphEdge, GraphNode, GraphNodeGroupKind, GraphView};
use crate::platform::WindowId;
use crate::text::{
    chars_of, decimal, eq_chars, join, parse_usize, push_str, spec_decimal, spec_join, spec_parse_usize, spec_split, spec_trim,
    split_chars, string_from_chars, trim_chars, views,
};
use crate::workspace::{Workspace, WorkspaceId};

verus! {

broadcast use vstd::std_specs::hash::group_hash_axioms;

pub open spec fn kind_tag(kind: GraphNodeGroupKind) -> Seq<char> {
    match kind {
        GraphNodeGroupKind::Row => seq!['r', 'o', 'w'],
        GraphNodeGroupKind::Col => seq!['c', 'o', 'l'],
    }
}

/// The line of a node: its id, a colon and `row`, `col` or `win:` and the
/// window's id.
pub open spec fn node_entry(id: usize, node: GraphNode) -> Seq<char> {
    match node {
        GraphNode::Group { kind, .. } => spec_decimal(id as nat) + seq![':'] + kind_tag(kind),
        GraphNode::Window(w) => spec_decimal(id as nat) + seq![':', 'w', 'i', 'n', ':'] + spec_decimal(w.0 as nat),
    }
}

/// The lines of the nodes with ids below `n`, by ascending id.
pub open spec fn node_entries(nodes: Map<usize, GraphNode>, n: nat) -> Seq<Seq<char>>
    decreases n,
{
    if n == 0 {
        Seq::empty()
    } else {
        let rest = node_entries(nodes, (n - 1) as nat);
        let k = (n - 1) as usize;
        if nodes.contains_key(k) {
            rest.push(node_entry(k, nodes[k]))
        } else {
            rest
        }
    }
}

/// The line of an edge: the child's id, a colon and the parent's id.
pub open spec fn edge_entry(e: GraphEdge) -> Seq<char> {
    spec_decimal(e.child as nat) + seq![':'] + spec_decimal(e.parent as nat)
}

pub open spec fn edge_entries(edges: Seq<GraphEdge>) -> Seq<Seq<char>> {
    edges.map_values(|e: GraphEdge| edge_entry(e))
}

/// The two paragraphs, the empty ones left out, separated by an empty line.
pub open spec fn paragraphs(a: Seq<char>, b: Seq<char>) -> Seq<char> {
    if a.len() > 0 && b.len() > 0 {
        a + seq!['\n', '\n'] + b
    } else if a.len() > 0 {
        a
    } else {
        b
    }
}

/// The section of a workspace.
pub open spec fn workspace_entry(id: WorkspaceId, g: GraphView) -> Seq<char> {
    seq!['@', 'w', 'o', 'r', 'k', 's', 'p', 'a', 'c', 'e', ' '] + spec_decimal(id.0 as nat) + seq!['\n']
        + paragraphs(spec_join(node_entries(g.nodes, g.max_id as nat + 1), seq!['\n']), spec_join(edge_entries(g.edges), seq!['\n']))
        + seq!['\n'] + seq!['@', 'e', 'n', 'd', 'w', 'o', 'r', 'k', 's', 'p', 'a', 'c', 'e']
}

pub open spec fn ws_entry(ws: Workspace) -> Seq<char> {
    workspace_entry(ws.id, ws.graph@)
}

/// The session of `workspaces`: their sections, one after the other.
pub open spec fn spec_session_text(workspaces: Seq<Workspace>) -> Seq<char> {
    spec_join(workspaces.map_values(|ws: Workspace| ws_entry(ws)), seq!['\n'])
}

fn node_entry_chars(id: usize, node: &GraphNode) -> (r: Vec<char>)
    ensures
        r@ == node_entry(id, *node),
{
    let mut s = decimal(id);
    match node {
        GraphNode::Group { kind, .. } => {
            let t = match kind {
                GraphNodeGroupKind::Row => string_from_chars(&[':', 'r', 'o', 'w']),
                GraphNodeGroupKind::Col => string_from_chars(&[':', 'c', 'o', 'l']),
            };
            push_str(&mut s, t.as_str());
        },
        GraphNode::Window(w) => {
            let t = string_from_chars(&[':', 'w', 'i', 'n', ':']);
            push_str(&mut s, t.as_str());
            let d = decimal(w.0);
            push_str(&mut s, d.as_str());
        },
    }
    let r = chars_of(s.as_str());
    assert(r@ =~= node_entry(id, *node));
    r
}

/// The lines of all nodes of `g`, by ascending id, where no id exceeds its
/// largest one.
fn node_lines(g: &Graph) -> (r: Vec<Vec<char>>)
    ensures
        views(r@) == node_entries(g@.nodes, g@.max_id as nat + 1),
{
    let mut r: Vec<Vec<char>> = Vec::new();
    let mut k: usize = 0;
    loop
        invariant_except_break
            k <= g.max_id,
            views(r@) == node_entries(g@.nodes, k as nat),
        ensures
            views(r@) == node_entries(g@.nodes, g@.max_id as nat + 1),
        decreases g.max_id - k,
    {
        let ghost before = views(r@);
        match g.get_node(k) {
            Some(node) => {
                let line = node_entry_chars(k, node);
                r.push(line);
                assert(views(r@) =~= before.push(node_entry(k, g@.nodes[k])));
            },
            None => {},
        }
        assert(views(r@) == node_entries(g@.nodes, k as nat + 1));
        if k == g.max_id {
            break;
        }
        k += 1;
    }
    r
}

fn edge_lines(g: &Graph) -> (r: Vec<Vec<char>>)
    ensures
        views(r@) == edge_entries(g@.edges),
{
    let mut r: Vec<Vec<char>> = Vec::new();
    let mut i: usize = 0;
    while i < g.edges.len()
        invariant
            i <= g.edges@.len(),
            views(r@) == edge_entries(g@.edges.take(i as int)),
        decreases g.edges@.len() - i,
    {
        let e = g.edges[i];
        let mut s = decimal(e.child);
        let colon = string_from_chars(&[':']);
        push_str(&mut s, colon.as_str());
        let p = decimal(e.parent);
        push_str(&mut s, p.as_str());
        let line = chars_of(s.as_str());
        assert(line@ =~= edge_entry(e));
        let ghost before = views(r@);
        r.push(line);
        assert(views(r@) =~= before.push(edge_entry(g@.edges[i as int])));
        assert(edge_entries(g@.edges.take(i as int + 1)) =~= edge_entries(g@.edges.take(i as int)).push(edge_entry(g@.edges[i as int])));
        i += 1;
    }
    assert(g@.edges.take(g@.edges.len() as int) == g@.edges);
    r
}

/// The section of a workspace in a session.
fn workspace_text(ws: &Workspace) -> (r: String)
    ensures
        r@ == workspace_entry(ws.id, ws.graph@),
{
    let nl: &[char] = &['\n'];
    assert(nl@ =~= seq!['\n']);
    let nodes = join(&node_lines(&ws.graph), nl);
    let edges = join(&edge_lines(&ws.graph), nl);
    let mut s = string_from_chars(&['@', 'w', 'o', 'r', 'k', 's', 'p', 'a', 'c', 'e', ' ']);
    let d = decimal(ws.id.0);
    push_str(&mut s, d.as_str());
    let brk = string_from_chars(nl);
    push_str(&mut s, brk.as_str());
    let nc = chars_of(nodes.as_str());
    let ec = chars_of(edges.as_str());
    if nc.len() > 0 && ec.len() > 0 {
        push_str(&mut s, nodes.as_str());
        let gap = string_from_chars(&['\n', '\n']);
        push_str(&mut s, gap.as_str());
        push_str(&mut s, edges.as_str());
    } else if nc.len() > 0 {
        push_str(&mut s, nodes.as_str());
    } else {
        push_str(&mut s, edges.as_str());
    }
    push_str(&mut s, brk.as_str());
    let end = string_from_chars(&['@', 'e', 'n', 'd', 'w', 'o', 'r', 'k', 's', 'p', 'a', 'c', 'e']);
    push_str(&mut s, end.as_str());
    assert(s@ =~= workspace_entry(ws.id, ws.graph@));
    s
}

/// The session text of `workspaces`, whose graphs hold no id above their
/// largest one. The nodes of a workspace are written by ascending id.
pub fn session_text(workspaces: &Vec<Workspace>) -> (r: String)
    requires
        forall|i: int, k: usize| 0 <= i < workspaces@.len() && #[trigger] workspaces@[i].graph@.nodes.contains_key(k)
            ==> k <= workspaces@[i].graph@.max_id,
    ensures
        r@ == spec_session_text(workspaces@),
{
    let mut sections: Vec<Vec<char>> = Vec::new();
    let mut i: usize = 0;
    while i < workspaces.len()
        invariant
            i <= workspaces@.len(),
            views(sections@) == workspaces@.take(i as int).map_values(|ws: Workspace| ws_entry(ws)),
        decreases workspaces@.len() - i,
    {
        let t = workspace_text(&workspaces[i]);
        let ghost before = views(sections@);
        sections.push(chars_of(t.as_str()));
        assert(views(sections@) =~= before.push(ws_entry(workspaces@[i as int])));
        assert(workspaces@.take(i as int + 1).map_values(|ws: Workspace| ws_entry(ws))
            =~= workspaces@.take(i as int).map_values(|ws: Workspace| ws_entry(ws)).push(ws_entry(workspaces@[i as int])));
        i += 1;
    }
    assert(workspaces@.take(workspaces@.len() as int) == workspaces@);
    let nl: &[char] = &['\n'];
    assert(nl@ =~= seq!['\n']);
    join(&sections, nl)
}

pub open spec fn ws_tag() -> Seq<char> {
    seq!['@', 'w', 'o', 'r', 'k', 's', 'p', 'a', 'c', 'e']
}

pub open spec fn end_tag() -> Seq<char> {
    seq!['@', 'e', 'n', 'd', 'w', 'o', 'r', 'k', 's', 'p', 'a', 'c', 'e']
}

/// Where the paragraph of nodes that starts at line `j` ends: at the first
/// empty line or `@endworkspace`, or at the end of the text.
pub open spec fn nodes_end(lines: Seq<Seq<char>>, j: int) -> int
    decreases lines.len() - j,
{
    if j >= lines.len() || lines[j].len() == 0 || lines[j] == end_tag() {
        j
    } else {
        nodes_end(lines, j + 1)
    }
}

/// Where the paragraph of edges that starts at line `j` ends: at the first
/// `@endworkspace`, or at the end of the text.
pub open spec fn edges_end(lines: Seq<Seq<char>>, j: int) -> int
    decreases lines.len() - j,
{
    if j >= lines.len() || lines[j] == end_tag() {
        j
    } else {
        edges_end(lines, j + 1)
    }
}

pub proof fn lemma_ends(lines: Seq<Seq<char>>, j: int)
    ensures
        nodes_end(lines, j) >= j,
        edges_end(lines, j) >= j,
    decreases lines.len() - j,
{
    if j < lines.len() {
        lemma_ends(lines, j + 1);
    }
}

/// The node that a node line stands for: `<id>:row`, `<id>:col` (groups with
/// no children counted yet) or `<id>:win:<window id>`; `None` for any other line.
pub open spec fn spec_parse_node(line: Seq<char>) -> Option<(usize, GraphNode)> {
    let parts = spec_split(line, ':');
    if parts.len() == 2 && parts[1] == kind_tag(GraphNodeGroupKind::Row) && spec_parse_usize(parts[0]) is Some {
        Some((spec_parse_usize(parts[0])->0, GraphNode::Group { kind: GraphNodeGroupKind::Row, focus: 0, child_count: 0 }))
    } else if parts.len() == 2 && parts[1] == kind_tag(GraphNodeGroupKind::Col) && spec_parse_usize(parts[0]) is Some {
        Some((spec_parse_usize(parts[0])->0, GraphNode::Group { kind: GraphNodeGroupKind::Col, focus: 0, child_count: 0 }))
    } else if parts.len() == 3 && parts[1] == seq!['w', 'i', 'n'] && spec_parse_usize(parts[0]) is Some && spec_parse_usize(parts[2]) is Some {
        Some((spec_parse_usize(parts[0])->0, GraphNode::Window(WindowId(spec_parse_usize(parts[2])->0))))
    } else {
        None
    }
}

/// The edge that an edge line `<child id>:<parent id>` stands for; `None` for
/// a line that does not start with two numbers.
pub open spec fn spec_parse_edge(line: Seq<char>) -> Option<GraphEdge> {
    let parts = spec_split(line, ':');
    if parts.len() >= 2 && spec_parse_usize(parts[0]) is Some && spec_parse_usize(parts[1]) is Some {
        Some(GraphEdge { parent: spec_parse_usize(parts[1])->0, child: spec_parse_usize(parts[0])->0 })
    } else {
        None
    }
}

/// The nodes of the lines `from..to`, each line put into the map in turn, and
/// the largest of their ids (0 for none).
pub open spec fn nodes_built(lines: Seq<Seq<char>>, from: int, to: int) -> (Map<usize, GraphNode>, usize)
    decreases to - from,
{
    if to <= from {
        (Map::empty(), 0)
    } else {
        let (m, mx) = nodes_built(lines, from, to - 1);
        let (id, node) = spec_parse_node(lines[to - 1])->0;
        (m.insert(id, node), if id > mx { id } else { mx })
    }
}

/// The edges of the lines `from..to`, in order.
pub open spec fn edges_built(lines: Seq<Seq<char>>, from: int, to: int) -> Seq<GraphEdge>
    decreases to - from,
{
    if to <= from {
        Seq::empty()
    } else {
        edges_built(lines, from, to - 1).push(spec_parse_edge(lines[to - 1])->0)
    }
}

pub open spec fn nodes_ok(lines: Seq<Seq<char>>, from: int, to: int) -> bool {
    forall|k: int| from <= k < to ==> #[trigger] spec_parse_node(lines[k]) is Some
}

pub open spec fn edges_ok(lines: Seq<Seq<char>>, from: int, to: int) -> bool {
    forall|k: int| from <= k < to ==> #[trigger] spec_parse_edge(lines[k]) is Some
}

/// For a line that starts with `@workspace`: the workspace id after it, if it
/// is a number.
pub open spec fn header_id(line: Seq<char>) -> Option<Option<usize>> {
    if line.len() >= 10 && line.take(10) == ws_tag() {
        Some(spec_parse_usize(spec_trim(line.skip(10))))
    } else {
        None
    }
}

/// The graph that a section builds from its node lines `from..ne` and its edge
/// lines `es..ee`.
pub open spec fn section_graph(lines: Seq<Seq<char>>, from: int, ne: int, es: int, ee: int) -> GraphView {
    let (nodes, mx) = nodes_built(lines, from, ne);
    let edges = edges_built(lines, es, ee);
    GraphView { max_id: mx, dirty: edges.len() > 0, nodes, edges, root: 0 }
}

/// The workspaces of the sections from line `i` on, each as its id and its
/// graph; `None` where a section header holds no number. A line outside the
/// sections is passed over. The nodes of a section end at an empty line or
/// at `@endworkspace`, and the line after them is passed over; its edges end
/// at `@endworkspace`.
pub open spec fn parse_sections(lines: Seq<Seq<char>>, i: int) -> Option<Seq<(usize, GraphView)>>
    decreases lines.len() - i,
{
    if i < 0 || i >= lines.len() {
        Some(Seq::empty())
    } else {
        match header_id(lines[i]) {
            None => parse_sections(lines, i + 1),
            Some(None) => None,
            Some(Some(id)) => {
                let ne = nodes_end(lines, i + 1);
                let ee = edges_end(lines, ne + 1);
                let g = section_graph(lines, i + 1, ne, ne + 1, ee);
                proof {
                    lemma_ends(lines, i + 1);
                    lemma_ends(lines, ne + 1);
                }
                if ee + 1 >= lines.len() {
                    Some(seq![(id, g)])
                } else {
                    match parse_sections(lines, ee + 1) {
                        None => None,
                        Some(rest) => Some(seq![(id, g)] + rest),
                    }
                }
            },
        }
    }
}

/// Reading the sections from line `i` on meets only node and edge lines that
/// it can read (any other one makes the reading panic).
pub open spec fn sections_ok(lines: Seq<Seq<char>>, i: int) -> bool
    decreases lines.len() - i,
{
    if i < 0 || i >= lines.len() {
        true
    } else {
        match header_id(lines[i]) {
            None => sections_ok(lines, i + 1),
            Some(None) => true,
            Some(Some(id)) => {
                let ne = nodes_end(lines, i + 1);
                let ee = edges_end(lines, ne + 1);
                proof {
                    lemma_ends(lines, i + 1);
                    lemma_ends(lines, ne + 1);
                }
                nodes_ok(lines, i + 1, ne) && edges_ok(lines, ne + 1, ee)
                    && (ee + 1 >= lines.len() || sections_ok(lines, ee + 1))
            },
        }
    }
}

/// `ws` is the workspace that a session gives for `(id, g)`: a master/slave
/// workspace with that id and that graph.
pub open spec fn loaded_workspace(ws: Workspace, entry: (usize, GraphView)) -> bool {
    &&& ws.id == WorkspaceId(entry.0)
    &&& ws.graph@ == entry.1
    &&& ws.display_name@ == spec_decimal(entry.0 as nat)
    &&& ws.layout_name@ == "master_slave"@
    &&& ws.state == crate::workspace::WorkspaceState::Normal
}

fn parse_node(line: &Vec<char>) -> (r: Option<(usize, GraphNode)>)
    ensures
        r == spec_parse_node(line@),
{
    let parts = split_chars(line.as_slice(), ':');
    let ghost ps = spec_split(line@, ':');
    assert(views(parts@) == ps);
    assert(parts@.len() == ps.len());
    let row: &[char] = &['r', 'o', 'w'];
    let col: &[char] = &['c', 'o', 'l'];
    let win: &[char] = &['w', 'i', 'n'];
    assert(row@ =~= kind_tag(GraphNodeGroupKind::Row));
    assert(col@ =~= kind_tag(GraphNodeGroupKind::Col));
    assert(win@ =~= seq!['w', 'i', 'n']);
    if parts.len() == 2 {
        assert(parts@[0]@ == ps[0] && parts@[1]@ == ps[1]);
        let id = match parse_usize(parts[0].as_slice()) {
            Some(id) => id,
            None => return None,
        };
        if eq_chars(parts[1].as_slice(), row) {
            Some((id, GraphNode::Group { kind: GraphNodeGroupKind::Row, focus: 0, child_count: 0 }))
        } else if eq_chars(parts[1].as_slice(), col) {
            Some((id, GraphNode::Group { kind: GraphNodeGroupKind::Col, focus: 0, child_count: 0 }))
        } else {
            None
        }
    } else if parts.len() == 3 {
        assert(parts@[0]@ == ps[0] && parts@[1]@ == ps[1] && parts@[2]@ == ps[2]);
        if !eq_chars(parts[1].as_slice(), win) {
            return None;
        }
        let id = match parse_usize(parts[0].as_slice()) {
            Some(id) => id,
            None => return None,
        };
        match parse_usize(parts[2].as_slice()) {
            Some(w) => Some((id, GraphNode::Window(WindowId(w)))),
            None => None,
        }
    } else {
        None
    }
}

fn parse_edge(line: &Vec<char>) -> (r: Option<GraphEdge>)
    ensures
        r == spec_parse_edge(line@),
{
    let parts = split_chars(line.as_slice(), ':');
    let ghost ps = spec_split(line@, ':');
    assert(views(parts@) == ps);
    assert(parts@.len() == ps.len());
    if parts.len() < 2 {
        return None;
    }
    assert(parts@[0]@ == ps[0] && parts@[1]@ == ps[1]);
    let child = match parse_usize(parts[0].as_slice()) {
        Some(c) => c,
        None => return None,
    };
    match parse_usize(parts[1].as_slice()) {
        Some(parent) => Some(GraphEdge { parent, child }),
        None => None,
    }
}

/// Whether reading the session text `text` meets only node and edge lines
/// that it can read (`parse_session` asks this of its text).
pub fn session_readable(text: &str) -> (r: bool)
    ensures
        r == sections_ok(spec_split(text@, '\n'), 0),
{
    let cs = chars_of(text);
    let lines = split_chars(cs.as_slice(), '\n');
    let ghost ls = spec_split(text@, '\n');
    assert(views(lines@) == ls);
    let n = lines.len();
    let end: &[char] = &['@', 'e', 'n', 'd', 'w', 'o', 'r', 'k', 's', 'p', 'a', 'c', 'e'];
    let tag: &[char] = &['@', 'w', 'o', 'r', 'k', 's', 'p', 'a', 'c', 'e'];
    assert(end@ =~= end_tag());
    assert(tag@ =~= ws_tag());
    let mut i: usize = 0;
    while i < n
        invariant
            n == lines@.len(),
            views(lines@) == ls,
            ls == spec_split(text@, '\n'),
            end@ == end_tag(),
            tag@ == ws_tag(),
            i <= n,
            sections_ok(ls, 0) == sections_ok(ls, i as int),
        decreases n - i,
    {
        let line = &lines[i];
        assert(line@ == ls[i as int]);
        let is_header = line.len() >= 10 && eq_chars(crate::protocol::slice_to_vec(line.as_slice(), 0, 10).as_slice(), tag);
        assert(is_header == (ls[i as int].len() >= 10 && ls[i as int].take(10) == ws_tag())) by {
            if line@.len() >= 10 {
                assert(line@.subrange(0, 10) == line@.take(10));
            }
        }
        if !is_header {
            i += 1;
        } else {
            let rest = trim_chars(line.as_slice(), 10, line.len());
            assert(line@.subrange(10, line@.len() as int) == line@.skip(10));
            assert(header_id(ls[i as int]) == Some(spec_parse_usize(rest@)));
            let parsed = parse_usize(rest.as_slice());
            if parsed.is_none() {
                return true;
            }
            let ghost id = parsed->0;
            let ghost ne = nodes_end(ls, i as int + 1);
            let ghost ee = edges_end(ls, ne + 1);
            proof {
                lemma_ends(ls, i as int + 1);
                lemma_ends(ls, ne + 1);
            }
            let mut j: usize = i + 1;
            while j < n && lines[j].len() != 0 && !eq_chars(lines[j].as_slice(), end)
                invariant
                    n == lines@.len(),
                    views(lines@) == ls,
                    end@ == end_tag(),
                    i + 1 <= j <= n,
                    i < n,
                    ls == spec_split(text@, '\n'),
                    sections_ok(ls, 0) == sections_ok(ls, i as int),
                    header_id(ls[i as int]) == Some(Some(id)),
                    ne == nodes_end(ls, i as int + 1),
                    ee == edges_end(ls, ne + 1),
                    nodes_end(ls, j as int) == ne,
                    forall|k: int| i + 1 <= k < j ==> #[trigger] spec_parse_node(ls[k]) is Some,
                decreases n - j,
            {
                assert(lines@[j as int]@ == ls[j as int]);
                if parse_node(&lines[j]).is_none() {
                    proof { lemma_ends(ls, j as int + 1); }
                    assert(!nodes_ok(ls, i as int + 1, ne));
                    assert(!sections_ok(ls, i as int));
                    return false;
                }
                j += 1;
            }
            assert(j == ne) by {
                if j < n {
                    assert(lines@[j as int]@ == ls[j as int]);
                }
            }
            let ghost es = j + 1;
            if j < n {
                j += 1;
                while j < n && !eq_chars(lines[j].as_slice(), end)
                    invariant
                        n == lines@.len(),
                        views(lines@) == ls,
                        end@ == end_tag(),
                        es <= j <= n,
                        i < n,
                        ls == spec_split(text@, '\n'),
                        es == ne + 1,
                        sections_ok(ls, 0) == sections_ok(ls, i as int),
                        header_id(ls[i as int]) == Some(Some(id)),
                        ne == nodes_end(ls, i as int + 1),
                        ee == edges_end(ls, ne + 1),
                        nodes_ok(ls, i as int + 1, ne),
                        edges_end(ls, j as int) == ee,
                        forall|k: int| es <= k < j ==> #[trigger] spec_parse_edge(ls[k]) is Some,
                        j <= ls.len(),
                    decreases n - j,
                {
                    assert(lines@[j as int]@ == ls[j as int]);
                    if parse_edge(&lines[j]).is_none() {
                        proof { lemma_ends(ls, j as int + 1); }
                        assert(!edges_ok(ls, es, ee));
                        assert(!sections_ok(ls, i as int));
                        return false;
                    }
                    j += 1;
                }
                assert(j == ee) by {
                    if j < n {
                        assert(lines@[j as int]@ == ls[j as int]);
                    }
                }
            }
            i = if j < n { j + 1 } else { n };
        }
    }
    true
}

/// Reads a session text back into workspaces: `None` where a section header
/// holds no number; the node and edge lines are to be readable.
pub fn parse_session(text: &str) -> (r: Option<Vec<Workspace>>)
    requires
        sections_ok(spec_split(text@, '\n'), 0),
    ensures
        match parse_sections(spec_split(text@, '\n'), 0) {
            None => r is None,
            Some(s) => r matches Some(v) && v@.len() == s.len()
                && forall|k: int| 0 <= k < s.len() ==> loaded_workspace(#[trigger] v@[k], s[k]),
        },
{
    let cs = chars_of(text);
    let lines = split_chars(cs.as_slice(), '\n');
    let ghost ls = spec_split(text@, '\n');
    assert(views(lines@) == ls);
    let n = lines.len();
    let end: &[char] = &['@', 'e', 'n', 'd', 'w', 'o', 'r', 'k', 's', 'p', 'a', 'c', 'e'];
    let tag: &[char] = &['@', 'w', 'o', 'r', 'k', 's', 'p', 'a', 'c', 'e'];
    assert(end@ =~= end_tag());
    assert(tag@ =~= ws_tag());
    let mut workspaces: Vec<Workspace> = Vec::new();
    let ghost mut acc: Seq<(usize, GraphView)> = Seq::empty();
    let mut i: usize = 0;
    while i < n
        invariant
            n == lines@.len(),
            views(lines@) == ls,
            ls == spec_split(text@, '\n'),
            end@ == end_tag(),
            tag@ == ws_tag(),
            i <= n,
            sections_ok(ls, i as int),
            match parse_sections(ls, i as int) {
                Some(rest) => parse_sections(ls, 0) == Some(acc + rest),
                None => parse_sections(ls, 0) is None,
            },
            workspaces@.len() == acc.len(),
            forall|k: int| 0 <= k < acc.len() ==> loaded_workspace(#[trigger] workspaces@[k], acc[k]),
        decreases n - i,
    {
        let line = &lines[i];
        assert(line@ == ls[i as int]);
        let is_header = line.len() >= 10 && eq_chars(crate::protocol::slice_to_vec(line.as_slice(), 0, 10).as_slice(), tag);
        assert(is_header == (ls[i as int].len() >= 10 && ls[i as int].take(10) == ws_tag())) by {
            if line@.len() >= 10 {
                assert(line@.subrange(0, 10) == line@.take(10));
            }
        }
        if !is_header {
            i += 1;
        } else {
            let rest = trim_chars(line.as_slice(), 10, line.len());
            assert(line@.subrange(10, line@.len() as int) == line@.skip(10));
            assert(header_id(ls[i as int]) == Some(spec_parse_usize(rest@)));
            let id = match parse_usize(rest.as_slice()) {
                Some(id) => id,
                None => {
                    assert(parse_sections(ls, i as int) is None);
                    return None;
                },
            };
            let ghost ne = nodes_end(ls, i as int + 1);
            let ghost ee = edges_end(ls, ne + 1);
            proof {
                lemma_ends(ls, i as int + 1);
                lemma_ends(ls, ne + 1);
            }
            let mut graph = Graph { max_id: 0, dirty: false, root_node_id: 0, nodes: HashMap::new(), edges: Vec::new() };
            let mut j: usize = i + 1;
            while j < n && lines[j].len() != 0 && !eq_chars(lines[j].as_slice(), end)
                invariant
                    n == lines@.len(),
                    views(lines@) == ls,
                    end@ == end_tag(),
                    i + 1 <= j <= n,
                    i < n,
                    nodes_end(ls, j as int) == ne,
                    nodes_ok(ls, i as int + 1, ne),
                    graph@ == (GraphView {
                        max_id: nodes_built(ls, i as int + 1, j as int).1,
                        dirty: false,
                        nodes: nodes_built(ls, i as int + 1, j as int).0,
                        edges: Seq::empty(),
                        root: 0,
                    }),
                decreases n - j,
            {
                assert(lines@[j as int]@ == ls[j as int]);
                proof { lemma_ends(ls, j as int + 1); }
                assert(spec_parse_node(ls[j as int]) is Some);
                let (id, node) = parse_node(&lines[j]).unwrap();
                if id > graph.max_id {
                    graph.max_id = id;
                }
                graph.nodes.insert(id, node);
                j += 1;
            }
            assert(j == ne) by {
                if j < n {
                    assert(lines@[j as int]@ == ls[j as int]);
                }
            }
            let ghost es = j + 1;
            if j < n {
                j += 1;
                while j < n && !eq_chars(lines[j].as_slice(), end)
                    invariant
                        n == lines@.len(),
                        views(lines@) == ls,
                        end@ == end_tag(),
                        es <= j <= n,
                        edges_end(ls, j as int) == ee,
                        edges_ok(ls, es, ee),
                        graph@ == (GraphView {
                            max_id: nodes_built(ls, i as int + 1, ne).1,
                            dirty: edges_built(ls, es, j as int).len() > 0,
                            nodes: nodes_built(ls, i as int + 1, ne).0,
                            edges: edges_built(ls, es, j as int),
                            root: 0,
                        }),
                    decreases n - j,
                {
                    assert(lines@[j as int]@ == ls[j as int]);
                    proof { lemma_ends(ls, j as int + 1); }
                    assert(spec_parse_edge(ls[j as int]) is Some);
                    let e = parse_edge(&lines[j]).unwrap();
                    graph.add_edge(e.parent, e.child);
                    j += 1;
                }
                assert(j == ee) by {
                    if j < n {
                        assert(lines@[j as int]@ == ls[j as int]);
                    }
                }
            } else {
                assert(ee == es);
                assert(edges_built(ls, es, ee) =~= Seq::<GraphEdge>::empty());
            }
            let mut ws = Workspace::new(WorkspaceId(id), "master_slave");
            ws.graph = graph;
            let ghost entry = (id, section_graph(ls, i as int + 1, ne, ne + 1, ee));
            proof {
                reveal_strlit("master_slave");
                assert(es == ne + 1);
                assert(ws.graph@ == entry.1);
                assert(loaded_workspace(ws, entry));
            }
            let ghost old_acc = acc;
            let ghost old_ws = workspaces@;
            proof {
                acc = acc.push(entry);
            }
            workspaces.push(ws);
            assert forall|k: int| 0 <= k < acc.len() implies loaded_workspace(#[trigger] workspaces@[k], acc[k]) by {
                if k < old_acc.len() {
                    assert(workspaces@[k] == old_ws[k]);
                    assert(acc[k] == old_acc[k]);
                }
            }
            i = if j < n { j + 1 } else { n };
        }
    }
    Some(workspaces)
}

} // verus!
