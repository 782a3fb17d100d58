//! What loading a saved session gives back.
use vstd::prelude::*;
use crate::graph::{GraphEdge, GraphNode, GraphNodeGroupKind, GraphView};
use crate::platform::WindowId;
use crate::session::{
    edge_entries, edge_entry, edges_built, edges_end, edges_ok, end_tag, header_id, kind_tag, lemma_ends, node_entries,
    node_entry, nodes_built, nodes_end, nodes_ok, paragraphs, parse_sections, section_graph, sections_ok, spec_parse_edge,
    spec_parse_node, spec_session_text, workspace_entry, ws_entry,
};
use crate::text::{
    is_digit, lemma_decimal, spec_is_whitespace, spec_trim, spec_trim_end, spec_trim_start, lemma_parse_decimal, lemma_split_concat, lemma_split_join, lemma_split_single, spec_decimal,
    spec_join, spec_split,
};
use crate::workspace::{Workspace, WorkspaceId};

verus! {

/// A node as a session keeps it: a group keeps only its kind.
pub open spec fn strip_node(n: GraphNode) -> GraphNode {
    match n {
        GraphNode::Group { kind, .. } => GraphNode::Group { kind, focus: 0, child_count: 0 },
        GraphNode::Window(w) => GraphNode::Window(w),
    }
}

/// A line that starts with a digit.
pub open spec fn digit_line(s: Seq<char>) -> bool {
    s.len() > 0 && is_digit(s[0]) && forall|i: int| 0 <= i < s.len() ==> s[i] != '\n'
}

proof fn lemma_decimal_plain(n: nat)
    ensures
        spec_decimal(n).len() > 0,
        is_digit(spec_decimal(n)[0]),
        forall|i: int| 0 <= i < spec_decimal(n).len() ==> spec_decimal(n)[i] != '\n' && spec_decimal(n)[i] != ':',
{
    lemma_decimal(n);
    assert forall|i: int| 0 <= i < spec_decimal(n).len() implies spec_decimal(n)[i] != '\n' && spec_decimal(n)[i] != ':' by {
        assert(is_digit(spec_decimal(n)[i]));
    }
}

/// The line of a node starts with a digit and reads back as the node, a group
/// without its focus and child count.
pub proof fn lemma_node_line(k: usize, node: GraphNode)
    ensures
        digit_line(node_entry(k, node)),
        spec_parse_node(node_entry(k, node)) == Some((k, strip_node(node))),
{
    let d = spec_decimal(k as nat);
    lemma_decimal_plain(k as nat);
    lemma_parse_decimal(k);
    lemma_split_single(d, ':');
    let line = node_entry(k, node);
    assert(line[0] == d[0]);
    match node {
        GraphNode::Group { kind, .. } => {
            let t = kind_tag(kind);
            assert(line =~= d + seq![':'] + t);
            lemma_split_concat(d, t, ':');
            lemma_split_single(t, ':');
            assert(spec_split(line, ':') =~= seq![d, t]);
            assert(kind_tag(GraphNodeGroupKind::Col)[0] != kind_tag(GraphNodeGroupKind::Row)[0]);
            assert forall|i: int| 0 <= i < line.len() implies line[i] != '\n' by {
                if i >= d.len() + 1 {
                    assert(line[i] == t[i - d.len() - 1]);
                }
            }
        },
        GraphNode::Window(w) => {
            let dw = spec_decimal(w.0 as nat);
            lemma_decimal_plain(w.0 as nat);
            lemma_parse_decimal(w.0);
            lemma_split_single(dw, ':');
            let win = seq!['w', 'i', 'n'];
            lemma_split_single(win, ':');
            let rest = win + seq![':'] + dw;
            assert(line =~= d + seq![':'] + rest);
            lemma_split_concat(d, rest, ':');
            lemma_split_concat(win, dw, ':');
            assert(spec_split(line, ':') =~= seq![d, win, dw]);
            assert forall|i: int| 0 <= i < line.len() implies line[i] != '\n' by {
                if i >= d.len() + 5 {
                    assert(line[i] == dw[i - d.len() - 5]);
                }
            }
        },
    }
}

/// The line of an edge starts with a digit and reads back as the edge.
pub proof fn lemma_edge_line(e: GraphEdge)
    ensures
        digit_line(edge_entry(e)),
        spec_parse_edge(edge_entry(e)) == Some(e),
{
    let dc = spec_decimal(e.child as nat);
    let dp = spec_decimal(e.parent as nat);
    lemma_decimal_plain(e.child as nat);
    lemma_decimal_plain(e.parent as nat);
    lemma_parse_decimal(e.child);
    lemma_parse_decimal(e.parent);
    lemma_split_single(dc, ':');
    lemma_split_single(dp, ':');
    let line = edge_entry(e);
    assert(line =~= dc + seq![':'] + dp);
    lemma_split_concat(dc, dp, ':');
    assert(spec_split(line, ':') =~= seq![dc, dp]);
    assert(line[0] == dc[0]);
    assert forall|i: int| 0 <= i < line.len() implies line[i] != '\n' by {
        if i >= dc.len() + 1 {
            assert(line[i] == dp[i - dc.len() - 1]);
        }
    }
}

pub open spec fn header_line(id: WorkspaceId) -> Seq<char> {
    seq!['@', 'w', 'o', 'r', 'k', 's', 'p', 'a', 'c', 'e', ' '] + spec_decimal(id.0 as nat)
}

/// The lines of a workspace's section: its header, its node lines, an empty
/// line and its edge lines where it has both, and `@endworkspace`; a section
/// with neither nodes nor edges has one empty line.
pub open spec fn section_lines(id: WorkspaceId, g: GraphView) -> Seq<Seq<char>> {
    let nl = node_entries(g.nodes, g.max_id as nat + 1);
    let el = edge_entries(g.edges);
    let body = if nl.len() == 0 && el.len() == 0 {
        seq![Seq::<char>::empty()]
    } else if el.len() == 0 {
        nl
    } else if nl.len() == 0 {
        el
    } else {
        nl + seq![Seq::<char>::empty()] + el
    };
    seq![header_line(id)] + body + seq![end_tag()]
}

pub proof fn lemma_node_entries_lines(nodes: Map<usize, GraphNode>, n: nat)
    ensures
        forall|t: int| 0 <= t < node_entries(nodes, n).len() ==> digit_line(#[trigger] node_entries(nodes, n)[t]),
    decreases n,
{
    if n > 0 {
        lemma_node_entries_lines(nodes, (n - 1) as nat);
        let k = (n - 1) as usize;
        if nodes.contains_key(k) {
            lemma_node_line(k, nodes[k]);
        }
        let prev = node_entries(nodes, (n - 1) as nat);
        assert forall|t: int| 0 <= t < node_entries(nodes, n).len() implies digit_line(#[trigger] node_entries(nodes, n)[t]) by {
            if t < prev.len() {
                assert(node_entries(nodes, n)[t] == prev[t]);
            }
        }
    }
}

pub proof fn lemma_edge_entries_lines(edges: Seq<GraphEdge>)
    ensures
        forall|t: int| 0 <= t < edge_entries(edges).len() ==> digit_line(#[trigger] edge_entries(edges)[t]),
        edge_entries(edges).len() == edges.len(),
{
    assert forall|t: int| 0 <= t < edge_entries(edges).len() implies digit_line(#[trigger] edge_entries(edges)[t]) by {
        lemma_edge_line(edges[t]);
    }
}

proof fn lemma_join_nonempty(parts: Seq<Seq<char>>, sep: Seq<char>)
    requires
        parts.len() > 0,
        parts.last().len() > 0,
    ensures
        spec_join(parts, sep).len() > 0,
{
    if parts.len() == 1 {
        assert(parts[0] == parts.last());
    }
}

/// Splitting lines that start with digits, joined by line breaks, gives them
/// back; an empty list joins to an empty text.
proof fn lemma_digit_lines_split(lines: Seq<Seq<char>>)
    requires
        forall|t: int| 0 <= t < lines.len() ==> digit_line(#[trigger] lines[t]),
    ensures
        lines.len() > 0 ==> spec_split(spec_join(lines, seq!['\n']), '\n') == lines,
        lines.len() > 0 <==> spec_join(lines, seq!['\n']).len() > 0,
{
    if lines.len() > 0 {
        assert(digit_line(lines[lines.len() - 1]));
        lemma_join_nonempty(lines, seq!['\n']);
        assert forall|j: int, i: int| 0 <= j < lines.len() && 0 <= i < lines[j].len() implies lines[j][i] != '\n' by {
            assert(digit_line(lines[j]));
        }
        lemma_split_join(lines, '\n');
    }
}

proof fn lemma_header_line(id: WorkspaceId)
    ensures
        forall|i: int| 0 <= i < header_line(id).len() ==> header_line(id)[i] != '\n',
{
    lemma_decimal_plain(id.0 as nat);
    assert forall|i: int| 0 <= i < header_line(id).len() implies header_line(id)[i] != '\n' by {
        if i >= 11 {
            assert(header_line(id)[i] == spec_decimal(id.0 as nat)[i - 11]);
        }
    }
}

/// The lines of a workspace's section are its header, its node and edge lines
/// as `section_lines` says, and `@endworkspace`.
pub proof fn lemma_section_lines(id: WorkspaceId, g: GraphView)
    ensures
        spec_split(workspace_entry(id, g), '\n') == section_lines(id, g),
{
    let nl = node_entries(g.nodes, g.max_id as nat + 1);
    let el = edge_entries(g.edges);
    let ns = spec_join(nl, seq!['\n']);
    let es = spec_join(el, seq!['\n']);
    lemma_node_entries_lines(g.nodes, g.max_id as nat + 1);
    lemma_edge_entries_lines(g.edges);
    lemma_digit_lines_split(nl);
    lemma_digit_lines_split(el);
    let h = header_line(id);
    let p = paragraphs(ns, es);
    let end = end_tag();
    lemma_header_line(id);
    lemma_split_single(h, '\n');
    lemma_split_single(end, '\n');
    assert(workspace_entry(id, g) =~= h + seq!['\n'] + (p + seq!['\n'] + end));
    lemma_split_concat(h, p + seq!['\n'] + end, '\n');
    lemma_split_concat(p, end, '\n');
    let body = spec_split(p, '\n');
    if nl.len() == 0 && el.len() == 0 {
        assert(p =~= Seq::<char>::empty());
        assert(body =~= seq![Seq::<char>::empty()]);
    } else if el.len() == 0 {
        assert(p == ns);
    } else if nl.len() == 0 {
        assert(p == es);
    } else {
        assert(p =~= ns + seq!['\n'] + (Seq::<char>::empty() + seq!['\n'] + es));
        lemma_split_concat(ns, Seq::<char>::empty() + seq!['\n'] + es, '\n');
        lemma_split_concat(Seq::<char>::empty(), es, '\n');
        assert(spec_split(Seq::<char>::empty(), '\n') =~= seq![Seq::<char>::empty()]);
        assert(body =~= nl + seq![Seq::<char>::empty()] + el);
    }
    assert(spec_split(workspace_entry(id, g), '\n') =~= section_lines(id, g));
}

/// The lines of the sections of `wss`, one section after the other.
pub open spec fn all_lines(wss: Seq<Workspace>) -> Seq<Seq<char>>
    decreases wss.len(),
{
    if wss.len() == 0 {
        Seq::empty()
    } else {
        all_lines(wss.drop_last()) + section_lines(wss.last().id, wss.last().graph@)
    }
}

/// The lines of a session text are those of its sections.
pub proof fn lemma_session_lines(wss: Seq<Workspace>)
    requires
        wss.len() > 0,
    ensures
        spec_split(spec_session_text(wss), '\n') == all_lines(wss),
    decreases wss.len(),
{
    let parts = wss.map_values(|ws: Workspace| ws_entry(ws));
    lemma_section_lines(wss.last().id, wss.last().graph@);
    if wss.len() == 1 {
        assert(all_lines(wss.drop_last()) =~= Seq::<Seq<char>>::empty());
        assert(parts[0] == ws_entry(wss.last()));
        assert(all_lines(wss) =~= section_lines(wss.last().id, wss.last().graph@));
    } else {
        let d = wss.drop_last();
        lemma_session_lines(d);
        assert(parts.drop_last() =~= d.map_values(|ws: Workspace| ws_entry(ws)));
        assert(parts.last() == ws_entry(wss.last()));
        lemma_split_concat(spec_join(parts.drop_last(), seq!['\n']), parts.last(), '\n');
    }
}

/// The lines of the sections, taken from the front.
pub proof fn lemma_all_lines_front(wss: Seq<Workspace>)
    requires
        wss.len() > 0,
    ensures
        all_lines(wss) == section_lines(wss[0].id, wss[0].graph@) + all_lines(wss.drop_first()),
    decreases wss.len(),
{
    if wss.len() == 1 {
        assert(wss.drop_last() =~= Seq::<Workspace>::empty());
        assert(wss.drop_first() =~= Seq::<Workspace>::empty());
        assert(wss.last() == wss[0]);
        assert(all_lines(wss) =~= section_lines(wss[0].id, wss[0].graph@) + all_lines(wss.drop_first()));
    } else {
        let d = wss.drop_last();
        lemma_all_lines_front(d);
        assert(d[0] == wss[0]);
        assert(d.drop_first() =~= wss.drop_first().drop_last());
        assert(wss.drop_first().last() == wss.last());
        assert(all_lines(wss) =~= section_lines(wss[0].id, wss[0].graph@) + all_lines(wss.drop_first()));
    }
}

proof fn lemma_digit_line_not_end(s: Seq<char>)
    requires
        digit_line(s),
    ensures
        s.len() > 0,
        s != end_tag(),
{
    assert(end_tag()[0] == '@');
}

/// Where a paragraph of nodes ends does not depend on the lines before it.
proof fn lemma_nodes_end_shift(x: Seq<Seq<char>>, r: Seq<Seq<char>>, j: int)
    requires
        j >= 0,
    ensures
        nodes_end(x + r, x.len() + j) == x.len() + nodes_end(r, j),
    decreases r.len() - j,
{
    if j < r.len() {
        assert((x + r)[x.len() + j] == r[j]);
        lemma_nodes_end_shift(x, r, j + 1);
    }
}

proof fn lemma_edges_end_shift(x: Seq<Seq<char>>, r: Seq<Seq<char>>, j: int)
    requires
        j >= 0,
    ensures
        edges_end(x + r, x.len() + j) == x.len() + edges_end(r, j),
    decreases r.len() - j,
{
    if j < r.len() {
        assert((x + r)[x.len() + j] == r[j]);
        lemma_edges_end_shift(x, r, j + 1);
    }
}

proof fn lemma_nodes_built_shift(x: Seq<Seq<char>>, r: Seq<Seq<char>>, a: int, b: int)
    requires
        0 <= a,
        b <= r.len(),
    ensures
        nodes_built(x + r, x.len() + a, x.len() + b) == nodes_built(r, a, b),
    decreases b - a,
{
    if a < b {
        lemma_nodes_built_shift(x, r, a, b - 1);
        assert((x + r)[x.len() + b - 1] == r[b - 1]);
    }
}

proof fn lemma_edges_built_shift(x: Seq<Seq<char>>, r: Seq<Seq<char>>, a: int, b: int)
    requires
        0 <= a,
        b <= r.len(),
    ensures
        edges_built(x + r, x.len() + a, x.len() + b) == edges_built(r, a, b),
    decreases b - a,
{
    if a < b {
        lemma_edges_built_shift(x, r, a, b - 1);
        assert((x + r)[x.len() + b - 1] == r[b - 1]);
    }
}

proof fn lemma_ok_shift(x: Seq<Seq<char>>, r: Seq<Seq<char>>, a: int, b: int)
    requires
        0 <= a,
        b <= r.len() || b <= a,
    ensures
        nodes_ok(x + r, x.len() + a, x.len() + b) == nodes_ok(r, a, b),
        edges_ok(x + r, x.len() + a, x.len() + b) == edges_ok(r, a, b),
{
    assert forall|k: int| x.len() + a <= k < x.len() + b && k < (x + r).len() implies (x + r)[k] == r[k - x.len()] by {}
    if nodes_ok(r, a, b) {
        assert forall|k: int| x.len() + a <= k < x.len() + b implies #[trigger] spec_parse_node((x + r)[k]) is Some by {
            assert(spec_parse_node(r[k - x.len()]) is Some);
            assert((x + r)[k] == r[k - x.len()]);
        }
    }
    if nodes_ok(x + r, x.len() + a, x.len() + b) {
        assert forall|k: int| a <= k < b implies #[trigger] spec_parse_node(r[k]) is Some by {
            assert(spec_parse_node((x + r)[x.len() + k]) is Some);
            assert((x + r)[x.len() + k] == r[k]);
        }
    }
    if edges_ok(r, a, b) {
        assert forall|k: int| x.len() + a <= k < x.len() + b implies #[trigger] spec_parse_edge((x + r)[k]) is Some by {
            assert(spec_parse_edge(r[k - x.len()]) is Some);
            assert((x + r)[k] == r[k - x.len()]);
        }
    }
    if edges_ok(x + r, x.len() + a, x.len() + b) {
        assert forall|k: int| a <= k < b implies #[trigger] spec_parse_edge(r[k]) is Some by {
            assert(spec_parse_edge((x + r)[x.len() + k]) is Some);
            assert((x + r)[x.len() + k] == r[k]);
        }
    }
}

/// Reading the sections after some lines goes as reading them alone.
pub proof fn lemma_parse_shift(x: Seq<Seq<char>>, r: Seq<Seq<char>>, i: int)
    requires
        i >= 0,
    ensures
        parse_sections(x + r, x.len() + i) == parse_sections(r, i),
        sections_ok(x + r, x.len() + i) == sections_ok(r, i),
    decreases r.len() - i,
{
    let l = x + r;
    let xi = x.len() + i;
    if i < r.len() {
        assert(l[xi] == r[i]);
        match header_id(r[i]) {
            None => {
                lemma_parse_shift(x, r, i + 1);
            },
            Some(None) => {},
            Some(Some(id)) => {
                let ne = nodes_end(r, i + 1);
                let ee = edges_end(r, ne + 1);
                lemma_ends(r, i + 1);
                lemma_ends(r, ne + 1);
                lemma_nodes_end_shift(x, r, i + 1);
                lemma_edges_end_shift(x, r, ne + 1);
                assert(nodes_end(l, xi + 1) == x.len() + ne);
                assert(edges_end(l, x.len() + ne + 1) == x.len() + ee);
                lemma_ends_bound(r, i + 1);
                lemma_ends_bound(r, ne + 1);
                let top = if ee <= r.len() { ee } else { r.len() as int };
                lemma_nodes_built_shift(x, r, i + 1, ne);
                lemma_edges_built_shift_any(x, r, ne + 1, ee);
                lemma_ok_shift(x, r, i + 1, ne);
                lemma_ok_shift(x, r, ne + 1, ee);
                assert(section_graph(l, xi + 1, x.len() + ne, x.len() + ne + 1, x.len() + ee)
                    == section_graph(r, i + 1, ne, ne + 1, ee));
                if ee + 1 < r.len() {
                    lemma_parse_shift(x, r, ee + 1);
                }
            },
        }
    }
}

proof fn lemma_ends_bound(r: Seq<Seq<char>>, j: int)
    ensures
        nodes_end(r, j) <= if j > r.len() { j } else { r.len() as int },
        edges_end(r, j) <= if j > r.len() { j } else { r.len() as int },
    decreases r.len() - j,
{
    if j < r.len() {
        lemma_ends_bound(r, j + 1);
    }
}

proof fn lemma_edges_built_shift_any(x: Seq<Seq<char>>, r: Seq<Seq<char>>, a: int, b: int)
    requires
        0 <= a,
        b <= r.len() || b == a,
    ensures
        edges_built(x + r, x.len() + a, x.len() + b) == edges_built(r, a, b),
{
    if b == a {
    } else {
        lemma_edges_built_shift(x, r, a, b);
    }
}

proof fn lemma_nodes_end_run(l: Seq<Seq<char>>, j: int, e: int)
    requires
        0 <= j <= e < l.len(),
        forall|k: int| j <= k < e ==> (#[trigger] l[k]).len() > 0 && l[k] != end_tag(),
        l[e].len() == 0 || l[e] == end_tag(),
    ensures
        nodes_end(l, j) == e,
    decreases e - j,
{
    if j < e {
        lemma_nodes_end_run(l, j + 1, e);
    }
}

proof fn lemma_edges_end_run(l: Seq<Seq<char>>, j: int, e: int)
    requires
        0 <= j <= e < l.len(),
        forall|k: int| j <= k < e ==> #[trigger] l[k] != end_tag(),
        l[e] == end_tag(),
    ensures
        edges_end(l, j) == e,
    decreases e - j,
{
    if j < e {
        lemma_edges_end_run(l, j + 1, e);
    }
}

/// The nodes of `nodes` with ids below `n`, as a session keeps them.
pub open spec fn stripped_below(nodes: Map<usize, GraphNode>, n: nat) -> Map<usize, GraphNode> {
    Map::new(|k: usize| nodes.contains_key(k) && k < n, |k: usize| strip_node(nodes[k]))
}

/// The largest id below `n` that `nodes` holds, or 0 where it holds none.
pub open spec fn largest_below(nodes: Map<usize, GraphNode>, n: nat) -> usize
    decreases n,
{
    if n == 0 {
        0
    } else if nodes.contains_key((n - 1) as usize) {
        (n - 1) as usize
    } else {
        largest_below(nodes, (n - 1) as nat)
    }
}

proof fn lemma_largest_below(nodes: Map<usize, GraphNode>, n: nat)
    requires
        n <= usize::MAX + 1,
    ensures
        largest_below(nodes, n) == 0 || largest_below(nodes, n) < n,
    decreases n,
{
    if n > 0 {
        lemma_largest_below(nodes, (n - 1) as nat);
    }
}

/// Reading the node lines of a section builds its nodes, groups without their
/// focus and child count, and finds its largest id.
proof fn lemma_nodes_built_block(l: Seq<Seq<char>>, from: int, nodes: Map<usize, GraphNode>, n: nat)
    requires
        from >= 0,
        n <= usize::MAX + 1,
        from + node_entries(nodes, n).len() <= l.len(),
        forall|t: int| 0 <= t < node_entries(nodes, n).len() ==> l[from + t] == #[trigger] node_entries(nodes, n)[t],
    ensures
        nodes_built(l, from, from + node_entries(nodes, n).len()) == (stripped_below(nodes, n), largest_below(nodes, n)),
        nodes_ok(l, from, from + node_entries(nodes, n).len()),
    decreases n,
{
    let ne = node_entries(nodes, n);
    if n == 0 {
        assert(stripped_below(nodes, 0) =~= Map::<usize, GraphNode>::empty());
    } else {
        let prev = node_entries(nodes, (n - 1) as nat);
        let k = (n - 1) as usize;
        assert forall|t: int| 0 <= t < prev.len() implies l[from + t] == #[trigger] prev[t] by {
            assert(ne[t] == prev[t]);
        }
        lemma_nodes_built_block(l, from, nodes, (n - 1) as nat);
        lemma_largest_below(nodes, (n - 1) as nat);
        if nodes.contains_key(k) {
            assert(l[from + prev.len()] == ne[prev.len() as int]);
            lemma_node_line(k, nodes[k]);
            assert(stripped_below(nodes, n) =~= stripped_below(nodes, (n - 1) as nat).insert(k, strip_node(nodes[k])));
            assert forall|t: int| from <= t < from + ne.len() implies #[trigger] spec_parse_node(l[t]) is Some by {
                if t < from + prev.len() {
                    assert(nodes_ok(l, from, from + prev.len()));
                }
            }
        } else {
            assert(stripped_below(nodes, n) =~= stripped_below(nodes, (n - 1) as nat));
        }
    }
}

/// Reading the edge lines of a section gives its edges.
proof fn lemma_edges_built_block(l: Seq<Seq<char>>, from: int, edges: Seq<GraphEdge>)
    requires
        from >= 0,
        from + edges.len() <= l.len(),
        forall|t: int| 0 <= t < edges.len() ==> l[from + t] == edge_entry(#[trigger] edges[t]),
    ensures
        edges_built(l, from, from + edges.len()) == edges,
        edges_ok(l, from, from + edges.len()),
    decreases edges.len(),
{
    if edges.len() > 0 {
        let d = edges.drop_last();
        assert forall|t: int| 0 <= t < d.len() implies l[from + t] == edge_entry(#[trigger] d[t]) by {
            assert(d[t] == edges[t]);
        }
        lemma_edges_built_block(l, from, d);
        lemma_edge_line(edges.last());
        assert(l[from + d.len()] == edge_entry(edges[d.len() as int]));
        assert(edges == d.push(edges.last()));
        assert forall|t: int| from <= t < from + edges.len() implies #[trigger] spec_parse_edge(l[t]) is Some by {
            if t < from + d.len() {
                assert(edges_ok(l, from, from + d.len()));
            }
        }
    }
}

/// What loading gives for a saved graph `g`: its nodes (groups keep only
/// their kind) and edges, its largest node id as the largest id, marked as
/// changed where it has edges, rooted at node 0.
pub open spec fn reloaded(g: GraphView) -> GraphView {
    GraphView {
        max_id: largest_below(g.nodes, g.max_id as nat + 1),
        dirty: g.edges.len() > 0,
        nodes: g.nodes.map_values(|n: GraphNode| strip_node(n)),
        edges: g.edges,
        root: 0,
    }
}

proof fn lemma_header_id(id: WorkspaceId)
    ensures
        header_id(header_line(id)) == Some(Some(id.0)),
{
    let d = spec_decimal(id.0 as nat);
    let h = header_line(id);
    lemma_decimal_plain(id.0 as nat);
    lemma_decimal(id.0 as nat);
    lemma_parse_decimal(id.0);
    assert(h.take(10) =~= seq!['@', 'w', 'o', 'r', 'k', 's', 'p', 'a', 'c', 'e']);
    let rest = h.skip(10);
    assert(rest =~= seq![' '] + d);
    assert(spec_is_whitespace(rest[0]));
    assert(rest.drop_first() =~= d);
    assert(!spec_is_whitespace(d[0]));
    assert(spec_trim_start(d) == d);
    assert(spec_trim_start(rest) == spec_trim_start(rest.drop_first()));
    assert(is_digit(d.last())) by {
        assert(d.last() == d[d.len() - 1]);
    }
    assert(!spec_is_whitespace(d.last()));
    assert(spec_trim_end(d) == d);
    assert(spec_trim(rest) == d);
}

/// Reading the lines of one saved section, followed by the lines `r`, gives
/// its workspace back, then what `r` gives; a section with nodes but no edges
/// reads well only where no lines follow it.
pub proof fn lemma_parse_section(ws: Workspace, r: Seq<Seq<char>>)
    requires
        forall|k: usize| #[trigger] ws.graph@.nodes.contains_key(k) ==> k <= ws.graph@.max_id,
        ws.graph@.edges.len() > 0 ==> node_entries(ws.graph@.nodes, ws.graph@.max_id as nat + 1).len() > 0,
        r.len() > 0 ==> (node_entries(ws.graph@.nodes, ws.graph@.max_id as nat + 1).len() == 0 || ws.graph@.edges.len() > 0),
    ensures
        r.len() == 0 ==> parse_sections(section_lines(ws.id, ws.graph@) + r, 0)
            == Some(seq![(ws.id.0, reloaded(ws.graph@))]),
        r.len() == 0 ==> sections_ok(section_lines(ws.id, ws.graph@) + r, 0),
        r.len() > 0 ==> parse_sections(section_lines(ws.id, ws.graph@) + r, 0) == match parse_sections(r, 0) {
            Some(rest) => Some(seq![(ws.id.0, reloaded(ws.graph@))] + rest),
            None => None,
        },
        r.len() > 0 ==> sections_ok(section_lines(ws.id, ws.graph@) + r, 0) == sections_ok(r, 0),
{
    let g = ws.graph@;
    let n = g.max_id as nat + 1;
    let nl = node_entries(g.nodes, n);
    let el = edge_entries(g.edges);
    let w = section_lines(ws.id, g);
    let l = w + r;
    let e = (ws.id.0, reloaded(g));
    lemma_node_entries_lines(g.nodes, n);
    lemma_edge_entries_lines(g.edges);
    lemma_header_id(ws.id);
    assert(l[0] == header_line(ws.id));
    assert forall|t: int| 0 <= t < w.len() implies #[trigger] l[t] == w[t] by {}
    assert forall|t: int| 0 <= t < nl.len() implies l[1 + t] == #[trigger] nl[t] by {
        assert(w[1 + t] == nl[t]);
    }
    lemma_nodes_built_block(l, 1, g.nodes, n);
    assert forall|t: int| 0 <= t < nl.len() implies (#[trigger] l[1 + t]).len() > 0 && l[1 + t] != end_tag() by {
        lemma_digit_line_not_end(nl[t]);
    }
    let ne: int = 1 + nl.len() as int;
    let ee: int = if el.len() > 0 { ne + 1 + el.len() as int } else { ne + 1 };
    if nl.len() > 0 && el.len() > 0 {
        assert(w[ne] == Seq::<char>::empty());
        lemma_nodes_end_run(l, 1, ne);
        assert forall|t: int| 0 <= t < el.len() implies l[ne + 1 + t] == edge_entry(#[trigger] g.edges[t]) by {
            assert(w[ne + 1 + t] == el[t]);
        }
        assert forall|k: int| ne + 1 <= k < ee implies #[trigger] l[k] != end_tag() by {
            assert(l[k] == el[k - ne - 1]);
            lemma_digit_line_not_end(el[k - ne - 1]);
        }
        assert(w[ee] == end_tag());
        lemma_edges_end_run(l, ne + 1, ee);
        lemma_edges_built_block(l, ne + 1, g.edges);
        assert(ee + 1 == w.len());
    } else if nl.len() > 0 {
        assert(w[ne] == end_tag());
        lemma_nodes_end_run(l, 1, ne);
        assert(r.len() == 0);
        assert(edges_end(l, ne + 1) == ne + 1);
        assert(g.edges =~= Seq::<GraphEdge>::empty());
    } else {
        assert(g.edges.len() == 0);
        assert(w[1] == Seq::<char>::empty());
        assert(w[2] == end_tag());
        lemma_nodes_end_run(l, 1, 1);
        lemma_edges_end_run(l, 2, 2);
        assert(g.edges =~= Seq::<GraphEdge>::empty());
        assert(ee + 1 == w.len());
    }
    assert(stripped_below(g.nodes, n) =~= g.nodes.map_values(|n: GraphNode| strip_node(n)));
    assert(section_graph(l, 1, ne, ne + 1, ee) == reloaded(g));
    if r.len() > 0 {
        assert(ee + 1 == w.len());
        lemma_parse_shift(w, r, 0);
    }
}

/// The graph holds some node.
pub open spec fn has_nodes(g: GraphView) -> bool {
    exists|k: usize| g.nodes.contains_key(k)
}

proof fn lemma_node_entries_empty(nodes: Map<usize, GraphNode>, n: nat)
    ensures
        node_entries(nodes, n).len() == 0 <==> forall|k: usize| k < n ==> !#[trigger] nodes.contains_key(k),
    decreases n,
{
    if n > 0 {
        lemma_node_entries_empty(nodes, (n - 1) as nat);
    }
}

proof fn lemma_has_nodes(g: GraphView)
    requires
        forall|k: usize| #[trigger] g.nodes.contains_key(k) ==> k <= g.max_id,
    ensures
        has_nodes(g) <==> node_entries(g.nodes, g.max_id as nat + 1).len() > 0,
{
    lemma_node_entries_empty(g.nodes, g.max_id as nat + 1);
}

pub open spec fn reloaded_entry(ws: Workspace) -> (usize, GraphView) {
    (ws.id.0, reloaded(ws.graph@))
}

proof fn lemma_parse_all(wss: Seq<Workspace>)
    requires
        wss.len() > 0,
        forall|i: int, k: usize| 0 <= i < wss.len() && #[trigger] wss[i].graph@.nodes.contains_key(k)
            ==> k <= wss[i].graph@.max_id,
        forall|i: int| 0 <= i < wss.len() && (#[trigger] wss[i]).graph@.edges.len() > 0 ==> has_nodes(wss[i].graph@),
        forall|i: int| 0 <= i < wss.len() - 1 && has_nodes((#[trigger] wss[i]).graph@) ==> wss[i].graph@.edges.len() > 0,
    ensures
        parse_sections(all_lines(wss), 0) == Some(wss.map_values(|ws: Workspace| reloaded_entry(ws))),
        sections_ok(all_lines(wss), 0),
    decreases wss.len(),
{
    let ws = wss[0];
    let tail = wss.drop_first();
    lemma_all_lines_front(wss);
    let r = all_lines(tail);
    assert forall|k: usize| #[trigger] ws.graph@.nodes.contains_key(k) implies k <= ws.graph@.max_id by {
        assert(wss[0].graph@.nodes.contains_key(k));
    }
    lemma_has_nodes(ws.graph@);
    if tail.len() == 0 {
        assert(r =~= Seq::<Seq<char>>::empty());
        lemma_parse_section(ws, r);
        assert(section_lines(ws.id, ws.graph@) + r =~= section_lines(ws.id, ws.graph@));
        assert(wss.map_values(|ws: Workspace| reloaded_entry(ws)) =~= seq![reloaded_entry(ws)]);
    } else {
        assert forall|i: int, k: usize| 0 <= i < tail.len() && #[trigger] tail[i].graph@.nodes.contains_key(k)
            implies k <= tail[i].graph@.max_id by {
            assert(tail[i] == wss[i + 1]);
        }
        assert forall|i: int| 0 <= i < tail.len() && (#[trigger] tail[i]).graph@.edges.len() > 0 implies has_nodes(tail[i].graph@) by {
            assert(tail[i] == wss[i + 1]);
        }
        assert forall|i: int| 0 <= i < tail.len() - 1 && has_nodes((#[trigger] tail[i]).graph@) implies tail[i].graph@.edges.len() > 0 by {
            assert(tail[i] == wss[i + 1]);
        }
        lemma_parse_all(tail);
        lemma_all_lines_len(tail);
        lemma_parse_section(ws, r);
        assert(wss.map_values(|ws: Workspace| reloaded_entry(ws))
            =~= seq![reloaded_entry(ws)] + tail.map_values(|ws: Workspace| reloaded_entry(ws)));
    }
}

proof fn lemma_all_lines_len(wss: Seq<Workspace>)
    requires
        wss.len() > 0,
    ensures
        all_lines(wss).len() > 0,
{
    lemma_all_lines_front(wss);
}

/// Loading a saved session gives back each workspace with its id, its nodes
/// (groups keep only their kind; their focus and child count start over) and
/// its edges. This holds where no graph holds an id above its largest one, a
/// graph with edges has nodes, and every workspace but the last that has nodes
/// has edges too (a section without edges is followed by the next section,
/// whose lines the loading would take for edges).
pub proof fn lemma_session_roundtrip(wss: Seq<Workspace>)
    requires
        forall|i: int, k: usize| 0 <= i < wss.len() && #[trigger] wss[i].graph@.nodes.contains_key(k)
            ==> k <= wss[i].graph@.max_id,
        forall|i: int| 0 <= i < wss.len() && (#[trigger] wss[i]).graph@.edges.len() > 0 ==> has_nodes(wss[i].graph@),
        forall|i: int| 0 <= i < wss.len() - 1 && has_nodes((#[trigger] wss[i]).graph@) ==> wss[i].graph@.edges.len() > 0,
    ensures
        sections_ok(spec_split(spec_session_text(wss), '\n'), 0),
        parse_sections(spec_split(spec_session_text(wss), '\n'), 0)
            == Some(wss.map_values(|ws: Workspace| reloaded_entry(ws))),
{
    if wss.len() == 0 {
        let l = spec_split(spec_session_text(wss), '\n');
        assert(wss.map_values(|ws: Workspace| ws_entry(ws)) =~= Seq::<Seq<char>>::empty());
        assert(spec_session_text(wss) =~= Seq::<char>::empty());
        assert(l =~= seq![Seq::<char>::empty()]);
        assert(header_id(l[0]) is None);
        assert(parse_sections(l, 1) == Some(Seq::<(usize, GraphView)>::empty()));
        assert(sections_ok(l, 1));
        assert(parse_sections(l, 0) == parse_sections(l, 1));
        assert(sections_ok(l, 0));
        assert(wss.map_values(|ws: Workspace| reloaded_entry(ws)) =~= Seq::<(usize, GraphView)>::empty());
    } else {
        lemma_session_lines(wss);
        lemma_parse_all(wss);
    }
}

} // verus!
