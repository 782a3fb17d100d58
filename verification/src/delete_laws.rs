//! What deleting a node together with the nodes below it does to a tree.
use vstd::prelude::*;
use crate::graph::{
    children_of, delete_node_ok, descendants, first_child_index, group_counts_ok, kept_edges,
    lemma_children_contains, lemma_first_child_index, levels_ok, lowered_max, lowered_ok, node_is_group,
    other_children, parent_after_delete, parent_of, removed, spec_delete_tree, subtree, subtrees, tree_wf,
    GraphEdge, GraphNode, GraphView,
};
use crate::graph_laws::{lemma_children_of_edge, lemma_children_of_remove, lemma_first_child_index_some};
use crate::render_laws::{ancestor, lemma_ancestor_level, lemma_ancestor_step};

verus! {

/// In a tree the parent of the child of an edge is the parent of that edge.
proof fn lemma_edge_parent(v: GraphView, e: int)
    requires
        tree_wf(v),
        0 <= e < v.edges.len(),
    ensures
        first_child_index(v.edges, v.edges[e].child) == Some(e),
        parent_of(v.edges, v.edges[e].child) == Some(v.edges[e].parent),
{
    lemma_first_child_index(v.edges, v.edges[e].child);
}

/// Each node of the subtree of `y` lies below `y`.
proof fn lemma_subtree_below(v: GraphView, y: usize, f: nat, t: int)
    requires
        tree_wf(v),
        v.nodes.contains_key(y),
        0 <= t < subtree(v, y, f).len(),
    ensures
        v.nodes.contains_key(subtree(v, y, f)[t]),
        exists|m: nat| #[trigger] ancestor(v.edges, subtree(v, y, f)[t], m) == Some(y),
    decreases f, 0nat,
{
    let ch = children_of(v.edges, y);
    let rest = subtrees(v, ch, 0, (f - 1) as nat);
    assert(subtree(v, y, f) == seq![y] + rest);
    if t == 0 {
        assert(ancestor(v.edges, y, 0) == Some(y));
    } else {
        lemma_subtrees_below(v, y, ch, 0, (f - 1) as nat, t - 1);
        assert(subtree(v, y, f)[t] == rest[t - 1]);
    }
}

proof fn lemma_subtrees_below(v: GraphView, y: usize, ch: Seq<usize>, j: nat, f: nat, t: int)
    requires
        tree_wf(v),
        ch == children_of(v.edges, y),
        0 <= t < subtrees(v, ch, j, f).len(),
    ensures
        v.nodes.contains_key(subtrees(v, ch, j, f)[t]),
        exists|m: nat| #[trigger] ancestor(v.edges, subtrees(v, ch, j, f)[t], m) == Some(y),
    decreases f, ch.len() - j,
{
    let n1 = subtree(v, ch[j as int], f);
    let n2 = subtrees(v, ch, j + 1, f);
    let n = subtrees(v, ch, j, f);
    assert(n == n1 + n2);
    if t < n1.len() {
        let c = ch[j as int];
        lemma_children_of_edge(v.edges, y, j as int);
        let e = choose|e: int| 0 <= e < v.edges.len() && (#[trigger] v.edges[e]).parent == y
            && v.edges[e].child == c;
        lemma_edge_parent(v, e);
        lemma_subtree_below(v, c, f, t);
        let k = n1[t];
        let m = choose|m: nat| #[trigger] ancestor(v.edges, k, m) == Some(c);
        lemma_ancestor_step(v.edges, k, m + 1);
        assert(ancestor(v.edges, k, m + 1) == Some(y));
        assert(n[t] == k);
    } else {
        lemma_subtrees_below(v, y, ch, j + 1, f, t - n1.len());
        assert(n[t] == n2[t - n1.len()]);
    }
}

/// Each node of the subtree of child `j` is a node of the subtrees of the
/// children from `j0` on.
proof fn lemma_subtrees_has(v: GraphView, ch: Seq<usize>, j0: nat, j: nat, f: nat, t: int)
    requires
        j0 <= j < ch.len(),
        0 <= t < subtree(v, ch[j as int], f).len(),
    ensures
        subtrees(v, ch, j0, f).contains(subtree(v, ch[j as int], f)[t]),
    decreases j - j0,
{
    let first = subtree(v, ch[j0 as int], f);
    let rest = subtrees(v, ch, j0 + 1, f);
    let s = subtrees(v, ch, j0, f);
    assert(s == first + rest);
    if j0 == j {
        assert(s[t] == first[t]);
    } else {
        lemma_subtrees_has(v, ch, j0 + 1, j, f, t);
        let u = choose|u: int| 0 <= u < rest.len() && rest[u] == subtree(v, ch[j as int], f)[t];
        assert(s[first.len() + u] == rest[u]);
    }
}

/// A node below `x`, `m` levels down, is in the subtree of `x` taken down more
/// than `m` levels.
proof fn lemma_in_subtree(v: GraphView, k: usize, m: nat, x: usize, f: nat)
    requires
        tree_wf(v),
        ancestor(v.edges, k, m) == Some(x),
        m < f,
    ensures
        subtree(v, x, f).contains(k),
    decreases m,
{
    let ch = children_of(v.edges, x);
    assert(subtree(v, x, f) == seq![x] + subtrees(v, ch, 0, (f - 1) as nat));
    if m == 0 {
        assert(subtree(v, x, f)[0] == k);
    } else {
        lemma_ancestor_step(v.edges, k, m);
        let y = ancestor(v.edges, k, (m - 1) as nat)->0;
        lemma_first_child_index(v.edges, y);
        let i = first_child_index(v.edges, y)->0;
        assert(v.edges[i].parent == x);
        lemma_children_contains(v.edges, x, i);
        let j = choose|j: int| 0 <= j < ch.len() && ch[j] == y;
        lemma_in_subtree(v, k, (m - 1) as nat, y, (f - 1) as nat);
        let below = subtree(v, y, (f - 1) as nat);
        let t = choose|t: int| 0 <= t < below.len() && below[t] == k;
        lemma_subtrees_has(v, ch, 0, j as nat, (f - 1) as nat, t);
        let rest = subtrees(v, ch, 0, (f - 1) as nat);
        let u = choose|u: int| 0 <= u < rest.len() && rest[u] == k;
        assert(subtree(v, x, f)[u + 1] == k);
    }
}

/// A node that lies below another node along `m > 0` parent edges is the child
/// of an edge, and so a node of the tree.
proof fn lemma_ancestor_node(v: GraphView, k: usize, m: nat)
    requires
        tree_wf(v),
        m > 0,
        ancestor(v.edges, k, m) is Some,
    ensures
        v.nodes.contains_key(k),
{
    lemma_first_child_index(v.edges, k);
}

/// The nodes deleted along with `id` are `id` and the nodes below it.
proof fn lemma_descendants(v: GraphView, id: usize)
    requires
        tree_wf(v),
        v.nodes.contains_key(id),
    ensures
        forall|k: usize| #[trigger] descendants(v, id).contains(k)
            <==> exists|m: nat| #[trigger] ancestor(v.edges, k, m) == Some(id),
        forall|k: usize| #[trigger] descendants(v, id).contains(k) ==> v.nodes.contains_key(k),
{
    let (lvl, b) = choose|lvl: Map<usize, nat>, b: nat| levels_ok(v, lvl, b);
    let f = (b - lvl[id] + 1) as nat;
    let s = descendants(v, id);
    assert(s == subtree(v, id, f));
    assert forall|k: usize| #[trigger] s.contains(k) implies v.nodes.contains_key(k)
        && exists|m: nat| #[trigger] ancestor(v.edges, k, m) == Some(id) by {
        let t = choose|t: int| 0 <= t < s.len() && s[t] == k;
        lemma_subtree_below(v, id, f, t);
    }
    assert forall|k: usize| (exists|m: nat| #[trigger] ancestor(v.edges, k, m) == Some(id)) implies #[trigger] s.contains(k) by {
        let m = choose|m: nat| #[trigger] ancestor(v.edges, k, m) == Some(id);
        if m > 0 {
            lemma_ancestor_node(v, k, m);
        }
        assert(v.nodes.contains_key(k));
        lemma_ancestor_level(v, lvl, b, k, m, id);
        lemma_in_subtree(v, k, m, id, f);
    }
}

proof fn lemma_removed(nodes: Map<usize, GraphNode>, s: Seq<usize>)
    ensures
        forall|k: usize| #[trigger] removed(nodes, s).contains_key(k) <==> nodes.contains_key(k) && !s.contains(k),
        forall|k: usize| #[trigger] removed(nodes, s).contains_key(k) ==> removed(nodes, s)[k] == nodes[k],
    decreases s.len(),
{
    if s.len() > 0 {
        let d = s.drop_last();
        lemma_removed(nodes, d);
        assert forall|k: usize| s.contains(k) <==> d.contains(k) || k == s.last() by {
            if s.contains(k) {
                let t = choose|t: int| 0 <= t < s.len() && s[t] == k;
                if t < d.len() {
                    assert(d[t] == k);
                }
            }
            if d.contains(k) {
                let t = choose|t: int| 0 <= t < d.len() && d[t] == k;
                assert(s[t] == k);
            }
            if k == s.last() {
                assert(s[s.len() - 1] == k);
            }
        }
        let r = removed(nodes, s);
        assert(r == removed(nodes, d).remove(s.last()));
        assert forall|k: usize| #[trigger] r.contains_key(k) <==> nodes.contains_key(k) && !s.contains(k) by {
            assert(s.contains(k) <==> d.contains(k) || k == s.last());
        }
        assert forall|k: usize| #[trigger] r.contains_key(k) implies r[k] == nodes[k] by {
            assert(removed(nodes, d).contains_key(k));
        }
    }
}

proof fn lemma_kept(e: Seq<GraphEdge>, s: Seq<usize>)
    ensures
        forall|t: int| 0 <= t < kept_edges(e, s).len()
            ==> e.contains(#[trigger] kept_edges(e, s)[t]) && !s.contains(kept_edges(e, s)[t].child),
        forall|j: int| 0 <= j < e.len() && !s.contains((#[trigger] e[j]).child) ==> kept_edges(e, s).contains(e[j]),
        (forall|a: int, c: int| 0 <= a < e.len() && 0 <= c < e.len() && (#[trigger] e[a]).child == (#[trigger] e[c]).child ==> a == c)
            ==> (forall|a: int, c: int| 0 <= a < kept_edges(e, s).len() && 0 <= c < kept_edges(e, s).len()
                && (#[trigger] kept_edges(e, s)[a]).child == (#[trigger] kept_edges(e, s)[c]).child ==> a == c),
    decreases e.len(),
{
    if e.len() > 0 {
        let d = e.drop_last();
        lemma_kept(d, s);
        let kd = kept_edges(d, s);
        let k = kept_edges(e, s);
        assert forall|t: int| 0 <= t < k.len() implies e.contains(#[trigger] k[t]) && !s.contains(k[t].child) by {
            if t < kd.len() {
                assert(k[t] == kd[t]);
                let u = choose|u: int| 0 <= u < d.len() && d[u] == kd[t];
                assert(e[u] == d[u]);
            } else {
                assert(k[t] == e.last());
                assert(e[e.len() - 1] == e.last());
            }
        }
        assert forall|j: int| 0 <= j < e.len() && !s.contains((#[trigger] e[j]).child) implies k.contains(e[j]) by {
            if j < d.len() {
                assert(d[j] == e[j]);
                assert(kd.contains(d[j]));
                let u = choose|u: int| 0 <= u < kd.len() && kd[u] == d[j];
                assert(k[u] == kd[u]);
            } else {
                assert(k[k.len() - 1] == e[j]);
            }
        }
        if forall|a: int, c: int| 0 <= a < e.len() && 0 <= c < e.len() && (#[trigger] e[a]).child == (#[trigger] e[c]).child ==> a == c {
            assert forall|a: int, c: int| 0 <= a < d.len() && 0 <= c < d.len() && (#[trigger] d[a]).child == (#[trigger] d[c]).child implies a == c by {
                assert(d[a] == e[a] && d[c] == e[c]);
            }
            assert forall|a: int, c: int| 0 <= a < k.len() && 0 <= c < k.len()
                && (#[trigger] k[a]).child == (#[trigger] k[c]).child implies a == c by {
                if !s.contains(e.last().child) {
                    if a < kd.len() && c < kd.len() {
                        assert(k[a] == kd[a] && k[c] == kd[c]);
                    } else if a < kd.len() {
                        assert(k[a] == kd[a]);
                        let u = choose|u: int| 0 <= u < d.len() && d[u] == kd[a];
                        assert(e[u] == d[u]);
                        assert(e[e.len() - 1].child == k[c].child);
                    } else if c < kd.len() {
                        assert(k[c] == kd[c]);
                        let u = choose|u: int| 0 <= u < d.len() && d[u] == kd[c];
                        assert(e[u] == d[u]);
                        assert(e[e.len() - 1].child == k[a].child);
                    }
                } else {
                    assert(k[a] == kd[a] && k[c] == kd[c]);
                }
            }
        }
    }
}

proof fn lemma_kept_children(e: Seq<GraphEdge>, s: Seq<usize>, p: usize)
    requires
        forall|j: int| 0 <= j < e.len() && (#[trigger] e[j]).parent == p ==> !s.contains(e[j].child),
    ensures
        children_of(kept_edges(e, s), p) == children_of(e, p),
    decreases e.len(),
{
    if e.len() > 0 {
        let d = e.drop_last();
        assert forall|j: int| 0 <= j < d.len() && (#[trigger] d[j]).parent == p implies !s.contains(d[j].child) by {
            assert(d[j] == e[j]);
        }
        lemma_kept_children(d, s, p);
        let kd = kept_edges(d, s);
        if !s.contains(e.last().child) {
            assert(kept_edges(e, s).drop_last() == kd);
        } else {
            assert(e[e.len() - 1] == e.last());
        }
    }
}

proof fn lemma_kept_remove(e: Seq<GraphEdge>, s: Seq<usize>, i: int)
    requires
        0 <= i < e.len(),
        s.contains(e[i].child),
    ensures
        kept_edges(e.remove(i), s) == kept_edges(e, s),
    decreases e.len(),
{
    let d = e.drop_last();
    if i == e.len() - 1 {
        assert(e.remove(i) == d);
    } else {
        assert(e.remove(i).drop_last() == d.remove(i));
        assert(e.remove(i).last() == e.last());
        assert(d[i] == e[i]);
        lemma_kept_remove(d, s, i);
    }
}

proof fn lemma_lowered_nonneg(m: int, s: Seq<usize>)
    requires
        m >= 0,
        lowered_ok(m, s),
    ensures
        0 <= lowered_max(m, s) <= m,
    decreases s.len(),
{
    if s.len() > 0 {
        lemma_lowered_nonneg(m, s.drop_last());
    }
}

proof fn lemma_lowered_bound(m: int, s: Seq<usize>, k: usize)
    requires
        k <= m,
        !s.contains(k),
    ensures
        k <= lowered_max(m, s),
    decreases s.len(),
{
    if s.len() > 0 {
        let d = s.drop_last();
        assert(!d.contains(k)) by {
            if d.contains(k) {
                let t = choose|t: int| 0 <= t < d.len() && d[t] == k;
                assert(s[t] == k);
            }
        }
        assert(s[s.len() - 1] == s.last());
        lemma_lowered_bound(m, d, k);
    }
}


/// An edge into the nodes below `id`, other than the parent edge of `id`,
/// leads from a node below `id`.
proof fn lemma_edge_into_subtree(v: GraphView, id: usize, j: int)
    requires
        tree_wf(v),
        v.nodes.contains_key(id),
        0 <= j < v.edges.len(),
        descendants(v, id).contains(v.edges[j].child),
        v.edges[j].child != id,
    ensures
        descendants(v, id).contains(v.edges[j].parent),
{
    lemma_descendants(v, id);
    let c = v.edges[j].child;
    let m = choose|m: nat| #[trigger] ancestor(v.edges, c, m) == Some(id);
    lemma_edge_parent(v, j);
    assert(m > 0);
    assert(ancestor(v.edges, v.edges[j].parent, (m - 1) as nat) == Some(id));
}

/// An edge from a node below `id` leads to a node below `id`.
proof fn lemma_edge_from_subtree(v: GraphView, id: usize, j: int)
    requires
        tree_wf(v),
        v.nodes.contains_key(id),
        0 <= j < v.edges.len(),
        descendants(v, id).contains(v.edges[j].parent),
    ensures
        descendants(v, id).contains(v.edges[j].child),
{
    lemma_descendants(v, id);
    let x = v.edges[j].parent;
    let m = choose|m: nat| #[trigger] ancestor(v.edges, x, m) == Some(id);
    lemma_edge_parent(v, j);
    assert(ancestor(v.edges, v.edges[j].child, m + 1) == Some(id));
}

/// Deleting a node other than the root of a well-formed tree without
/// `shallow` deletes it and exactly the nodes below it: none of them is left,
/// nor any edge to or from one of them; the other edges keep their order; the
/// parent of the node counts one child fewer; every other node stays as it
/// was; and the graph stays a well-formed tree. (Where the node has children,
/// `Graph::delete_node` gives this graph; where it has none, the graph of
/// `lemma_delete_leaf_wf`.)
#[verifier::spinoff_prover]
#[verifier::rlimit(40)]
pub proof fn lemma_delete_tree(v: GraphView, id: usize)
    requires
        tree_wf(v),
        v.nodes.contains_key(id),
        id != v.root,
        lowered_ok(v.max_id as int, descendants(v, id)),
    ensures
        delete_node_ok(v, id, false),
        ({
            let s = descendants(v, id);
            let w = spec_delete_tree(v, id);
            let p = parent_of(v.edges, id)->0;
            &&& forall|k: usize| #[trigger] s.contains(k) <==> exists|m: nat| #[trigger] ancestor(v.edges, k, m) == Some(id)
            &&& forall|k: usize| #[trigger] w.nodes.contains_key(k) <==> v.nodes.contains_key(k) && !s.contains(k)
            &&& forall|k: usize| #[trigger] w.nodes.contains_key(k) && k != p ==> w.nodes[k] == v.nodes[k]
            &&& w.nodes[p] == parent_after_delete(v.nodes[p])
            &&& forall|j: int| 0 <= j < w.edges.len()
                ==> !s.contains((#[trigger] w.edges[j]).child) && !s.contains(w.edges[j].parent)
            &&& w.edges == kept_edges(v.edges, s)
            &&& tree_wf(w)
        }),
{
    let s = descendants(v, id);
    let w = spec_delete_tree(v, id);
    let (lvl, b) = choose|lvl: Map<usize, nat>, b: nat| levels_ok(v, lvl, b);
    lemma_descendants(v, id);
    lemma_first_child_index(v.edges, id);
    let i = first_child_index(v.edges, id)->0;
    let p = v.edges[i].parent;
    assert(parent_of(v.edges, id) == Some(p));
    assert(lvl[v.edges[i].child] == lvl[p] + 1);
    assert(node_is_group(v, p));
    assert(s.contains(id)) by {
        assert(ancestor(v.edges, id, 0) == Some(id));
    }
    assert(!s.contains(p)) by {
        if s.contains(p) {
            let m = choose|m: nat| #[trigger] ancestor(v.edges, p, m) == Some(id);
            lemma_ancestor_level(v, lvl, b, p, m, id);
        }
    }
    assert(!s.contains(v.root)) by {
        if s.contains(v.root) {
            let m = choose|m: nat| #[trigger] ancestor(v.edges, v.root, m) == Some(id);
            lemma_first_child_index(v.edges, v.root);
        }
    }
    // delete_node_ok
    lemma_children_contains(v.edges, p, i);
    assert(group_counts_ok(v, p));
    assert(v.nodes.contains_key(v.root));
    lemma_removed(v.nodes, s);
    lemma_kept(v.edges, s);
    lemma_lowered_nonneg(v.max_id as int, s);
    assert(w.max_id == lowered_max(v.max_id as int, s));
    // the kept edges lead from and to nodes that are not deleted
    assert forall|j: int| 0 <= j < w.edges.len()
        implies !s.contains((#[trigger] w.edges[j]).child) && !s.contains(w.edges[j].parent)
        && exists|u: int| 0 <= u < v.edges.len() && v.edges[u] == w.edges[j] by {
        assert(v.edges.contains(w.edges[j]));
        let u = choose|u: int| 0 <= u < v.edges.len() && v.edges[u] == w.edges[j];
        if s.contains(v.edges[u].parent) {
            lemma_edge_from_subtree(v, id, u);
        }
    }
    assert forall|k: usize| #[trigger] w.nodes.contains_key(k) <==> v.nodes.contains_key(k) && !s.contains(k) by {}
    assert forall|k: usize| #[trigger] w.nodes.contains_key(k) && k != p implies w.nodes[k] == v.nodes[k] by {}
    // well-formedness
    assert forall|j: int| 0 <= j < w.edges.len() implies (#[trigger] w.edges[j]).child != w.root by {
        let u = choose|u: int| 0 <= u < v.edges.len() && v.edges[u] == w.edges[j];
    }
    assert forall|j: int| 0 <= j < w.edges.len() implies node_is_group(w, (#[trigger] w.edges[j]).parent)
        && w.nodes.contains_key(w.edges[j].child) by {
        let u = choose|u: int| 0 <= u < v.edges.len() && v.edges[u] == w.edges[j];
        let x = w.edges[j].parent;
        assert(node_is_group(v, v.edges[u].parent) && v.nodes.contains_key(v.edges[u].child));
        assert(!s.contains(x) && !s.contains(w.edges[j].child));
        assert(removed(v.nodes, s).contains_key(x));
        if x != p {
            assert(w.nodes[x] == removed(v.nodes, s)[x]);
        }
    }
    assert forall|k: usize| #[trigger] w.nodes.contains_key(k) && k != w.root
        implies first_child_index(w.edges, k) is Some by {
        lemma_first_child_index(v.edges, k);
        let u = first_child_index(v.edges, k)->0;
        assert(w.edges.contains(v.edges[u]));
        let t = choose|t: int| 0 <= t < w.edges.len() && w.edges[t] == v.edges[u];
        lemma_first_child_index_some(w.edges, k, t);
    }
    assert forall|k: usize| #[trigger] w.nodes.contains_key(k) implies k <= w.max_id by {
        lemma_lowered_bound(v.max_id as int, s, k);
    }
    assert forall|k: usize| #[trigger] w.nodes.contains_key(k) implies group_counts_ok(w, k) by {
        if k != p {
            assert forall|j: int| 0 <= j < v.edges.len() && (#[trigger] v.edges[j]).parent == k
                implies !s.contains(v.edges[j].child) by {
                if s.contains(v.edges[j].child) {
                    if v.edges[j].child == id {
                        assert(j == i);
                    } else {
                        lemma_edge_into_subtree(v, id, j);
                    }
                }
            }
            lemma_kept_children(v.edges, s, k);
            assert(group_counts_ok(v, k));
        } else {
            let re = v.edges.remove(i);
            lemma_kept_remove(v.edges, s, i);
            assert forall|j: int| 0 <= j < re.len() && (#[trigger] re[j]).parent == p
                implies !s.contains(re[j].child) by {
                let u = if j < i { j } else { j + 1 };
                assert(re[j] == v.edges[u]);
                if s.contains(v.edges[u].child) {
                    if v.edges[u].child == id {
                        assert(u == i);
                    } else {
                        lemma_edge_into_subtree(v, id, u);
                    }
                }
            }
            lemma_kept_children(re, s, p);
            lemma_children_of_remove(v.edges, i, p);
        }
    }
    assert(levels_ok(w, lvl, b)) by {
        assert forall|j: int| 0 <= j < w.edges.len() implies lvl.contains_key(#[trigger] w.edges[j].child)
            && lvl.contains_key(w.edges[j].parent)
            && lvl[w.edges[j].child] == lvl[w.edges[j].parent] + 1 by {
            let u = choose|u: int| 0 <= u < v.edges.len() && v.edges[u] == w.edges[j];
            assert(lvl[v.edges[u].child] == lvl[v.edges[u].parent] + 1);
        }
    }
    assert(node_is_group(w, w.root)) by {
        assert(node_is_group(v, v.root));
        assert(removed(v.nodes, s).contains_key(v.root));
        if v.root != p {
            assert(w.nodes[v.root] == removed(v.nodes, s)[v.root]);
        }
    }
    assert(tree_wf(w));
    assert(w.nodes[p] == parent_after_delete(v.nodes[p]));
    assert(w.edges == kept_edges(v.edges, s));
}

} // verus!
