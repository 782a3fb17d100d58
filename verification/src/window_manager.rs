//! The workspaces of a display and which of them is focused.
use vstd::prelude::*;
use crate::config::Config;
use crate::graph::{levels_ok, Graph, GraphView};
use crate::platform::{Area, WindowId};
use crate::render::{render_layout, render_ok};
use crate::text::spec_decimal;
use crate::graph::GraphNode;
use crate::workspace::{focus_node_result, focused_window, holds_window, ws_graph_wf, Workspace, WorkspaceId, WorkspaceState};

verus! {

/// The index of the first workspace with id `id`.
pub open spec fn ws_index(s: Seq<Workspace>, id: WorkspaceId) -> Option<int>
    decreases s.len(),
{
    if s.len() == 0 {
        None
    } else {
        match ws_index(s.drop_last(), id) {
            Some(i) => Some(i),
            None => if s.last().id == id { Some(s.len() - 1) } else { None },
        }
    }
}

pub proof fn lemma_ws_index(s: Seq<Workspace>, id: WorkspaceId)
    ensures
        match ws_index(s, id) {
            Some(i) => 0 <= i < s.len() && s[i].id == id && forall|j: int| 0 <= j < i ==> s[j].id != id,
            None => forall|j: int| 0 <= j < s.len() ==> s[j].id != id,
        },
    decreases s.len(),
{
    if s.len() > 0 {
        let d = s.drop_last();
        lemma_ws_index(d, id);
        assert(forall|j: int| 0 <= j < d.len() ==> d[j] == s[j]);
    }
}

/// `n` is the workspace that `Workspace::new(id, "master_slave")` makes.
pub open spec fn is_fresh_workspace(n: Workspace, id: WorkspaceId) -> bool {
    &&& n.id == id
    &&& n.display_name@ == spec_decimal(id.0 as nat)
    &&& n.layout_name@ == "master_slave"@
    &&& n.state == WorkspaceState::Normal
    &&& n.graph@ == Graph::new_view()
}

/// What a change of the focused workspace asks of the windows: those of
/// `shown` are to be restored, those of `hidden` minimized.
#[derive(Debug, Clone, Copy, PartialEq, Eq, Structural)]
pub struct WorkspaceChange {
    pub shown: Option<WorkspaceId>,
    pub hidden: Option<WorkspaceId>,
}

#[derive(Debug, Clone)]
pub enum WindowManagerError {
    LayoutFunctionError(String),
}

/// What is to be undone when a workspace goes away: nothing so far.
#[derive(Debug, Default)]
pub struct WorkspaceCleanup {}

#[derive(Debug)]
pub struct WindowManager {
    pub workspaces: Vec<Workspace>,
    pub focused_workspace_id: WorkspaceId,
}

/// No two workspaces share an id, the focused workspace exists, and every
/// workspace graph is a well-formed tree.
pub open spec fn wm_wf(s: Seq<Workspace>, focused: WorkspaceId) -> bool {
    &&& forall|i: int, j: int| 0 <= i < s.len() && 0 <= j < s.len() && (#[trigger] s[i]).id == (#[trigger] s[j]).id ==> i == j
    &&& ws_index(s, focused) is Some
    &&& forall|i: int| 0 <= i < s.len() ==> ws_graph_wf((#[trigger] s[i]).graph@)
}

/// `(new_ws, new_focused)` and `r` are what changing the focused workspace of
/// `(old_ws, old_focused)` to `id` gives: the workspace `id` is made where it
/// does not exist, it becomes the focused one, and the old focused workspace is
/// dropped where it holds nothing, else its windows are to be minimized.
pub open spec fn changed_to(
    old_ws: Seq<Workspace>,
    old_focused: WorkspaceId,
    id: WorkspaceId,
    new_ws: Seq<Workspace>,
    new_focused: WorkspaceId,
    r: WorkspaceChange,
) -> bool {
    if old_focused == id {
        &&& r == WorkspaceChange { shown: None, hidden: None }
        &&& new_ws == old_ws
        &&& new_focused == old_focused
    } else {
        let old_i = ws_index(old_ws, old_focused)->0;
        let empty = old_ws[old_i].graph@.edges.len() == 0;
        &&& new_focused == id
        &&& r.shown == (if ws_index(old_ws, id) is Some { Some(id) } else { None::<WorkspaceId> })
        &&& r.hidden == (if empty { None::<WorkspaceId> } else { Some(old_focused) })
        &&& exists|s1: Seq<Workspace>| {
            &&& (ws_index(old_ws, id) is Some ==> s1 == old_ws)
            &&& (ws_index(old_ws, id) is None ==> s1.len() == old_ws.len() + 1
                && s1.take(old_ws.len() as int) == old_ws && is_fresh_workspace(s1.last(), id))
            &&& new_ws == (if empty { s1.remove(old_i) } else { s1 })
        }
    }
}

/// After a change to workspace `id`, which sits at index `i`, the focused
/// workspace is the one that sat at `i`.
pub proof fn lemma_changed_to_focus(
    old_ws: Seq<Workspace>,
    old_focused: WorkspaceId,
    id: WorkspaceId,
    new_ws: Seq<Workspace>,
    new_focused: WorkspaceId,
    r: WorkspaceChange,
    i: int,
)
    requires
        wm_wf(old_ws, old_focused),
        wm_wf(new_ws, new_focused),
        0 <= i < old_ws.len(),
        old_ws[i].id == id,
        changed_to(old_ws, old_focused, id, new_ws, new_focused, r),
    ensures
        new_focused == id,
        new_ws[ws_index(new_ws, new_focused)->0] == old_ws[i],
{
    lemma_ws_index(new_ws, new_focused);
    lemma_ws_index(old_ws, old_focused);
    lemma_ws_index(old_ws, id);
    let k = ws_index(new_ws, new_focused)->0;
    if old_focused != id {
        let old_i = ws_index(old_ws, old_focused)->0;
        let empty = old_ws[old_i].graph@.edges.len() == 0;
        let s1 = choose|s1: Seq<Workspace>| {
            &&& (ws_index(old_ws, id) is Some ==> s1 == old_ws)
            &&& (ws_index(old_ws, id) is None ==> s1.len() == old_ws.len() + 1
                && s1.take(old_ws.len() as int) == old_ws && is_fresh_workspace(s1.last(), id))
            &&& new_ws == (if empty { s1.remove(old_i) } else { s1 })
        };
        assert(s1 == old_ws);
        if empty {
            assert(i != old_i);
            let k2 = if i < old_i { i } else { i - 1 };
            assert(new_ws[k2] == old_ws[i]);
            assert(new_ws[k2].id == new_ws[k].id);
        } else {
            assert(new_ws[i].id == new_ws[k].id);
        }
    }
}

/// `w` is the workspace `old` after focusing its node `n`: only the graph
/// changes, to what focusing `n` makes of it.
pub open spec fn node_focused(old: Workspace, n: usize, w: Workspace) -> bool {
    &&& w.id == old.id
    &&& w.state == old.state
    &&& w.display_name@ == old.display_name@
    &&& w.layout_name@ == old.layout_name@
    &&& w.graph@ == focus_node_result(old.graph@, n)
}

/// `(new_ws, new_focused)` and `change` are what focusing the window `id` makes
/// of `(old_ws, old_focused)`: the first workspace that holds the window
/// focuses a node that holds it (and nothing else of it changes), and it
/// becomes the focused workspace.
pub open spec fn window_focused(
    old_ws: Seq<Workspace>,
    old_focused: WorkspaceId,
    id: WindowId,
    new_ws: Seq<Workspace>,
    new_focused: WorkspaceId,
    change: WorkspaceChange,
) -> bool {
    exists|i: int, w: Workspace, n: usize| {
        &&& 0 <= i < old_ws.len()
        &&& holds_window(old_ws[i].graph@, id)
        &&& forall|j: int| 0 <= j < i ==> !holds_window((#[trigger] old_ws[j]).graph@, id)
        &&& old_ws[i].graph@.nodes.contains_key(n)
        &&& old_ws[i].graph@.nodes[n] == GraphNode::Window(id)
        &&& #[trigger] node_focused(old_ws[i], n, w)
        &&& focused_window(w.graph@) == Some(id)
        &&& changed_to(old_ws.update(i, w), old_focused, w.id, new_ws, new_focused, change)
    }
}

/// Putting a workspace with the same id and a well-formed graph in place of
/// another keeps the window manager well-formed.
pub proof fn lemma_update_keeps_wf(s: Seq<Workspace>, focused: WorkspaceId, i: int, w: Workspace)
    requires
        wm_wf(s, focused),
        0 <= i < s.len(),
        w.id == s[i].id,
        ws_graph_wf(w.graph@),
    ensures
        wm_wf(s.update(i, w), focused),
{
    let t = s.update(i, w);
    assert forall|a: int, c: int| 0 <= a < t.len() && 0 <= c < t.len()
        && (#[trigger] t[a]).id == (#[trigger] t[c]).id implies a == c by {
        assert(s[a].id == t[a].id && s[c].id == t[c].id);
    }
    lemma_ws_index(s, focused);
    let fi = ws_index(s, focused)->0;
    assert(t[fi].id == s[fi].id);
    lemma_ws_index_some(t, focused, fi);
}

pub proof fn lemma_ws_index_some(s: Seq<Workspace>, id: WorkspaceId, j: int)
    requires
        0 <= j < s.len(),
        s[j].id == id,
    ensures
        ws_index(s, id) is Some,
{
    lemma_ws_index(s, id);
}

impl WindowManager {
    pub open spec fn wf(&self) -> bool {
        wm_wf(self.workspaces@, self.focused_workspace_id)
    }

    pub fn new() -> (wm: Self)
        ensures
            wm.workspaces@.len() == 1,
            is_fresh_workspace(wm.workspaces@[0], WorkspaceId(1)),
            wm.focused_workspace_id == WorkspaceId(1),
            wm.wf(),
    {
        let ws = Workspace::new(WorkspaceId(1), "master_slave");
        let mut workspaces = Vec::new();
        workspaces.push(ws);
        proof {
            reveal_strlit("master_slave");
        }
        Self { workspaces, focused_workspace_id: WorkspaceId(1) }
    }

    pub(crate) fn find_ws(&self, id: WorkspaceId) -> (r: Option<usize>)
        ensures
            match r {
                Some(i) => ws_index(self.workspaces@, id) == Some(i as int),
                None => ws_index(self.workspaces@, id) is None,
            },
    {
        let mut i: usize = 0;
        while i < self.workspaces.len()
            invariant
                i <= self.workspaces@.len(),
                ws_index(self.workspaces@.take(i as int), id) is None,
            decreases self.workspaces@.len() - i,
        {
            assert(self.workspaces@.take(i as int + 1).drop_last() == self.workspaces@.take(i as int));
            if self.workspaces[i].id == id {
                proof { lemma_ws_index_prefix(self.workspaces@, id, i as int + 1); }
                return Some(i);
            }
            i += 1;
        }
        assert(self.workspaces@.take(self.workspaces@.len() as int) == self.workspaces@);
        None
    }

    pub fn get_ws_by_id(&self, id: WorkspaceId) -> (r: Option<&Workspace>)
        ensures
            match ws_index(self.workspaces@, id) {
                Some(i) => r == Some(&self.workspaces@[i]),
                None => r is None,
            },
    {
        match self.find_ws(id) {
            Some(i) => {
                proof { lemma_ws_index(self.workspaces@, id); }
                Some(&self.workspaces[i])
            },
            None => None,
        }
    }

    pub fn get_focused_workspace(&self) -> (r: &Workspace)
        requires
            ws_index(self.workspaces@, self.focused_workspace_id) is Some,
        ensures
            *r == self.workspaces@[ws_index(self.workspaces@, self.focused_workspace_id)->0],
    {
        proof { lemma_ws_index(self.workspaces@, self.focused_workspace_id); }
        let i = self.find_ws(self.focused_workspace_id).unwrap();
        &self.workspaces[i]
    }

    /// Whether some workspace holds the window `id`.
    pub fn has_window(&self, id: WindowId) -> (r: bool)
        ensures
            r == exists|i: int| 0 <= i < self.workspaces@.len() && holds_window((#[trigger] self.workspaces@[i]).graph@, id),
    {
        let mut i: usize = 0;
        while i < self.workspaces.len()
            invariant
                i <= self.workspaces@.len(),
                forall|j: int| 0 <= j < i ==> !holds_window((#[trigger] self.workspaces@[j]).graph@, id),
            decreases self.workspaces@.len() - i,
        {
            if self.workspaces[i].has_window(id) {
                return true;
            }
            i += 1;
        }
        false
    }

    /// Removes the first workspace with id `id`.
    fn remove_workspace(&mut self, id: WorkspaceId)
        ensures
            final(self).focused_workspace_id == old(self).focused_workspace_id,
            final(self).workspaces@ == match ws_index(old(self).workspaces@, id) {
                Some(i) => old(self).workspaces@.remove(i),
                None => old(self).workspaces@,
            },
    {
        match self.find_ws(id) {
            Some(i) => {
                proof { lemma_ws_index(self.workspaces@, id); }
                self.workspaces.remove(i);
            },
            None => {},
        }
    }

    /// Makes `id` the focused workspace (creating it where it does not exist)
    /// and drops the old focused workspace where it holds nothing. The answer
    /// names the workspaces whose windows are to be restored and minimized.
    pub fn change_workspace(&mut self, id: WorkspaceId) -> (r: WorkspaceChange)
        requires
            old(self).wf(),
        ensures
            final(self).wf(),
            changed_to(old(self).workspaces@, old(self).focused_workspace_id, id,
                final(self).workspaces@, final(self).focused_workspace_id, r),
    {
        if self.focused_workspace_id == id {
            return WorkspaceChange { shown: None, hidden: None };
        }
        let ghost old_ws = self.workspaces@;
        proof {
            lemma_ws_index(old_ws, id);
            lemma_ws_index(old_ws, self.focused_workspace_id);
        }
        let shown = match self.find_ws(id) {
            Some(_) => Some(id),
            None => {
                let ws = Workspace::new(id, "master_slave");
                proof { reveal_strlit("master_slave"); }
                self.workspaces.push(ws);
                None
            },
        };
        let ghost s1 = self.workspaces@;
        proof {
            assert(s1.take(old_ws.len() as int) =~= old_ws);
            assert forall|j: int| 0 <= j < old_ws.len() implies s1[j] == old_ws[j] by {
                assert(s1.take(old_ws.len() as int)[j] == s1[j]);
            }
            lemma_ws_index(s1, self.focused_workspace_id);
            lemma_ws_index_some(s1, id, if ws_index(old_ws, id) is Some { ws_index(old_ws, id)->0 } else { s1.len() - 1 });
            lemma_ws_index(s1, id);
        }
        let old_ws_id = self.focused_workspace_id;
        self.focused_workspace_id = id;
        let old_idx = self.find_ws(old_ws_id).unwrap();
        assert(old_idx == ws_index(old_ws, old_ws_id)->0);
        if self.workspaces[old_idx].is_empty() {
            self.remove_workspace(old_ws_id);
            proof {
                let s2 = self.workspaces@;
                let k = ws_index(s1, id)->0;
                assert(k != old_idx);
                let k2 = if k < old_idx { k } else { k - 1 };
                assert(s2[k2] == s1[k]);
                lemma_ws_index_some(s2, id, k2);
                assert forall|a: int, c: int| 0 <= a < s2.len() && 0 <= c < s2.len()
                    && (#[trigger] s2[a]).id == (#[trigger] s2[c]).id implies a == c by {
                    let a1 = if a < old_idx { a } else { a + 1 };
                    let c1 = if c < old_idx { c } else { c + 1 };
                    assert(s2[a] == s1[a1]);
                    assert(s2[c] == s1[c1]);
                }
                assert forall|a: int| 0 <= a < s2.len() implies ws_graph_wf((#[trigger] s2[a]).graph@) by {
                    let a1 = if a < old_idx { a } else { a + 1 };
                    assert(s2[a] == s1[a1]);
                }
            }
            WorkspaceChange { shown, hidden: None }
        } else {
            WorkspaceChange { shown, hidden: Some(old_ws_id) }
        }
    }

    /// Focuses the window `id` in the first workspace that holds it and makes
    /// that workspace the focused one. Nothing, where no workspace holds it.
    pub fn focus_window(&mut self, id: WindowId) -> (r: Option<WorkspaceChange>)
        requires
            old(self).wf(),
        ensures
            final(self).wf(),
            r is Some <==> exists|i: int| 0 <= i < old(self).workspaces@.len()
                && holds_window((#[trigger] old(self).workspaces@[i]).graph@, id),
            r is None ==> final(self).workspaces@ == old(self).workspaces@
                && final(self).focused_workspace_id == old(self).focused_workspace_id,
            r matches Some(change) ==> window_focused(old(self).workspaces@, old(self).focused_workspace_id, id,
                final(self).workspaces@, final(self).focused_workspace_id, change),
            r is Some ==> focused_window(final(self).workspaces@[
                ws_index(final(self).workspaces@, final(self).focused_workspace_id)->0].graph@) == Some(id),
    {
        let mut i: usize = 0;
        while i < self.workspaces.len()
            invariant
                i <= self.workspaces@.len(),
                self.workspaces@ == old(self).workspaces@,
                self.focused_workspace_id == old(self).focused_workspace_id,
                self.wf(),
                forall|j: int| 0 <= j < i ==> !holds_window((#[trigger] self.workspaces@[j]).graph@, id),
            decreases self.workspaces@.len() - i,
        {
            if self.workspaces[i].has_window(id) {
                let ghost before = self.workspaces@;
                let ws_id = self.workspaces[i].id;
                let res = self.workspaces[i].focus_window(id);
                let ghost w = self.workspaces@[i as int];
                proof {
                    assert(self.workspaces@ == before.update(i as int, w));
                    let s = self.workspaces@;
                    assert forall|a: int, c: int| 0 <= a < s.len() && 0 <= c < s.len()
                        && (#[trigger] s[a]).id == (#[trigger] s[c]).id implies a == c by {
                        assert(before[a].id == s[a].id && before[c].id == s[c].id);
                    }
                    lemma_ws_index(before, self.focused_workspace_id);
                    let fi = ws_index(before, self.focused_workspace_id)->0;
                    assert(s[fi].id == before[fi].id);
                    lemma_ws_index_some(s, self.focused_workspace_id, fi);
                    assert(self.wf());
                }
                let change = self.change_workspace(ws_id);
                proof {
                    let s = before.update(i as int, w);
                    lemma_changed_to_focus(s, old(self).focused_workspace_id, ws_id,
                        self.workspaces@, self.focused_workspace_id, change, i as int);
                    let n = choose|n: usize| before[i as int].graph@.nodes.contains_key(n)
                        && before[i as int].graph@.nodes[n] == GraphNode::Window(id)
                        && w.graph@ == focus_node_result(before[i as int].graph@, n);
                    assert(node_focused(before[i as int], n, w));
                    assert(window_focused(old(self).workspaces@, old(self).focused_workspace_id, id,
                        self.workspaces@, self.focused_workspace_id, change));
                }
                return Some(change);
            }
            i += 1;
        }
        None
    }

    /// The focused workspace, to be changed in place.
    pub fn get_focused_workspace_mut(&mut self) -> (r: &mut Workspace)
        requires
            ws_index(old(self).workspaces@, old(self).focused_workspace_id) is Some,
        ensures
            ({
                let i = ws_index(old(self).workspaces@, old(self).focused_workspace_id)->0;
                &&& *r == old(self).workspaces@[i]
                &&& final(self).workspaces@ == old(self).workspaces@.update(i, *final(r))
                &&& final(self).focused_workspace_id == old(self).focused_workspace_id
            }),
    {
        proof { lemma_ws_index(self.workspaces@, self.focused_workspace_id); }
        let i = self.find_ws(self.focused_workspace_id).unwrap();
        &mut self.workspaces[i]
    }

    /// The workspace with id `id`, to be changed in place.
    pub fn get_ws_by_id_mut(&mut self, id: WorkspaceId) -> (r: Option<&mut Workspace>)
        ensures
            final(self).focused_workspace_id == old(self).focused_workspace_id,
            match ws_index(old(self).workspaces@, id) {
                Some(i) => r is Some && *r.unwrap() == old(self).workspaces@[i]
                    && final(self).workspaces@ == old(self).workspaces@.update(i, *final(r.unwrap())),
                None => r is None && final(self).workspaces@ == old(self).workspaces@,
            },
    {
        match self.find_ws(id) {
            Some(i) => {
                proof { lemma_ws_index(self.workspaces@, id); }
                Some(&mut self.workspaces[i])
            },
            None => None,
        }
    }

    /// Drops all workspaces but a new workspace 1, which becomes the focused one.
    pub fn cleanup(&mut self)
        ensures
            final(self).workspaces@.len() == 1,
            is_fresh_workspace(final(self).workspaces@[0], WorkspaceId(1)),
            final(self).focused_workspace_id == WorkspaceId(1),
            final(self).wf(),
    {
        *self = WindowManager::new();
    }

    /// Only lays out the focused workspace.
    pub fn render(&self, config: &Config, area: Area) -> (r: Vec<(WindowId, Area)>)
        requires
            self.wf(),
            ({
                let ws = self.workspaces@[ws_index(self.workspaces@, self.focused_workspace_id)->0];
                render_ok(ws.state, ws.graph@, area, config.outer_gap as int, config.inner_gap as int)
            }),
        ensures
            ({
                let ws = self.workspaces@[ws_index(self.workspaces@, self.focused_workspace_id)->0];
                r@ == render_layout(ws.state, ws.graph@, area, config.outer_gap as int, config.inner_gap as int)
            }),
    {
        proof { lemma_ws_index(self.workspaces@, self.focused_workspace_id); }
        self.get_focused_workspace().render(config, area)
    }

    /// What `organize` does once the layout function has run on the workspace
    /// `ws_id` (else the focused one): where the layout changed the graph, the
    /// workspace is laid out anew in `area` and its graph marked as handled;
    /// the answer is then the windows and their new areas.
    pub fn finish_organize(&mut self, ws_id: Option<WorkspaceId>, config: &Config, area: Area)
        -> (r: Option<Vec<(WindowId, Area)>>)
        requires
            old(self).wf(),
            ws_index(old(self).workspaces@, layout_target(*old(self), ws_id)) is Some,
            ({
                let ws = old(self).workspaces@[ws_index(old(self).workspaces@, layout_target(*old(self), ws_id))->0];
                ws.graph@.dirty ==> render_ok(ws.state, ws.graph@, area, config.outer_gap as int, config.inner_gap as int)
            }),
        ensures
            final(self).wf(),
            final(self).focused_workspace_id == old(self).focused_workspace_id,
            ({
                let i = ws_index(old(self).workspaces@, layout_target(*old(self), ws_id))->0;
                let ws = old(self).workspaces@[i];
                let nw = final(self).workspaces@[i];
                if ws.graph@.dirty {
                    &&& r matches Some(v) && v@ == render_layout(ws.state, ws.graph@, area,
                        config.outer_gap as int, config.inner_gap as int)
                    &&& final(self).workspaces@ == old(self).workspaces@.update(i, nw)
                    &&& nw.graph@ == GraphView { dirty: false, ..ws.graph@ }
                    &&& nw.id == ws.id && nw.state == ws.state
                    &&& nw.display_name@ == ws.display_name@ && nw.layout_name@ == ws.layout_name@
                } else {
                    &&& r is None
                    &&& final(self).workspaces@ == old(self).workspaces@
                }
            }),
    {
        let target = match ws_id {
            Some(id) => id,
            None => self.focused_workspace_id,
        };
        let ghost s0 = self.workspaces@;
        let ghost focused = self.focused_workspace_id;
        proof { lemma_ws_index(self.workspaces@, target); }
        let ws = self.get_ws_by_id_mut(target).unwrap();
        if ws.graph.dirty {
            let placements = ws.render(config, area);
            ws.graph.dirty = false;
            proof {
                let i = ws_index(s0, target)->0;
                let g0 = s0[i].graph@;
                let (lvl, b) = choose|lvl: Map<usize, nat>, b: nat| levels_ok(g0, lvl, b);
                assert(levels_ok(ws.graph@, lvl, b));
                lemma_update_keeps_wf(s0, focused, i, *ws);
            }
            Some(placements)
        } else {
            proof {
                let i = ws_index(s0, target)->0;
                assert(s0.update(i, s0[i]) =~= s0);
            }
            None
        }
    }
}

/// The workspace that a run of the layout function works on: the one named,
/// else the focused one.
pub open spec fn layout_target(wm: WindowManager, ws_id: Option<WorkspaceId>) -> WorkspaceId {
    match ws_id {
        Some(id) => id,
        None => wm.focused_workspace_id,
    }
}

pub proof fn lemma_ws_index_prefix(s: Seq<Workspace>, id: WorkspaceId, k: int)
    requires
        0 < k <= s.len(),
        ws_index(s.take(k - 1), id) is None,
        s[k - 1].id == id,
    ensures
        ws_index(s, id) == Some(k - 1),
    decreases s.len(),
{
    assert(s.take(k).drop_last() == s.take(k - 1));
    if s.len() == k {
        assert(s.take(k) == s);
    } else {
        let d = s.drop_last();
        assert(d.take(k) == s.take(k));
        assert(d.take(k - 1) == s.take(k - 1));
        lemma_ws_index_prefix(d, id, k);
    }
}

} // verus!
