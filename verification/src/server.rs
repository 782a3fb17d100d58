//! What the nog server tells its clients about its state.
use vstd::prelude::*;
use crate::graph::GraphView;
use crate::protocol;
use crate::text::{push_str, string_from_chars};
use crate::window_manager::WindowManager;
use crate::workspace::{focused_window, lemma_focused_child_is_window, ws_graph_wf, Workspace};

verus! {

/// `ids` are the windows of the graph, one for each window node, in some order.
pub open spec fn lists_windows(g: GraphView, ids: Seq<usize>) -> bool {
    exists|ks: Seq<usize>| {
        &&& ks.no_duplicates()
        &&& forall|k: usize| #[trigger] ks.contains(k) <==> (g.nodes.contains_key(k) && g.nodes[k] is Window)
        &&& ids.len() == ks.len()
        &&& forall|i: int| 0 <= i < ks.len() ==> #[trigger] ids[i] == g.nodes[ks[i]]->Window_0.0
    }
}

pub open spec fn window_ids(ws: Seq<protocol::Window>) -> Seq<usize> {
    ws.map_values(|w: protocol::Window| w.id)
}

/// A workspace as the server describes it: its id, its layout, its focused
/// window and its windows.
pub open spec fn describes_workspace(p: protocol::Workspace, ws: Workspace) -> bool {
    &&& p.id == ws.id.0
    &&& p.layout@ == ws.layout_name@
    &&& p.focused_window_id == match focused_window(ws.graph@) {
        Some(w) => Some(w.0),
        None => None::<usize>,
    }
    &&& lists_windows(ws.graph@, window_ids(p.windows@))
}

fn copy_string(s: &String) -> (r: String)
    ensures
        r@ == s@,
{
    let mut r = string_from_chars(&[]);
    push_str(&mut r, s.as_str());
    r
}

/// The description of a workspace whose graph is a well-formed tree.
pub fn workspace_state(ws: &Workspace) -> (r: protocol::Workspace)
    requires
        ws_graph_wf(ws.graph@),
    ensures
        describes_workspace(r, *ws),
{
    proof { lemma_focused_child_is_window(ws.graph@); }
    let focused_window_id = match ws.get_focused_win() {
        Some(w) => Some(w.0),
        None => None,
    };
    let ids = ws.windows();
    let mut windows: Vec<protocol::Window> = Vec::new();
    let mut i: usize = 0;
    while i < ids.len()
        invariant
            i <= ids@.len(),
            windows@.len() == i,
            forall|j: int| 0 <= j < i ==> #[trigger] windows@[j].id == ids@[j].0,
        decreases ids@.len() - i,
    {
        windows.push(protocol::Window { id: ids[i].0 });
        i += 1;
    }
    let r = protocol::Workspace { id: ws.id.0, layout: copy_string(&ws.layout_name), focused_window_id, windows };
    proof {
        let ks = choose|ks: Seq<usize>| {
            &&& ks.no_duplicates()
            &&& forall|k: usize| #[trigger] ks.contains(k) <==> (ws.graph@.nodes.contains_key(k) && ws.graph@.nodes[k] is Window)
            &&& ids@ == ks.map_values(|k: usize| ws.graph@.nodes[k]->Window_0)
        };
        assert forall|j: int| 0 <= j < ks.len() implies #[trigger] window_ids(r.windows@)[j] == ws.graph@.nodes[ks[j]]->Window_0.0 by {
            assert(ids@[j] == ws.graph@.nodes[ks[j]]->Window_0);
        }
    }
    r
}

/// The description of a display with the id `id` on the monitor `monitor_id`.
pub fn display_state(id: &str, monitor_id: usize, wm: &WindowManager) -> (r: protocol::Display)
    requires
        wm.wf(),
    ensures
        r.id@ == id@,
        r.monitor_id == monitor_id,
        r.focused_workspace_id == wm.focused_workspace_id.0,
        r.workspaces@.len() == wm.workspaces@.len(),
        forall|j: int| 0 <= j < wm.workspaces@.len() ==> describes_workspace(#[trigger] r.workspaces@[j], wm.workspaces@[j]),
{
    let mut workspaces: Vec<protocol::Workspace> = Vec::new();
    let mut i: usize = 0;
    while i < wm.workspaces.len()
        invariant
            i <= wm.workspaces@.len(),
            wm.wf(),
            workspaces@.len() == i,
            forall|j: int| 0 <= j < i ==> describes_workspace(#[trigger] workspaces@[j], wm.workspaces@[j]),
        decreases wm.workspaces@.len() - i,
    {
        assert(ws_graph_wf(wm.workspaces@[i as int].graph@));
        workspaces.push(workspace_state(&wm.workspaces[i]));
        i += 1;
    }
    let mut name = string_from_chars(&[]);
    push_str(&mut name, id);
    protocol::Display { id: name, monitor_id, focused_workspace_id: wm.focused_workspace_id.0, workspaces }
}

} // verus!
