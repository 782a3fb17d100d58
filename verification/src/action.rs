//! What nog can be asked to do, how those requests are written in its log,
//! and what a workspace request changes in the window manager.
use vstd::prelude::*;
use crate::config::Config;
use crate::direction::{spec_direction_name, Direction};
use crate::key_combination::KeyCombination;
use crate::keybinding::KeybindingMode;
use crate::platform::WindowId;
use crate::text::{chars_of, decimal, push_str, spec_decimal, string_from_chars};
use crate::window_manager::{changed_to, node_focused, lemma_update_keeps_wf, lemma_ws_index, window_focused, ws_index, WindowManager, WorkspaceChange};
use crate::workspace::{direction_result, lemma_direction_ok, lemma_focus_node_effect, focused_window, holds_window, lemma_focused_child_is_window, ws_graph_wf, WorkspaceId, WorkspaceState};
use crate::graph::{focused_window_child, GraphNode};

verus! {

#[derive(Debug, Clone, Copy, PartialEq, Eq, Structural)]
pub enum WindowAction {
    Focus(WindowId),
    Manage(Option<WorkspaceId>, Option<WindowId>),
    Unmanage(Option<WindowId>),
    Close(Option<WindowId>),
    Minimize(Option<WindowId>),
}

#[derive(Debug, Clone, Copy, PartialEq, Eq, Structural)]
pub enum WorkspaceAction {
    Change(WorkspaceId),
    SetFullscreen(Option<WorkspaceId>, bool),
    Focus(Option<WorkspaceId>, Direction),
    Swap(Option<WorkspaceId>, Direction),
}

/// A request to nog. Updating the config and running Lua code also carry a
/// callback, which the program around the library keeps beside the request.
#[derive(Debug)]
pub enum Action {
    SaveSession,
    LoadSession,
    ShowTaskbars,
    HideTaskbars,
    ShowBars,
    HideBars,
    Window(WindowAction),
    Workspace(WorkspaceAction),
    UpdateConfig { key: String },
    CreateKeybinding { mode: KeybindingMode, key_combination: KeyCombination },
    RemoveKeybinding { key: String },
    ExecuteLua { code: String, capture_stdout: bool },
}

/// What running Lua code with its printing captured answers: what it printed,
/// a line break and (as the debug text) its value; its value alone where it
/// printed nothing.
pub open spec fn spec_captured_output(printed: Seq<char>, value: Seq<char>) -> Seq<char> {
    if printed.len() == 0 {
        value
    } else {
        printed + seq!['\n'] + value
    }
}

/// The answer to `ExecuteLua` with `capture_stdout`, from what the code
/// printed and the debug text of its value.
pub fn captured_output(printed: &str, value: &str) -> (r: String)
    ensures
        r@ == spec_captured_output(printed@, value@),
{
    let p = chars_of(printed);
    let mut r = string_from_chars(&[]);
    if p.len() > 0 {
        push_str(&mut r, printed);
        let nl = string_from_chars(&['\n']);
        push_str(&mut r, nl.as_str());
    }
    push_str(&mut r, value);
    assert(r@ =~= spec_captured_output(printed@, value@));
    r
}

/// How `Option<WorkspaceId>` is written for debugging.
pub open spec fn workspace_id_text(o: Option<WorkspaceId>) -> Seq<char> {
    match o {
        Some(id) => seq!['S', 'o', 'm', 'e', '(', 'W', 'o', 'r', 'k', 's', 'p', 'a', 'c', 'e', 'I', 'd', '('] + spec_decimal(id.0 as nat) + seq![')', ')'],
        None => seq!['N', 'o', 'n', 'e'],
    }
}

/// How `Option<WindowId>` is written for debugging.
pub open spec fn window_id_text(o: Option<WindowId>) -> Seq<char> {
    match o {
        Some(id) => seq!['S', 'o', 'm', 'e', '(', 'W', 'i', 'n', 'd', 'o', 'w', 'I', 'd', '('] + spec_decimal(id.0 as nat) + seq![')', ')'],
        None => seq!['N', 'o', 'n', 'e'],
    }
}

pub open spec fn bool_text(b: bool) -> Seq<char> {
    if b { seq!['t', 'r', 'u', 'e'] } else { seq!['f', 'a', 'l', 's', 'e'] }
}

/// How a window request is written in the log.
pub open spec fn window_action_text(a: WindowAction) -> Seq<char> {
    match a {
        WindowAction::Focus(id) => seq!['W', 'i', 'n', 'd', 'o', 'w', 'A', 'c', 't', 'i', 'o', 'n', ':', ':', 'F', 'o', 'c', 'u', 's', '('] + spec_decimal(id.0 as nat) + seq![')'],
        WindowAction::Manage(ws, id) => seq!['W', 'i', 'n', 'd', 'o', 'w', 'A', 'c', 't', 'i', 'o', 'n', ':', ':', 'M', 'a', 'n', 'a', 'g', 'e', '('] + workspace_id_text(ws) + seq![',', ' '] + window_id_text(id) + seq![')'],
        WindowAction::Unmanage(id) => seq!['W', 'i', 'n', 'd', 'o', 'w', 'A', 'c', 't', 'i', 'o', 'n', ':', ':', 'U', 'n', 'm', 'a', 'n', 'a', 'g', 'e', '('] + window_id_text(id) + seq![')'],
        WindowAction::Close(id) => seq!['W', 'i', 'n', 'd', 'o', 'w', 'A', 'c', 't', 'i', 'o', 'n', ':', ':', 'C', 'l', 'o', 's', 'e', '('] + window_id_text(id) + seq![')'],
        WindowAction::Minimize(id) => seq!['W', 'i', 'n', 'd', 'o', 'w', 'A', 'c', 't', 'i', 'o', 'n', ':', ':', 'M', 'i', 'n', 'i', 'm', 'i', 'z', 'e', '('] + window_id_text(id) + seq![')'],
    }
}

/// How a workspace request is written in the log.
pub open spec fn workspace_action_text(a: WorkspaceAction) -> Seq<char> {
    match a {
        WorkspaceAction::Change(id) => seq!['W', 'o', 'r', 'k', 's', 'p', 'a', 'c', 'e', 'A', 'c', 't', 'i', 'o', 'n', ':', ':', 'C', 'h', 'a', 'n', 'g', 'e', '('] + spec_decimal(id.0 as nat) + seq![')'],
        WorkspaceAction::SetFullscreen(id, v) => seq!['W', 'o', 'r', 'k', 's', 'p', 'a', 'c', 'e', 'A', 'c', 't', 'i', 'o', 'n', ':', ':', 'S', 'e', 't', 'F', 'u', 'l', 'l', 's', 'c', 'r', 'e', 'e', 'n', '('] + workspace_id_text(id) + seq![',', ' '] + bool_text(v) + seq![')'],
        WorkspaceAction::Focus(id, d) => seq!['W', 'o', 'r', 'k', 's', 'p', 'a', 'c', 'e', 'A', 'c', 't', 'i', 'o', 'n', ':', ':', 'F', 'o', 'c', 'u', 's', '('] + workspace_id_text(id) + seq![',', ' '] + spec_direction_name(d) + seq![')'],
        WorkspaceAction::Swap(id, d) => seq!['W', 'o', 'r', 'k', 's', 'p', 'a', 'c', 'e', 'A', 'c', 't', 'i', 'o', 'n', ':', ':', 'S', 'w', 'a', 'p', '('] + workspace_id_text(id) + seq![',', ' '] + spec_direction_name(d) + seq![')'],
    }
}

fn append(s: &mut String, cs: &[char])
    ensures
        final(s)@ == old(s)@ + cs@,
{
    let t = string_from_chars(cs);
    push_str(s, t.as_str());
}

fn append_workspace_id(s: &mut String, o: Option<WorkspaceId>)
    ensures
        final(s)@ == old(s)@ + workspace_id_text(o),
{
    match o {
        Some(id) => {
            let ghost s0 = s@;
            append(s, &['S', 'o', 'm', 'e', '(', 'W', 'o', 'r', 'k', 's', 'p', 'a', 'c', 'e', 'I', 'd', '(']);
            let d = decimal(id.0);
            push_str(s, d.as_str());
            append(s, &[')', ')']);
            assert(s@ =~= s0 + workspace_id_text(o));
        },
        None => {
            append(s, &['N', 'o', 'n', 'e']);
        },
    }
}

fn append_window_id(s: &mut String, o: Option<WindowId>)
    ensures
        final(s)@ == old(s)@ + window_id_text(o),
{
    match o {
        Some(id) => {
            let ghost s0 = s@;
            append(s, &['S', 'o', 'm', 'e', '(', 'W', 'i', 'n', 'd', 'o', 'w', 'I', 'd', '(']);
            let d = decimal(id.0);
            push_str(s, d.as_str());
            append(s, &[')', ')']);
            assert(s@ =~= s0 + window_id_text(o));
        },
        None => {
            append(s, &['N', 'o', 'n', 'e']);
        },
    }
}

/// The window that an `Unmanage` request lets go of: the one it names, else
/// the focused window of the focused workspace; and only where the focused
/// workspace holds that window.
pub open spec fn unmanage_target_of(wm: WindowManager, maybe_id: Option<WindowId>) -> Option<WindowId> {
    let g = wm.workspaces@[ws_index(wm.workspaces@, wm.focused_workspace_id)->0].graph@;
    let w = match maybe_id {
        Some(id) => Some(id),
        None => focused_window(g),
    };
    match w {
        Some(id) => if holds_window(g, id) { Some(id) } else { None },
        None => None,
    }
}

/// The workspace that `Manage(ws_id, _)` puts a window into: the one named,
/// else the focused workspace.
pub open spec fn manage_target_of(wm: WindowManager, ws_id: Option<WorkspaceId>) -> WorkspaceId {
    match ws_id {
        Some(id) => id,
        None => wm.focused_workspace_id,
    }
}

/// `Manage` takes on a window only where it exists and the target workspace
/// does not hold it yet (a target workspace that does not exist yet is made,
/// holding nothing).
pub open spec fn manages_window(wm: WindowManager, ws_id: WorkspaceId, win: WindowId, win_exists: bool) -> bool {
    &&& win_exists
    &&& match ws_index(wm.workspaces@, ws_id) {
        Some(i) => !holds_window(wm.workspaces@[i].graph@, win),
        None => true,
    }
}

impl WindowAction {
    /// The workspace that `Manage(ws_id, _)` puts a window into.
    pub fn manage_target(ws_id: Option<WorkspaceId>, wm: &WindowManager) -> (r: WorkspaceId)
        ensures
            r == manage_target_of(*wm, ws_id),
    {
        match ws_id {
            Some(id) => id,
            None => wm.focused_workspace_id,
        }
    }

    /// Whether `Manage` takes on the window `win` in the workspace `ws_id`,
    /// where `win_exists` tells whether the window still exists.
    pub fn manages(wm: &WindowManager, ws_id: WorkspaceId, win: WindowId, win_exists: bool) -> (r: bool)
        ensures
            r == manages_window(*wm, ws_id, win, win_exists),
    {
        if !win_exists {
            return false;
        }
        match wm.get_ws_by_id(ws_id) {
            Some(ws) => !ws.has_window(win),
            None => true,
        }
    }

    /// The window that `Unmanage(maybe_id)` lets go of, if any.
    pub fn unmanage_target(maybe_id: Option<WindowId>, wm: &WindowManager) -> (r: Option<WindowId>)
        requires
            wm.wf(),
        ensures
            r == unmanage_target_of(*wm, maybe_id),
    {
        proof { lemma_ws_index(wm.workspaces@, wm.focused_workspace_id); }
        let workspace = wm.get_focused_workspace();
        proof { lemma_focused_child_is_window(workspace.graph@); }
        let win = match maybe_id {
            Some(id) => Some(id),
            None => workspace.get_focused_win(),
        };
        match win {
            Some(id) => if workspace.has_window(id) { Some(id) } else { None },
            None => None,
        }
    }

    /// The request as the log writes it (what `Display` writes).
    pub fn to_string(&self) -> (r: String)
        ensures
            r@ == window_action_text(*self),
    {
        let mut s = string_from_chars(&[]);
        match *self {
            WindowAction::Focus(id) => {
                append(&mut s, &['W', 'i', 'n', 'd', 'o', 'w', 'A', 'c', 't', 'i', 'o', 'n', ':', ':', 'F', 'o', 'c', 'u', 's', '(']);
                let d = decimal(id.0);
                push_str(&mut s, d.as_str());
            },
            WindowAction::Manage(ws, id) => {
                append(&mut s, &['W', 'i', 'n', 'd', 'o', 'w', 'A', 'c', 't', 'i', 'o', 'n', ':', ':', 'M', 'a', 'n', 'a', 'g', 'e', '(']);
                append_workspace_id(&mut s, ws);
                append(&mut s, &[',', ' ']);
                append_window_id(&mut s, id);
            },
            WindowAction::Unmanage(id) => {
                append(&mut s, &['W', 'i', 'n', 'd', 'o', 'w', 'A', 'c', 't', 'i', 'o', 'n', ':', ':', 'U', 'n', 'm', 'a', 'n', 'a', 'g', 'e', '(']);
                append_window_id(&mut s, id);
            },
            WindowAction::Close(id) => {
                append(&mut s, &['W', 'i', 'n', 'd', 'o', 'w', 'A', 'c', 't', 'i', 'o', 'n', ':', ':', 'C', 'l', 'o', 's', 'e', '(']);
                append_window_id(&mut s, id);
            },
            WindowAction::Minimize(id) => {
                append(&mut s, &['W', 'i', 'n', 'd', 'o', 'w', 'A', 'c', 't', 'i', 'o', 'n', ':', ':', 'M', 'i', 'n', 'i', 'm', 'i', 'z', 'e', '(']);
                append_window_id(&mut s, id);
            },
        }
        append(&mut s, &[')']);
        assert(s@ =~= window_action_text(*self));
        s
    }
}

/// What the program around the library is to do after a workspace request.
#[derive(Debug)]
pub enum WorkspaceActionEffect {
    /// Nothing.
    Done,
    /// The focused workspace changed: restore and minimize windows as it says.
    Changed(WorkspaceChange),
    /// The window was focused in the window manager: do as the change says and
    /// focus the window on the screen.
    Focused(WorkspaceChange, WindowId),
    /// Handle this request next.
    Dispatch(Action),
    /// Let the layout swap this window with its neighbour in this direction.
    Swap(WindowId, Direction),
}

impl WorkspaceAction {
    /// The request as the log writes it (what `Display` writes).
    pub fn to_string(&self) -> (r: String)
        ensures
            r@ == workspace_action_text(*self),
    {
        let mut s = string_from_chars(&[]);
        match *self {
            WorkspaceAction::Change(id) => {
                append(&mut s, &['W', 'o', 'r', 'k', 's', 'p', 'a', 'c', 'e', 'A', 'c', 't', 'i', 'o', 'n', ':', ':', 'C', 'h', 'a', 'n', 'g', 'e', '(']);
                let d = decimal(id.0);
                push_str(&mut s, d.as_str());
            },
            WorkspaceAction::SetFullscreen(id, v) => {
                append(&mut s, &['W', 'o', 'r', 'k', 's', 'p', 'a', 'c', 'e', 'A', 'c', 't', 'i', 'o', 'n', ':', ':', 'S', 'e', 't', 'F', 'u', 'l', 'l', 's', 'c', 'r', 'e', 'e', 'n', '(']);
                append_workspace_id(&mut s, id);
                append(&mut s, &[',', ' ']);
                if v {
                    append(&mut s, &['t', 'r', 'u', 'e']);
                } else {
                    append(&mut s, &['f', 'a', 'l', 's', 'e']);
                }
            },
            WorkspaceAction::Focus(id, d) => {
                append(&mut s, &['W', 'o', 'r', 'k', 's', 'p', 'a', 'c', 'e', 'A', 'c', 't', 'i', 'o', 'n', ':', ':', 'F', 'o', 'c', 'u', 's', '(']);
                append_workspace_id(&mut s, id);
                append(&mut s, &[',', ' ']);
                let n = d.to_string();
                push_str(&mut s, n.as_str());
            },
            WorkspaceAction::Swap(id, d) => {
                append(&mut s, &['W', 'o', 'r', 'k', 's', 'p', 'a', 'c', 'e', 'A', 'c', 't', 'i', 'o', 'n', ':', ':', 'S', 'w', 'a', 'p', '(']);
                append_workspace_id(&mut s, id);
                append(&mut s, &[',', ' ']);
                let n = d.to_string();
                push_str(&mut s, n.as_str());
            },
        }
        append(&mut s, &[')']);
        assert(s@ =~= workspace_action_text(*self));
        s
    }

    /// Carries out the request on the window manager of the display it
    /// concerns and says what is left to do outside of it.
    ///
    /// `Change` focuses the focused window of the workspace where the workspace
    /// exists (and does nothing where it has none), and makes a new focused
    /// workspace where it does not; `SetFullscreen` sets the state of
    /// workspace 1, whichever workspace it names; `Focus` moves the focus in the
    /// focused workspace and asks for the newly focused window to be focused;
    /// `Swap` asks the layout to swap the focused window.
    pub fn apply(self, wm: &mut WindowManager) -> (r: WorkspaceActionEffect)
        requires
            old(wm).wf(),
        ensures
            final(wm).wf(),
            match self {
                WorkspaceAction::Change(id) => change_effect(*old(wm), id, *final(wm), r),
                WorkspaceAction::SetFullscreen(_, v) => fullscreen_effect(*old(wm), v, *final(wm), r),
                WorkspaceAction::Focus(_, dir) => focus_effect(*old(wm), dir, *final(wm), r),
                WorkspaceAction::Swap(_, dir) => swap_effect(*old(wm), dir, *final(wm), r),
            },
    {
        match self {
            WorkspaceAction::Change(id) => change_to(wm, id),
            WorkspaceAction::SetFullscreen(_, value) => set_fullscreen(wm, value),
            WorkspaceAction::Focus(_, dir) => focus_in_direction(wm, dir),
            WorkspaceAction::Swap(_, dir) => swap_in_direction(wm, dir),
        }
    }
}

/// With `ignore_fullscreen_actions` set, nog does not respond to a request to
/// move the focus or to swap while the focused workspace is fullscreen.
pub open spec fn spec_ignores_action(config: Config, wm: WindowManager, a: WorkspaceAction) -> bool {
    &&& config.ignore_fullscreen_actions
    &&& (a is Focus || a is Swap)
    &&& wm.workspaces@[ws_index(wm.workspaces@, wm.focused_workspace_id)->0].state == WorkspaceState::Fullscreen
}

/// Whether nog leaves the request `a` unanswered (see `spec_ignores_action`);
/// the request is applied only where this is `false`.
pub fn ignores_action(config: &Config, wm: &WindowManager, a: &WorkspaceAction) -> (r: bool)
    requires
        wm.wf(),
    ensures
        r == spec_ignores_action(*config, *wm, *a),
{
    if !config.ignore_fullscreen_actions {
        return false;
    }
    match a {
        WorkspaceAction::Focus(..) | WorkspaceAction::Swap(..) => {
            proof { lemma_ws_index(wm.workspaces@, wm.focused_workspace_id); }
            wm.get_focused_workspace().state == WorkspaceState::Fullscreen
        },
        _ => false,
    }
}

/// Changing to workspace `id`: where it exists and has a focused window, that
/// window is focused (and its workspace becomes the focused one); where it
/// exists without one, nothing happens; where it does not exist, it is made
/// and becomes the focused workspace.
pub open spec fn change_effect(old_wm: WindowManager, id: WorkspaceId, new_wm: WindowManager, r: WorkspaceActionEffect) -> bool {
    match ws_index(old_wm.workspaces@, id) {
        Some(i) => match focused_window(old_wm.workspaces@[i].graph@) {
            Some(w) => r matches WorkspaceActionEffect::Focused(c, w2) && w2 == w
                && window_focused(old_wm.workspaces@, old_wm.focused_workspace_id, w,
                    new_wm.workspaces@, new_wm.focused_workspace_id, c),
            None => r is Done && new_wm.workspaces@ == old_wm.workspaces@
                && new_wm.focused_workspace_id == old_wm.focused_workspace_id,
        },
        None => r matches WorkspaceActionEffect::Changed(c)
            && changed_to(old_wm.workspaces@, old_wm.focused_workspace_id, id,
                new_wm.workspaces@, new_wm.focused_workspace_id, c),
    }
}

/// Setting fullscreen: workspace 1, where it exists, takes the state; nothing
/// else changes.
pub open spec fn fullscreen_effect(old_wm: WindowManager, v: bool, new_wm: WindowManager, r: WorkspaceActionEffect) -> bool {
    &&& r is Done
    &&& new_wm.focused_workspace_id == old_wm.focused_workspace_id
    &&& match ws_index(old_wm.workspaces@, WorkspaceId(1)) {
        Some(i) => {
            &&& new_wm.workspaces@.len() == old_wm.workspaces@.len()
            &&& forall|j: int| 0 <= j < old_wm.workspaces@.len() && j != i
                ==> new_wm.workspaces@[j] == old_wm.workspaces@[j]
            &&& new_wm.workspaces@[i].state == (if v { WorkspaceState::Fullscreen } else { WorkspaceState::Normal })
            &&& new_wm.workspaces@[i].id == old_wm.workspaces@[i].id
            &&& new_wm.workspaces@[i].graph == old_wm.workspaces@[i].graph
            &&& new_wm.workspaces@[i].layout_name == old_wm.workspaces@[i].layout_name
            &&& new_wm.workspaces@[i].display_name == old_wm.workspaces@[i].display_name
        },
        None => new_wm.workspaces@ == old_wm.workspaces@,
    }
}

/// Moving the focus: where the focused workspace has a window in direction
/// `dir` of its focused one, that window becomes focused there and is asked to
/// be focused on the screen; else nothing changes.
pub open spec fn focus_effect(old_wm: WindowManager, dir: Direction, new_wm: WindowManager, r: WorkspaceActionEffect) -> bool {
    let i = ws_index(old_wm.workspaces@, old_wm.focused_workspace_id)->0;
    let g = old_wm.workspaces@[i].graph@;
    &&& new_wm.focused_workspace_id == old_wm.focused_workspace_id
    &&& match direction_result(g, dir) {
        Some(n) => {
            &&& g.nodes.contains_key(n)
            &&& g.nodes[n] is Window
            &&& r == WorkspaceActionEffect::Dispatch(Action::Window(WindowAction::Focus(g.nodes[n]->Window_0)))
            &&& new_wm.workspaces@.len() == old_wm.workspaces@.len()
            &&& forall|j: int| 0 <= j < old_wm.workspaces@.len() && j != i
                ==> new_wm.workspaces@[j] == old_wm.workspaces@[j]
            &&& node_focused(old_wm.workspaces@[i], n, new_wm.workspaces@[i])
            &&& focused_window(new_wm.workspaces@[i].graph@) == Some(g.nodes[n]->Window_0)
        },
        None => r is Done && new_wm.workspaces@ == old_wm.workspaces@,
    }
}

/// Swapping: the focused window of the focused workspace, where it has one, is
/// to be swapped by the layout; the window manager stays as it is.
pub open spec fn swap_effect(old_wm: WindowManager, dir: Direction, new_wm: WindowManager, r: WorkspaceActionEffect) -> bool {
    let i = ws_index(old_wm.workspaces@, old_wm.focused_workspace_id)->0;
    &&& new_wm.workspaces@ == old_wm.workspaces@
    &&& new_wm.focused_workspace_id == old_wm.focused_workspace_id
    &&& match focused_window(old_wm.workspaces@[i].graph@) {
        Some(w) => r == WorkspaceActionEffect::Swap(w, dir),
        None => r is Done,
    }
}

fn change_to(wm: &mut WindowManager, id: WorkspaceId) -> (r: WorkspaceActionEffect)
    requires
        old(wm).wf(),
    ensures
        final(wm).wf(),
        change_effect(*old(wm), id, *final(wm), r),
{
    proof { lemma_ws_index(wm.workspaces@, id); }
    let focused = match wm.get_ws_by_id(id) {
        Some(ws) => {
            proof { lemma_focused_child_is_window(ws.graph@); }
            Some(ws.get_focused_win())
        },
        None => None,
    };
    match focused {
        Some(Some(w)) => {
            proof {
                let i = ws_index(wm.workspaces@, id)->0;
                let g = wm.workspaces@[i].graph@;
                let n = focused_window_child(g, 0)->0;
                assert(g.nodes.contains_key(n) && g.nodes[n] == GraphNode::Window(w));
                assert(holds_window(g, w));
            }
            match wm.focus_window(w) {
                Some(c) => WorkspaceActionEffect::Focused(c, w),
                None => WorkspaceActionEffect::Done,
            }
        },
        Some(None) => WorkspaceActionEffect::Done,
        None => WorkspaceActionEffect::Changed(wm.change_workspace(id)),
    }
}

fn set_fullscreen(wm: &mut WindowManager, value: bool) -> (r: WorkspaceActionEffect)
    requires
        old(wm).wf(),
    ensures
        final(wm).wf(),
        fullscreen_effect(*old(wm), value, *final(wm), r),
{
    proof { lemma_ws_index(wm.workspaces@, WorkspaceId(1)); }
    let ghost before = wm.workspaces@;
    match wm.get_ws_by_id_mut(WorkspaceId(1)) {
        Some(ws) => {
            ws.state = if value { WorkspaceState::Fullscreen } else { WorkspaceState::Normal };
        },
        None => {},
    }
    proof {
        if let Some(i) = ws_index(before, WorkspaceId(1)) {
            lemma_update_keeps_wf(before, wm.focused_workspace_id, i, wm.workspaces@[i]);
        }
    }
    WorkspaceActionEffect::Done
}

fn focus_in_direction(wm: &mut WindowManager, dir: Direction) -> (r: WorkspaceActionEffect)
    requires
        old(wm).wf(),
    ensures
        final(wm).wf(),
        focus_effect(*old(wm), dir, *final(wm), r),
{
    proof { lemma_ws_index(wm.workspaces@, wm.focused_workspace_id); }
    let ghost before = wm.workspaces@;
    let ghost i = ws_index(before, wm.focused_workspace_id)->0;
    let ghost f = wm.focused_workspace_id;
    let ghost g = before[i].graph@;
    proof { lemma_direction_ok(g, dir); }
    let ws = wm.get_focused_workspace_mut();
    let found = ws.focus_in_direction(dir);
    let r = match found {
        Some(id) => {
            proof { lemma_focus_node_effect(g, id); }
            let w = ws.graph.get_node(id).unwrap().try_get_window_id().unwrap();
            WorkspaceActionEffect::Dispatch(Action::Window(WindowAction::Focus(w)))
        },
        None => WorkspaceActionEffect::Done,
    };
    proof {
        lemma_update_keeps_wf(before, f, i, wm.workspaces@[i]);
        if direction_result(g, dir) is None {
            assert(wm.workspaces@ == before);
        }
    }
    r
}

fn swap_in_direction(wm: &mut WindowManager, dir: Direction) -> (r: WorkspaceActionEffect)
    requires
        old(wm).wf(),
    ensures
        final(wm).wf(),
        swap_effect(*old(wm), dir, *final(wm), r),
{
    proof { lemma_ws_index(wm.workspaces@, wm.focused_workspace_id); }
    let ws = wm.get_focused_workspace();
    proof { lemma_focused_child_is_window(ws.graph@); }
    match ws.get_focused_win() {
        Some(w) => WorkspaceActionEffect::Swap(w, dir),
        None => WorkspaceActionEffect::Done,
    }
}

} // verus!
