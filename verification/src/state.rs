//! The mode that nog is in, and how it finds its way among the displays: which
//! display holds a window or a workspace, and which one has the focus.
use vstd::prelude::*;
use crate::display::{Display, DisplayId};
use crate::platform::WindowId;
use crate::window_manager::ws_index;
use crate::workspace::{holds_window, WorkspaceId};

verus! {

#[derive(Debug, Clone, Copy, PartialEq, Eq, Structural)]
pub enum StateMode {
    Awake,
    Hibernating,
    Initializing,
}

impl StateMode {
    /// Whether nog reacts to window events.
    pub fn is_awake(&self) -> (r: bool)
        ensures
            r == (*self == StateMode::Awake),
    {
        *self == StateMode::Awake
    }
}

/// Some workspace of the display holds the window `w`.
pub open spec fn display_holds_window(d: Display, w: WindowId) -> bool {
    exists|i: int| 0 <= i < d.wm.workspaces@.len() && holds_window((#[trigger] d.wm.workspaces@[i]).graph@, w)
}

/// The display has a workspace with id `id`.
pub open spec fn display_has_workspace(d: Display, id: WorkspaceId) -> bool {
    ws_index(d.wm.workspaces@, id) is Some
}

/// `r` is the index of the first display that `p` holds of, or `None` where
/// it holds of none.
pub open spec fn first_display(ds: Seq<Display>, p: spec_fn(Display) -> bool, r: Option<usize>) -> bool {
    match r {
        Some(i) => i < ds.len() && p(ds[i as int]) && forall|j: int| 0 <= j < i ==> !p(#[trigger] ds[j]),
        None => forall|j: int| 0 <= j < ds.len() ==> !p(#[trigger] ds[j]),
    }
}

/// Whether some display holds the window `win_id`, that is, whether nog
/// manages it.
pub fn win_is_managed(displays: &Vec<Display>, win_id: WindowId) -> (r: bool)
    ensures
        r == exists|i: int| 0 <= i < displays@.len() && display_holds_window(#[trigger] displays@[i], win_id),
{
    match dsp_containing_win(displays, win_id) {
        Some(i) => {
            assert(display_holds_window(displays@[i as int], win_id));
            true
        },
        None => false,
    }
}

/// The first display that holds the window `win_id`: the one that
/// `with_dsp_containing_win_mut` works on.
pub fn dsp_containing_win(displays: &Vec<Display>, win_id: WindowId) -> (r: Option<usize>)
    ensures
        first_display(displays@, |d: Display| display_holds_window(d, win_id), r),
{
    let ghost p = |d: Display| display_holds_window(d, win_id);
    let mut i: usize = 0;
    while i < displays.len()
        invariant
            i <= displays@.len(),
            p == (|d: Display| display_holds_window(d, win_id)),
            forall|j: int| 0 <= j < i ==> !p(#[trigger] displays@[j]),
        decreases displays@.len() - i,
    {
        if displays[i].wm.has_window(win_id) {
            return Some(i);
        }
        i += 1;
    }
    None
}

/// The first display that has the workspace `ws_id`: the one that
/// `with_dsp_containing_ws_mut` works on.
pub fn dsp_containing_ws(displays: &Vec<Display>, ws_id: WorkspaceId) -> (r: Option<usize>)
    ensures
        first_display(displays@, |d: Display| display_has_workspace(d, ws_id), r),
{
    let ghost p = |d: Display| display_has_workspace(d, ws_id);
    let mut i: usize = 0;
    while i < displays.len()
        invariant
            i <= displays@.len(),
            p == (|d: Display| display_has_workspace(d, ws_id)),
            forall|j: int| 0 <= j < i ==> !p(#[trigger] displays@[j]),
        decreases displays@.len() - i,
    {
        if displays[i].wm.get_ws_by_id(ws_id).is_some() {
            return Some(i);
        }
        i += 1;
    }
    None
}

/// The first display with the id `id`: the one that `with_dsp` and
/// `with_dsp_mut` work on.
pub fn dsp_with_id(displays: &Vec<Display>, id: &DisplayId) -> (r: Option<usize>)
    ensures
        first_display(displays@, |d: Display| d.id.0@ == id.0@, r),
{
    let ghost p = |d: Display| d.id.0@ == id.0@;
    let mut i: usize = 0;
    while i < displays.len()
        invariant
            i <= displays@.len(),
            p == (|d: Display| d.id.0@ == id.0@),
            forall|j: int| 0 <= j < i ==> !p(#[trigger] displays@[j]),
        decreases displays@.len() - i,
    {
        if displays[i].id.0 == id.0 {
            return Some(i);
        }
        i += 1;
    }
    None
}

/// Where the workspace `id` is: the first display that has it, and its index
/// among that display's workspaces (what `with_ws` and `with_ws_mut` work on).
pub fn ws_location(displays: &Vec<Display>, id: WorkspaceId) -> (r: Option<(usize, usize)>)
    ensures
        first_display(displays@, |d: Display| display_has_workspace(d, id), match r {
            Some((i, _)) => Some(i),
            None => None,
        }),
        r matches Some((i, k)) ==> ws_index(displays@[i as int].wm.workspaces@, id) == Some(k as int),
{
    match dsp_containing_ws(displays, id) {
        Some(i) => match displays[i].wm.find_ws(id) {
            Some(k) => Some((i, k)),
            None => None,
        },
        None => None,
    }
}

/// The id of the focused display: the first one.
pub fn get_focused_dsp_id(displays: &Vec<Display>) -> (r: DisplayId)
    requires
        displays@.len() > 0,
    ensures
        r.0@ == displays@[0].id.0@,
{
    DisplayId(displays[0].id.0.clone())
}

/// The focused workspace of the focused display.
pub fn get_focused_ws_id(displays: &Vec<Display>) -> (r: Option<WorkspaceId>)
    requires
        displays@.len() > 0,
    ensures
        r == Some(displays@[0].wm.focused_workspace_id),
{
    Some(displays[0].wm.focused_workspace_id)
}

} // verus!
