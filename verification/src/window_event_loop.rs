//! Window events: which native notifications the window manager reacts to.
use vstd::prelude::*;

verus! {

#[derive(Debug, Clone, Copy, PartialEq, Eq, Structural)]
pub enum WindowEventKind {
    Created,
    Deleted,
    Minimized,
    FocusChanged,
}

#[derive(Debug, Clone)]
/// A window event about the window `window` (a native window of the platform).
pub struct WindowEvent<TWin> {
    pub window: TWin,
    pub kind: WindowEventKind,
}

/// The loop that listens to the native window notifications; it runs in the
/// program around the library, which hands each notification to
/// `hook_event_kind`.
pub struct WindowEventLoop;

/// The kinds of native window notifications that are listened to.
#[derive(Clone, Copy, Debug, PartialEq, Eq, Structural)]
pub enum WinApiWindowEventKind {
    Destroy,
    Hide,
    Minimize,
    Unminimize,
    Show,
    FocusChange,
}

/// The native event numbers (EVENT_OBJECT_DESTROY and its kin).
pub const EVENT_OBJECT_DESTROY: u32 = 0x8001;
pub const EVENT_OBJECT_SHOW: u32 = 0x8002;
pub const EVENT_OBJECT_HIDE: u32 = 0x8003;
pub const EVENT_SYSTEM_FOREGROUND: u32 = 0x0003;
pub const EVENT_SYSTEM_MINIMIZESTART: u32 = 0x0016;
pub const EVENT_SYSTEM_MINIMIZEEND: u32 = 0x0017;
/// The object id of a window itself (OBJID_WINDOW).
pub const OBJID_WINDOW: i32 = 0;

pub open spec fn spec_event_kind(v: u32) -> Option<WinApiWindowEventKind> {
    if v == EVENT_OBJECT_DESTROY {
        Some(WinApiWindowEventKind::Destroy)
    } else if v == EVENT_OBJECT_SHOW {
        Some(WinApiWindowEventKind::Show)
    } else if v == EVENT_SYSTEM_FOREGROUND {
        Some(WinApiWindowEventKind::FocusChange)
    } else if v == EVENT_OBJECT_HIDE {
        Some(WinApiWindowEventKind::Hide)
    } else if v == EVENT_SYSTEM_MINIMIZESTART {
        Some(WinApiWindowEventKind::Minimize)
    } else if v == EVENT_SYSTEM_MINIMIZEEND {
        Some(WinApiWindowEventKind::Unminimize)
    } else {
        None
    }
}

/// The window event that a native notification becomes: a shown window is
/// created, a destroyed one deleted; the other notifications are not handled.
pub open spec fn spec_window_event_kind(k: WinApiWindowEventKind) -> Option<WindowEventKind> {
    match k {
        WinApiWindowEventKind::Show => Some(WindowEventKind::Created),
        WinApiWindowEventKind::Destroy => Some(WindowEventKind::Deleted),
        _ => None,
    }
}

/// The notification that the window event hook passes on: only one about a
/// window itself, of a kind that is listened to.
pub open spec fn spec_hook_event_kind(event: u32, idobject: i32) -> Option<WinApiWindowEventKind> {
    if idobject != OBJID_WINDOW { None } else { spec_event_kind(event) }
}

/// The window event that the hook makes of a native notification.
pub open spec fn hooked_window_event(event: u32, idobject: i32) -> Option<WindowEventKind> {
    match spec_hook_event_kind(event, idobject) {
        Some(k) => spec_window_event_kind(k),
        None => None,
    }
}

/// A window is created exactly on its own EVENT_OBJECT_SHOW notification and
/// deleted exactly on its own EVENT_OBJECT_DESTROY notification; no other
/// notification becomes a window event.
pub proof fn lemma_hooked_window_events(event: u32, idobject: i32)
    ensures
        hooked_window_event(event, idobject) == Some(WindowEventKind::Created)
            <==> event == 0x8002 && idobject == 0,
        hooked_window_event(event, idobject) == Some(WindowEventKind::Deleted)
            <==> event == 0x8001 && idobject == 0,
        hooked_window_event(event, idobject) is Some ==> idobject == 0 && (event == 0x8001 || event == 0x8002),
{
}

/// Each listened-to native notification is read as its own kind: destroy
/// (0x8001), show (0x8002), hide (0x8003), foreground (0x0003), minimize start
/// (0x0016) and minimize end (0x0017).
pub proof fn lemma_event_codes()
    ensures
        spec_event_kind(0x8001) == Some(WinApiWindowEventKind::Destroy),
        spec_event_kind(0x8002) == Some(WinApiWindowEventKind::Show),
        spec_event_kind(0x8003) == Some(WinApiWindowEventKind::Hide),
        spec_event_kind(0x0003) == Some(WinApiWindowEventKind::FocusChange),
        spec_event_kind(0x0016) == Some(WinApiWindowEventKind::Minimize),
        spec_event_kind(0x0017) == Some(WinApiWindowEventKind::Unminimize),
{
}

/// No two native notification numbers are read as the same kind.
pub proof fn lemma_event_codes_distinct(a: u32, b: u32)
    requires
        spec_event_kind(a) is Some,
        spec_event_kind(a) == spec_event_kind(b),
    ensures
        a == b,
{
}

impl WinApiWindowEventKind {
    pub fn from_u32(v: u32) -> (r: Option<Self>)
        ensures
            r == spec_event_kind(v),
    {
        if v == EVENT_OBJECT_DESTROY {
            Some(Self::Destroy)
        } else if v == EVENT_OBJECT_SHOW {
            Some(Self::Show)
        } else if v == EVENT_SYSTEM_FOREGROUND {
            Some(Self::FocusChange)
        } else if v == EVENT_OBJECT_HIDE {
            Some(Self::Hide)
        } else if v == EVENT_SYSTEM_MINIMIZESTART {
            Some(Self::Minimize)
        } else if v == EVENT_SYSTEM_MINIMIZEEND {
            Some(Self::Unminimize)
        } else {
            None
        }
    }

    /// The window event that a native notification becomes: a shown window is
    /// created, a destroyed one deleted; the other notifications are not
    /// handled.
    pub fn window_event_kind(&self) -> (r: Option<WindowEventKind>)
        ensures
            r == spec_window_event_kind(*self),
    {
        match self {
            WinApiWindowEventKind::Show => Some(WindowEventKind::Created),
            WinApiWindowEventKind::Destroy => Some(WindowEventKind::Deleted),
            _ => None,
        }
    }
}

/// Which notification the window event hook passes on: only those about a
/// window itself, of a kind that is listened to.
pub fn hook_event_kind(event: u32, idobject: i32) -> (r: Option<WinApiWindowEventKind>)
    ensures
        r == spec_hook_event_kind(event, idobject),
{
    if idobject != OBJID_WINDOW {
        return None;
    }
    WinApiWindowEventKind::from_u32(event)
}

} // verus!
