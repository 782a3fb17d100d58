//! The decisions of nog's main loop on the events that reach it.
use vstd::prelude::*;
use crate::action::Action;
use crate::config::Config;
use crate::platform::Size;
use crate::state::StateMode;
use crate::text::eq_chars;
use crate::text::chars_of;

verus! {

/// What to do about a window that was just created.
#[derive(Debug, Clone, Copy, PartialEq, Eq, Structural)]
pub enum CreatedWindow {
    Ignore,
    /// It is nog's menu: give it the focus.
    FocusMenu,
    /// Let the window manager of the focused display manage it.
    Manage,
}

pub open spec fn bar_title() -> Seq<char> {
    seq!['n', 'o', 'g', '_', 'b', 'a', 'r']
}

pub open spec fn menu_title() -> Seq<char> {
    seq!['n', 'o', 'g', '_', 'm', 'e', 'n', 'u']
}

/// A window that was created is left alone while nog is not awake, when some
/// display already manages it, and when it is nog's bar; nog's menu gets the
/// focus; any other window is managed when it is at least as large as
/// `min_size` in both directions.
pub open spec fn spec_on_window_created(mode: StateMode, managed: bool, title: Seq<char>, size: Size, min_size: Size) -> CreatedWindow {
    if mode != StateMode::Awake || managed || title == bar_title() {
        CreatedWindow::Ignore
    } else if title == menu_title() {
        CreatedWindow::FocusMenu
    } else if size.width >= min_size.width && size.height >= min_size.height {
        CreatedWindow::Manage
    } else {
        CreatedWindow::Ignore
    }
}

/// A created window is managed exactly when nog is awake, no display manages
/// it yet, it is neither nog's bar nor nog's menu, and it is at least as large
/// as the minimum size in both directions; a window smaller than the minimum
/// in either direction is never managed.
pub proof fn lemma_created_window_managed(mode: StateMode, managed: bool, title: Seq<char>, size: Size, min_size: Size)
    ensures
        spec_on_window_created(mode, managed, title, size, min_size) == CreatedWindow::Manage <==> {
            &&& mode == StateMode::Awake
            &&& !managed
            &&& title != bar_title()
            &&& title != menu_title()
            &&& size.width >= min_size.width
            &&& size.height >= min_size.height
        },
        size.width < min_size.width || size.height < min_size.height
            ==> spec_on_window_created(mode, managed, title, size, min_size) != CreatedWindow::Manage,
{
}

/// A window that is managed at one size is managed at any size at least as
/// large in both directions; one ignored for its size stays ignored at any
/// smaller size.
pub proof fn lemma_larger_window_managed(mode: StateMode, managed: bool, title: Seq<char>, size: Size, larger: Size, min_size: Size)
    requires
        larger.width >= size.width,
        larger.height >= size.height,
    ensures
        spec_on_window_created(mode, managed, title, size, min_size) == CreatedWindow::Manage
            ==> spec_on_window_created(mode, managed, title, larger, min_size) == CreatedWindow::Manage,
        spec_on_window_created(mode, managed, title, larger, min_size) == CreatedWindow::Ignore
            ==> spec_on_window_created(mode, managed, title, size, min_size) == CreatedWindow::Ignore,
{
}

/// Only nog's menu is given the focus, and only while nog is awake and no
/// display manages it.
pub proof fn lemma_only_the_menu_is_focused(mode: StateMode, managed: bool, title: Seq<char>, size: Size, min_size: Size)
    ensures
        spec_on_window_created(mode, managed, title, size, min_size) == CreatedWindow::FocusMenu
            <==> mode == StateMode::Awake && !managed && title == menu_title(),
{
}

/// Decides what to do about a window that was just created, with the title
/// `title` and the size `size`; `managed` says whether some display manages it
/// already.
pub fn on_window_created(mode: StateMode, managed: bool, title: &str, size: Size, min_size: Size) -> (r: CreatedWindow)
    ensures
        r == spec_on_window_created(mode, managed, title@, size, min_size),
        r == CreatedWindow::Manage ==> size.width >= min_size.width && size.height >= min_size.height,
{
    if !mode.is_awake() || managed {
        return CreatedWindow::Ignore;
    }
    let t = chars_of(title);
    let bar: &[char] = &['n', 'o', 'g', '_', 'b', 'a', 'r'];
    let menu: &[char] = &['n', 'o', 'g', '_', 'm', 'e', 'n', 'u'];
    assert(bar@ =~= bar_title());
    assert(menu@ =~= menu_title());
    if eq_chars(t.as_slice(), bar) {
        CreatedWindow::Ignore
    } else if eq_chars(t.as_slice(), menu) {
        CreatedWindow::FocusMenu
    } else if size.width >= min_size.width && size.height >= min_size.height {
        CreatedWindow::Manage
    } else {
        CreatedWindow::Ignore
    }
}

/// The requests that follow the end of the config: hiding the task bars where
/// the config removes them, then showing the bars where it displays them.
pub fn on_config_finished(config: &Config) -> (r: Vec<Action>)
    ensures
        r@.len() == (if config.remove_task_bar { 1int } else { 0 }) + (if config.display_app_bar { 1int } else { 0 }),
        config.remove_task_bar ==> r@[0] is HideTaskbars,
        config.display_app_bar ==> r@[r@.len() - 1] is ShowBars,
{
    let mut r: Vec<Action> = Vec::new();
    if config.remove_task_bar {
        r.push(Action::HideTaskbars);
    }
    if config.display_app_bar {
        r.push(Action::ShowBars);
    }
    r
}

/// The text color that nog's menu is started with: black for a light theme,
/// white otherwise.
pub fn menu_text_color(config: &Config) -> (r: &'static str)
    ensures
        r@ == (if config.light_theme { seq!['0', 'x', '0', '0', '0', '0', '0', '0'] } else { seq!['0', 'x', 'F', 'F', 'F', 'F', 'F', 'F'] }),
{
    if config.light_theme {
        let c = "0x000000";
        proof { reveal_strlit("0x000000"); }
        c
    } else {
        let c = "0xFFFFFF";
        proof { reveal_strlit("0xFFFFFF"); }
        c
    }
}

} // verus!
