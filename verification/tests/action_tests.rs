use nog::action::{captured_output, ignores_action, Action, WindowAction, WorkspaceAction, WorkspaceActionEffect};
use nog::direction::Direction;
use nog::platform::WindowId;
use nog::window_manager::{WindowManager, WorkspaceChange};
use nog::workspace::{WorkspaceId, WorkspaceState};

#[test]
fn window_actions_as_logged() {
    assert_eq!(WindowAction::Focus(WindowId(42)).to_string(), "WindowAction::Focus(42)");
    assert_eq!(
        WindowAction::Manage(Some(WorkspaceId(2)), None).to_string(),
        "WindowAction::Manage(Some(WorkspaceId(2)), None)"
    );
    assert_eq!(WindowAction::Unmanage(Some(WindowId(7))).to_string(), "WindowAction::Unmanage(Some(WindowId(7)))");
    assert_eq!(WindowAction::Close(None).to_string(), "WindowAction::Close(None)");
    assert_eq!(WindowAction::Minimize(Some(WindowId(0))).to_string(), "WindowAction::Minimize(Some(WindowId(0)))");
}

#[test]
fn workspace_actions_as_logged() {
    assert_eq!(WorkspaceAction::Change(WorkspaceId(3)).to_string(), "WorkspaceAction::Change(3)");
    assert_eq!(
        WorkspaceAction::SetFullscreen(None, true).to_string(),
        "WorkspaceAction::SetFullscreen(None, true)"
    );
    assert_eq!(
        WorkspaceAction::Focus(Some(WorkspaceId(1)), Direction::Left).to_string(),
        "WorkspaceAction::Focus(Some(WorkspaceId(1)), Left)"
    );
    assert_eq!(WorkspaceAction::Swap(None, Direction::Down).to_string(), "WorkspaceAction::Swap(None, Down)");
}

fn wm_with_two_windows() -> WindowManager {
    let mut wm = WindowManager::new();
    let ws = wm.get_focused_workspace_mut();
    ws.graph.add_window(0, WindowId(7)).unwrap();
    ws.graph.add_window(0, WindowId(8)).unwrap();
    wm
}

#[test]
fn changing_to_a_new_workspace() {
    let mut wm = wm_with_two_windows();
    match WorkspaceAction::Change(WorkspaceId(2)).apply(&mut wm) {
        WorkspaceActionEffect::Changed(c) => assert_eq!(c, WorkspaceChange { shown: None, hidden: Some(WorkspaceId(1)) }),
        other => panic!("unexpected {:?}", other),
    }
    assert_eq!(wm.focused_workspace_id, WorkspaceId(2));
    match WorkspaceAction::Change(WorkspaceId(1)).apply(&mut wm) {
        WorkspaceActionEffect::Focused(c, w) => {
            assert_eq!(w, WindowId(8));
            assert_eq!(c, WorkspaceChange { shown: Some(WorkspaceId(1)), hidden: None });
        }
        other => panic!("unexpected {:?}", other),
    }
    assert_eq!(wm.focused_workspace_id, WorkspaceId(1));
}

#[test]
fn changing_to_an_existing_empty_workspace_does_nothing() {
    let mut wm = WindowManager::new();
    assert!(matches!(WorkspaceAction::Change(WorkspaceId(1)).apply(&mut wm), WorkspaceActionEffect::Done));
    assert_eq!(wm.focused_workspace_id, WorkspaceId(1));
}

#[test]
fn fullscreen_always_concerns_workspace_one() {
    let mut wm = WindowManager::new();
    assert!(matches!(
        WorkspaceAction::SetFullscreen(Some(WorkspaceId(3)), true).apply(&mut wm),
        WorkspaceActionEffect::Done
    ));
    assert_eq!(wm.get_ws_by_id(WorkspaceId(1)).unwrap().state, WorkspaceState::Fullscreen);
    WorkspaceAction::SetFullscreen(None, false).apply(&mut wm);
    assert_eq!(wm.get_ws_by_id(WorkspaceId(1)).unwrap().state, WorkspaceState::Normal);
}

#[test]
fn focus_in_a_direction_asks_to_focus_the_window() {
    let mut wm = wm_with_two_windows();
    match WorkspaceAction::Focus(None, Direction::Left).apply(&mut wm) {
        WorkspaceActionEffect::Dispatch(Action::Window(WindowAction::Focus(w))) => assert_eq!(w, WindowId(7)),
        other => panic!("unexpected {:?}", other),
    }
    assert_eq!(wm.get_focused_workspace().get_focused_win(), Some(WindowId(7)));
    assert!(matches!(WorkspaceAction::Focus(None, Direction::Left).apply(&mut wm), WorkspaceActionEffect::Done));
}

#[test]
fn swap_names_the_focused_window() {
    let mut wm = wm_with_two_windows();
    match WorkspaceAction::Swap(None, Direction::Right).apply(&mut wm) {
        WorkspaceActionEffect::Swap(w, d) => {
            assert_eq!(w, WindowId(8));
            assert_eq!(d, Direction::Right);
        }
        other => panic!("unexpected {:?}", other),
    }
    let mut empty = WindowManager::new();
    assert!(matches!(WorkspaceAction::Swap(None, Direction::Up).apply(&mut empty), WorkspaceActionEffect::Done));
}

#[test]
fn unmanage_targets() {
    let wm = wm_with_two_windows();
    assert_eq!(WindowAction::unmanage_target(None, &wm), Some(WindowId(8)));
    assert_eq!(WindowAction::unmanage_target(Some(WindowId(7)), &wm), Some(WindowId(7)));
    assert_eq!(WindowAction::unmanage_target(Some(WindowId(9)), &wm), None);
    assert_eq!(WindowAction::unmanage_target(None, &WindowManager::new()), None);
}

#[test]
fn captured_lua_output() {
    assert_eq!(captured_output("", "Integer(3)"), "Integer(3)");
    assert_eq!(captured_output("hello\tworld", "Nil"), "hello\tworld\nNil");
}

#[test]
fn fullscreen_workspaces_ignore_focus_and_swap_when_asked() {
    let mut wm = WindowManager::new();
    let config = nog::config::Config { ignore_fullscreen_actions: true, ..nog::config::Config::default() };
    let focus = WorkspaceAction::Focus(None, Direction::Left);
    let swap = WorkspaceAction::Swap(None, Direction::Right);
    assert!(!ignores_action(&config, &wm, &focus));
    WorkspaceAction::SetFullscreen(None, true).apply(&mut wm);
    assert!(ignores_action(&config, &wm, &focus));
    assert!(ignores_action(&config, &wm, &swap));
    assert!(!ignores_action(&config, &wm, &WorkspaceAction::Change(WorkspaceId(2))));
    let plain = nog::config::Config::default();
    assert!(!ignores_action(&plain, &wm, &focus));
}

#[test]
fn managing_goes_to_the_named_or_the_focused_workspace() {
    let mut wm = WindowManager::new();
    wm.get_focused_workspace_mut().graph.add_window(0, WindowId(7)).unwrap();
    assert_eq!(WindowAction::manage_target(Some(WorkspaceId(3)), &wm), WorkspaceId(3));
    assert_eq!(WindowAction::manage_target(None, &wm), WorkspaceId(1));
    assert!(!WindowAction::manages(&wm, WorkspaceId(1), WindowId(7), true));
    assert!(WindowAction::manages(&wm, WorkspaceId(1), WindowId(8), true));
    assert!(!WindowAction::manages(&wm, WorkspaceId(1), WindowId(8), false));
    assert!(WindowAction::manages(&wm, WorkspaceId(4), WindowId(7), true));
}
