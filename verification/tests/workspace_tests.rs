use nog::config::Config;
use nog::direction::Direction;
use nog::platform::{Area, Position, Size, WindowId};
use nog::window_manager::{WindowManager, WorkspaceChange};
use nog::workspace::{Workspace, WorkspaceError, WorkspaceId, WorkspaceState};

fn workspace_with_windows() -> Workspace {
    let mut ws = Workspace::new(WorkspaceId(3), "master_slave");
    ws.graph.add_window(0, WindowId(10)).unwrap();
    let col = ws.graph.add_col(0).unwrap();
    ws.graph.add_window(col, WindowId(20)).unwrap();
    ws.graph.add_window(col, WindowId(30)).unwrap();
    ws
}

#[test]
fn new_workspace() {
    let ws = Workspace::new(WorkspaceId(12), "master_slave");
    assert_eq!(ws.id, WorkspaceId(12));
    assert_eq!(ws.display_name, "12");
    assert_eq!(ws.layout_name, "master_slave");
    assert_eq!(ws.state, WorkspaceState::Normal);
    assert!(ws.is_empty());
    assert!(!ws.is_fullscreen());
    assert_eq!(ws.get_focused_win(), None);
    assert!(ws.windows().is_empty());
}

#[test]
fn focused_window_and_windows() {
    let ws = workspace_with_windows();
    assert!(!ws.is_empty());
    assert_eq!(ws.get_focused_win(), Some(WindowId(30)));
    let mut wins = ws.windows();
    wins.sort_by_key(|w| w.0);
    assert_eq!(wins, vec![WindowId(10), WindowId(20), WindowId(30)]);
    assert!(ws.has_window(WindowId(20)));
    assert!(!ws.has_window(WindowId(40)));
}

#[test]
fn focusing_a_window_makes_it_the_focused_one() {
    let mut ws = workspace_with_windows();
    assert_eq!(ws.focus_window(WindowId(10)), Ok(()));
    assert_eq!(ws.get_focused_win(), Some(WindowId(10)));
    assert_eq!(ws.focus_window(WindowId(20)), Ok(()));
    assert_eq!(ws.get_focused_win(), Some(WindowId(20)));
    assert_eq!(ws.focus_window(WindowId(99)), Err(WorkspaceError::WindowNodeNotFound));
    assert_eq!(ws.get_focused_win(), Some(WindowId(20)));
}

#[test]
fn focus_in_direction_moves_the_focus() {
    let mut ws = workspace_with_windows();
    assert_eq!(ws.focus_in_direction(Direction::Up), Some(3));
    assert_eq!(ws.get_focused_win(), Some(WindowId(20)));
    assert_eq!(ws.focus_in_direction(Direction::Left), Some(1));
    assert_eq!(ws.get_focused_win(), Some(WindowId(10)));
    assert_eq!(ws.focus_in_direction(Direction::Left), None);
    assert_eq!(ws.get_focused_win(), Some(WindowId(10)));
    // The column remembers its focused child.
    assert_eq!(ws.swap_in_direction(Direction::Right), Some(3));
    assert_eq!(ws.get_focused_win(), Some(WindowId(20)));
}

#[test]
fn render_splits_rows_and_columns() {
    let ws = workspace_with_windows();
    let config = Config { outer_gap: 10, inner_gap: 5, ..Config::default() };
    let area = Area::new(Size::new(1020, 820), Position::new(0, 0));
    let placed = ws.render(&config, area);
    assert_eq!(
        placed,
        vec![
            (WindowId(10), Area::new(Size::new(490, 790), Position::new(15, 15))),
            (WindowId(20), Area::new(Size::new(490, 390), Position::new(515, 15))),
            (WindowId(30), Area::new(Size::new(490, 390), Position::new(515, 415))),
        ]
    );
}

#[test]
fn render_of_a_fullscreen_workspace_places_the_focused_window_only() {
    let mut ws = workspace_with_windows();
    ws.state = WorkspaceState::Fullscreen;
    let config = Config { outer_gap: 0, inner_gap: 0, ..Config::default() };
    let area = Area::new(Size::new(800, 600), Position::new(0, 0));
    assert_eq!(ws.render(&config, area), vec![(WindowId(30), area)]);
}

#[test]
fn window_manager_starts_with_workspace_one() {
    let wm = WindowManager::new();
    assert_eq!(wm.workspaces.len(), 1);
    assert_eq!(wm.focused_workspace_id, WorkspaceId(1));
    assert_eq!(wm.get_focused_workspace().id, WorkspaceId(1));
    assert!(wm.get_ws_by_id(WorkspaceId(2)).is_none());
}

#[test]
fn changing_to_a_new_workspace_drops_the_empty_old_one() {
    let mut wm = WindowManager::new();
    let change = wm.change_workspace(WorkspaceId(2));
    assert_eq!(change, WorkspaceChange { shown: None, hidden: None });
    assert_eq!(wm.focused_workspace_id, WorkspaceId(2));
    assert_eq!(wm.workspaces.len(), 1);
    assert_eq!(wm.workspaces[0].id, WorkspaceId(2));
    assert_eq!(wm.change_workspace(WorkspaceId(2)), WorkspaceChange { shown: None, hidden: None });
}

#[test]
fn changing_away_from_a_workspace_with_windows_keeps_it_hidden() {
    let mut wm = WindowManager::new();
    wm.get_focused_workspace_mut().graph.add_window(0, WindowId(7)).unwrap();
    let change = wm.change_workspace(WorkspaceId(4));
    assert_eq!(change, WorkspaceChange { shown: None, hidden: Some(WorkspaceId(1)) });
    assert_eq!(wm.workspaces.len(), 2);
    assert!(wm.has_window(WindowId(7)));
    let back = wm.change_workspace(WorkspaceId(1));
    assert_eq!(back, WorkspaceChange { shown: Some(WorkspaceId(1)), hidden: None });
    assert_eq!(wm.workspaces.len(), 1);
}

#[test]
fn focusing_a_window_changes_to_its_workspace() {
    let mut wm = WindowManager::new();
    wm.get_focused_workspace_mut().graph.add_window(0, WindowId(7)).unwrap();
    wm.get_focused_workspace_mut().graph.add_window(0, WindowId(8)).unwrap();
    wm.change_workspace(WorkspaceId(2));
    let change = wm.focus_window(WindowId(7));
    assert_eq!(change, Some(WorkspaceChange { shown: Some(WorkspaceId(1)), hidden: None }));
    assert_eq!(wm.focused_workspace_id, WorkspaceId(1));
    assert_eq!(wm.get_focused_workspace().get_focused_win(), Some(WindowId(7)));
    assert_eq!(wm.focus_window(WindowId(99)), None);
}

#[test]
fn cleanup_resets_the_window_manager() {
    let mut wm = WindowManager::new();
    wm.change_workspace(WorkspaceId(5));
    wm.get_focused_workspace_mut().graph.add_window(0, WindowId(7)).unwrap();
    wm.cleanup();
    assert_eq!(wm.workspaces.len(), 1);
    assert_eq!(wm.focused_workspace_id, WorkspaceId(1));
    assert!(!wm.has_window(WindowId(7)));
}

fn within(b: &Area, a: &Area) -> bool {
    a.pos.x <= b.pos.x
        && b.pos.x + b.size.width as isize <= a.pos.x + a.size.width as isize
        && a.pos.y <= b.pos.y
        && b.pos.y + b.size.height as isize <= a.pos.y + a.size.height as isize
}

fn disjoint(a: &Area, b: &Area) -> bool {
    a.pos.x + a.size.width as isize <= b.pos.x
        || b.pos.x + b.size.width as isize <= a.pos.x
        || a.pos.y + a.size.height as isize <= b.pos.y
        || b.pos.y + b.size.height as isize <= a.pos.y
}

#[test]
fn rendered_windows_tile_the_area() {
    let mut ws = workspace_with_windows();
    let row = ws.graph.add_row(0).unwrap();
    for id in [40, 50, 60] {
        ws.graph.add_window(row, WindowId(id)).unwrap();
    }
    let config = Config { outer_gap: 3, inner_gap: 2, ..Config::default() };
    let area = Area::new(Size::new(1001, 767), Position::new(-1920, 13));
    let placed = ws.render(&config, area);
    let mut ids: Vec<usize> = placed.iter().map(|(w, _)| w.0).collect();
    ids.sort();
    assert_eq!(ids, vec![10, 20, 30, 40, 50, 60]);
    for (i, (_, a)) in placed.iter().enumerate() {
        assert!(within(a, &area));
        for (_, b) in placed.iter().skip(i + 1) {
            assert!(disjoint(a, b));
        }
    }
}
