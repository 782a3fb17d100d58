use nog::bar::split_by_alignment;
use nog::protocol::BarItemAlignment;
use nog::config::{Config, ConfigProperty};
use nog::constants::get_version;
use nog::display::{Display, DisplayId};
use nog::event::{menu_text_color, on_config_finished, on_window_created, CreatedWindow};
use nog::action::Action;
use nog::platform::{Area, MonitorId, Position, Rect, Size, WindowId};
use nog::server::display_state;
use nog::state::{
    dsp_containing_win, dsp_containing_ws, dsp_with_id, get_focused_dsp_id, get_focused_ws_id, win_is_managed,
    ws_location, StateMode,
};
use nog::window_event_loop::{hook_event_kind, WinApiWindowEventKind, WindowEventKind};
use nog::window_manager::WindowManager;
use nog::workspace::WorkspaceId;

#[test]
fn version_falls_back_to_dev() {
    assert_eq!(get_version(None), "DEV");
    assert_eq!(get_version(Some("1.2.3")), "1.2.3");
}

#[test]
fn render_area_leaves_room_for_the_bar() {
    let work = Area::new(Size::new(1920, 1040), Position::new(0, 0));
    let d = display("DISPLAY1", work, WindowManager::new());
    let config = Config::default();
    assert_eq!(d.get_render_area(&config), Area::new(Size::new(1920, 1056), Position::new(0, 24)));
    let plain = Config { display_app_bar: false, remove_task_bar: false, ..Config::default() };
    assert_eq!(d.get_render_area(&plain), work);
}

fn display(id: &str, work_area: Area, wm: WindowManager) -> Display {
    Display { id: DisplayId(id.to_string()), monitor_id: MonitorId(1), work_area, wm }
}

fn two_displays() -> Vec<Display> {
    let work = Area::new(Size::new(800, 600), Position::new(0, 0));
    let mut first = WindowManager::new();
    first.get_focused_workspace_mut().graph.add_window(0, WindowId(7)).unwrap();
    let mut second = WindowManager::new();
    second.change_workspace(WorkspaceId(3));
    second.get_focused_workspace_mut().graph.add_window(0, WindowId(9)).unwrap();
    vec![display("LEFT", work, first), display("RIGHT", work, second)]
}

#[test]
fn finding_windows_and_workspaces_among_displays() {
    let displays = two_displays();
    assert!(win_is_managed(&displays, WindowId(7)));
    assert!(win_is_managed(&displays, WindowId(9)));
    assert!(!win_is_managed(&displays, WindowId(8)));
    assert_eq!(dsp_containing_win(&displays, WindowId(9)), Some(1));
    assert_eq!(dsp_containing_win(&displays, WindowId(8)), None);
    assert_eq!(dsp_containing_ws(&displays, WorkspaceId(1)), Some(0));
    assert_eq!(dsp_containing_ws(&displays, WorkspaceId(3)), Some(1));
    assert_eq!(dsp_containing_ws(&displays, WorkspaceId(2)), None);
    assert_eq!(ws_location(&displays, WorkspaceId(3)), Some((1, 0)));
    assert_eq!(ws_location(&displays, WorkspaceId(4)), None);
    assert_eq!(dsp_with_id(&displays, &DisplayId("RIGHT".to_string())), Some(1));
    assert_eq!(dsp_with_id(&displays, &DisplayId("MIDDLE".to_string())), None);
    assert_eq!(get_focused_dsp_id(&displays).0, "LEFT");
    assert_eq!(get_focused_ws_id(&displays), Some(WorkspaceId(1)));
}

#[test]
fn a_layout_run_is_rendered_once() {
    let mut wm = WindowManager::new();
    wm.get_focused_workspace_mut().graph.add_window(0, WindowId(7)).unwrap();
    let area = Area::new(Size::new(800, 600), Position::new(0, 0));
    let config = Config::default();
    let placed = wm.finish_organize(None, &config, area).unwrap();
    assert_eq!(placed, vec![(WindowId(7), area)]);
    assert!(!wm.get_focused_workspace().graph.dirty);
    assert_eq!(wm.finish_organize(Some(WorkspaceId(1)), &config, area), None);
}

#[test]
fn created_windows() {
    let big = Size::new(800, 600);
    let min = Size::new(100, 100);
    assert_eq!(on_window_created(StateMode::Awake, false, "Notepad", big, min), CreatedWindow::Manage);
    assert_eq!(on_window_created(StateMode::Awake, false, "Notepad", Size::new(50, 600), min), CreatedWindow::Ignore);
    assert_eq!(on_window_created(StateMode::Awake, false, "nog_bar", big, min), CreatedWindow::Ignore);
    assert_eq!(on_window_created(StateMode::Awake, false, "nog_menu", big, min), CreatedWindow::FocusMenu);
    assert_eq!(on_window_created(StateMode::Awake, true, "Notepad", big, min), CreatedWindow::Ignore);
    assert_eq!(on_window_created(StateMode::Hibernating, false, "Notepad", big, min), CreatedWindow::Ignore);
    assert_eq!(on_window_created(StateMode::Initializing, false, "nog_menu", big, min), CreatedWindow::Ignore);
}

#[test]
fn after_the_config() {
    let actions = on_config_finished(&Config::default());
    assert_eq!(actions.len(), 2);
    assert!(matches!(actions[0], Action::HideTaskbars));
    assert!(matches!(actions[1], Action::ShowBars));
    let none = on_config_finished(&Config { remove_task_bar: false, display_app_bar: false, ..Config::default() });
    assert!(none.is_empty());
    assert_eq!(menu_text_color(&Config::default()), "0xFFFFFF");
    assert_eq!(menu_text_color(&Config { light_theme: true, ..Config::default() }), "0x000000");
}

#[test]
fn state_modes() {
    assert!(StateMode::Awake.is_awake());
    assert!(!StateMode::Hibernating.is_awake());
    assert!(!StateMode::Initializing.is_awake());
}

#[test]
fn native_window_events() {
    assert_eq!(hook_event_kind(0x8001, 0), Some(WinApiWindowEventKind::Destroy));
    assert_eq!(hook_event_kind(0x0003, 0), Some(WinApiWindowEventKind::FocusChange));
    assert_eq!(hook_event_kind(0x8001, 5), None);
    assert_eq!(WinApiWindowEventKind::Destroy.window_event_kind(), Some(WindowEventKind::Deleted));
    assert_eq!(WinApiWindowEventKind::Show.window_event_kind(), Some(WindowEventKind::Created));
    assert_eq!(WinApiWindowEventKind::from_u32(0x4242), None);
}

#[test]
fn rect_sizes() {
    let r = Rect { left: 100, right: 20, top: 5, bottom: 45 };
    assert_eq!(r.as_size(), Size::new(80, 40));
    assert_eq!(Size::new(10, 20).sub(Size::new(3, 4)), Size::new(7, 16));
}

#[test]
fn state_of_a_display() {
    let mut wm = WindowManager::new();
    wm.get_focused_workspace_mut().graph.add_window(0, WindowId(7)).unwrap();
    let d = display_state("DISPLAY1", 3, &wm);
    assert_eq!(d.id, "DISPLAY1");
    assert_eq!(d.monitor_id, 3);
    assert_eq!(d.focused_workspace_id, 1);
    assert_eq!(d.workspaces.len(), 1);
    assert_eq!(d.workspaces[0].id, WorkspaceId(1).0);
    assert_eq!(d.workspaces[0].layout, "master_slave");
    assert_eq!(d.workspaces[0].focused_window_id, Some(7));
    assert_eq!(d.workspaces[0].windows.len(), 1);
    assert_eq!(d.workspaces[0].windows[0].id, 7);
}

#[test]
fn bar_items_by_alignment() {
    let (l, c, r) = split_by_alignment(&vec![BarItemAlignment::Right, BarItemAlignment::Left, BarItemAlignment::Center, BarItemAlignment::Left, BarItemAlignment::Right]);
    assert_eq!(l, vec![1, 3]);
    assert_eq!(c, vec![2]);
    assert_eq!(r, vec![0, 4]);
}

#[test]
fn config_properties_by_name() {
    let mut config = Config::default();
    assert!(matches!(config.get_property("color"), Some(ConfigProperty::Color(0x3f3f3f))));
    assert!(matches!(config.get_property("bar_height"), Some(ConfigProperty::BarHeight(24))));
    assert!(matches!(config.get_property("font_name"), Some(ConfigProperty::FontName(ref n)) if n == "Consolas"));
    assert!(matches!(config.get_property("mulit_monitor"), Some(ConfigProperty::MultiMonitor(false))));
    assert!(config.get_property("multi_monitor").is_none());
    assert!(config.get_property("colour").is_none());
    let was = config.set_property(ConfigProperty::InnerGap(7));
    assert!(matches!(was, ConfigProperty::InnerGap(0)));
    assert_eq!(config.inner_gap, 7);
    let was = config.set_property(ConfigProperty::FontName(String::from("Fira")));
    assert!(matches!(was, ConfigProperty::FontName(ref n) if n == "Consolas"));
    assert_eq!(config.font_name, "Fira");
    assert_eq!(ConfigProperty::DisplayAppBar(true).get_name(), "display_app_bar");
    assert_eq!(ConfigProperty::MultiMonitor(true).get_name(), "mulit_monitor");
}
