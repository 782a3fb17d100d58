use nog::menu::{is_desktop_program, is_start_menu_program, rank_matches, App, ProgramSearch, Command, KeyModifiers, MenuKey, MenuMode, Message, ResultItem};
use nog::client::ClientError;

fn item(name: &str) -> ResultItem {
    ResultItem { path: String::from("C:\\Programs"), name: String::from(name) }
}

fn app() -> App {
    App::new(vec![item("firefox.lnk"), item("notepad.lnk"), item("foo.exe")], 32, 5)
}

const NONE: KeyModifiers = KeyModifiers { shift: false, control: false, alt: false, logo: false };
const CTRL: KeyModifiers = KeyModifiers { shift: false, control: true, alt: false, logo: false };

#[test]
fn ranking_is_a_stable_sort_by_score() {
    let scores = vec![Some(5), None, Some(2), Some(5), Some(-1), None];
    assert_eq!(rank_matches(&scores), vec![4, 2, 0, 3]);
    assert_eq!(rank_matches(&vec![None, None]), Vec::<usize>::new());
    assert_eq!(rank_matches(&vec![Some(0), Some(0), Some(0)]), vec![0, 1, 2]);
}

#[test]
fn submitting_an_item_starts_its_path() {
    assert_eq!(item("a.lnk").submit_path(), "C:\\Programs\\a.lnk");
    assert_eq!(item("a.lnk").get_text(), "a.lnk");
}

#[test]
fn an_empty_filter_lists_every_item_in_order() {
    let mut a = app();
    match a.update(Message::FilterChanged(String::new())) {
        Command::Resize { width, height } => {
            assert_eq!(width, 700);
            assert_eq!(height, 55 + 32 * 3);
        }
        other => panic!("unexpected {:?}", other),
    }
    assert_eq!(a.filtered_items, vec![0, 1, 2]);
    assert_eq!(a.mode, MenuMode::Files);
}

#[test]
fn a_filter_keeps_the_matching_items() {
    let mut a = app();
    a.update(Message::FilterChanged(String::from("fo")));
    let names: Vec<&str> = a.filtered_items.iter().map(|&i| a.items[i].get_text()).collect();
    assert!(names.contains(&"foo.exe"));
    assert!(names.contains(&"firefox.lnk"));
    assert!(!names.contains(&"notepad.lnk"));
    assert_eq!(a.selected_idx, 0);
    assert_eq!(a.filter, "fo");
}

#[test]
fn a_dollar_filter_runs_lua() {
    let mut a = app();
    match a.update(Message::FilterChanged(String::from("$nog.version"))) {
        Command::ExecuteLua(code) => assert_eq!(code, "nog.version"),
        other => panic!("unexpected {:?}", other),
    }
    assert_eq!(a.mode, MenuMode::ExecuteLua);
    match a.show_lua_output(Some(Ok(String::from("1\n2")))) {
        Command::Resize { height, .. } => assert_eq!(height, 55 + 2 * 32),
        other => panic!("unexpected {:?}", other),
    }
    assert_eq!(a.execute_output, "1\n2");
}

#[test]
fn lua_answers_as_shown() {
    let mut a = app();
    a.show_lua_output(Some(Err(ClientError::LuaExecutionFailed(String::from("oops")))));
    assert_eq!(a.execute_output, "oops");
    a.show_lua_output(Some(Err(ClientError::InvalidResponse(String::from("??")))));
    assert_eq!(a.execute_output, "Invalid Response: ??");
    a.show_lua_output(None);
    assert_eq!(a.execute_output, "network error: Failed to connect to the nog server");
    match a.show_lua_output(Some(Ok(String::new()))) {
        Command::Resize { height, .. } => assert_eq!(height, 50),
        other => panic!("unexpected {:?}", other),
    }
    match a.show_lua_output(Some(Ok(String::from("a\nb\nc\nd\ne\nf\ng")))) {
        Command::Resize { height, .. } => assert_eq!(height, 55 + 5 * 32),
        other => panic!("unexpected {:?}", other),
    }
}

#[test]
fn moving_the_selection_stays_in_the_list() {
    let mut a = app();
    a.move_selection(-1);
    assert_eq!(a.selected_idx, 0);
    a.move_selection(1);
    a.move_selection(1);
    a.move_selection(1);
    assert_eq!(a.selected_idx, 2);
    a.update(Message::KeyPressed(MenuKey::K, CTRL));
    assert_eq!(a.selected_idx, 1);
    a.update(Message::KeyPressed(MenuKey::N, CTRL));
    assert_eq!(a.selected_idx, 2);
    a.update(Message::KeyPressed(MenuKey::J, NONE));
    assert_eq!(a.selected_idx, 2);
}

#[test]
fn enter_submits_the_selected_item_and_exits() {
    let mut a = app();
    a.update(Message::FilterChanged(String::new()));
    a.update(Message::KeyPressed(MenuKey::J, CTRL));
    match a.update(Message::KeyPressed(MenuKey::Enter, NONE)) {
        Command::StartProgram(i) => assert_eq!(i, 1),
        other => panic!("unexpected {:?}", other),
    }
    assert!(a.exit);
}

#[test]
fn escape_and_exit_close_the_menu() {
    let mut a = app();
    assert!(matches!(a.update(Message::KeyPressed(MenuKey::Escape, NONE)), Command::NoOp));
    assert!(a.exit);
    let mut b = app();
    assert!(matches!(b.update(Message::KeyPressed(MenuKey::Escape, CTRL)), Command::NoOp));
    assert!(!b.exit);
    b.update(Message::Exit);
    assert!(b.exit);
}

#[test]
fn ctrl_w_drops_the_last_word() {
    let mut a = app();
    a.update(Message::FilterChanged(String::from("note pad x")));
    match a.update(Message::KeyPressed(MenuKey::W, CTRL)) {
        Command::ChangeFilter(f) => assert_eq!(f, "note pad"),
        other => panic!("unexpected {:?}", other),
    }
    a.update(Message::FilterChanged(String::from("note")));
    match a.update(Message::KeyPressed(MenuKey::W, CTRL)) {
        Command::ChangeFilter(f) => assert_eq!(f, ""),
        other => panic!("unexpected {:?}", other),
    }
}

#[test]
fn which_files_are_programs() {
    assert!(is_start_menu_program("Firefox.lnk"));
    assert!(!is_start_menu_program("Firefox.exe"));
    assert!(!is_start_menu_program("lnk"));
    assert!(is_desktop_program("Firefox.lnk"));
    assert!(is_desktop_program("game.exe"));
    assert!(!is_desktop_program("notes.txt"));
    assert!(!is_desktop_program(".ex"));
}

#[test]
fn a_program_search_ends_when_every_search_is_done() {
    let mut search = ProgramSearch::new(2);
    assert!(!search.receive(Some(item("a.lnk"))));
    assert!(!search.receive(None));
    assert!(!search.receive(Some(item("b.exe"))));
    assert!(search.receive(None));
    assert_eq!(search.items.len(), 2);
    assert_eq!(search.items[0].name, "a.lnk");
    assert_eq!(search.items[1].name, "b.exe");
}
