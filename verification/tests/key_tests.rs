use nog::key::Key;
use nog::key_combination::KeyCombination;
use nog::keybinding::{Keybinding, KeybindingMode};
use nog::keybinding_event_loop::{InputEvent, KbdHookEvent, KeybindingEventLoop, VK_LCONTROL, WM_KEYDOWN, WM_KEYUP, WM_SYSKEYDOWN};
use nog::modifiers::Modifiers;

fn mods(lalt: bool, ralt: bool, shift: bool, win: bool, ctrl: bool) -> Modifiers {
    Modifiers { lalt, ralt, shift, win, ctrl }
}

#[test]
fn key_codes() {
    assert_eq!(Key::from_usize(72), Some(Key::H));
    assert_eq!(Key::from_usize(13), Some(Key::Enter));
    assert_eq!(Key::from_usize(48), Some(Key::Zero));
    assert_eq!(Key::from_usize(123), Some(Key::F12));
    assert_eq!(Key::from_usize(9), None);
    assert_eq!(Key::from_usize(1000), None);
}

#[test]
fn key_names() {
    assert_eq!(Key::H.to_string(), "H");
    assert_eq!(Key::Zero.to_string(), "0");
    assert_eq!(Key::Escape.to_string(), "Escape");
    assert_eq!(Key::F10.to_string(), "F10");
    assert_eq!(Key::from_str("ESC"), Ok(Key::Escape));
    assert_eq!(Key::from_str("ESCAPE"), Ok(Key::Escape));
    assert_eq!(Key::from_str("9"), Ok(Key::Nine));
    assert_eq!(Key::from_str("SPACE"), Ok(Key::Space));
    assert_eq!(Key::from_str("h"), Err(String::from("Unknown key 'h'")));
}

#[test]
fn key_names_m_and_z_are_not_parsed() {
    assert_eq!(Key::from_str("M"), Err(String::from("Unknown key 'M'")));
    assert_eq!(Key::from_str("Z"), Err(String::from("Unknown key 'Z'")));
}

#[test]
fn modifier_ids() {
    assert_eq!(Modifiers::default().get_id(), 0);
    assert_eq!(mods(true, false, false, false, false).get_id(), 1);
    assert_eq!(mods(false, true, false, false, false).get_id(), 10);
    assert_eq!(mods(false, false, true, false, false).get_id(), 100);
    assert_eq!(mods(false, false, false, true, false).get_id(), 1000);
    assert_eq!(mods(false, false, false, false, true).get_id(), 10000);
    assert_eq!(mods(true, true, true, true, true).get_id(), 11111);
}

#[test]
fn key_combination_ids() {
    let kc = KeyCombination::new(Key::H, mods(false, false, false, false, true));
    assert_eq!(kc.get_id(), 7 * 100000 + 10000);
    assert_eq!(KeyCombination::new(Key::A, Modifiers::default()).get_id(), 0);
    let kb = Keybinding { mode: KeybindingMode::Global, key_combination: kc };
    assert_eq!(kb.get_id(), 710000);
}

#[test]
fn key_combination_text() {
    let kc = KeyCombination::new(Key::H, mods(true, false, true, false, true));
    assert_eq!(kc.to_string(), "LAlt+Shift+Ctrl+H");
    assert_eq!(KeyCombination::new(Key::Enter, Modifiers::default()).to_string(), "Enter");
}

#[test]
fn parsing_key_combinations() {
    assert_eq!(
        KeyCombination::from_str("Ctrl+Alt+H"),
        Ok(KeyCombination::new(Key::H, mods(true, false, false, false, true)))
    );
    assert_eq!(
        KeyCombination::from_str(" mod + shift + enter "),
        Ok(KeyCombination::new(Key::Enter, mods(false, false, true, true, false)))
    );
    assert_eq!(KeyCombination::from_str("RAlt+F1"), Ok(KeyCombination::new(Key::F1, mods(false, true, false, false, false))));
    assert_eq!(KeyCombination::from_str("q"), Ok(KeyCombination::new(Key::Q, Modifiers::default())));
    assert_eq!(KeyCombination::from_str("Hyper+H"), Err(String::from("Unknown modifier 'HYPER'")));
    assert_eq!(KeyCombination::from_str("Ctrl+Foo"), Err(String::from("Unknown key 'FOO'")));
}

#[test]
fn key_combination_text_reads_back() {
    let kc = KeyCombination::new(Key::F5, mods(true, true, true, true, true));
    assert_eq!(KeyCombination::from_str(&kc.to_string()), Ok(kc));
}

#[test]
fn keybinding_modes() {
    assert_eq!(KeybindingMode::from_str("g"), Ok(KeybindingMode::Global));
    assert_eq!(KeybindingMode::from_str("n"), Ok(KeybindingMode::Normal));
    assert_eq!(KeybindingMode::from_str("x"), Err(()));
    assert_eq!(KeybindingMode::Global.to_string(), "g");
    assert_eq!(KeybindingMode::Normal.to_string(), "n");
}

#[test]
fn keyboard_message_kinds() {
    assert_eq!(KbdHookEvent::from_usize(0x100), Some(KbdHookEvent::KeyDown));
    assert_eq!(KbdHookEvent::from_usize(0x101), Some(KbdHookEvent::KeyUp));
    assert_eq!(KbdHookEvent::from_usize(0x104), Some(KbdHookEvent::SysKeyDown));
    assert_eq!(KbdHookEvent::from_usize(0x105), Some(KbdHookEvent::SysKeyUp));
    assert_eq!(KbdHookEvent::from_usize(0x200), None);
}

#[test]
fn keybinding_registry() {
    let mut ev = KeybindingEventLoop::new();
    ev.add_keybinding(710000);
    ev.add_keybinding(710000);
    ev.add_keybinding(5);
    assert_eq!(ev.keybinding_ids, vec![710000, 5]);
    assert!(ev.is_bound(5));
    ev.remove_keybinding(710000);
    assert_eq!(ev.keybinding_ids, vec![5]);
    assert!(!ev.is_bound(710000));
}

#[test]
fn hook_reports_bound_key_combinations_only() {
    let mut ev = KeybindingEventLoop::new();
    ev.add_keybinding(710000);
    assert_eq!(ev.on_key(0, WM_KEYDOWN as usize, VK_LCONTROL), None);
    assert!(ev.modifiers.ctrl);
    let ctrl_h = KeyCombination::new(Key::H, mods(false, false, false, false, true));
    assert_eq!(ev.on_key(0, WM_KEYDOWN as usize, 72), Some(InputEvent::KeyDown(ctrl_h)));
    assert_eq!(ev.on_key(0, WM_KEYUP as usize, 72), Some(InputEvent::KeyUp(ctrl_h)));
    assert_eq!(ev.on_key(0, WM_SYSKEYDOWN as usize, 74), None);
    assert_eq!(ev.on_key(-1, WM_KEYUP as usize, VK_LCONTROL), None);
    assert!(ev.modifiers.ctrl);
    assert_eq!(ev.on_key(0, WM_KEYUP as usize, VK_LCONTROL), None);
    assert!(!ev.modifiers.ctrl);
    assert_eq!(ev.on_key(0, WM_KEYDOWN as usize, 72), None);
}
