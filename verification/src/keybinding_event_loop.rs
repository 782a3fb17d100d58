//! The decisions of the low level keyboard hook: which modifiers are held, and
//! which key presses are taken away from other programs as key bindings.
use vstd::prelude::*;
use crate::key::{spec_key_from_code, Key};
use crate::key_combination::{spec_key_combination_id, KeyCombination};
use crate::modifiers::Modifiers;

verus! {

#[derive(Debug, Copy, Clone, PartialEq, Eq, Structural)]
pub enum InputEvent {
    KeyDown(KeyCombination),
    KeyUp(KeyCombination),
}

/// The kind of a keyboard message.
#[derive(Debug, Copy, Clone, PartialEq, Eq, Structural)]
pub enum KbdHookEvent {
    KeyDown,
    KeyUp,
    SysKeyUp,
    SysKeyDown,
}

/// The keyboard message kinds: WM_KEYDOWN, WM_KEYUP, WM_SYSKEYDOWN, WM_SYSKEYUP.
pub const WM_KEYDOWN: u32 = 0x100;
pub const WM_KEYUP: u32 = 0x101;
pub const WM_SYSKEYDOWN: u32 = 0x104;
pub const WM_SYSKEYUP: u32 = 0x105;

pub open spec fn spec_kbd_event(input: usize) -> Option<KbdHookEvent> {
    let m = input as u32;
    if m == WM_KEYDOWN {
        Some(KbdHookEvent::KeyDown)
    } else if m == WM_KEYUP {
        Some(KbdHookEvent::KeyUp)
    } else if m == WM_SYSKEYUP {
        Some(KbdHookEvent::SysKeyUp)
    } else if m == WM_SYSKEYDOWN {
        Some(KbdHookEvent::SysKeyDown)
    } else {
        None
    }
}

impl KbdHookEvent {
    /// The kind of the keyboard message `input` (taken as a 32 bit number).
    pub fn from_usize(input: usize) -> (r: Option<Self>)
        ensures
            r == spec_kbd_event(input),
    {
        let m = input as u32;
        if m == WM_KEYDOWN {
            Some(Self::KeyDown)
        } else if m == WM_KEYUP {
            Some(Self::KeyUp)
        } else if m == WM_SYSKEYUP {
            Some(Self::SysKeyUp)
        } else if m == WM_SYSKEYDOWN {
            Some(Self::SysKeyDown)
        } else {
            None
        }
    }
}

/// The virtual key codes of the modifier keys.
pub const VK_LCONTROL: u32 = 162;
pub const VK_LSHIFT: u32 = 160;
pub const VK_RSHIFT: u32 = 161;
pub const VK_LWIN: u32 = 91;
pub const VK_LMENU: u32 = 164;
pub const VK_RMENU: u32 = 165;

/// The modifiers after the modifier key `vk` went down (`down`) or up.
pub open spec fn spec_update_modifiers(m: Modifiers, vk: u32, down: bool) -> Modifiers {
    if vk == VK_LCONTROL {
        Modifiers { ctrl: down, ..m }
    } else if vk == VK_LSHIFT || vk == VK_RSHIFT {
        Modifiers { shift: down, ..m }
    } else if vk == VK_LWIN {
        Modifiers { win: down, ..m }
    } else if vk == VK_LMENU {
        Modifiers { lalt: down, ..m }
    } else if vk == VK_RMENU {
        Modifiers { ralt: down, ..m }
    } else {
        m
    }
}

pub open spec fn is_modifier_key(vk: u32) -> bool {
    vk == VK_LCONTROL || vk == VK_LSHIFT || vk == VK_RSHIFT || vk == VK_LWIN || vk == VK_LMENU || vk == VK_RMENU
}

/// The event that key `vk` going down or up makes, with the modifiers `m` held.
pub open spec fn spec_input_event(m: Modifiers, vk: u32, down: bool) -> Option<InputEvent> {
    if is_modifier_key(vk) {
        None
    } else {
        match spec_key_from_code(vk as usize) {
            Some(key) => if down {
                Some(InputEvent::KeyDown(KeyCombination { key, modifiers: m }))
            } else {
                Some(InputEvent::KeyUp(KeyCombination { key, modifiers: m }))
            },
            None => None,
        }
    }
}

pub open spec fn event_key_combination(e: InputEvent) -> KeyCombination {
    match e {
        InputEvent::KeyDown(kc) => kc,
        InputEvent::KeyUp(kc) => kc,
    }
}

/// Removes every `x` from `s`, keeping the order of the rest.
pub open spec fn without(s: Seq<usize>, x: usize) -> Seq<usize>
    decreases s.len(),
{
    if s.len() == 0 {
        s
    } else if s.last() == x {
        without(s.drop_last(), x)
    } else {
        without(s.drop_last(), x).push(s.last())
    }
}

/// The state of the keyboard hook: the ids of the key combinations that are
/// bound, and the modifiers that are held down.
#[derive(Debug)]
pub struct KeybindingEventLoop {
    pub keybinding_ids: Vec<usize>,
    pub modifiers: Modifiers,
}

impl KeybindingEventLoop {
    pub fn new() -> (r: Self)
        ensures
            r.keybinding_ids@ == Seq::<usize>::empty(),
            r.modifiers == (Modifiers { lalt: false, ralt: false, shift: false, win: false, ctrl: false }),
    {
        Self {
            keybinding_ids: Vec::new(),
            modifiers: Modifiers { lalt: false, ralt: false, shift: false, win: false, ctrl: false },
        }
    }

    /// Binds the key combination with id `id`, unless it is bound already.
    pub fn add_keybinding(&mut self, id: usize)
        ensures
            final(self).keybinding_ids@ == (if old(self).keybinding_ids@.contains(id) {
                old(self).keybinding_ids@
            } else {
                old(self).keybinding_ids@.push(id)
            }),
            final(self).modifiers == old(self).modifiers,
    {
        if !self.is_bound(id) {
            self.keybinding_ids.push(id);
        }
    }

    /// Unbinds the key combination with id `id`.
    pub fn remove_keybinding(&mut self, id: usize)
        ensures
            final(self).keybinding_ids@ == without(old(self).keybinding_ids@, id),
            final(self).modifiers == old(self).modifiers,
    {
        let mut kept: Vec<usize> = Vec::new();
        let mut i: usize = 0;
        while i < self.keybinding_ids.len()
            invariant
                i <= self.keybinding_ids@.len(),
                kept@ == without(self.keybinding_ids@.take(i as int), id),
            decreases self.keybinding_ids@.len() - i,
        {
            assert(self.keybinding_ids@.take(i as int + 1).drop_last() == self.keybinding_ids@.take(i as int));
            if self.keybinding_ids[i] != id {
                kept.push(self.keybinding_ids[i]);
            }
            i += 1;
        }
        assert(self.keybinding_ids@.take(self.keybinding_ids@.len() as int) == self.keybinding_ids@);
        self.keybinding_ids = kept;
    }

    /// Whether the key combination with id `id` is bound.
    pub fn is_bound(&self, id: usize) -> (r: bool)
        ensures
            r == self.keybinding_ids@.contains(id),
    {
        let mut i: usize = 0;
        while i < self.keybinding_ids.len()
            invariant
                i <= self.keybinding_ids@.len(),
                forall|j: int| 0 <= j < i ==> self.keybinding_ids@[j] != id,
            decreases self.keybinding_ids@.len() - i,
        {
            if self.keybinding_ids[i] == id {
                return true;
            }
            i += 1;
        }
        false
    }

    /// What the keyboard hook does with a message: it tracks the modifier keys,
    /// and it answers the event to send (and to take away from other programs)
    /// where the key combination is bound; nothing where the message is to be
    /// passed on. `ncode` below zero is passed on untouched.
    pub fn on_key(&mut self, ncode: i32, wparam: usize, vk_code: u32) -> (r: Option<InputEvent>)
        requires
            ncode >= 0 ==> spec_kbd_event(wparam) is Some,
        ensures
            final(self).keybinding_ids == old(self).keybinding_ids,
            ncode < 0 ==> r is None && final(self).modifiers == old(self).modifiers,
            ncode >= 0 ==> {
                let down = (spec_kbd_event(wparam) == Some(KbdHookEvent::KeyDown)
                    || spec_kbd_event(wparam) == Some(KbdHookEvent::SysKeyDown));
                &&& final(self).modifiers == spec_update_modifiers(old(self).modifiers, vk_code, down)
                &&& r == (match spec_input_event(old(self).modifiers, vk_code, down) {
                    Some(e) => if old(self).keybinding_ids@.contains(spec_key_combination_id(event_key_combination(e)) as usize) {
                        Some(e)
                    } else {
                        None
                    },
                    None => None,
                })
            },
    {
        if ncode < 0 {
            return None;
        }
        let kind = KbdHookEvent::from_usize(wparam).unwrap();
        let down = match kind {
            KbdHookEvent::KeyDown | KbdHookEvent::SysKeyDown => true,
            KbdHookEvent::KeyUp | KbdHookEvent::SysKeyUp => false,
        };
        let mut event: Option<InputEvent> = None;
        if vk_code == VK_LCONTROL {
            self.modifiers.ctrl = down;
        } else if vk_code == VK_LSHIFT || vk_code == VK_RSHIFT {
            self.modifiers.shift = down;
        } else if vk_code == VK_LWIN {
            self.modifiers.win = down;
        } else if vk_code == VK_LMENU {
            self.modifiers.lalt = down;
        } else if vk_code == VK_RMENU {
            self.modifiers.ralt = down;
        } else {
            match Key::from_usize(vk_code as usize) {
                Some(key) => {
                    let kc = KeyCombination { key, modifiers: self.modifiers };
                    event = if down { Some(InputEvent::KeyDown(kc)) } else { Some(InputEvent::KeyUp(kc)) };
                },
                None => {},
            }
        }
        match event {
            Some(e) => {
                let kc = match e {
                    InputEvent::KeyUp(kc) => kc,
                    InputEvent::KeyDown(kc) => kc,
                };
                if self.is_bound(kc.get_id()) {
                    Some(e)
                } else {
                    None
                }
            },
            None => None,
        }
    }
}

/// After binding an id it is bound, and no id is bound twice.
pub proof fn lemma_add_keybinding(ids: Seq<usize>, id: usize)
    requires
        ids.no_duplicates(),
    ensures
        ({
            let after = if ids.contains(id) { ids } else { ids.push(id) };
            after.contains(id) && after.no_duplicates()
        }),
{
    if !ids.contains(id) {
        assert(ids.push(id)[ids.len() as int] == id);
    }
}

/// After unbinding an id it is not bound, and every other id stays bound.
pub proof fn lemma_remove_keybinding(ids: Seq<usize>, id: usize, other: usize)
    ensures
        !without(ids, id).contains(id),
        other != id ==> (without(ids, id).contains(other) <==> ids.contains(other)),
    decreases ids.len(),
{
    if ids.len() > 0 {
        let d = ids.drop_last();
        lemma_remove_keybinding(d, id, other);
        let w = without(d, id);
        assert(ids == d.push(ids.last()));
        if ids.last() != id {
            assert(without(ids, id) == w.push(ids.last()));
            assert(!w.push(ids.last()).contains(id)) by {
                if w.push(ids.last()).contains(id) {
                    let k = choose|k: int| 0 <= k < w.len() + 1 && w.push(ids.last())[k] == id;
                    if k < w.len() {
                        assert(w[k] == id);
                    }
                }
            }
        }
        if other != id {
            if without(ids, id).contains(other) {
                let k = choose|k: int| 0 <= k < without(ids, id).len() && without(ids, id)[k] == other;
                if ids.last() != id && k == w.len() {
                    assert(ids[ids.len() - 1] == other);
                } else {
                    assert(w[k] == other);
                    assert(d.contains(other));
                    let k2 = choose|k2: int| 0 <= k2 < d.len() && d[k2] == other;
                    assert(ids[k2] == other);
                }
            }
            if ids.contains(other) {
                let k = choose|k: int| 0 <= k < ids.len() && ids[k] == other;
                if k == ids.len() - 1 {
                    assert(without(ids, id)[w.len() as int] == other);
                } else {
                    assert(d[k] == other);
                    assert(w.contains(other));
                    let k2 = choose|k2: int| 0 <= k2 < w.len() && w[k2] == other;
                    if ids.last() != id {
                        assert(without(ids, id)[k2] == other);
                    }
                }
            }
        }
    }
}

} // verus!
