//! Key bindings: a key combination and the mode in which it applies.
use vstd::prelude::*;
use crate::key_combination::{spec_key_combination_id, spec_key_combination_text, KeyCombination};
use crate::text::{chars_of, eq_chars, string_from_chars};

verus! {

#[derive(Debug, Clone, Copy, PartialEq, Eq, Structural)]
pub enum KeybindingMode {
    Global,
    Normal,
}

pub open spec fn spec_mode_name(m: KeybindingMode) -> Seq<char> {
    match m {
        KeybindingMode::Global => seq!['g'],
        KeybindingMode::Normal => seq!['n'],
    }
}

pub open spec fn spec_parse_mode(s: Seq<char>) -> Option<KeybindingMode> {
    if s == seq!['g'] {
        Some(KeybindingMode::Global)
    } else if s == seq!['n'] {
        Some(KeybindingMode::Normal)
    } else {
        None
    }
}

impl KeybindingMode {
    /// `g` is the global mode, `n` the normal one.
    pub fn from_str(s: &str) -> (r: Result<Self, ()>)
        ensures
            match spec_parse_mode(s@) {
                Some(m) => r == Ok::<KeybindingMode, ()>(m),
                None => r == Err::<KeybindingMode, ()>(()),
            },
    {
        let cs = chars_of(s);
        let l_g: &[char] = &['g'];
        let l_n: &[char] = &['n'];
        assert(l_g@ =~= seq!['g']);
        assert(l_n@ =~= seq!['n']);
        if eq_chars(cs.as_slice(), l_g) {
            Ok(KeybindingMode::Global)
        } else if eq_chars(cs.as_slice(), l_n) {
            Ok(KeybindingMode::Normal)
        } else {
            Err(())
        }
    }

    /// The letter of the mode (what `Display` writes).
    pub fn to_string(&self) -> (r: String)
        ensures
            r@ == spec_mode_name(*self),
    {
        match self {
            KeybindingMode::Global => string_from_chars(&['g']),
            KeybindingMode::Normal => string_from_chars(&['n']),
        }
    }
}

#[derive(Debug, Copy, Clone, PartialEq, Eq, Structural)]
pub struct Keybinding {
    pub key_combination: KeyCombination,
    pub mode: KeybindingMode,
}

impl Keybinding {
    pub fn get_id(&self) -> (r: usize)
        ensures
            r == spec_key_combination_id(self.key_combination),
    {
        self.key_combination.get_id()
    }

    /// The text of the key combination (what `Display` writes).
    pub fn to_string(&self) -> (r: String)
        ensures
            r@ == spec_key_combination_text(self.key_combination),
    {
        self.key_combination.to_string()
    }
}

/// Reading back the letter of a mode gives the mode.
pub proof fn lemma_mode_roundtrip(m: KeybindingMode)
    ensures
        spec_parse_mode(spec_mode_name(m)) == Some(m),
{
    assert(seq!['n'][0] != seq!['g'][0]);
}

/// Reading back the name of a direction gives the direction.
pub proof fn lemma_direction_roundtrip(d: crate::direction::Direction)
    ensures
        crate::direction::spec_parse_direction(crate::direction::spec_direction_name(d)) == Some(d),
{
    let n = crate::direction::spec_direction_name(d);
    assert(crate::text::spec_ascii_upper_seq(n) =~= match d {
        crate::direction::Direction::Left => seq!['L', 'E', 'F', 'T'],
        crate::direction::Direction::Right => seq!['R', 'I', 'G', 'H', 'T'],
        crate::direction::Direction::Up => seq!['U', 'P'],
        crate::direction::Direction::Down => seq!['D', 'O', 'W', 'N'],
    });
}

} // verus!
