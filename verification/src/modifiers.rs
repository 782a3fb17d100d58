//! The modifier keys held down with a key.
use vstd::prelude::*;

verus! {

#[derive(Debug, Copy, Clone, PartialEq, Eq, Structural)]
pub struct Modifiers {
    pub lalt: bool,
    pub ralt: bool,
    pub shift: bool,
    pub win: bool,
    pub ctrl: bool,
}

pub open spec fn bit(b: bool) -> nat {
    if b { 1 } else { 0 }
}

/// The modifiers as a decimal number with one digit per modifier: `lalt` is
/// the lowest digit, then `ralt`, `shift`, `win` and `ctrl`.
pub open spec fn spec_modifiers_id(m: Modifiers) -> nat {
    bit(m.lalt) + 10 * bit(m.ralt) + 100 * bit(m.shift) + 1000 * bit(m.win) + 10000 * bit(m.ctrl)
}

impl Modifiers {
    /// How many modifiers there are.
    pub const BIT_COUNT: u32 = 5;

    pub fn get_id(&self) -> (r: usize)
        ensures
            r == spec_modifiers_id(*self),
    {
        let bits: [bool; 5] = [self.lalt, self.ralt, self.shift, self.win, self.ctrl];
        let mut acc: usize = 0;
        let mut pow: usize = 1;
        let mut idx: usize = 0;
        while idx < 5
            invariant
                idx <= 5,
                bits@ == seq![self.lalt, self.ralt, self.shift, self.win, self.ctrl],
                pow == (if idx == 0 { 1 } else if idx == 1 { 10 } else if idx == 2 { 100 } else if idx == 3 { 1000 } else if idx == 4 { 10000 } else { 100000int }),
                acc == (if idx >= 1 { bit(self.lalt) } else { 0 }) + (if idx >= 2 { 10 * bit(self.ralt) } else { 0 })
                    + (if idx >= 3 { 100 * bit(self.shift) } else { 0 }) + (if idx >= 4 { 1000 * bit(self.win) } else { 0 })
                    + (if idx >= 5 { 10000 * bit(self.ctrl) } else { 0 }),
            decreases 5 - idx,
        {
            if bits[idx] {
                acc = acc + pow;
            }
            pow = pow * 10;
            idx += 1;
        }
        acc
    }
}

impl Default for Modifiers {
    fn default() -> (m: Self)
        ensures
            m == (Modifiers { lalt: false, ralt: false, shift: false, win: false, ctrl: false }),
    {
        Modifiers { lalt: false, ralt: false, shift: false, win: false, ctrl: false }
    }
}

/// Different modifiers have different ids.
pub proof fn lemma_modifiers_id_injective(a: Modifiers, b: Modifiers)
    requires
        spec_modifiers_id(a) == spec_modifiers_id(b),
    ensures
        a == b,
{
}

pub proof fn lemma_modifiers_id_bound(m: Modifiers)
    ensures
        spec_modifiers_id(m) < 100000,
{
}

} // verus!
