//! The four directions in which focus and windows move.
use vstd::prelude::*;
use crate::text::{chars_of, eq_chars, push_char, spec_ascii_upper_seq, string_from_chars, upper_chars};

verus! {

#[derive(Debug, Copy, Clone, PartialEq, Eq, Structural)]
pub enum Direction {
    Left,
    Right,
    Up,
    Down,
}

pub open spec fn spec_direction_name(d: Direction) -> Seq<char> {
    match d {
        Direction::Left => seq!['L', 'e', 'f', 't'],
        Direction::Right => seq!['R', 'i', 'g', 'h', 't'],
        Direction::Up => seq!['U', 'p'],
        Direction::Down => seq!['D', 'o', 'w', 'n'],
    }
}

/// The direction that `s` names, in any case.
pub open spec fn spec_parse_direction(s: Seq<char>) -> Option<Direction> {
    let u = spec_ascii_upper_seq(s);
    if u == seq!['L', 'E', 'F', 'T'] {
        Some(Direction::Left)
    } else if u == seq!['R', 'I', 'G', 'H', 'T'] {
        Some(Direction::Right)
    } else if u == seq!['U', 'P'] {
        Some(Direction::Up)
    } else if u == seq!['D', 'O', 'W', 'N'] {
        Some(Direction::Down)
    } else {
        None
    }
}

pub open spec fn unknown_direction_message(s: Seq<char>) -> Seq<char> {
    seq!['U', 'n', 'k', 'n', 'o', 'w', 'n', ' ', 'd', 'i', 'r', 'e', 'c', 't', 'i', 'o', 'n', ' ', '\'']
        + spec_ascii_upper_seq(s) + seq!['\'']
}

impl Direction {
    /// The name of the direction (what `Display` writes).
    pub fn to_string(&self) -> (r: String)
        ensures
            r@ == spec_direction_name(*self),
    {
        let name: &[char] = match self {
            Direction::Left => &['L', 'e', 'f', 't'],
            Direction::Right => &['R', 'i', 'g', 'h', 't'],
            Direction::Up => &['U', 'p'],
            Direction::Down => &['D', 'o', 'w', 'n'],
        };
        string_from_chars(name)
    }

    /// The direction that `s` names; case does not matter.
    pub fn from_str(s: &str) -> (r: Result<Self, String>)
        ensures
            match spec_parse_direction(s@) {
                Some(d) => r == Ok::<Direction, String>(d),
                None => r matches Err(e) && e@ == unknown_direction_message(s@),
            },
    {
        let cs = chars_of(s);
        let u = upper_chars(cs.as_slice());
        let l_left: &[char] = &['L', 'E', 'F', 'T'];
        let l_right: &[char] = &['R', 'I', 'G', 'H', 'T'];
        let l_up: &[char] = &['U', 'P'];
        let l_down: &[char] = &['D', 'O', 'W', 'N'];
        assert(l_left@ =~= seq!['L', 'E', 'F', 'T']);
        assert(l_right@ =~= seq!['R', 'I', 'G', 'H', 'T']);
        assert(l_up@ =~= seq!['U', 'P']);
        assert(l_down@ =~= seq!['D', 'O', 'W', 'N']);
        if eq_chars(u.as_slice(), l_left) {
            Ok(Direction::Left)
        } else if eq_chars(u.as_slice(), l_right) {
            Ok(Direction::Right)
        } else if eq_chars(u.as_slice(), l_up) {
            Ok(Direction::Up)
        } else if eq_chars(u.as_slice(), l_down) {
            Ok(Direction::Down)
        } else {
            let mut e = string_from_chars(&['U', 'n', 'k', 'n', 'o', 'w', 'n', ' ', 'd', 'i', 'r', 'e', 'c', 't', 'i', 'o', 'n', ' ', '\'']);
            let name = string_from_chars(u.as_slice());
            crate::text::push_str(&mut e, name.as_str());
            push_char(&mut e, '\'');
            Err(e)
        }
    }
}

} // verus!
