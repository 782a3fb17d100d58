//! Laws of key combination texts: the text that shows a key combination reads
//! back as that key combination.
use vstd::prelude::*;
use crate::key::{spec_key_from_code, spec_key_name, spec_parse_key, Key};
use crate::key_combination::{
    apply_modifier, spec_key_combination_text, spec_modifier_names, spec_parse_key_combination,
    spec_parse_modifiers, spec_parts, KeyCombination,
};
use crate::modifiers::Modifiers;
use crate::text::{spec_decimal, lemma_split_join, spec_ascii_upper_seq, spec_is_whitespace, spec_join, spec_split, spec_trim};

verus! {

/// A character sequence equals a literal of up to nine characters only where
/// it has the literal's length and characters.
proof fn lemma_literals(s: Seq<char>)
    ensures
        forall|x0: char| #[trigger] seq![x0] == s ==> s.len() == 1 && s[0] == x0,
        forall|x0: char, x1: char| #[trigger] seq![x0, x1] == s ==> s.len() == 2 && s[0] == x0 && s[1] == x1,
        forall|x0: char, x1: char, x2: char| #[trigger] seq![x0, x1, x2] == s ==> s.len() == 3 && s[0] == x0 && s[1] == x1 && s[2] == x2,
        forall|x0: char, x1: char, x2: char, x3: char| #[trigger] seq![x0, x1, x2, x3] == s ==> s.len() == 4 && s[0] == x0 && s[1] == x1 && s[2] == x2 && s[3] == x3,
        forall|x0: char, x1: char, x2: char, x3: char, x4: char| #[trigger] seq![x0, x1, x2, x3, x4] == s ==> s.len() == 5 && s[0] == x0 && s[1] == x1 && s[2] == x2 && s[3] == x3 && s[4] == x4,
        forall|x0: char, x1: char, x2: char, x3: char, x4: char, x5: char| #[trigger] seq![x0, x1, x2, x3, x4, x5] == s ==> s.len() == 6 && s[0] == x0 && s[1] == x1 && s[2] == x2 && s[3] == x3 && s[4] == x4 && s[5] == x5,
        forall|x0: char, x1: char, x2: char, x3: char, x4: char, x5: char, x6: char| #[trigger] seq![x0, x1, x2, x3, x4, x5, x6] == s ==> s.len() == 7 && s[0] == x0 && s[1] == x1 && s[2] == x2 && s[3] == x3 && s[4] == x4 && s[5] == x5 && s[6] == x6,
        forall|x0: char, x1: char, x2: char, x3: char, x4: char, x5: char, x6: char, x7: char| #[trigger] seq![x0, x1, x2, x3, x4, x5, x6, x7] == s ==> s.len() == 8 && s[0] == x0 && s[1] == x1 && s[2] == x2 && s[3] == x3 && s[4] == x4 && s[5] == x5 && s[6] == x6 && s[7] == x7,
        forall|x0: char, x1: char, x2: char, x3: char, x4: char, x5: char, x6: char, x7: char, x8: char| #[trigger] seq![x0, x1, x2, x3, x4, x5, x6, x7, x8] == s ==> s.len() == 9 && s[0] == x0 && s[1] == x1 && s[2] == x2 && s[3] == x3 && s[4] == x4 && s[5] == x5 && s[6] == x6 && s[7] == x7 && s[8] == x8,
{
    assert forall|x0: char| #[trigger] seq![x0] == s implies s.len() == 1 && s[0] == x0 by {
        assert(seq![x0].len() == 1);
        assert(seq![x0][0] == x0);
    }
    assert forall|x0: char, x1: char| #[trigger] seq![x0, x1] == s implies s.len() == 2 && s[0] == x0 && s[1] == x1 by {
        assert(seq![x0, x1].len() == 2);
        assert(seq![x0, x1][0] == x0);
        assert(seq![x0, x1][1] == x1);
    }
    assert forall|x0: char, x1: char, x2: char| #[trigger] seq![x0, x1, x2] == s implies s.len() == 3 && s[0] == x0 && s[1] == x1 && s[2] == x2 by {
        assert(seq![x0, x1, x2].len() == 3);
        assert(seq![x0, x1, x2][0] == x0);
        assert(seq![x0, x1, x2][1] == x1);
        assert(seq![x0, x1, x2][2] == x2);
    }
    assert forall|x0: char, x1: char, x2: char, x3: char| #[trigger] seq![x0, x1, x2, x3] == s implies s.len() == 4 && s[0] == x0 && s[1] == x1 && s[2] == x2 && s[3] == x3 by {
        assert(seq![x0, x1, x2, x3].len() == 4);
        assert(seq![x0, x1, x2, x3][0] == x0);
        assert(seq![x0, x1, x2, x3][1] == x1);
        assert(seq![x0, x1, x2, x3][2] == x2);
        assert(seq![x0, x1, x2, x3][3] == x3);
    }
    assert forall|x0: char, x1: char, x2: char, x3: char, x4: char| #[trigger] seq![x0, x1, x2, x3, x4] == s implies s.len() == 5 && s[0] == x0 && s[1] == x1 && s[2] == x2 && s[3] == x3 && s[4] == x4 by {
        assert(seq![x0, x1, x2, x3, x4].len() == 5);
        assert(seq![x0, x1, x2, x3, x4][0] == x0);
        assert(seq![x0, x1, x2, x3, x4][1] == x1);
        assert(seq![x0, x1, x2, x3, x4][2] == x2);
        assert(seq![x0, x1, x2, x3, x4][3] == x3);
        assert(seq![x0, x1, x2, x3, x4][4] == x4);
    }
    assert forall|x0: char, x1: char, x2: char, x3: char, x4: char, x5: char| #[trigger] seq![x0, x1, x2, x3, x4, x5] == s implies s.len() == 6 && s[0] == x0 && s[1] == x1 && s[2] == x2 && s[3] == x3 && s[4] == x4 && s[5] == x5 by {
        assert(seq![x0, x1, x2, x3, x4, x5].len() == 6);
        assert(seq![x0, x1, x2, x3, x4, x5][0] == x0);
        assert(seq![x0, x1, x2, x3, x4, x5][1] == x1);
        assert(seq![x0, x1, x2, x3, x4, x5][2] == x2);
        assert(seq![x0, x1, x2, x3, x4, x5][3] == x3);
        assert(seq![x0, x1, x2, x3, x4, x5][4] == x4);
        assert(seq![x0, x1, x2, x3, x4, x5][5] == x5);
    }
    assert forall|x0: char, x1: char, x2: char, x3: char, x4: char, x5: char, x6: char| #[trigger] seq![x0, x1, x2, x3, x4, x5, x6] == s implies s.len() == 7 && s[0] == x0 && s[1] == x1 && s[2] == x2 && s[3] == x3 && s[4] == x4 && s[5] == x5 && s[6] == x6 by {
        assert(seq![x0, x1, x2, x3, x4, x5, x6].len() == 7);
        assert(seq![x0, x1, x2, x3, x4, x5, x6][0] == x0);
        assert(seq![x0, x1, x2, x3, x4, x5, x6][1] == x1);
        assert(seq![x0, x1, x2, x3, x4, x5, x6][2] == x2);
        assert(seq![x0, x1, x2, x3, x4, x5, x6][3] == x3);
        assert(seq![x0, x1, x2, x3, x4, x5, x6][4] == x4);
        assert(seq![x0, x1, x2, x3, x4, x5, x6][5] == x5);
        assert(seq![x0, x1, x2, x3, x4, x5, x6][6] == x6);
    }
    assert forall|x0: char, x1: char, x2: char, x3: char, x4: char, x5: char, x6: char, x7: char| #[trigger] seq![x0, x1, x2, x3, x4, x5, x6, x7] == s implies s.len() == 8 && s[0] == x0 && s[1] == x1 && s[2] == x2 && s[3] == x3 && s[4] == x4 && s[5] == x5 && s[6] == x6 && s[7] == x7 by {
        assert(seq![x0, x1, x2, x3, x4, x5, x6, x7].len() == 8);
        assert(seq![x0, x1, x2, x3, x4, x5, x6, x7][0] == x0);
        assert(seq![x0, x1, x2, x3, x4, x5, x6, x7][1] == x1);
        assert(seq![x0, x1, x2, x3, x4, x5, x6, x7][2] == x2);
        assert(seq![x0, x1, x2, x3, x4, x5, x6, x7][3] == x3);
        assert(seq![x0, x1, x2, x3, x4, x5, x6, x7][4] == x4);
        assert(seq![x0, x1, x2, x3, x4, x5, x6, x7][5] == x5);
        assert(seq![x0, x1, x2, x3, x4, x5, x6, x7][6] == x6);
        assert(seq![x0, x1, x2, x3, x4, x5, x6, x7][7] == x7);
    }
    assert forall|x0: char, x1: char, x2: char, x3: char, x4: char, x5: char, x6: char, x7: char, x8: char| #[trigger] seq![x0, x1, x2, x3, x4, x5, x6, x7, x8] == s implies s.len() == 9 && s[0] == x0 && s[1] == x1 && s[2] == x2 && s[3] == x3 && s[4] == x4 && s[5] == x5 && s[6] == x6 && s[7] == x7 && s[8] == x8 by {
        assert(seq![x0, x1, x2, x3, x4, x5, x6, x7, x8].len() == 9);
        assert(seq![x0, x1, x2, x3, x4, x5, x6, x7, x8][0] == x0);
        assert(seq![x0, x1, x2, x3, x4, x5, x6, x7, x8][1] == x1);
        assert(seq![x0, x1, x2, x3, x4, x5, x6, x7, x8][2] == x2);
        assert(seq![x0, x1, x2, x3, x4, x5, x6, x7, x8][3] == x3);
        assert(seq![x0, x1, x2, x3, x4, x5, x6, x7, x8][4] == x4);
        assert(seq![x0, x1, x2, x3, x4, x5, x6, x7, x8][5] == x5);
        assert(seq![x0, x1, x2, x3, x4, x5, x6, x7, x8][6] == x6);
        assert(seq![x0, x1, x2, x3, x4, x5, x6, x7, x8][7] == x7);
        assert(seq![x0, x1, x2, x3, x4, x5, x6, x7, x8][8] == x8);
    }
}

/// No character of `s` is a `+` or white space.
pub open spec fn plain_text(s: Seq<char>) -> bool {
    forall|i: int| 0 <= i < s.len() ==> s[i] != '+' && !spec_is_whitespace(#[trigger] s[i])
}

/// The upper case name of every key but `M` and `Z` parses back to the key
/// (`M` and `Z` have no name that parses).
pub proof fn lemma_key_name_parses(k: Key)
    requires
        k != Key::M,
        k != Key::Z,
    ensures
        spec_parse_key(spec_ascii_upper_seq(spec_key_name(k))) == Some(k),
{
    match k {
        Key::A => {
            let u = seq!['A'];
            assert(spec_ascii_upper_seq(spec_key_name(k)) =~= u);
            lemma_literals(u);
        },
        Key::B => {
            let u = seq!['B'];
            assert(spec_ascii_upper_seq(spec_key_name(k)) =~= u);
            lemma_literals(u);
        },
        Key::C => {
            let u = seq!['C'];
            assert(spec_ascii_upper_seq(spec_key_name(k)) =~= u);
            lemma_literals(u);
        },
        Key::D => {
            let u = seq!['D'];
            assert(spec_ascii_upper_seq(spec_key_name(k)) =~= u);
            lemma_literals(u);
        },
        Key::E => {
            let u = seq!['E'];
            assert(spec_ascii_upper_seq(spec_key_name(k)) =~= u);
            lemma_literals(u);
        },
        Key::F => {
            let u = seq!['F'];
            assert(spec_ascii_upper_seq(spec_key_name(k)) =~= u);
            lemma_literals(u);
        },
        Key::G => {
            let u = seq!['G'];
            assert(spec_ascii_upper_seq(spec_key_name(k)) =~= u);
            lemma_literals(u);
        },
        Key::H => {
            let u = seq!['H'];
            assert(spec_ascii_upper_seq(spec_key_name(k)) =~= u);
            lemma_literals(u);
        },
        Key::I => {
            let u = seq!['I'];
            assert(spec_ascii_upper_seq(spec_key_name(k)) =~= u);
            lemma_literals(u);
        },
        Key::J => {
            let u = seq!['J'];
            assert(spec_ascii_upper_seq(spec_key_name(k)) =~= u);
            lemma_literals(u);
        },
        Key::K => {
            let u = seq!['K'];
            assert(spec_ascii_upper_seq(spec_key_name(k)) =~= u);
            lemma_literals(u);
        },
        Key::L => {
            let u = seq!['L'];
            assert(spec_ascii_upper_seq(spec_key_name(k)) =~= u);
            lemma_literals(u);
        },
        Key::N => {
            let u = seq!['N'];
            assert(spec_ascii_upper_seq(spec_key_name(k)) =~= u);
            lemma_literals(u);
        },
        Key::O => {
            let u = seq!['O'];
            assert(spec_ascii_upper_seq(spec_key_name(k)) =~= u);
            lemma_literals(u);
        },
        Key::P => {
            let u = seq!['P'];
            assert(spec_ascii_upper_seq(spec_key_name(k)) =~= u);
            lemma_literals(u);
        },
        Key::Q => {
            let u = seq!['Q'];
            assert(spec_ascii_upper_seq(spec_key_name(k)) =~= u);
            lemma_literals(u);
        },
        Key::R => {
            let u = seq!['R'];
            assert(spec_ascii_upper_seq(spec_key_name(k)) =~= u);
            lemma_literals(u);
        },
        Key::S => {
            let u = seq!['S'];
            assert(spec_ascii_upper_seq(spec_key_name(k)) =~= u);
            lemma_literals(u);
        },
        Key::T => {
            let u = seq!['T'];
            assert(spec_ascii_upper_seq(spec_key_name(k)) =~= u);
            lemma_literals(u);
        },
        Key::U => {
            let u = seq!['U'];
            assert(spec_ascii_upper_seq(spec_key_name(k)) =~= u);
            lemma_literals(u);
        },
        Key::V => {
            let u = seq!['V'];
            assert(spec_ascii_upper_seq(spec_key_name(k)) =~= u);
            lemma_literals(u);
        },
        Key::W => {
            let u = seq!['W'];
            assert(spec_ascii_upper_seq(spec_key_name(k)) =~= u);
            lemma_literals(u);
        },
        Key::X => {
            let u = seq!['X'];
            assert(spec_ascii_upper_seq(spec_key_name(k)) =~= u);
            lemma_literals(u);
        },
        Key::Y => {
            let u = seq!['Y'];
            assert(spec_ascii_upper_seq(spec_key_name(k)) =~= u);
            lemma_literals(u);
        },
        Key::F1 => {
            let u = seq!['F', '1'];
            assert(spec_ascii_upper_seq(spec_key_name(k)) =~= u);
            lemma_literals(u);
        },
        Key::F2 => {
            let u = seq!['F', '2'];
            assert(spec_ascii_upper_seq(spec_key_name(k)) =~= u);
            lemma_literals(u);
        },
        Key::F3 => {
            let u = seq!['F', '3'];
            assert(spec_ascii_upper_seq(spec_key_name(k)) =~= u);
            lemma_literals(u);
        },
        Key::F4 => {
            let u = seq!['F', '4'];
            assert(spec_ascii_upper_seq(spec_key_name(k)) =~= u);
            lemma_literals(u);
        },
        Key::F5 => {
            let u = seq!['F', '5'];
            assert(spec_ascii_upper_seq(spec_key_name(k)) =~= u);
            lemma_literals(u);
        },
        Key::F6 => {
            let u = seq!['F', '6'];
            assert(spec_ascii_upper_seq(spec_key_name(k)) =~= u);
            lemma_literals(u);
        },
        Key::F7 => {
            let u = seq!['F', '7'];
            assert(spec_ascii_upper_seq(spec_key_name(k)) =~= u);
            lemma_literals(u);
        },
        Key::F8 => {
            let u = seq!['F', '8'];
            assert(spec_ascii_upper_seq(spec_key_name(k)) =~= u);
            lemma_literals(u);
        },
        Key::F9 => {
            let u = seq!['F', '9'];
            assert(spec_ascii_upper_seq(spec_key_name(k)) =~= u);
            lemma_literals(u);
        },
        Key::F10 => {
            let u = seq!['F', '1', '0'];
            assert(spec_ascii_upper_seq(spec_key_name(k)) =~= u);
            lemma_literals(u);
        },
        Key::F11 => {
            let u = seq!['F', '1', '1'];
            assert(spec_ascii_upper_seq(spec_key_name(k)) =~= u);
            lemma_literals(u);
        },
        Key::F12 => {
            let u = seq!['F', '1', '2'];
            assert(spec_ascii_upper_seq(spec_key_name(k)) =~= u);
            lemma_literals(u);
        },
        Key::Zero => {
            let u = seq!['0'];
            assert(spec_ascii_upper_seq(spec_key_name(k)) =~= u);
            lemma_literals(u);
        },
        Key::One => {
            let u = seq!['1'];
            assert(spec_ascii_upper_seq(spec_key_name(k)) =~= u);
            lemma_literals(u);
        },
        Key::Two => {
            let u = seq!['2'];
            assert(spec_ascii_upper_seq(spec_key_name(k)) =~= u);
            lemma_literals(u);
        },
        Key::Three => {
            let u = seq!['3'];
            assert(spec_ascii_upper_seq(spec_key_name(k)) =~= u);
            lemma_literals(u);
        },
        Key::Four => {
            let u = seq!['4'];
            assert(spec_ascii_upper_seq(spec_key_name(k)) =~= u);
            lemma_literals(u);
        },
        Key::Five => {
            let u = seq!['5'];
            assert(spec_ascii_upper_seq(spec_key_name(k)) =~= u);
            lemma_literals(u);
        },
        Key::Six => {
            let u = seq!['6'];
            assert(spec_ascii_upper_seq(spec_key_name(k)) =~= u);
            lemma_literals(u);
        },
        Key::Seven => {
            let u = seq!['7'];
            assert(spec_ascii_upper_seq(spec_key_name(k)) =~= u);
            lemma_literals(u);
        },
        Key::Eight => {
            let u = seq!['8'];
            assert(spec_ascii_upper_seq(spec_key_name(k)) =~= u);
            lemma_literals(u);
        },
        Key::Nine => {
            let u = seq!['9'];
            assert(spec_ascii_upper_seq(spec_key_name(k)) =~= u);
            lemma_literals(u);
        },
        Key::Enter => {
            let u = seq!['E', 'N', 'T', 'E', 'R'];
            assert(spec_ascii_upper_seq(spec_key_name(k)) =~= u);
            lemma_literals(u);
        },
        Key::Escape => {
            let u = seq!['E', 'S', 'C', 'A', 'P', 'E'];
            assert(spec_ascii_upper_seq(spec_key_name(k)) =~= u);
            lemma_literals(u);
        },
        Key::Backspace => {
            let u = seq!['B', 'A', 'C', 'K', 'S', 'P', 'A', 'C', 'E'];
            assert(spec_ascii_upper_seq(spec_key_name(k)) =~= u);
            lemma_literals(u);
        },
        Key::Tab => {
            let u = seq!['T', 'A', 'B'];
            assert(spec_ascii_upper_seq(spec_key_name(k)) =~= u);
            lemma_literals(u);
        },
        Key::Space => {
            let u = seq!['S', 'P', 'A', 'C', 'E'];
            assert(spec_ascii_upper_seq(spec_key_name(k)) =~= u);
            lemma_literals(u);
        },
        Key::M | Key::Z => {},
    }
}

proof fn lemma_key_name_plain(k: Key)
    ensures
        plain_text(spec_key_name(k)),
        spec_key_name(k).len() > 0,
{
    let s = spec_key_name(k);
    assert forall|i: int| 0 <= i < s.len() implies s[i] != '+' && !spec_is_whitespace(#[trigger] s[i]) by {
        assert('0' <= s[i] <= '9' || 'A' <= s[i] <= 'Z' || 'a' <= s[i] <= 'z');
    }
}

proof fn lemma_trim_plain(s: Seq<char>)
    requires
        plain_text(s),
    ensures
        spec_trim(s) == s,
{
    if s.len() > 0 {
        assert(!spec_is_whitespace(s[0]));
        assert(!spec_is_whitespace(s.last()));
    }
}

proof fn lemma_upper_names()
    ensures
        spec_ascii_upper_seq(seq!['L', 'A', 'l', 't']) == seq!['L', 'A', 'L', 'T'],
        spec_ascii_upper_seq(seq!['R', 'A', 'l', 't']) == seq!['R', 'A', 'L', 'T'],
        spec_ascii_upper_seq(seq!['S', 'h', 'i', 'f', 't']) == seq!['S', 'H', 'I', 'F', 'T'],
        spec_ascii_upper_seq(seq!['W', 'i', 'n']) == seq!['W', 'I', 'N'],
        spec_ascii_upper_seq(seq!['C', 't', 'r', 'l']) == seq!['C', 'T', 'R', 'L'],
{
    assert(spec_ascii_upper_seq(seq!['L', 'A', 'l', 't']) =~= seq!['L', 'A', 'L', 'T']);
    assert(spec_ascii_upper_seq(seq!['R', 'A', 'l', 't']) =~= seq!['R', 'A', 'L', 'T']);
    assert(spec_ascii_upper_seq(seq!['S', 'h', 'i', 'f', 't']) =~= seq!['S', 'H', 'I', 'F', 'T']);
    assert(spec_ascii_upper_seq(seq!['W', 'i', 'n']) =~= seq!['W', 'I', 'N']);
    assert(spec_ascii_upper_seq(seq!['C', 't', 'r', 'l']) =~= seq!['C', 'T', 'R', 'L']);
}

/// The upper case names of the held modifiers parse back to those modifiers.
proof fn lemma_modifier_names_parse(m: Modifiers)
    ensures
        spec_parse_modifiers(spec_modifier_names(m).map_values(|p: Seq<char>| spec_ascii_upper_seq(spec_trim(p))))
            == Ok::<Modifiers, Seq<char>>(m),
        forall|j: int| 0 <= j < spec_modifier_names(m).len() ==> plain_text(#[trigger] spec_modifier_names(m)[j]),
        forall|j: int| 0 <= j < spec_modifier_names(m).len() ==> (#[trigger] spec_modifier_names(m)[j]).len() > 0,
{
    let n_lalt = seq!['L', 'A', 'l', 't'];
    let n_ralt = seq!['R', 'A', 'l', 't'];
    let n_shift = seq!['S', 'h', 'i', 'f', 't'];
    let n_win = seq!['W', 'i', 'n'];
    let n_ctrl = seq!['C', 't', 'r', 'l'];
    let u_lalt = seq!['L', 'A', 'L', 'T'];
    let u_ralt = seq!['R', 'A', 'L', 'T'];
    let u_shift = seq!['S', 'H', 'I', 'F', 'T'];
    let u_win = seq!['W', 'I', 'N'];
    let u_ctrl = seq!['C', 'T', 'R', 'L'];
    lemma_upper_names();
    lemma_literals(u_lalt);
    lemma_literals(u_ralt);
    lemma_literals(u_shift);
    lemma_literals(u_win);
    lemma_literals(u_ctrl);
    assert forall|s: Seq<char>| s == n_lalt || s == n_ralt || s == n_shift || s == n_win || s == n_ctrl implies plain_text(s) by {
        assert forall|i: int| 0 <= i < s.len() implies s[i] != '+' && !spec_is_whitespace(#[trigger] s[i]) by {
            assert('A' <= s[i] <= 'Z' || 'a' <= s[i] <= 'z');
        }
    }
    let f = |p: Seq<char>| spec_ascii_upper_seq(spec_trim(p));
    lemma_trim_plain(n_lalt);
    lemma_trim_plain(n_ralt);
    lemma_trim_plain(n_shift);
    lemma_trim_plain(n_win);
    lemma_trim_plain(n_ctrl);
    let m0 = Modifiers { lalt: false, ralt: false, shift: false, win: false, ctrl: false };
    let s0 = Seq::<Seq<char>>::empty();
    let s1 = if m.lalt { s0.push(n_lalt) } else { s0 };
    let m1 = Modifiers { lalt: m.lalt, ..m0 };
    let s2 = if m.ralt { s1.push(n_ralt) } else { s1 };
    let m2 = Modifiers { ralt: m.ralt, ..m1 };
    let s3 = if m.shift { s2.push(n_shift) } else { s2 };
    let m3 = Modifiers { shift: m.shift, ..m2 };
    let s4 = if m.win { s3.push(n_win) } else { s3 };
    let m4 = Modifiers { win: m.win, ..m3 };
    let s5 = if m.ctrl { s4.push(n_ctrl) } else { s4 };
    let m5 = Modifiers { ctrl: m.ctrl, ..m4 };
    assert(m5 == m);
    assert(spec_modifier_names(m) =~= s5);
    assert(spec_parse_modifiers(s0.map_values(f)) == Ok::<Modifiers, Seq<char>>(m0)) by {
        assert(s0.map_values(f) =~= Seq::<Seq<char>>::empty());
    }
    assert(spec_parse_modifiers(s1.map_values(f)) == Ok::<Modifiers, Seq<char>>(m1)) by {
        if m.lalt {
            assert(s1.map_values(f) =~= s0.map_values(f).push(u_lalt));
            assert(s1.map_values(f).drop_last() =~= s0.map_values(f));
        }
    }
    assert(spec_parse_modifiers(s2.map_values(f)) == Ok::<Modifiers, Seq<char>>(m2)) by {
        if m.ralt {
            assert(s2.map_values(f) =~= s1.map_values(f).push(u_ralt));
            assert(s2.map_values(f).drop_last() =~= s1.map_values(f));
        }
    }
    assert(spec_parse_modifiers(s3.map_values(f)) == Ok::<Modifiers, Seq<char>>(m3)) by {
        if m.shift {
            assert(s3.map_values(f) =~= s2.map_values(f).push(u_shift));
            assert(s3.map_values(f).drop_last() =~= s2.map_values(f));
        }
    }
    assert(spec_parse_modifiers(s4.map_values(f)) == Ok::<Modifiers, Seq<char>>(m4)) by {
        if m.win {
            assert(s4.map_values(f) =~= s3.map_values(f).push(u_win));
            assert(s4.map_values(f).drop_last() =~= s3.map_values(f));
        }
    }
    assert(spec_parse_modifiers(s5.map_values(f)) == Ok::<Modifiers, Seq<char>>(m5)) by {
        if m.ctrl {
            assert(s5.map_values(f) =~= s4.map_values(f).push(u_ctrl));
            assert(s5.map_values(f).drop_last() =~= s4.map_values(f));
        }
    }
    assert forall|j: int| 0 <= j < s5.len() implies plain_text(#[trigger] s5[j]) && s5[j].len() > 0 by {
        assert(s5[j] == n_lalt || s5[j] == n_ralt || s5[j] == n_shift || s5[j] == n_win || s5[j] == n_ctrl);
    }
}

/// The text of a key combination is its modifier names and its key name,
/// joined by `+`.
proof fn lemma_text_is_join(kc: KeyCombination)
    ensures
        spec_key_combination_text(kc) == spec_join(spec_modifier_names(kc.modifiers).push(spec_key_name(kc.key)), seq!['+']),
{
    let names = spec_modifier_names(kc.modifiers);
    let kn = spec_key_name(kc.key);
    let parts = names.push(kn);
    lemma_modifier_names_parse(kc.modifiers);
    if names.len() == 0 {
        assert(parts =~= seq![kn]);
    } else {
        assert(parts.drop_last() =~= names);
        assert(names[names.len() - 1].len() > 0);
        if names.len() == 1 {
            assert(spec_join(names, seq!['+']) == names[0]);
        }
        assert(spec_join(names, seq!['+']).len() > 0);
    }
}

/// The text of a key combination reads back as the key combination, for every
/// key but `M` and `Z`, which the key parser does not know.
#[verifier::rlimit(30)]
pub proof fn lemma_key_combination_text_roundtrip(kc: KeyCombination)
    requires
        kc.key != Key::M,
        kc.key != Key::Z,
    ensures
        spec_parse_key_combination(spec_key_combination_text(kc)) == Ok::<KeyCombination, Seq<char>>(kc),
{
    let names = spec_modifier_names(kc.modifiers);
    let kn = spec_key_name(kc.key);
    let parts = names.push(kn);
    let f = |p: Seq<char>| spec_ascii_upper_seq(spec_trim(p));
    lemma_modifier_names_parse(kc.modifiers);
    lemma_key_name_plain(kc.key);
    lemma_key_name_parses(kc.key);
    lemma_trim_plain(kn);
    let text = spec_key_combination_text(kc);
    lemma_text_is_join(kc);
    assert forall|j: int, i: int| 0 <= j < parts.len() && 0 <= i < parts[j].len() implies parts[j][i] != '+' by {
        if j < names.len() {
            assert(plain_text(names[j]));
        }
    }
    lemma_split_join(parts, '+');
    let ps = spec_parts(text);
    assert(ps =~= parts.map_values(f));
    assert(ps.take(ps.len() - 1) =~= names.map_values(f));
    assert(ps[ps.len() - 1] == spec_ascii_upper_seq(kn));
}


/// A key whose name is one character, a letter or a digit, is read from the
/// virtual key code that is the character code of its name: the codes of `A`
/// to `Z` are 65 to 90, those of `0` to `9` are 48 to 57.
pub proof fn lemma_code_of_named_key(k: Key)
    requires
        spec_key_name(k).len() == 1,
    ensures
        spec_key_from_code(spec_key_name(k)[0] as usize) == Some(k),
{
    match k {
        Key::A => {},
        Key::B => {},
        Key::C => {},
        Key::D => {},
        Key::E => {},
        Key::F => {},
        Key::G => {},
        Key::H => {},
        Key::I => {},
        Key::J => {},
        Key::K => {},
        Key::L => {},
        Key::M => {},
        Key::N => {},
        Key::O => {},
        Key::P => {},
        Key::Q => {},
        Key::R => {},
        Key::S => {},
        Key::T => {},
        Key::U => {},
        Key::V => {},
        Key::W => {},
        Key::X => {},
        Key::Y => {},
        Key::Z => {},
        Key::F1 => {},
        Key::F2 => {},
        Key::F3 => {},
        Key::F4 => {},
        Key::F5 => {},
        Key::F6 => {},
        Key::F7 => {},
        Key::F8 => {},
        Key::F9 => {},
        Key::F10 => {},
        Key::F11 => {},
        Key::F12 => {},
        Key::Zero => {},
        Key::One => {},
        Key::Two => {},
        Key::Three => {},
        Key::Four => {},
        Key::Five => {},
        Key::Six => {},
        Key::Seven => {},
        Key::Eight => {},
        Key::Nine => {},
        Key::Enter => {},
        Key::Escape => {},
        Key::Backspace => {},
        Key::Tab => {},
        Key::Space => {},
    }
}

/// The function key `Fn`, for `n` from 1 to 12, is read from the virtual key
/// code `111 + n`.
pub proof fn lemma_function_key_codes(n: nat)
    requires
        1 <= n <= 12,
    ensures
        spec_key_from_code((111 + n) as usize) matches Some(k) && spec_key_name(k) == seq!['F'] + spec_decimal(n),
{
    reveal_with_fuel(spec_decimal, 2);
    assert(spec_decimal(1) == seq!['1']);
    assert(seq!['F'] + spec_decimal(n) == spec_key_name(spec_key_from_code((111 + n) as usize)->0));
}

/// Enter is read from the code of the carriage return character, Escape from
/// that of the escape character.
pub proof fn lemma_control_key_codes()
    ensures
        spec_key_from_code('\r' as usize) == Some(Key::Enter),
        spec_key_from_code('\u{1b}' as usize) == Some(Key::Escape),
{
}

/// No two virtual key codes are read as the same key.
#[verifier::rlimit(60)]
pub proof fn lemma_key_codes_distinct(a: usize, b: usize)
    requires
        spec_key_from_code(a) is Some,
        spec_key_from_code(a) == spec_key_from_code(b),
    ensures
        a == b,
{
}

} // verus!
