//! The keys that key bindings can use.
use vstd::prelude::*;
use crate::text::{eq_chars, push_str, string_from_chars};

verus! {

#[derive(Debug, Copy, Clone, PartialEq, Eq, Structural)]
pub enum Key {
    A,
    B,
    C,
    D,
    E,
    F,
    G,
    H,
    I,
    J,
    K,
    L,
    M,
    N,
    O,
    P,
    Q,
    R,
    S,
    T,
    U,
    V,
    W,
    X,
    Y,
    Z,
    F1,
    F2,
    F3,
    F4,
    F5,
    F6,
    F7,
    F8,
    F9,
    F10,
    F11,
    F12,
    Zero,
    One,
    Two,
    Three,
    Four,
    Five,
    Six,
    Seven,
    Eight,
    Nine,
    Enter,
    Escape,
    Backspace,
    Tab,
    Space,
}

/// The position of `k` among the keys, in the order of their declaration.
pub open spec fn spec_key_index(k: Key) -> nat {
    match k {
        Key::A => 0,
        Key::B => 1,
        Key::C => 2,
        Key::D => 3,
        Key::E => 4,
        Key::F => 5,
        Key::G => 6,
        Key::H => 7,
        Key::I => 8,
        Key::J => 9,
        Key::K => 10,
        Key::L => 11,
        Key::M => 12,
        Key::N => 13,
        Key::O => 14,
        Key::P => 15,
        Key::Q => 16,
        Key::R => 17,
        Key::S => 18,
        Key::T => 19,
        Key::U => 20,
        Key::V => 21,
        Key::W => 22,
        Key::X => 23,
        Key::Y => 24,
        Key::Z => 25,
        Key::F1 => 26,
        Key::F2 => 27,
        Key::F3 => 28,
        Key::F4 => 29,
        Key::F5 => 30,
        Key::F6 => 31,
        Key::F7 => 32,
        Key::F8 => 33,
        Key::F9 => 34,
        Key::F10 => 35,
        Key::F11 => 36,
        Key::F12 => 37,
        Key::Zero => 38,
        Key::One => 39,
        Key::Two => 40,
        Key::Three => 41,
        Key::Four => 42,
        Key::Five => 43,
        Key::Six => 44,
        Key::Seven => 45,
        Key::Eight => 46,
        Key::Nine => 47,
        Key::Enter => 48,
        Key::Escape => 49,
        Key::Backspace => 50,
        Key::Tab => 51,
        Key::Space => 52,
    }
}

/// The key with virtual key code `code`.
pub open spec fn spec_key_from_code(code: usize) -> Option<Key> {
    if code == 13 {
        Some(Key::Enter)
    }     else if code == 27 {
        Some(Key::Escape)
    }     else if code == 48 {
        Some(Key::Zero)
    }     else if code == 49 {
        Some(Key::One)
    }     else if code == 50 {
        Some(Key::Two)
    }     else if code == 51 {
        Some(Key::Three)
    }     else if code == 52 {
        Some(Key::Four)
    }     else if code == 53 {
        Some(Key::Five)
    }     else if code == 54 {
        Some(Key::Six)
    }     else if code == 55 {
        Some(Key::Seven)
    }     else if code == 56 {
        Some(Key::Eight)
    }     else if code == 57 {
        Some(Key::Nine)
    }     else if code == 65 {
        Some(Key::A)
    }     else if code == 66 {
        Some(Key::B)
    }     else if code == 67 {
        Some(Key::C)
    }     else if code == 68 {
        Some(Key::D)
    }     else if code == 69 {
        Some(Key::E)
    }     else if code == 70 {
        Some(Key::F)
    }     else if code == 71 {
        Some(Key::G)
    }     else if code == 72 {
        Some(Key::H)
    }     else if code == 73 {
        Some(Key::I)
    }     else if code == 74 {
        Some(Key::J)
    }     else if code == 75 {
        Some(Key::K)
    }     else if code == 76 {
        Some(Key::L)
    }     else if code == 77 {
        Some(Key::M)
    }     else if code == 78 {
        Some(Key::N)
    }     else if code == 79 {
        Some(Key::O)
    }     else if code == 80 {
        Some(Key::P)
    }     else if code == 81 {
        Some(Key::Q)
    }     else if code == 82 {
        Some(Key::R)
    }     else if code == 83 {
        Some(Key::S)
    }     else if code == 84 {
        Some(Key::T)
    }     else if code == 85 {
        Some(Key::U)
    }     else if code == 86 {
        Some(Key::V)
    }     else if code == 87 {
        Some(Key::W)
    }     else if code == 88 {
        Some(Key::X)
    }     else if code == 89 {
        Some(Key::Y)
    }     else if code == 90 {
        Some(Key::Z)
    }     else if code == 112 {
        Some(Key::F1)
    }     else if code == 113 {
        Some(Key::F2)
    }     else if code == 114 {
        Some(Key::F3)
    }     else if code == 115 {
        Some(Key::F4)
    }     else if code == 116 {
        Some(Key::F5)
    }     else if code == 117 {
        Some(Key::F6)
    }     else if code == 118 {
        Some(Key::F7)
    }     else if code == 119 {
        Some(Key::F8)
    }     else if code == 120 {
        Some(Key::F9)
    }     else if code == 121 {
        Some(Key::F10)
    }     else if code == 122 {
        Some(Key::F11)
    }     else if code == 123 {
        Some(Key::F12)
    } else {
        None
    }
}

/// The name under which `k` is shown.
pub open spec fn spec_key_name(k: Key) -> Seq<char> {
    match k {
        Key::A => seq!['A'],
        Key::B => seq!['B'],
        Key::C => seq!['C'],
        Key::D => seq!['D'],
        Key::E => seq!['E'],
        Key::F => seq!['F'],
        Key::G => seq!['G'],
        Key::H => seq!['H'],
        Key::I => seq!['I'],
        Key::J => seq!['J'],
        Key::K => seq!['K'],
        Key::L => seq!['L'],
        Key::M => seq!['M'],
        Key::N => seq!['N'],
        Key::O => seq!['O'],
        Key::P => seq!['P'],
        Key::Q => seq!['Q'],
        Key::R => seq!['R'],
        Key::S => seq!['S'],
        Key::T => seq!['T'],
        Key::U => seq!['U'],
        Key::V => seq!['V'],
        Key::W => seq!['W'],
        Key::X => seq!['X'],
        Key::Y => seq!['Y'],
        Key::Z => seq!['Z'],
        Key::F1 => seq!['F', '1'],
        Key::F2 => seq!['F', '2'],
        Key::F3 => seq!['F', '3'],
        Key::F4 => seq!['F', '4'],
        Key::F5 => seq!['F', '5'],
        Key::F6 => seq!['F', '6'],
        Key::F7 => seq!['F', '7'],
        Key::F8 => seq!['F', '8'],
        Key::F9 => seq!['F', '9'],
        Key::F10 => seq!['F', '1', '0'],
        Key::F11 => seq!['F', '1', '1'],
        Key::F12 => seq!['F', '1', '2'],
        Key::Zero => seq!['0'],
        Key::One => seq!['1'],
        Key::Two => seq!['2'],
        Key::Three => seq!['3'],
        Key::Four => seq!['4'],
        Key::Five => seq!['5'],
        Key::Six => seq!['6'],
        Key::Seven => seq!['7'],
        Key::Eight => seq!['8'],
        Key::Nine => seq!['9'],
        Key::Enter => seq!['E', 'n', 't', 'e', 'r'],
        Key::Escape => seq!['E', 's', 'c', 'a', 'p', 'e'],
        Key::Backspace => seq!['B', 'a', 'c', 'k', 's', 'p', 'a', 'c', 'e'],
        Key::Tab => seq!['T', 'a', 'b'],
        Key::Space => seq!['S', 'p', 'a', 'c', 'e'],
    }
}

/// The key that the (upper case) name `s` stands for.
pub open spec fn spec_parse_key(s: Seq<char>) -> Option<Key> {
    if s == seq!['A'] {
        Some(Key::A)
    }     else if s == seq!['B'] {
        Some(Key::B)
    }     else if s == seq!['C'] {
        Some(Key::C)
    }     else if s == seq!['D'] {
        Some(Key::D)
    }     else if s == seq!['E'] {
        Some(Key::E)
    }     else if s == seq!['F'] {
        Some(Key::F)
    }     else if s == seq!['G'] {
        Some(Key::G)
    }     else if s == seq!['H'] {
        Some(Key::H)
    }     else if s == seq!['I'] {
        Some(Key::I)
    }     else if s == seq!['J'] {
        Some(Key::J)
    }     else if s == seq!['K'] {
        Some(Key::K)
    }     else if s == seq!['L'] {
        Some(Key::L)
    }     else if s == seq!['N'] {
        Some(Key::N)
    }     else if s == seq!['O'] {
        Some(Key::O)
    }     else if s == seq!['P'] {
        Some(Key::P)
    }     else if s == seq!['Q'] {
        Some(Key::Q)
    }     else if s == seq!['R'] {
        Some(Key::R)
    }     else if s == seq!['S'] {
        Some(Key::S)
    }     else if s == seq!['T'] {
        Some(Key::T)
    }     else if s == seq!['U'] {
        Some(Key::U)
    }     else if s == seq!['V'] {
        Some(Key::V)
    }     else if s == seq!['W'] {
        Some(Key::W)
    }     else if s == seq!['X'] {
        Some(Key::X)
    }     else if s == seq!['Y'] {
        Some(Key::Y)
    }     else if s == seq!['0'] {
        Some(Key::Zero)
    }     else if s == seq!['1'] {
        Some(Key::One)
    }     else if s == seq!['2'] {
        Some(Key::Two)
    }     else if s == seq!['3'] {
        Some(Key::Three)
    }     else if s == seq!['4'] {
        Some(Key::Four)
    }     else if s == seq!['5'] {
        Some(Key::Five)
    }     else if s == seq!['6'] {
        Some(Key::Six)
    }     else if s == seq!['7'] {
        Some(Key::Seven)
    }     else if s == seq!['8'] {
        Some(Key::Eight)
    }     else if s == seq!['9'] {
        Some(Key::Nine)
    }     else if s == seq!['E', 'N', 'T', 'E', 'R'] {
        Some(Key::Enter)
    }     else if s == seq!['E', 'S', 'C', 'A', 'P', 'E'] {
        Some(Key::Escape)
    }     else if s == seq!['E', 'S', 'C'] {
        Some(Key::Escape)
    }     else if s == seq!['B', 'A', 'C', 'K', 'S', 'P', 'A', 'C', 'E'] {
        Some(Key::Backspace)
    }     else if s == seq!['T', 'A', 'B'] {
        Some(Key::Tab)
    }     else if s == seq!['S', 'P', 'A', 'C', 'E'] {
        Some(Key::Space)
    }     else if s == seq!['F', '1'] {
        Some(Key::F1)
    }     else if s == seq!['F', '2'] {
        Some(Key::F2)
    }     else if s == seq!['F', '3'] {
        Some(Key::F3)
    }     else if s == seq!['F', '4'] {
        Some(Key::F4)
    }     else if s == seq!['F', '5'] {
        Some(Key::F5)
    }     else if s == seq!['F', '6'] {
        Some(Key::F6)
    }     else if s == seq!['F', '7'] {
        Some(Key::F7)
    }     else if s == seq!['F', '8'] {
        Some(Key::F8)
    }     else if s == seq!['F', '9'] {
        Some(Key::F9)
    }     else if s == seq!['F', '1', '0'] {
        Some(Key::F10)
    }     else if s == seq!['F', '1', '1'] {
        Some(Key::F11)
    }     else if s == seq!['F', '1', '2'] {
        Some(Key::F12)
    } else {
        None
    }
}

/// The message of the error that an unknown key name gives.
pub open spec fn unknown_key_message(s: Seq<char>) -> Seq<char> {
    seq!['U', 'n', 'k', 'n', 'o', 'w', 'n', ' ', 'k', 'e', 'y', ' ', '\''] + s + seq!['\'']
}

impl Key {
    pub fn index(&self) -> (r: usize)
        ensures
            r == spec_key_index(*self),
    {
        match self {
            Key::A => 0,
            Key::B => 1,
            Key::C => 2,
            Key::D => 3,
            Key::E => 4,
            Key::F => 5,
            Key::G => 6,
            Key::H => 7,
            Key::I => 8,
            Key::J => 9,
            Key::K => 10,
            Key::L => 11,
            Key::M => 12,
            Key::N => 13,
            Key::O => 14,
            Key::P => 15,
            Key::Q => 16,
            Key::R => 17,
            Key::S => 18,
            Key::T => 19,
            Key::U => 20,
            Key::V => 21,
            Key::W => 22,
            Key::X => 23,
            Key::Y => 24,
            Key::Z => 25,
            Key::F1 => 26,
            Key::F2 => 27,
            Key::F3 => 28,
            Key::F4 => 29,
            Key::F5 => 30,
            Key::F6 => 31,
            Key::F7 => 32,
            Key::F8 => 33,
            Key::F9 => 34,
            Key::F10 => 35,
            Key::F11 => 36,
            Key::F12 => 37,
            Key::Zero => 38,
            Key::One => 39,
            Key::Two => 40,
            Key::Three => 41,
            Key::Four => 42,
            Key::Five => 43,
            Key::Six => 44,
            Key::Seven => 45,
            Key::Eight => 46,
            Key::Nine => 47,
            Key::Enter => 48,
            Key::Escape => 49,
            Key::Backspace => 50,
            Key::Tab => 51,
            Key::Space => 52,
        }
    }

    /// The key with the virtual key code `code`.
    pub fn from_usize(code: usize) -> (r: Option<Self>)
        ensures
            r == spec_key_from_code(code),
    {
        match code {
            13 => Some(Key::Enter),
            27 => Some(Key::Escape),
            48 => Some(Key::Zero),
            49 => Some(Key::One),
            50 => Some(Key::Two),
            51 => Some(Key::Three),
            52 => Some(Key::Four),
            53 => Some(Key::Five),
            54 => Some(Key::Six),
            55 => Some(Key::Seven),
            56 => Some(Key::Eight),
            57 => Some(Key::Nine),
            65 => Some(Key::A),
            66 => Some(Key::B),
            67 => Some(Key::C),
            68 => Some(Key::D),
            69 => Some(Key::E),
            70 => Some(Key::F),
            71 => Some(Key::G),
            72 => Some(Key::H),
            73 => Some(Key::I),
            74 => Some(Key::J),
            75 => Some(Key::K),
            76 => Some(Key::L),
            77 => Some(Key::M),
            78 => Some(Key::N),
            79 => Some(Key::O),
            80 => Some(Key::P),
            81 => Some(Key::Q),
            82 => Some(Key::R),
            83 => Some(Key::S),
            84 => Some(Key::T),
            85 => Some(Key::U),
            86 => Some(Key::V),
            87 => Some(Key::W),
            88 => Some(Key::X),
            89 => Some(Key::Y),
            90 => Some(Key::Z),
            112 => Some(Key::F1),
            113 => Some(Key::F2),
            114 => Some(Key::F3),
            115 => Some(Key::F4),
            116 => Some(Key::F5),
            117 => Some(Key::F6),
            118 => Some(Key::F7),
            119 => Some(Key::F8),
            120 => Some(Key::F9),
            121 => Some(Key::F10),
            122 => Some(Key::F11),
            123 => Some(Key::F12),
            _ => None,
        }
    }

    /// The name under which the key is shown (what `Display` writes).
    pub fn to_string(&self) -> (r: String)
        ensures
            r@ == spec_key_name(*self),
    {
        let name: &[char] = match self {
            Key::A => &['A'],
            Key::B => &['B'],
            Key::C => &['C'],
            Key::D => &['D'],
            Key::E => &['E'],
            Key::F => &['F'],
            Key::G => &['G'],
            Key::H => &['H'],
            Key::I => &['I'],
            Key::J => &['J'],
            Key::K => &['K'],
            Key::L => &['L'],
            Key::M => &['M'],
            Key::N => &['N'],
            Key::O => &['O'],
            Key::P => &['P'],
            Key::Q => &['Q'],
            Key::R => &['R'],
            Key::S => &['S'],
            Key::T => &['T'],
            Key::U => &['U'],
            Key::V => &['V'],
            Key::W => &['W'],
            Key::X => &['X'],
            Key::Y => &['Y'],
            Key::Z => &['Z'],
            Key::F1 => &['F', '1'],
            Key::F2 => &['F', '2'],
            Key::F3 => &['F', '3'],
            Key::F4 => &['F', '4'],
            Key::F5 => &['F', '5'],
            Key::F6 => &['F', '6'],
            Key::F7 => &['F', '7'],
            Key::F8 => &['F', '8'],
            Key::F9 => &['F', '9'],
            Key::F10 => &['F', '1', '0'],
            Key::F11 => &['F', '1', '1'],
            Key::F12 => &['F', '1', '2'],
            Key::Zero => &['0'],
            Key::One => &['1'],
            Key::Two => &['2'],
            Key::Three => &['3'],
            Key::Four => &['4'],
            Key::Five => &['5'],
            Key::Six => &['6'],
            Key::Seven => &['7'],
            Key::Eight => &['8'],
            Key::Nine => &['9'],
            Key::Enter => &['E', 'n', 't', 'e', 'r'],
            Key::Escape => &['E', 's', 'c', 'a', 'p', 'e'],
            Key::Backspace => &['B', 'a', 'c', 'k', 's', 'p', 'a', 'c', 'e'],
            Key::Tab => &['T', 'a', 'b'],
            Key::Space => &['S', 'p', 'a', 'c', 'e'],
        };
        string_from_chars(name)
    }

    /// The key that the name `s` stands for; names are in upper case, `ESC` is
    /// `Escape` too.
    pub fn from_str(s: &str) -> (r: Result<Self, String>)
        ensures
            match spec_parse_key(s@) {
                Some(k) => r == Ok::<Key, String>(k),
                None => r matches Err(e) && e@ == unknown_key_message(s@),
            },
    {
        let cs = crate::text::chars_of(s);
        match Self::parse_chars(cs.as_slice()) {
            Some(k) => Ok(k),
            None => {
                let mut e = string_from_chars(&['U', 'n', 'k', 'n', 'o', 'w', 'n', ' ', 'k', 'e', 'y', ' ', '\'']);
                push_str(&mut e, s);
                crate::text::push_char(&mut e, '\'');
                Err(e)
            },
        }
    }

    fn parse_chars(cs: &[char]) -> (r: Option<Self>)
        ensures
            r == spec_parse_key(cs@),
    {
        let lit: &[char] = &['A'];
        assert(lit@ =~= seq!['A']);
        if eq_chars(cs, lit) {
            return Some(Key::A);
        }
        let lit: &[char] = &['B'];
        assert(lit@ =~= seq!['B']);
        if eq_chars(cs, lit) {
            return Some(Key::B);
        }
        let lit: &[char] = &['C'];
        assert(lit@ =~= seq!['C']);
        if eq_chars(cs, lit) {
            return Some(Key::C);
        }
        let lit: &[char] = &['D'];
        assert(lit@ =~= seq!['D']);
        if eq_chars(cs, lit) {
            return Some(Key::D);
        }
        let lit: &[char] = &['E'];
        assert(lit@ =~= seq!['E']);
        if eq_chars(cs, lit) {
            return Some(Key::E);
        }
        let lit: &[char] = &['F'];
        assert(lit@ =~= seq!['F']);
        if eq_chars(cs, lit) {
            return Some(Key::F);
        }
        let lit: &[char] = &['G'];
        assert(lit@ =~= seq!['G']);
        if eq_chars(cs, lit) {
            return Some(Key::G);
        }
        let lit: &[char] = &['H'];
        assert(lit@ =~= seq!['H']);
        if eq_chars(cs, lit) {
            return Some(Key::H);
        }
        let lit: &[char] = &['I'];
        assert(lit@ =~= seq!['I']);
        if eq_chars(cs, lit) {
            return Some(Key::I);
        }
        let lit: &[char] = &['J'];
        assert(lit@ =~= seq!['J']);
        if eq_chars(cs, lit) {
            return Some(Key::J);
        }
        let lit: &[char] = &['K'];
        assert(lit@ =~= seq!['K']);
        if eq_chars(cs, lit) {
            return Some(Key::K);
        }
        let lit: &[char] = &['L'];
        assert(lit@ =~= seq!['L']);
        if eq_chars(cs, lit) {
            return Some(Key::L);
        }
        let lit: &[char] = &['N'];
        assert(lit@ =~= seq!['N']);
        if eq_chars(cs, lit) {
            return Some(Key::N);
        }
        let lit: &[char] = &['O'];
        assert(lit@ =~= seq!['O']);
        if eq_chars(cs, lit) {
            return Some(Key::O);
        }
        let lit: &[char] = &['P'];
        assert(lit@ =~= seq!['P']);
        if eq_chars(cs, lit) {
            return Some(Key::P);
        }
        let lit: &[char] = &['Q'];
        assert(lit@ =~= seq!['Q']);
        if eq_chars(cs, lit) {
            return Some(Key::Q);
        }
        let lit: &[char] = &['R'];
        assert(lit@ =~= seq!['R']);
        if eq_chars(cs, lit) {
            return Some(Key::R);
        }
        let lit: &[char] = &['S'];
        assert(lit@ =~= seq!['S']);
        if eq_chars(cs, lit) {
            return Some(Key::S);
        }
        let lit: &[char] = &['T'];
        assert(lit@ =~= seq!['T']);
        if eq_chars(cs, lit) {
            return Some(Key::T);
        }
        let lit: &[char] = &['U'];
        assert(lit@ =~= seq!['U']);
        if eq_chars(cs, lit) {
            return Some(Key::U);
        }
        let lit: &[char] = &['V'];
        assert(lit@ =~= seq!['V']);
        if eq_chars(cs, lit) {
            return Some(Key::V);
        }
        let lit: &[char] = &['W'];
        assert(lit@ =~= seq!['W']);
        if eq_chars(cs, lit) {
            return Some(Key::W);
        }
        let lit: &[char] = &['X'];
        assert(lit@ =~= seq!['X']);
        if eq_chars(cs, lit) {
            return Some(Key::X);
        }
        let lit: &[char] = &['Y'];
        assert(lit@ =~= seq!['Y']);
        if eq_chars(cs, lit) {
            return Some(Key::Y);
        }
        let lit: &[char] = &['0'];
        assert(lit@ =~= seq!['0']);
        if eq_chars(cs, lit) {
            return Some(Key::Zero);
        }
        let lit: &[char] = &['1'];
        assert(lit@ =~= seq!['1']);
        if eq_chars(cs, lit) {
            return Some(Key::One);
        }
        let lit: &[char] = &['2'];
        assert(lit@ =~= seq!['2']);
        if eq_chars(cs, lit) {
            return Some(Key::Two);
        }
        let lit: &[char] = &['3'];
        assert(lit@ =~= seq!['3']);
        if eq_chars(cs, lit) {
            return Some(Key::Three);
        }
        let lit: &[char] = &['4'];
        assert(lit@ =~= seq!['4']);
        if eq_chars(cs, lit) {
            return Some(Key::Four);
        }
        let lit: &[char] = &['5'];
        assert(lit@ =~= seq!['5']);
        if eq_chars(cs, lit) {
            return Some(Key::Five);
        }
        let lit: &[char] = &['6'];
        assert(lit@ =~= seq!['6']);
        if eq_chars(cs, lit) {
            return Some(Key::Six);
        }
        let lit: &[char] = &['7'];
        assert(lit@ =~= seq!['7']);
        if eq_chars(cs, lit) {
            return Some(Key::Seven);
        }
        let lit: &[char] = &['8'];
        assert(lit@ =~= seq!['8']);
        if eq_chars(cs, lit) {
            return Some(Key::Eight);
        }
        let lit: &[char] = &['9'];
        assert(lit@ =~= seq!['9']);
        if eq_chars(cs, lit) {
            return Some(Key::Nine);
        }
        let lit: &[char] = &['E', 'N', 'T', 'E', 'R'];
        assert(lit@ =~= seq!['E', 'N', 'T', 'E', 'R']);
        if eq_chars(cs, lit) {
            return Some(Key::Enter);
        }
        let lit: &[char] = &['E', 'S', 'C', 'A', 'P', 'E'];
        assert(lit@ =~= seq!['E', 'S', 'C', 'A', 'P', 'E']);
        if eq_chars(cs, lit) {
            return Some(Key::Escape);
        }
        let lit: &[char] = &['E', 'S', 'C'];
        assert(lit@ =~= seq!['E', 'S', 'C']);
        if eq_chars(cs, lit) {
            return Some(Key::Escape);
        }
        let lit: &[char] = &['B', 'A', 'C', 'K', 'S', 'P', 'A', 'C', 'E'];
        assert(lit@ =~= seq!['B', 'A', 'C', 'K', 'S', 'P', 'A', 'C', 'E']);
        if eq_chars(cs, lit) {
            return Some(Key::Backspace);
        }
        let lit: &[char] = &['T', 'A', 'B'];
        assert(lit@ =~= seq!['T', 'A', 'B']);
        if eq_chars(cs, lit) {
            return Some(Key::Tab);
        }
        let lit: &[char] = &['S', 'P', 'A', 'C', 'E'];
        assert(lit@ =~= seq!['S', 'P', 'A', 'C', 'E']);
        if eq_chars(cs, lit) {
            return Some(Key::Space);
        }
        let lit: &[char] = &['F', '1'];
        assert(lit@ =~= seq!['F', '1']);
        if eq_chars(cs, lit) {
            return Some(Key::F1);
        }
        let lit: &[char] = &['F', '2'];
        assert(lit@ =~= seq!['F', '2']);
        if eq_chars(cs, lit) {
            return Some(Key::F2);
        }
        let lit: &[char] = &['F', '3'];
        assert(lit@ =~= seq!['F', '3']);
        if eq_chars(cs, lit) {
            return Some(Key::F3);
        }
        let lit: &[char] = &['F', '4'];
        assert(lit@ =~= seq!['F', '4']);
        if eq_chars(cs, lit) {
            return Some(Key::F4);
        }
        let lit: &[char] = &['F', '5'];
        assert(lit@ =~= seq!['F', '5']);
        if eq_chars(cs, lit) {
            return Some(Key::F5);
        }
        let lit: &[char] = &['F', '6'];
        assert(lit@ =~= seq!['F', '6']);
        if eq_chars(cs, lit) {
            return Some(Key::F6);
        }
        let lit: &[char] = &['F', '7'];
        assert(lit@ =~= seq!['F', '7']);
        if eq_chars(cs, lit) {
            return Some(Key::F7);
        }
        let lit: &[char] = &['F', '8'];
        assert(lit@ =~= seq!['F', '8']);
        if eq_chars(cs, lit) {
            return Some(Key::F8);
        }
        let lit: &[char] = &['F', '9'];
        assert(lit@ =~= seq!['F', '9']);
        if eq_chars(cs, lit) {
            return Some(Key::F9);
        }
        let lit: &[char] = &['F', '1', '0'];
        assert(lit@ =~= seq!['F', '1', '0']);
        if eq_chars(cs, lit) {
            return Some(Key::F10);
        }
        let lit: &[char] = &['F', '1', '1'];
        assert(lit@ =~= seq!['F', '1', '1']);
        if eq_chars(cs, lit) {
            return Some(Key::F11);
        }
        let lit: &[char] = &['F', '1', '2'];
        assert(lit@ =~= seq!['F', '1', '2']);
        if eq_chars(cs, lit) {
            return Some(Key::F12);
        }
        None
    }
}

} // verus!
