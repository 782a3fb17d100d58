//! A key together with the modifiers held down with it.
use vstd::prelude::*;
use crate::key::{spec_key_index, spec_key_name, spec_parse_key, unknown_key_message, Key};
use crate::modifiers::{spec_modifiers_id, Modifiers};
use crate::text::{
    chars_of, join, push_char, push_str, spec_ascii_upper_seq, spec_join, spec_split, spec_trim,
    split_chars, string_from_chars, trim_chars, upper_chars, views, eq_chars, lemma_split_len,
};

verus! {

#[derive(Debug, Copy, Clone, PartialEq, Eq, Structural)]
pub struct KeyCombination {
    pub key: Key,
    pub modifiers: Modifiers,
}

/// The id of a key combination: the position of its key times 10^5 plus the id
/// of its modifiers.
pub open spec fn spec_key_combination_id(kc: KeyCombination) -> nat {
    spec_key_index(kc.key) * 100000 + spec_modifiers_id(kc.modifiers)
}

/// The names of the modifiers that are held, in the order LAlt, RAlt, Shift,
/// Win, Ctrl.
pub open spec fn spec_modifier_names(m: Modifiers) -> Seq<Seq<char>> {
    (if m.lalt { seq![seq!['L', 'A', 'l', 't']] } else { Seq::empty() })
        + (if m.ralt { seq![seq!['R', 'A', 'l', 't']] } else { Seq::empty() })
        + (if m.shift { seq![seq!['S', 'h', 'i', 'f', 't']] } else { Seq::empty() })
        + (if m.win { seq![seq!['W', 'i', 'n']] } else { Seq::empty() })
        + (if m.ctrl { seq![seq!['C', 't', 'r', 'l']] } else { Seq::empty() })
}

/// How a key combination is shown: the held modifiers and the key, joined by `+`.
pub open spec fn spec_key_combination_text(kc: KeyCombination) -> Seq<char> {
    let mods = spec_join(spec_modifier_names(kc.modifiers), seq!['+']);
    if mods.len() == 0 {
        spec_key_name(kc.key)
    } else {
        mods + seq!['+'] + spec_key_name(kc.key)
    }
}

/// The parts of a key combination text: the pieces between the `+` signs,
/// trimmed and in upper case.
pub open spec fn spec_parts(s: Seq<char>) -> Seq<Seq<char>> {
    spec_split(s, '+').map_values(|p: Seq<char>| spec_ascii_upper_seq(spec_trim(p)))
}

/// `m` with the modifier that `name` stands for set.
pub open spec fn apply_modifier(m: Modifiers, name: Seq<char>) -> Option<Modifiers> {
    if name == seq!['C', 'T', 'R', 'L'] {
        Some(Modifiers { ctrl: true, ..m })
    } else if name == seq!['S', 'H', 'I', 'F', 'T'] {
        Some(Modifiers { shift: true, ..m })
    } else if name == seq!['L', 'A', 'L', 'T'] || name == seq!['A', 'L', 'T'] {
        Some(Modifiers { lalt: true, ..m })
    } else if name == seq!['R', 'A', 'L', 'T'] {
        Some(Modifiers { ralt: true, ..m })
    } else if name == seq!['M', 'O', 'D'] || name == seq!['W', 'I', 'N'] {
        Some(Modifiers { win: true, ..m })
    } else {
        None
    }
}

pub open spec fn unknown_modifier_message(name: Seq<char>) -> Seq<char> {
    seq!['U', 'n', 'k', 'n', 'o', 'w', 'n', ' ', 'm', 'o', 'd', 'i', 'f', 'i', 'e', 'r', ' ', '\''] + name + seq!['\'']
}

/// The modifiers that `names` stand for, or the error of the first unknown name.
pub open spec fn spec_parse_modifiers(names: Seq<Seq<char>>) -> Result<Modifiers, Seq<char>>
    decreases names.len(),
{
    if names.len() == 0 {
        Ok(Modifiers { lalt: false, ralt: false, shift: false, win: false, ctrl: false })
    } else {
        match spec_parse_modifiers(names.drop_last()) {
            Err(e) => Err(e),
            Ok(m) => match apply_modifier(m, names.last()) {
                Some(m2) => Ok(m2),
                None => Err(unknown_modifier_message(names.last())),
            },
        }
    }
}

/// What parsing `s` gives: every part but the last names a modifier, the last
/// part names the key.
pub open spec fn spec_parse_key_combination(s: Seq<char>) -> Result<KeyCombination, Seq<char>> {
    let parts = spec_parts(s);
    let n = parts.len();
    match spec_parse_modifiers(parts.take(n - 1)) {
        Err(e) => Err(e),
        Ok(m) => match spec_parse_key(parts[n - 1]) {
            Some(k) => Ok(KeyCombination { key: k, modifiers: m }),
            None => Err(unknown_key_message(parts[n - 1])),
        },
    }
}

fn chars_vec(a: &[char]) -> (r: Vec<char>)
    ensures
        r@ == a@,
{
    let mut r: Vec<char> = Vec::new();
    let mut i: usize = 0;
    while i < a.len()
        invariant
            i <= a@.len(),
            r@ == a@.take(i as int),
        decreases a@.len() - i,
    {
        r.push(a[i]);
        assert(a@.take(i as int + 1) == a@.take(i as int).push(a@[i as int]));
        i += 1;
    }
    assert(a@.take(a@.len() as int) == a@);
    r
}

fn modifier_names(m: Modifiers) -> (r: Vec<Vec<char>>)
    ensures
        views(r@) == spec_modifier_names(m),
{
    let mut names: Vec<Vec<char>> = Vec::new();
    let l_lalt: &[char] = &['L', 'A', 'l', 't'];
    let l_ralt: &[char] = &['R', 'A', 'l', 't'];
    let l_shift: &[char] = &['S', 'h', 'i', 'f', 't'];
    let l_win: &[char] = &['W', 'i', 'n'];
    let l_ctrl: &[char] = &['C', 't', 'r', 'l'];
    assert(l_lalt@ =~= seq!['L', 'A', 'l', 't']);
    assert(l_ralt@ =~= seq!['R', 'A', 'l', 't']);
    assert(l_shift@ =~= seq!['S', 'h', 'i', 'f', 't']);
    assert(l_win@ =~= seq!['W', 'i', 'n']);
    assert(l_ctrl@ =~= seq!['C', 't', 'r', 'l']);
    let ghost a: Seq<Seq<char>> = if m.lalt { seq![seq!['L', 'A', 'l', 't']] } else { Seq::empty() };
    let ghost b: Seq<Seq<char>> = if m.ralt { seq![seq!['R', 'A', 'l', 't']] } else { Seq::empty() };
    let ghost c: Seq<Seq<char>> = if m.shift { seq![seq!['S', 'h', 'i', 'f', 't']] } else { Seq::empty() };
    let ghost d: Seq<Seq<char>> = if m.win { seq![seq!['W', 'i', 'n']] } else { Seq::empty() };
    let ghost e: Seq<Seq<char>> = if m.ctrl { seq![seq!['C', 't', 'r', 'l']] } else { Seq::empty() };
    if m.lalt {
        names.push(chars_vec(l_lalt));
    }
    assert(views(names@) =~= a);
    if m.ralt {
        names.push(chars_vec(l_ralt));
    }
    assert(views(names@) =~= a + b);
    if m.shift {
        names.push(chars_vec(l_shift));
    }
    assert(views(names@) =~= a + b + c);
    if m.win {
        names.push(chars_vec(l_win));
    }
    assert(views(names@) =~= a + b + c + d);
    if m.ctrl {
        names.push(chars_vec(l_ctrl));
    }
    assert(views(names@) =~= a + b + c + d + e);
    names
}

/// Once a prefix of the modifier names holds an unknown name, the whole list
/// gives that error.
pub proof fn lemma_parse_modifiers_err(names: Seq<Seq<char>>, k: int)
    requires
        0 <= k <= names.len(),
        spec_parse_modifiers(names.take(k)) is Err,
    ensures
        spec_parse_modifiers(names) == spec_parse_modifiers(names.take(k)),
    decreases names.len(),
{
    if k == names.len() {
        assert(names.take(k) == names);
    } else {
        let d = names.drop_last();
        assert(d.take(k) == names.take(k));
        lemma_parse_modifiers_err(d, k);
    }
}

impl KeyCombination {
    pub fn new(key: Key, modifiers: Modifiers) -> (r: Self)
        ensures
            r == (KeyCombination { key, modifiers }),
    {
        Self { key, modifiers }
    }

    pub fn get_id(&self) -> (r: usize)
        ensures
            r == spec_key_combination_id(*self),
    {
        self.key.index() * 100000 + self.modifiers.get_id()
    }

    /// The text of the key combination (what `Display` writes), for example
    /// `LAlt+Shift+Enter`.
    pub fn to_string(&self) -> (r: String)
        ensures
            r@ == spec_key_combination_text(*self),
    {
        let names = modifier_names(self.modifiers);
        let mods = join(&names, &['+']);
        assert((&['+'])@ =~= seq!['+']);
        let mut s = self.key.to_string();
        if mods.as_str().is_empty() {
            s
        } else {
            let mut r = mods;
            push_char(&mut r, '+');
            push_str(&mut r, s.as_str());
            r
        }
    }

    /// Parses a key combination such as `Ctrl+Shift+A`: the parts between the
    /// `+` signs are trimmed and compared in upper case; every part but the last
    /// names a modifier (`CTRL`, `SHIFT`, `LALT` or `ALT`, `RALT`, `MOD` or
    /// `WIN`), the last one the key.
    pub fn from_str(s: &str) -> (r: Result<Self, String>)
        ensures
            match spec_parse_key_combination(s@) {
                Ok(kc) => r == Ok::<KeyCombination, String>(kc),
                Err(e) => r matches Err(x) && x@ == e,
            },
    {
        let cs = chars_of(s);
        let pieces = split_chars(cs.as_slice(), '+');
        proof { lemma_split_len(s@, '+'); }
        let mut parts: Vec<Vec<char>> = Vec::new();
        let mut i: usize = 0;
        while i < pieces.len()
            invariant
                i <= pieces@.len(),
                views(pieces@) == spec_split(s@, '+'),
                views(parts@) == spec_parts(s@).take(i as int),
            decreases pieces@.len() - i,
        {
            let t = trim_chars(pieces[i].as_slice(), 0, pieces[i].len());
            assert(pieces@[i as int]@.subrange(0, pieces@[i as int]@.len() as int) == pieces@[i as int]@);
            let u = upper_chars(t.as_slice());
            assert(spec_split(s@, '+')[i as int] == pieces@[i as int]@);
            assert(spec_parts(s@)[i as int] == spec_ascii_upper_seq(spec_trim(spec_split(s@, '+')[i as int])));
            let ghost before = views(parts@);
            assert(spec_parts(s@).len() == pieces@.len());
            assert(u@ == spec_parts(s@)[i as int]);
            parts.push(u);
            assert(views(parts@) =~= before.push(u@));
            assert(spec_parts(s@).take(i as int + 1) =~= spec_parts(s@).take(i as int).push(spec_parts(s@)[i as int]));
            assert(views(parts@) =~= spec_parts(s@).take(i as int + 1));
            i += 1;
        }
        assert(views(parts@) =~= spec_parts(s@));
        let n = parts.len();
        let mut modifiers = Modifiers { lalt: false, ralt: false, shift: false, win: false, ctrl: false };
        let mut j: usize = 0;
        while j + 1 < n
            invariant
                n == parts@.len(),
                n >= 1,
                j + 1 <= n,
                views(parts@) == spec_parts(s@),
                spec_parse_modifiers(spec_parts(s@).take(j as int)) == Ok::<Modifiers, Seq<char>>(modifiers),
            decreases n - j,
        {
            let p = parts[j].as_slice();
            assert(spec_parts(s@).take(j as int + 1).drop_last() == spec_parts(s@).take(j as int));
            assert(spec_parts(s@).take(j as int + 1).last() == p@);
            let l_ctrl: &[char] = &['C', 'T', 'R', 'L'];
            let l_shift: &[char] = &['S', 'H', 'I', 'F', 'T'];
            let l_lalt: &[char] = &['L', 'A', 'L', 'T'];
            let l_alt: &[char] = &['A', 'L', 'T'];
            let l_ralt: &[char] = &['R', 'A', 'L', 'T'];
            let l_mod: &[char] = &['M', 'O', 'D'];
            let l_win: &[char] = &['W', 'I', 'N'];
            assert(l_ctrl@ =~= seq!['C', 'T', 'R', 'L']);
            assert(l_shift@ =~= seq!['S', 'H', 'I', 'F', 'T']);
            assert(l_lalt@ =~= seq!['L', 'A', 'L', 'T']);
            assert(l_alt@ =~= seq!['A', 'L', 'T']);
            assert(l_ralt@ =~= seq!['R', 'A', 'L', 'T']);
            assert(l_mod@ =~= seq!['M', 'O', 'D']);
            assert(l_win@ =~= seq!['W', 'I', 'N']);
            if eq_chars(p, l_ctrl) {
                modifiers.ctrl = true;
            } else if eq_chars(p, l_shift) {
                modifiers.shift = true;
            } else if eq_chars(p, l_lalt) || eq_chars(p, l_alt) {
                modifiers.lalt = true;
            } else if eq_chars(p, l_ralt) {
                modifiers.ralt = true;
            } else if eq_chars(p, l_mod) || eq_chars(p, l_win) {
                modifiers.win = true;
            } else {
                let mut e = string_from_chars(&['U', 'n', 'k', 'n', 'o', 'w', 'n', ' ', 'm', 'o', 'd', 'i', 'f', 'i', 'e', 'r', ' ', '\'']);
                let name = string_from_chars(p);
                push_str(&mut e, name.as_str());
                push_char(&mut e, '\'');
                assert(e@ =~= unknown_modifier_message(p@));
                proof {
                    lemma_parse_modifiers_err(spec_parts(s@).take(n - 1), j as int + 1);
                    assert(spec_parts(s@).take(n - 1).take(j as int + 1) == spec_parts(s@).take(j as int + 1));
                }
                return Err(e);
            }
            j += 1;
        }
        let key_text = string_from_chars(parts[n - 1].as_slice());
        match Key::from_str(key_text.as_str()) {
            Ok(key) => Ok(Self { key, modifiers }),
            Err(e) => Err(e),
        }
    }
}

/// Different key combinations have different ids.
pub proof fn lemma_key_combination_id_injective(a: KeyCombination, b: KeyCombination)
    requires
        spec_key_combination_id(a) == spec_key_combination_id(b),
    ensures
        a == b,
{
    crate::modifiers::lemma_modifiers_id_bound(a.modifiers);
    crate::modifiers::lemma_modifiers_id_bound(b.modifiers);
    let ka = spec_key_index(a.key) as int;
    let kb = spec_key_index(b.key) as int;
    let ma = spec_modifiers_id(a.modifiers) as int;
    let mb = spec_modifiers_id(b.modifiers) as int;
    assert(ka == kb && ma == mb) by (nonlinear_arith)
        requires
            ka * 100000 + ma == kb * 100000 + mb,
            0 <= ma < 100000,
            0 <= mb < 100000,
            ka >= 0,
            kb >= 0,
    {
        if ka < kb {
            assert(ka * 100000 + 100000 <= kb * 100000);
        } else if kb < ka {
            assert(kb * 100000 + 100000 <= ka * 100000);
        }
    }
    crate::modifiers::lemma_modifiers_id_injective(a.modifiers, b.modifiers);
    assert(a.key == b.key);
}

} // verus!
