//! Character-level helpers on strings that the parsers and formatters of the
//! library are built from.
use vstd::prelude::*;

verus! {

/// `c` turned to upper case if it is an ASCII lower case letter.
pub open spec fn spec_ascii_upper(c: char) -> char {
    if 'a' <= c && c <= 'z' {
        ((c as u32) - 32) as char
    } else {
        c
    }
}

pub open spec fn spec_ascii_upper_seq(s: Seq<char>) -> Seq<char> {
    s.map_values(|c: char| spec_ascii_upper(c))
}

/// The decimal digits of `n`, most significant first, without leading zeros.
pub open spec fn spec_decimal(n: nat) -> Seq<char>
    decreases n,
{
    if n < 10 {
        seq![spec_digit(n)]
    } else {
        spec_decimal(n / 10).push(spec_digit(n % 10))
    }
}

pub open spec fn spec_digit(d: nat) -> char {
    if d == 0 { '0' }
    else if d == 1 { '1' }
    else if d == 2 { '2' }
    else if d == 3 { '3' }
    else if d == 4 { '4' }
    else if d == 5 { '5' }
    else if d == 6 { '6' }
    else if d == 7 { '7' }
    else if d == 8 { '8' }
    else { '9' }
}

/// `parts` joined with `sep` between each two neighbours.
pub open spec fn spec_join(parts: Seq<Seq<char>>, sep: Seq<char>) -> Seq<char>
    decreases parts.len(),
{
    if parts.len() == 0 {
        Seq::empty()
    } else if parts.len() == 1 {
        parts[0]
    } else {
        spec_join(parts.drop_last(), sep) + sep + parts.last()
    }
}

/// Appends one character to a string (`String::push`).
#[verifier::external_body]
pub(crate) fn push_char(s: &mut String, c: char)
    ensures
        final(s)@ == old(s)@.push(c),
{
    s.push(c);
}

/// The characters of `s`, in order.
pub fn chars_of(s: &str) -> (v: Vec<char>)
    ensures
        v@ == s@,
{
    let mut v: Vec<char> = Vec::new();
    for c in it: s.chars()
        invariant
            it.seq() == s@,
            v@ == it.seq().take(it.index() as int),
    {
        v.push(c);
    }
    assert(v@ =~= s@);
    v
}

/// ASCII upper case of one character.
pub fn ascii_upper(c: char) -> (r: char)
    ensures
        r == spec_ascii_upper(c),
{
    if 'a' <= c && c <= 'z' {
        let b: u8 = c as u8;
        (b - 32) as char
    } else {
        c
    }
}

/// ASCII upper case of a string (`str::to_ascii_uppercase`).
pub fn ascii_upper_str(s: &str) -> (r: String)
    ensures
        r@ == spec_ascii_upper_seq(s@),
{
    let cs = chars_of(s);
    let mut r = String::new();
    let mut i: usize = 0;
    while i < cs.len()
        invariant
            i <= cs@.len(),
            r@ == spec_ascii_upper_seq(cs@.take(i as int)),
        decreases cs@.len() - i,
    {
        push_char(&mut r, ascii_upper(cs[i]));
        assert(cs@.take(i as int + 1) == cs@.take(i as int).push(cs@[i as int]));
        i += 1;
    }
    assert(cs@.take(cs@.len() as int) == cs@);
    r
}

/// A string holding exactly the characters of `cs`.
pub fn string_from_chars(cs: &[char]) -> (r: String)
    ensures
        r@ == cs@,
{
    let mut r = String::new();
    let mut i: usize = 0;
    while i < cs.len()
        invariant
            i <= cs@.len(),
            r@ == cs@.take(i as int),
        decreases cs@.len() - i,
    {
        push_char(&mut r, cs[i]);
        assert(cs@.take(i as int + 1) == cs@.take(i as int).push(cs@[i as int]));
        i += 1;
    }
    assert(cs@.take(cs@.len() as int) == cs@);
    r
}

/// Appends the characters of `t` to `s`.
pub fn push_str(s: &mut String, t: &str)
    ensures
        final(s)@ == old(s)@ + t@,
{
    s.append(t);
}

pub fn digit(d: usize) -> (c: char)
    requires
        d < 10,
    ensures
        c == spec_digit(d as nat),
{
    if d == 0 { '0' }
    else if d == 1 { '1' }
    else if d == 2 { '2' }
    else if d == 3 { '3' }
    else if d == 4 { '4' }
    else if d == 5 { '5' }
    else if d == 6 { '6' }
    else if d == 7 { '7' }
    else if d == 8 { '8' }
    else { '9' }
}

/// The decimal representation of `n` (what `n.to_string()` gives).
pub fn decimal(n: usize) -> (r: String)
    ensures
        r@ == spec_decimal(n as nat),
    decreases n,
{
    if n < 10 {
        let mut r = String::new();
        push_char(&mut r, digit(n));
        r
    } else {
        let mut r = decimal(n / 10);
        push_char(&mut r, digit(n % 10));
        r
    }
}

/// Whether two character slices hold the same characters.
pub fn eq_chars(a: &[char], b: &[char]) -> (r: bool)
    ensures
        r == (a@ == b@),
{
    if a.len() != b.len() {
        return false;
    }
    let mut i: usize = 0;
    while i < a.len()
        invariant
            a@.len() == b@.len(),
            i <= a@.len(),
            forall|j: int| 0 <= j < i ==> a@[j] == b@[j],
        decreases a@.len() - i,
    {
        if a[i] != b[i] {
            return false;
        }
        i += 1;
    }
    assert(a@ =~= b@);
    true
}

/// `s` ends with `suffix`.
pub open spec fn spec_ends_with(s: Seq<char>, suffix: Seq<char>) -> bool {
    suffix.len() <= s.len() && s.subrange(s.len() - suffix.len(), s.len() as int) == suffix
}

/// Whether `s` ends with `suffix` (what `str::ends_with` tells).
pub fn ends_with(s: &str, suffix: &str) -> (r: bool)
    ensures
        r == spec_ends_with(s@, suffix@),
{
    let a = chars_of(s);
    let b = chars_of(suffix);
    if b.len() > a.len() {
        return false;
    }
    let off = a.len() - b.len();
    let mut i: usize = 0;
    while i < b.len()
        invariant
            a@ == s@,
            b@ == suffix@,
            off + b.len() == a.len(),
            off + b@.len() == a@.len(),
            i <= b@.len(),
            forall|j: int| 0 <= j < i ==> a@[off + j] == b@[j],
        decreases b@.len() - i,
    {
        if a[off + i] != b[i] {
            assert(a@.subrange(off as int, a@.len() as int)[i as int] != b@[i as int]);
            return false;
        }
        i += 1;
    }
    assert(a@.subrange(off as int, a@.len() as int) =~= b@);
    true
}

/// `c` has the Unicode White_Space property (what `char::is_whitespace` tells).
pub open spec fn spec_is_whitespace(c: char) -> bool {
    let u = c as u32;
    (0x09 <= u && u <= 0x0d) || u == 0x20 || u == 0x85 || u == 0xa0 || u == 0x1680
        || (0x2000 <= u && u <= 0x200a) || u == 0x2028 || u == 0x2029 || u == 0x202f
        || u == 0x205f || u == 0x3000
}

pub fn is_whitespace(c: char) -> (r: bool)
    ensures
        r == spec_is_whitespace(c),
{
    let u: u32 = c as u32;
    (0x09 <= u && u <= 0x0d) || u == 0x20 || u == 0x85 || u == 0xa0 || u == 0x1680
        || (0x2000 <= u && u <= 0x200a) || u == 0x2028 || u == 0x2029 || u == 0x202f
        || u == 0x205f || u == 0x3000
}

/// `s` without its leading white space.
pub open spec fn spec_trim_start(s: Seq<char>) -> Seq<char>
    decreases s.len(),
{
    if s.len() > 0 && spec_is_whitespace(s[0]) {
        spec_trim_start(s.drop_first())
    } else {
        s
    }
}

/// `s` without its trailing white space.
pub open spec fn spec_trim_end(s: Seq<char>) -> Seq<char>
    decreases s.len(),
{
    if s.len() > 0 && spec_is_whitespace(s.last()) {
        spec_trim_end(s.drop_last())
    } else {
        s
    }
}

/// `s` without leading and trailing white space (what `str::trim` gives).
pub open spec fn spec_trim(s: Seq<char>) -> Seq<char> {
    spec_trim_end(spec_trim_start(s))
}

/// The pieces of `s` between the occurrences of `sep` (what `str::split` gives
/// for a character): one more piece than there are separators.
pub open spec fn spec_split(s: Seq<char>, sep: char) -> Seq<Seq<char>>
    decreases s.len(),
{
    if s.len() == 0 {
        seq![Seq::empty()]
    } else {
        let rest = spec_split(s.drop_last(), sep);
        if s.last() == sep {
            rest.push(Seq::empty())
        } else {
            rest.update(rest.len() - 1, rest.last().push(s.last()))
        }
    }
}

pub proof fn lemma_split_len(s: Seq<char>, sep: char)
    ensures
        spec_split(s, sep).len() >= 1,
    decreases s.len(),
{
    if s.len() > 0 {
        lemma_split_len(s.drop_last(), sep);
    }
}

/// Appending text without separators to `a` only lengthens the last piece of
/// the split.
pub proof fn lemma_split_append(a: Seq<char>, b: Seq<char>, sep: char)
    requires
        forall|i: int| 0 <= i < b.len() ==> b[i] != sep,
    ensures
        spec_split(a + b, sep) == spec_split(a, sep).update(spec_split(a, sep).len() - 1, spec_split(a, sep).last() + b),
    decreases b.len(),
{
    lemma_split_len(a, sep);
    let s = spec_split(a, sep);
    if b.len() == 0 {
        assert(a + b =~= a);
        assert(s.last() + b =~= s.last());
        assert(s.update(s.len() - 1, s.last()) =~= s);
    } else {
        let b2 = b.drop_last();
        lemma_split_append(a, b2, sep);
        assert((a + b).drop_last() =~= a + b2);
        assert((a + b).last() == b.last());
        let rest = spec_split(a + b2, sep);
        assert((s.last() + b2).push(b.last()) =~= s.last() + b);
        assert(rest.update(rest.len() - 1, rest.last().push(b.last())) =~= s.update(s.len() - 1, s.last() + b));
    }
}

/// Splitting pieces without separators joined by the separator gives the
/// pieces back.
pub proof fn lemma_split_join(parts: Seq<Seq<char>>, sep: char)
    requires
        parts.len() >= 1,
        forall|j: int, i: int| 0 <= j < parts.len() && 0 <= i < parts[j].len() ==> parts[j][i] != sep,
    ensures
        spec_split(spec_join(parts, seq![sep]), sep) == parts,
    decreases parts.len(),
{
    if parts.len() == 1 {
        lemma_split_append(Seq::empty(), parts[0], sep);
        assert(Seq::<char>::empty() + parts[0] =~= parts[0]);
        assert(seq![Seq::<char>::empty()].update(0, Seq::<char>::empty() + parts[0]) =~= parts);
    } else {
        let d = parts.drop_last();
        lemma_split_join(d, sep);
        let j = spec_join(d, seq![sep]);
        let a = j + seq![sep];
        assert(a =~= j.push(sep));
        assert(a.drop_last() =~= j);
        lemma_split_len(a, sep);
        lemma_split_append(a, parts.last(), sep);
        assert(spec_join(parts, seq![sep]) == a + parts.last());
        assert(spec_split(a, sep) == d.push(Seq::empty()));
        assert(d.push(Seq::empty()).update(d.len() as int, Seq::<char>::empty() + parts.last()) =~= parts);
    }
}

/// The characters of `cs[start..end]` without leading and trailing white space.
pub fn trim_chars(cs: &[char], start: usize, end: usize) -> (r: Vec<char>)
    requires
        start <= end <= cs@.len(),
    ensures
        r@ == spec_trim(cs@.subrange(start as int, end as int)),
{
    let mut a = start;
    while a < end && is_whitespace(cs[a])
        invariant
            start <= a <= end <= cs@.len(),
            spec_trim_start(cs@.subrange(start as int, end as int)) == spec_trim_start(cs@.subrange(a as int, end as int)),
        decreases end - a,
    {
        assert(cs@.subrange(a as int, end as int).drop_first() == cs@.subrange(a as int + 1, end as int));
        a += 1;
    }
    assert(spec_trim_start(cs@.subrange(a as int, end as int)) == cs@.subrange(a as int, end as int));
    let mut b = end;
    while b > a && is_whitespace(cs[b - 1])
        invariant
            start <= a <= b <= end <= cs@.len(),
            spec_trim(cs@.subrange(start as int, end as int)) == spec_trim_end(cs@.subrange(a as int, b as int)),
        decreases b - a,
    {
        assert(cs@.subrange(a as int, b as int).drop_last() == cs@.subrange(a as int, b as int - 1));
        b -= 1;
    }
    assert(spec_trim_end(cs@.subrange(a as int, b as int)) == cs@.subrange(a as int, b as int));
    let mut r: Vec<char> = Vec::new();
    let mut i = a;
    while i < b
        invariant
            a <= i <= b <= cs@.len(),
            r@ == cs@.subrange(a as int, i as int),
        decreases b - i,
    {
        r.push(cs[i]);
        assert(cs@.subrange(a as int, i as int + 1) == cs@.subrange(a as int, i as int).push(cs@[i as int]));
        i += 1;
    }
    r
}

pub open spec fn views(ps: Seq<Vec<char>>) -> Seq<Seq<char>> {
    ps.map_values(|p: Vec<char>| p@)
}

/// The pieces of `cs` between the occurrences of `sep`.
pub fn split_chars(cs: &[char], sep: char) -> (r: Vec<Vec<char>>)
    ensures
        views(r@) == spec_split(cs@, sep),
{
    let mut pieces: Vec<Vec<char>> = Vec::new();
    let mut cur: Vec<char> = Vec::new();
    let mut i: usize = 0;
    while i < cs.len()
        invariant
            i <= cs@.len(),
            views(pieces@).push(cur@) == spec_split(cs@.take(i as int), sep),
        decreases cs@.len() - i,
    {
        let c = cs[i];
        assert(cs@.take(i as int + 1).drop_last() == cs@.take(i as int));
        let ghost before = views(pieces@).push(cur@);
        if c == sep {
            pieces.push(cur);
            cur = Vec::new();
            assert(views(pieces@).push(cur@) =~= before.push(Seq::empty()));
        } else {
            cur.push(c);
            assert(views(pieces@).push(cur@) =~= before.update(before.len() - 1, before.last().push(c)));
        }
        i += 1;
    }
    assert(cs@.take(cs@.len() as int) == cs@);
    pieces.push(cur);
    pieces
}

/// `parts` joined with `sep`.
pub fn join(parts: &Vec<Vec<char>>, sep: &[char]) -> (r: String)
    ensures
        r@ == spec_join(views(parts@), sep@),
{
    let mut r = String::new();
    let mut i: usize = 0;
    while i < parts.len()
        invariant
            i <= parts@.len(),
            r@ == spec_join(views(parts@).take(i as int), sep@),
        decreases parts@.len() - i,
    {
        let ghost before = r@;
        assert(views(parts@).take(i as int + 1).drop_last() == views(parts@).take(i as int));
        if i > 0 {
            let s = string_from_chars(sep);
            push_str(&mut r, s.as_str());
        }
        let p = string_from_chars(parts[i].as_slice());
        push_str(&mut r, p.as_str());
        proof {
            if i == 0 {
                assert(views(parts@).take(1) =~= seq![parts@[0]@]);
                assert(before == Seq::<char>::empty());
                assert(r@ =~= parts@[0]@);
            }
        }
        i += 1;
    }
    assert(views(parts@).take(parts@.len() as int) == views(parts@));
    r
}

/// ASCII upper case of a sequence of characters.
pub fn upper_chars(cs: &[char]) -> (r: Vec<char>)
    ensures
        r@ == spec_ascii_upper_seq(cs@),
{
    let mut r: Vec<char> = Vec::new();
    let mut i: usize = 0;
    while i < cs.len()
        invariant
            i <= cs@.len(),
            r@ == spec_ascii_upper_seq(cs@.take(i as int)),
        decreases cs@.len() - i,
    {
        r.push(ascii_upper(cs[i]));
        assert(cs@.take(i as int + 1) == cs@.take(i as int).push(cs@[i as int]));
        i += 1;
    }
    assert(cs@.take(cs@.len() as int) == cs@);
    r
}

pub open spec fn is_digit(c: char) -> bool {
    '0' <= c && c <= '9'
}

pub open spec fn digit_value(c: char) -> nat {
    ((c as u32) - ('0' as u32)) as nat
}

/// The number that the decimal digits `d` stand for.
pub open spec fn digits_value(d: Seq<char>) -> nat
    decreases d.len(),
{
    if d.len() == 0 {
        0
    } else {
        digits_value(d.drop_last()) * 10 + digit_value(d.last())
    }
}

/// The number that the decimal digits `d` stand for, where there is at least
/// one, all are digits, and the number fits in a `usize`.
pub open spec fn spec_parse_digits(d: Seq<char>) -> Option<usize> {
    if d.len() > 0 && (forall|i: int| 0 <= i < d.len() ==> is_digit(#[trigger] d[i])) && digits_value(d) <= usize::MAX {
        Some(digits_value(d) as usize)
    } else {
        None
    }
}

/// What `str::parse::<usize>` gives: an optional `+` sign, then one or more
/// decimal digits whose number fits in a `usize`.
pub open spec fn spec_parse_usize(s: Seq<char>) -> Option<usize> {
    spec_parse_digits(if s.len() > 0 && s[0] == '+' { s.drop_first() } else { s })
}

proof fn lemma_digits_value_prefix(d: Seq<char>, k: int)
    requires
        0 <= k <= d.len(),
    ensures
        digits_value(d.take(k)) <= digits_value(d),
    decreases d.len(),
{
    if k < d.len() {
        let e = d.drop_last();
        assert(e.take(k) == d.take(k));
        lemma_digits_value_prefix(e, k);
    } else {
        assert(d.take(k) == d);
    }
}

/// Reads a decimal number the way `str::parse::<usize>` does.
pub fn parse_usize(cs: &[char]) -> (r: Option<usize>)
    ensures
        r == spec_parse_usize(cs@),
{
    let start: usize = if cs.len() > 0 && cs[0] == '+' { 1 } else { 0 };
    let ghost d = if cs@.len() > 0 && cs@[0] == '+' { cs@.drop_first() } else { cs@ };
    assert(d == cs@.subrange(start as int, cs@.len() as int));
    if start >= cs.len() {
        return None;
    }
    let mut v: usize = 0;
    let mut i: usize = start;
    while i < cs.len()
        invariant
            start <= i <= cs@.len(),
            d == cs@.subrange(start as int, cs@.len() as int),
            d == (if cs@.len() > 0 && cs@[0] == '+' { cs@.drop_first() } else { cs@ }),
            forall|j: int| 0 <= j < i - start ==> is_digit(#[trigger] d[j]),
            v == digits_value(d.take(i - start)),
        decreases cs@.len() - i,
    {
        let c = cs[i];
        assert(d[i - start] == c);
        if !('0' <= c && c <= '9') {
            assert(!is_digit(d[i - start]));
            return None;
        }
        assert(d.take(i - start + 1).drop_last() == d.take(i - start));
        assert(d.take(i - start + 1).last() == c);
        let dig: usize = (c as u32 - '0' as u32) as usize;
        assert(dig == digit_value(c));
        assert(digits_value(d.take(i - start + 1)) == v * 10 + dig);
        match v.checked_mul(10) {
            Some(w) => match w.checked_add(dig) {
                Some(x) => {
                    v = x;
                },
                None => {
                    proof { lemma_digits_value_prefix(d, i - start + 1); }
                    return None;
                },
            },
            None => {
                proof { lemma_digits_value_prefix(d, i - start + 1); }
                return None;
            },
        }
        i += 1;
    }
    assert(d.take(d.len() as int) == d);
    Some(v)
}

/// Splitting two texts joined by a separator gives the pieces of the first,
/// then those of the second.
pub proof fn lemma_split_concat(a: Seq<char>, b: Seq<char>, sep: char)
    ensures
        spec_split(a + seq![sep] + b, sep) == spec_split(a, sep) + spec_split(b, sep),
    decreases b.len(),
{
    let s = a + seq![sep] + b;
    lemma_split_len(a, sep);
    if b.len() == 0 {
        assert(s =~= a.push(sep));
        assert(s.drop_last() =~= a);
        assert(spec_split(b, sep) =~= seq![Seq::<char>::empty()]);
        assert(spec_split(a, sep).push(Seq::empty()) =~= spec_split(a, sep) + seq![Seq::<char>::empty()]);
    } else {
        let b2 = b.drop_last();
        let c = b.last();
        lemma_split_concat(a, b2, sep);
        lemma_split_len(b2, sep);
        assert(s.drop_last() =~= a + seq![sep] + b2);
        assert(s.last() == c);
        let r = spec_split(a, sep) + spec_split(b2, sep);
        if c == sep {
            assert(r.push(Seq::empty()) =~= spec_split(a, sep) + spec_split(b2, sep).push(Seq::empty()));
        } else {
            let q = spec_split(b2, sep);
            assert(r.last() == q.last());
            assert(r.update(r.len() - 1, r.last().push(c)) =~= spec_split(a, sep) + q.update(q.len() - 1, q.last().push(c)));
        }
    }
}

/// A text without the separator is one piece.
pub proof fn lemma_split_single(s: Seq<char>, sep: char)
    requires
        forall|i: int| 0 <= i < s.len() ==> s[i] != sep,
    ensures
        spec_split(s, sep) == seq![s],
{
    lemma_split_append(Seq::empty(), s, sep);
    assert(Seq::<char>::empty() + s =~= s);
    assert(seq![Seq::<char>::empty()].update(0, Seq::<char>::empty() + s) =~= seq![s]);
}

pub proof fn lemma_digit(d: nat)
    requires
        d < 10,
    ensures
        is_digit(spec_digit(d)),
        digit_value(spec_digit(d)) == d,
{
}

/// The decimal digits of `n` are digits, at least one, and stand for `n`.
pub proof fn lemma_decimal(n: nat)
    ensures
        spec_decimal(n).len() > 0,
        forall|i: int| 0 <= i < spec_decimal(n).len() ==> is_digit(#[trigger] spec_decimal(n)[i]),
        digits_value(spec_decimal(n)) == n,
    decreases n,
{
    if n < 10 {
        lemma_digit(n);
        assert(spec_decimal(n).drop_last() =~= Seq::<char>::empty());
        assert(spec_decimal(n).last() == spec_digit(n));
        assert(digits_value(spec_decimal(n)) == digits_value(Seq::<char>::empty()) * 10 + digit_value(spec_digit(n)));
    } else {
        lemma_decimal(n / 10);
        lemma_digit(n % 10);
        let d = spec_decimal(n);
        assert(d.drop_last() == spec_decimal(n / 10));
        assert forall|i: int| 0 <= i < d.len() implies is_digit(#[trigger] d[i]) by {
            if i < d.len() - 1 {
                assert(d[i] == spec_decimal(n / 10)[i]);
            }
        }
        assert(d.last() == spec_digit(n % 10));
        assert(digits_value(d) == digits_value(spec_decimal(n / 10)) * 10 + digit_value(spec_digit(n % 10)));
        assert((n / 10) * 10 + n % 10 == n) by (nonlinear_arith);
    }
}

/// The decimal digits of a number that fits in a `usize` read back as it.
pub proof fn lemma_parse_decimal(n: usize)
    ensures
        spec_parse_usize(spec_decimal(n as nat)) == Some(n),
{
    lemma_decimal(n as nat);
    assert(spec_decimal(n as nat)[0] != '+') by {
        assert(is_digit(spec_decimal(n as nat)[0]));
    }
}

} // verus!
