//! The messages between nog and its clients and how they travel: a two byte
//! big endian length header, then the message text in UTF-8.
use vstd::prelude::*;
use vstd::utf8::encode_utf8;
use crate::text::{chars_of, eq_chars, push_char, push_str, string_from_chars};

verus! {

#[derive(Debug, Clone, Copy, PartialEq, Eq, Structural)]
pub enum BarItemAlignment {
    Left,
    Center,
    Right,
}

#[derive(Debug, Default)]
pub struct Window {
    pub id: usize,
}

#[derive(Debug, Default)]
pub struct Workspace {
    pub id: usize,
    pub layout: String,
    pub focused_window_id: Option<usize>,
    pub windows: Vec<Window>,
}

#[derive(Debug, Default)]
pub struct Display {
    pub id: String,
    pub monitor_id: usize,
    pub focused_workspace_id: usize,
    pub workspaces: Vec<Workspace>,
}

#[derive(Debug, Default)]
pub struct State {
    pub focused_display_id: String,
    pub displays: Vec<Display>,
}

#[derive(Debug)]
pub enum Message {
    ExecuteLua { code: String, print_type: bool },
    GetBarContent,
    GetState,
}

/// The value of a message.
pub enum MessageView {
    ExecuteLua { code: Seq<char>, print_type: bool },
    GetBarContent,
    GetState,
}

impl View for Message {
    type V = MessageView;

    open spec fn view(&self) -> MessageView {
        match self {
            Message::ExecuteLua { code, print_type } => MessageView::ExecuteLua { code: code@, print_type: *print_type },
            Message::GetBarContent => MessageView::GetBarContent,
            Message::GetState => MessageView::GetState,
        }
    }
}

#[derive(Debug, Clone, Copy, PartialEq, Eq, Structural)]
pub enum DeserializeError {
    InvalidFormat,
}

pub open spec fn execute_lua_tag() -> Seq<char> {
    seq!['E', 'x', 'e', 'c', 'u', 't', 'e', 'L', 'u', 'a']
}

pub open spec fn get_bar_content_tag() -> Seq<char> {
    seq!['G', 'e', 't', 'B', 'a', 'r', 'C', 'o', 'n', 't', 'e', 'n', 't']
}

pub open spec fn get_state_tag() -> Seq<char> {
    seq!['G', 'e', 't', 'S', 't', 'a', 't', 'e']
}

pub open spec fn bool_text(b: bool) -> Seq<char> {
    if b { seq!['t', 'r', 'u', 'e'] } else { seq!['f', 'a', 'l', 's', 'e'] }
}

/// The text of a message: its tag, a colon, and for `ExecuteLua` whether to
/// print the type, another colon and the code.
pub open spec fn message_text(m: MessageView) -> Seq<char> {
    match m {
        MessageView::ExecuteLua { code, print_type } => execute_lua_tag() + seq![':'] + bool_text(print_type) + seq![':'] + code,
        MessageView::GetBarContent => get_bar_content_tag() + seq![':'],
        MessageView::GetState => get_state_tag() + seq![':'],
    }
}

/// The two byte big endian header that holds `len`, cut to 16 bits.
pub open spec fn header(len: nat) -> Seq<u8> {
    seq![((len % 65536) / 256) as u8, (len % 256) as u8]
}

/// `body` preceded by the header that holds its length.
pub open spec fn framed(body: Seq<u8>) -> Seq<u8> {
    header(body.len()) + body
}

/// The number that a two byte big endian header holds.
pub open spec fn header_value(h0: u8, h1: u8) -> nat {
    h0 as nat * 256 + h1 as nat
}

/// The index of the first colon in `s`.
pub open spec fn first_colon(s: Seq<char>) -> Option<int>
    decreases s.len(),
{
    if s.len() == 0 {
        None
    } else {
        match first_colon(s.drop_last()) {
            Some(i) => Some(i),
            None => if s.last() == ':' { Some(s.len() - 1) } else { None },
        }
    }
}

/// What reading a message text (without its header) gives: the text before the
/// first colon names the message; `ExecuteLua` needs a second colon, with
/// `true` or `false` before it and the code after it.
pub open spec fn spec_deserialize(s: Seq<char>) -> Result<MessageView, DeserializeError> {
    match first_colon(s) {
        None => Err(DeserializeError::InvalidFormat),
        Some(i) => {
            let head = s.take(i);
            let rest = s.skip(i + 1);
            if head == execute_lua_tag() {
                match first_colon(rest) {
                    None => Err(DeserializeError::InvalidFormat),
                    Some(j) => {
                        let pt = rest.take(j);
                        let code = rest.skip(j + 1);
                        if pt == bool_text(true) {
                            Ok(MessageView::ExecuteLua { code, print_type: true })
                        } else if pt == bool_text(false) {
                            Ok(MessageView::ExecuteLua { code, print_type: false })
                        } else {
                            Err(DeserializeError::InvalidFormat)
                        }
                    },
                }
            } else if head == get_bar_content_tag() {
                Ok(MessageView::GetBarContent)
            } else if head == get_state_tag() {
                Ok(MessageView::GetState)
            } else {
                Err(DeserializeError::InvalidFormat)
            }
        },
    }
}

pub proof fn lemma_first_colon(s: Seq<char>)
    ensures
        match first_colon(s) {
            Some(i) => 0 <= i < s.len() && s[i] == ':' && forall|j: int| 0 <= j < i ==> s[j] != ':',
            None => forall|j: int| 0 <= j < s.len() ==> s[j] != ':',
        },
    decreases s.len(),
{
    if s.len() > 0 {
        let d = s.drop_last();
        lemma_first_colon(d);
        assert(forall|j: int| 0 <= j < d.len() ==> d[j] == s[j]);
    }
}

/// The first colon of `a`, a colon and `b` is the one after `a`, where `a` holds none.
pub proof fn lemma_first_colon_after(a: Seq<char>, b: Seq<char>)
    requires
        forall|j: int| 0 <= j < a.len() ==> a[j] != ':',
    ensures
        first_colon(a + seq![':'] + b) == Some(a.len() as int),
    decreases b.len(),
{
    let s = a + seq![':'] + b;
    if b.len() == 0 {
        assert(s.drop_last() == a);
        lemma_first_colon(a);
        assert(first_colon(a) is None);
    } else {
        assert(s.drop_last() == a + seq![':'] + b.drop_last());
        lemma_first_colon_after(a, b.drop_last());
    }
}

/// Reading the text of a message gives the message back.
pub proof fn lemma_message_roundtrip(m: MessageView)
    ensures
        spec_deserialize(message_text(m)) == Ok::<MessageView, DeserializeError>(m),
{
    match m {
        MessageView::ExecuteLua { code, print_type } => {
            let rest = bool_text(print_type) + seq![':'] + code;
            lemma_first_colon_after(execute_lua_tag(), rest);
            let s = message_text(m);
            assert(s == execute_lua_tag() + seq![':'] + rest);
            assert(s.take(10) =~= execute_lua_tag());
            assert(s.skip(11) =~= rest);
            lemma_first_colon_after(bool_text(print_type), code);
            let n = bool_text(print_type).len() as int;
            assert(rest.take(n) =~= bool_text(print_type));
            assert(rest.skip(n + 1) =~= code);
            assert(bool_text(false) != bool_text(true)) by {
                assert(bool_text(false)[0] != bool_text(true)[0]);
            }
        },
        MessageView::GetBarContent => {
            lemma_first_colon_after(get_bar_content_tag(), Seq::empty());
            let s = message_text(m);
            assert(s =~= get_bar_content_tag() + seq![':'] + Seq::<char>::empty());
            assert(s.take(13) =~= get_bar_content_tag());
            assert(get_bar_content_tag() != execute_lua_tag()) by {
                assert(get_bar_content_tag()[0] != execute_lua_tag()[0]);
            }
        },
        MessageView::GetState => {
            lemma_first_colon_after(get_state_tag(), Seq::empty());
            let s = message_text(m);
            assert(s =~= get_state_tag() + seq![':'] + Seq::<char>::empty());
            assert(s.take(8) =~= get_state_tag());
            assert(get_state_tag() != execute_lua_tag()) by {
                assert(get_state_tag()[0] != execute_lua_tag()[0]);
            }
            assert(get_state_tag() != get_bar_content_tag()) by {
                assert(get_state_tag()[3] != get_bar_content_tag()[3]);
            }
        },
    }
}

/// The header of a framed message holds the length of its body, cut to 16 bits.
pub proof fn lemma_framed_header(body: Seq<u8>)
    ensures
        header_value(framed(body)[0], framed(body)[1]) == body.len() % 65536,
        framed(body).skip(2) == body,
{
    let l = body.len();
    assert(framed(body).skip(2) =~= body);
    assert(((l % 65536) / 256) * 256 + l % 256 == l % 65536) by (nonlinear_arith);
}

/// `body` preceded by the two byte header that holds its length.
pub fn frame(body: &[u8]) -> (r: Vec<u8>)
    ensures
        r@ == framed(body@),
{
    let len = body.len();
    let mut r: Vec<u8> = Vec::with_capacity(if len < usize::MAX - 2 { len + 2 } else { len });
    r.push(((len % 65536) / 256) as u8);
    r.push((len % 256) as u8);
    let mut i: usize = 0;
    while i < body.len()
        invariant
            i <= body@.len(),
            len == body@.len(),
            r@ == header(len as nat) + body@.take(i as int),
        decreases body@.len() - i,
    {
        r.push(body[i]);
        assert(body@.take(i as int + 1) == body@.take(i as int).push(body@[i as int]));
        i += 1;
    }
    assert(body@.take(body@.len() as int) == body@);
    r
}

/// The length that a two byte big endian header holds (`u16::from_be_bytes`).
pub fn header_length(h: [u8; 2]) -> (r: u16)
    ensures
        r == header_value(h@[0], h@[1]),
{
    (h[0] as u16) * 256 + (h[1] as u16)
}

/// The first colon in `cs`.
pub(crate) fn find_colon(cs: &[char]) -> (r: Option<usize>)
    ensures
        match r {
            Some(i) => first_colon(cs@) == Some(i as int),
            None => first_colon(cs@) is None,
        },
{
    let mut i: usize = 0;
    while i < cs.len()
        invariant
            i <= cs@.len(),
            first_colon(cs@.take(i as int)) is None,
        decreases cs@.len() - i,
    {
        assert(cs@.take(i as int + 1).drop_last() == cs@.take(i as int));
        if cs[i] == ':' {
            proof {
                lemma_first_colon(cs@.take(i as int));
                lemma_first_colon_after(cs@.take(i as int), cs@.skip(i as int + 1));
                assert(cs@ =~= cs@.take(i as int) + seq![':'] + cs@.skip(i as int + 1));
            }
            return Some(i);
        }
        i += 1;
    }
    assert(cs@.take(cs@.len() as int) == cs@);
    None
}

pub(crate) fn slice_to_vec(cs: &[char], from: usize, to: usize) -> (r: Vec<char>)
    requires
        from <= to <= cs@.len(),
    ensures
        r@ == cs@.subrange(from as int, to as int),
{
    let mut r: Vec<char> = Vec::new();
    let mut i = from;
    while i < to
        invariant
            from <= i <= to <= cs@.len(),
            r@ == cs@.subrange(from as int, i as int),
        decreases to - i,
    {
        r.push(cs[i]);
        assert(cs@.subrange(from as int, i as int + 1) == cs@.subrange(from as int, i as int).push(cs@[i as int]));
        i += 1;
    }
    r
}

impl Message {
    /// The message text: its tag, a colon, and for `ExecuteLua` the print type
    /// flag, a colon and the code.
    pub fn text(&self) -> (r: String)
        ensures
            r@ == message_text(self@),
    {
        match self {
            Message::ExecuteLua { code, print_type } => {
                let mut s = string_from_chars(&['E', 'x', 'e', 'c', 'u', 't', 'e', 'L', 'u', 'a', ':']);
                let b: &[char] = if *print_type { &['t', 'r', 'u', 'e'] } else { &['f', 'a', 'l', 's', 'e'] };
                let bs = string_from_chars(b);
                push_str(&mut s, bs.as_str());
                push_char(&mut s, ':');
                push_str(&mut s, code.as_str());
                assert(s@ =~= message_text(self@));
                s
            },
            Message::GetBarContent => {
                let s = string_from_chars(&['G', 'e', 't', 'B', 'a', 'r', 'C', 'o', 'n', 't', 'e', 'n', 't', ':']);
                assert(s@ =~= message_text(self@));
                s
            },
            Message::GetState => {
                let s = string_from_chars(&['G', 'e', 't', 'S', 't', 'a', 't', 'e', ':']);
                assert(s@ =~= message_text(self@));
                s
            },
        }
    }

    /// The bytes that travel: a two byte big endian header with the length of
    /// the message text, cut to 16 bits, then the text in UTF-8.
    pub fn serialize(&self) -> (r: Vec<u8>)
        ensures
            r@ == framed(encode_utf8(message_text(self@))),
    {
        let text = self.text();
        let bytes = text.as_str().as_bytes();
        frame(bytes)
    }

    /// Reads a message text (without its header).
    pub fn deserialize(s: &str) -> (r: Result<Self, DeserializeError>)
        ensures
            match spec_deserialize(s@) {
                Ok(m) => r matches Ok(x) && x@ == m,
                Err(e) => r == Err::<Message, DeserializeError>(e),
            },
    {
        let cs = chars_of(s);
        let found = find_colon(cs.as_slice());
        let i = match found {
            Some(i) => i,
            None => return Err(DeserializeError::InvalidFormat),
        };
        proof { lemma_first_colon(cs@); }
        let n = cs.len();
        assert(i < n);
        let head = slice_to_vec(cs.as_slice(), 0, i);
        let rest = slice_to_vec(cs.as_slice(), i + 1, n);
        assert(head@ =~= s@.take(i as int));
        assert(rest@ =~= s@.skip(i as int + 1));
        let t_exec: &[char] = &['E', 'x', 'e', 'c', 'u', 't', 'e', 'L', 'u', 'a'];
        let t_bar: &[char] = &['G', 'e', 't', 'B', 'a', 'r', 'C', 'o', 'n', 't', 'e', 'n', 't'];
        let t_state: &[char] = &['G', 'e', 't', 'S', 't', 'a', 't', 'e'];
        assert(t_exec@ =~= execute_lua_tag());
        assert(t_bar@ =~= get_bar_content_tag());
        assert(t_state@ =~= get_state_tag());
        if eq_chars(head.as_slice(), t_exec) {
            let found_j = find_colon(rest.as_slice());
            let j = match found_j {
                Some(j) => j,
                None => return Err(DeserializeError::InvalidFormat),
            };
            proof { lemma_first_colon(rest@); }
            let rn = rest.len();
            assert(j < rn);
            let pt = slice_to_vec(rest.as_slice(), 0, j);
            let code = slice_to_vec(rest.as_slice(), j + 1, rn);
            assert(pt@ =~= rest@.take(j as int));
            assert(code@ =~= rest@.skip(j as int + 1));
            let l_true: &[char] = &['t', 'r', 'u', 'e'];
            let l_false: &[char] = &['f', 'a', 'l', 's', 'e'];
            assert(l_true@ =~= bool_text(true));
            assert(l_false@ =~= bool_text(false));
            if eq_chars(pt.as_slice(), l_true) {
                Ok(Message::ExecuteLua { code: string_from_chars(code.as_slice()), print_type: true })
            } else if eq_chars(pt.as_slice(), l_false) {
                Ok(Message::ExecuteLua { code: string_from_chars(code.as_slice()), print_type: false })
            } else {
                Err(DeserializeError::InvalidFormat)
            }
        } else if eq_chars(head.as_slice(), t_bar) {
            Ok(Message::GetBarContent)
        } else if eq_chars(head.as_slice(), t_state) {
            Ok(Message::GetState)
        } else {
            Err(DeserializeError::InvalidFormat)
        }
    }
}

} // verus!
