//! What a client of the nog server makes of its replies, and how the server
//! words the outcome of running Lua code: `Ok:` or `Err:`, then the text.
use vstd::prelude::*;
use crate::protocol::{find_colon, first_colon, lemma_first_colon, lemma_first_colon_after, slice_to_vec};
use crate::text::{chars_of, eq_chars, push_str, string_from_chars};

verus! {

#[verifier::external_type_specification]
#[verifier::external_body]
pub struct ExIoError(std::io::Error);

#[derive(Debug)]
pub enum ClientError {
    IoError(std::io::Error),
    LuaExecutionFailed(String),
    InvalidResponse(String),
}

pub open spec fn ok_tag() -> Seq<char> {
    seq!['O', 'k']
}

pub open spec fn err_tag() -> Seq<char> {
    seq!['E', 'r', 'r']
}

/// What running Lua code gave, as plain text: the output, or the error message.
pub enum LuaOutcome {
    Output(Seq<char>),
    Failed(Seq<char>),
    Invalid(Seq<char>),
}

/// The reply of the server to an `ExecuteLua` request: `Ok:` and the output,
/// or `Err:` and the error message.
pub open spec fn spec_lua_response(result: Result<Seq<char>, Seq<char>>) -> Seq<char> {
    match result {
        Ok(out) => ok_tag() + seq![':'] + out,
        Err(msg) => err_tag() + seq![':'] + msg,
    }
}

/// What a reply to an `ExecuteLua` request means: the text before its first
/// colon says whether the code ran (`Ok`) or failed (`Err`), the text after it
/// is the output or the message; any other reply is invalid as a whole.
pub open spec fn spec_parse_lua_response(response: Seq<char>) -> LuaOutcome {
    match first_colon(response) {
        None => LuaOutcome::Invalid(response),
        Some(i) => {
            let head = response.take(i);
            let rest = response.skip(i + 1);
            if head == ok_tag() {
                LuaOutcome::Output(rest)
            } else if head == err_tag() {
                LuaOutcome::Failed(rest)
            } else {
                LuaOutcome::Invalid(response)
            }
        },
    }
}

/// The plain value of a client result: `None` for an I/O error.
pub open spec fn outcome_of(r: Result<String, ClientError>) -> Option<LuaOutcome> {
    match r {
        Ok(s) => Some(LuaOutcome::Output(s@)),
        Err(ClientError::LuaExecutionFailed(m)) => Some(LuaOutcome::Failed(m@)),
        Err(ClientError::InvalidResponse(m)) => Some(LuaOutcome::Invalid(m@)),
        Err(ClientError::IoError(_)) => None,
    }
}

/// The server's reply to an `ExecuteLua` request for the outcome of running the code.
pub fn lua_response_text(result: &Result<String, String>) -> (r: String)
    ensures
        r@ == spec_lua_response(match result {
            Ok(o) => Ok::<Seq<char>, Seq<char>>(o@),
            Err(m) => Err::<Seq<char>, Seq<char>>(m@),
        }),
{
    match result {
        Ok(output) => {
            let mut s = string_from_chars(&['O', 'k', ':']);
            push_str(&mut s, output.as_str());
            assert(s@ =~= ok_tag() + seq![':'] + output@);
            s
        },
        Err(msg) => {
            let mut s = string_from_chars(&['E', 'r', 'r', ':']);
            push_str(&mut s, msg.as_str());
            assert(s@ =~= err_tag() + seq![':'] + msg@);
            s
        },
    }
}

/// Reads the reply of the server to an `ExecuteLua` request.
pub fn parse_execute_lua_response(response: String) -> (r: Result<String, ClientError>)
    ensures
        outcome_of(r) == Some(spec_parse_lua_response(response@)),
{
    let cs = chars_of(response.as_str());
    let found = find_colon(cs.as_slice());
    let i = match found {
        Some(i) => i,
        None => return Err(ClientError::InvalidResponse(response)),
    };
    proof { lemma_first_colon(cs@); }
    let n = cs.len();
    assert(i < n);
    let head = slice_to_vec(cs.as_slice(), 0, i);
    let rest = slice_to_vec(cs.as_slice(), i + 1, n);
    assert(head@ =~= response@.take(i as int));
    assert(rest@ =~= response@.skip(i as int + 1));
    let t_ok: &[char] = &['O', 'k'];
    let t_err: &[char] = &['E', 'r', 'r'];
    assert(t_ok@ =~= ok_tag());
    assert(t_err@ =~= err_tag());
    if eq_chars(head.as_slice(), t_ok) {
        Ok(string_from_chars(rest.as_slice()))
    } else if eq_chars(head.as_slice(), t_err) {
        Err(ClientError::LuaExecutionFailed(string_from_chars(rest.as_slice())))
    } else {
        Err(ClientError::InvalidResponse(response))
    }
}

/// A client reads back from the server's reply what running the code gave:
/// the output where it ran, the error message where it failed, colons in them
/// included.
pub proof fn lemma_lua_response_roundtrip(result: Result<Seq<char>, Seq<char>>)
    ensures
        spec_parse_lua_response(spec_lua_response(result)) == match result {
            Ok(o) => LuaOutcome::Output(o),
            Err(m) => LuaOutcome::Failed(m),
        },
{
    match result {
        Ok(o) => {
            let s = spec_lua_response(result);
            lemma_first_colon_after(ok_tag(), o);
            assert(s.take(2) =~= ok_tag());
            assert(s.skip(3) =~= o);
        },
        Err(m) => {
            let s = spec_lua_response(result);
            lemma_first_colon_after(err_tag(), m);
            assert(s.take(3) =~= err_tag());
            assert(s.skip(4) =~= m);
            assert(err_tag() != ok_tag()) by {
                assert(err_tag().len() != ok_tag().len());
            }
        },
    }
}

} // verus!
