use nog::client::{lua_response_text, parse_execute_lua_response, ClientError};
use nog::protocol::{frame, header_length, DeserializeError, Message};

#[test]
fn serialized_messages_carry_a_length_header() {
    let m = Message::ExecuteLua { code: String::from("print(1)"), print_type: true };
    let bytes = m.serialize();
    let text = "ExecuteLua:true:print(1)";
    assert_eq!(bytes[0], 0);
    assert_eq!(bytes[1], text.len() as u8);
    assert_eq!(&bytes[2..], text.as_bytes());
    assert_eq!(Message::GetBarContent.serialize(), [&[0u8, 14][..], b"GetBarContent:"].concat());
    assert_eq!(Message::GetState.serialize(), [&[0u8, 9][..], b"GetState:"].concat());
}

#[test]
fn long_messages_use_both_header_bytes() {
    let code = "x".repeat(300);
    let bytes = Message::ExecuteLua { code: code.clone(), print_type: false }.serialize();
    let len = "ExecuteLua:false:".len() + 300;
    assert_eq!(header_length([bytes[0], bytes[1]]) as usize, len);
    assert_eq!(bytes.len(), len + 2);
}

#[test]
fn header_length_reads_big_endian() {
    assert_eq!(header_length([1, 2]), 258);
    assert_eq!(header_length([0, 0]), 0);
    assert_eq!(header_length([255, 255]), 65535);
    assert_eq!(frame(b"abc"), vec![0, 3, b'a', b'b', b'c']);
}

#[test]
fn deserializing_messages() {
    match Message::deserialize("ExecuteLua:false:a:b") {
        Ok(Message::ExecuteLua { code, print_type }) => {
            assert_eq!(code, "a:b");
            assert!(!print_type);
        }
        other => panic!("unexpected {:?}", other),
    }
    assert!(matches!(Message::deserialize("GetState:"), Ok(Message::GetState)));
    assert!(matches!(Message::deserialize("GetBarContent:anything"), Ok(Message::GetBarContent)));
}

#[test]
fn malformed_messages_are_refused() {
    assert!(matches!(Message::deserialize("GetState"), Err(DeserializeError::InvalidFormat)));
    assert!(matches!(Message::deserialize("Unknown:"), Err(DeserializeError::InvalidFormat)));
    assert!(matches!(Message::deserialize("ExecuteLua:yes:code"), Err(DeserializeError::InvalidFormat)));
    assert!(matches!(Message::deserialize("ExecuteLua:true"), Err(DeserializeError::InvalidFormat)));
}

#[test]
fn a_message_reads_back_from_its_bytes() {
    let m = Message::ExecuteLua { code: String::from("nog.x = 'a:b'"), print_type: true };
    let bytes = m.serialize();
    let text = std::str::from_utf8(&bytes[2..]).unwrap();
    match Message::deserialize(text) {
        Ok(Message::ExecuteLua { code, print_type }) => {
            assert_eq!(code, "nog.x = 'a:b'");
            assert!(print_type);
        }
        other => panic!("unexpected {:?}", other),
    }
}

#[test]
fn lua_replies() {
    assert_eq!(lua_response_text(&Ok(String::from("42"))), "Ok:42");
    assert_eq!(lua_response_text(&Err(String::from("bad"))), "Err:bad");
    assert_eq!(parse_execute_lua_response(String::from("Ok:a:b")).unwrap(), "a:b");
    match parse_execute_lua_response(String::from("Err:boom")) {
        Err(ClientError::LuaExecutionFailed(m)) => assert_eq!(m, "boom"),
        other => panic!("unexpected {:?}", other),
    }
    match parse_execute_lua_response(String::from("Maybe:x")) {
        Err(ClientError::InvalidResponse(m)) => assert_eq!(m, "Maybe:x"),
        other => panic!("unexpected {:?}", other),
    }
    match parse_execute_lua_response(String::from("no colon")) {
        Err(ClientError::InvalidResponse(m)) => assert_eq!(m, "no colon"),
        other => panic!("unexpected {:?}", other),
    }
}

#[test]
fn a_client_reads_back_what_the_server_replied() {
    let reply = lua_response_text(&Ok(String::from("x: 1")));
    assert_eq!(parse_execute_lua_response(reply).unwrap(), "x: 1");
    let reply = lua_response_text(&Err(String::from("line 1: oops")));
    match parse_execute_lua_response(reply) {
        Err(ClientError::LuaExecutionFailed(m)) => assert_eq!(m, "line 1: oops"),
        other => panic!("unexpected {:?}", other),
    }
}
