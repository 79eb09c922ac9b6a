use zmq_core::mechanism::{
    add_property, check_socket_type, is_valid_status_code, parse_metadata, put_u32_be,
    socket_type_string, Msg, ZapSession, ECONNREFUSED, EAGAIN, EPROTO,
};
use zmq_core::null_mechanism::{NullMechanism, Status};
use zmq_core::options::Options;
use zmq_core::plain_client::PlainClient;
use zmq_core::plain_server::{PlainServer, ZmqError};

fn options(socket_type: i8) -> Options {
    let mut o = Options::new();
    o.socket_type = socket_type;
    o
}

#[test]
fn mechanism_status_codes() {
    assert!(is_valid_status_code(&b"200".to_vec()));
    assert!(is_valid_status_code(&b"300".to_vec()));
    assert!(is_valid_status_code(&b"400".to_vec()));
    assert!(is_valid_status_code(&b"500".to_vec()));
    assert!(!is_valid_status_code(&b"201".to_vec()));
    assert!(!is_valid_status_code(&b"600".to_vec()));
    assert!(!is_valid_status_code(&b"20".to_vec()));
}

#[test]
fn mechanism_big_endian_and_properties() {
    let mut buf = Vec::new();
    put_u32_be(&mut buf, 0x0102_0304);
    assert_eq!(buf, vec![1, 2, 3, 4]);
    let mut p = Vec::new();
    add_property(&mut p, b"Socket-Type", b"DEALER");
    let mut expected = vec![11u8];
    expected.extend_from_slice(b"Socket-Type");
    expected.extend_from_slice(&[0, 0, 0, 6]);
    expected.extend_from_slice(b"DEALER");
    assert_eq!(p, expected);
    assert_eq!(socket_type_string(6), b"ROUTER".to_vec());
    assert!(check_socket_type(5, b"ROUTER"));
    assert!(!check_socket_type(5, b"PUB"));
}

#[test]
fn mechanism_parse_metadata() {
    let mut p = Vec::new();
    add_property(&mut p, b"Socket-Type", b"DEALER");
    add_property(&mut p, b"Identity", b"abc");
    let props = parse_metadata(&p, 5).unwrap();
    assert_eq!(props.len(), 2);
    assert_eq!(props[1], (b"Identity".to_vec(), b"abc".to_vec()));
    // A peer of a type this socket cannot talk to.
    let mut q = Vec::new();
    add_property(&mut q, b"Socket-Type", b"PUB");
    assert!(parse_metadata(&q, 5).is_err());
    // A truncated property.
    assert_eq!(parse_metadata(&p[..p.len() - 1], 5), Err(EPROTO));
}

#[test]
fn null_handshake_both_ways() {
    let mut client = NullMechanism::new("client".to_string(), options(5));
    let mut server = NullMechanism::new("server".to_string(), options(5));
    let mut session = ZapSession::new(false);
    let mut to_server = Msg::new();
    assert_eq!(client.next_handshake_command(&mut to_server, &mut session), Ok(()));
    assert!(to_server.data().starts_with(b"\x05READY"));
    let mut to_client = Msg::new();
    assert_eq!(server.next_handshake_command(&mut to_client, &mut session), Ok(()));
    assert_eq!(server.process_handshake_command(&mut to_server), Ok(()));
    assert_eq!(client.process_handshake_command(&mut to_client), Ok(()));
    assert_eq!(client.status(), Status::Ready);
    assert_eq!(server.status(), Status::Ready);
    // A second command is a protocol error; so is a second READY to send.
    assert_eq!(client.process_handshake_command(&mut to_client), Err(EPROTO));
    assert_eq!(client.next_handshake_command(&mut to_server, &mut session), Err(EAGAIN));
}

#[test]
fn null_zap_refusal_sends_error() {
    let mut o = options(5);
    o.zap_domain = "global".to_string();
    let mut server = NullMechanism::new("peer".to_string(), o);
    let mut session = ZapSession::new(true);
    session.push_reply(b"400".to_vec());
    let mut msg = Msg::new();
    assert_eq!(server.next_handshake_command(&mut msg, &mut session), Ok(()));
    assert_eq!(msg.data(), b"\x05ERROR\x03400");
    assert_eq!(session.request_count(), 1);
    let mut client = NullMechanism::new("c".to_string(), options(5));
    assert_eq!(client.process_handshake_command(&mut msg), Ok(()));
    let mut out = Msg::new();
    let mut s2 = ZapSession::new(false);
    assert_eq!(client.next_handshake_command(&mut out, &mut s2), Ok(()));
    assert_eq!(client.status(), Status::Error);
}

#[test]
fn null_zap_unreachable_enforced() {
    let mut o = options(5);
    o.zap_domain = "global".to_string();
    o.zap_enforce_domain = true;
    let mut server = NullMechanism::new("peer".to_string(), o);
    let mut session = ZapSession::new(false);
    let mut msg = Msg::new();
    assert_eq!(server.next_handshake_command(&mut msg, &mut session), Err(ECONNREFUSED));
}

#[test]
fn null_zap_bad_status_is_protocol_error() {
    let mut o = options(5);
    o.zap_domain = "global".to_string();
    let mut server = NullMechanism::new("peer".to_string(), o);
    let mut session = ZapSession::new(true);
    session.push_reply(b"999".to_vec());
    let mut msg = Msg::new();
    assert_eq!(server.next_handshake_command(&mut msg, &mut session), Err(EPROTO));
}

#[test]
fn null_rejects_unknown_command() {
    let mut m = NullMechanism::new("peer".to_string(), options(5));
    let mut msg = Msg::from_bytes(b"\x05HELLO".to_vec());
    assert_eq!(m.process_handshake_command(&mut msg), Err(EPROTO));
}

#[test]
fn plain_handshake() {
    let mut co = options(5);
    co.plain_username = "admin".to_string();
    co.plain_password = "secret".to_string();
    let mut client = PlainClient::new(co);
    let mut server = PlainServer::new("peer".to_string(), options(5));
    let mut session = ZapSession::new(false);

    let mut hello = Msg::new();
    assert_eq!(client.next_handshake_command(&mut hello), Ok(()));
    assert_eq!(hello.data(), b"HELLO\x05admin\x06secret");

    let mut welcome = Msg::new();
    assert_eq!(server.next_handshake_command(&mut welcome), Ok(()));
    assert_eq!(welcome.data(), b"WELCOME");
    assert_eq!(client.process_handshake_command(&mut welcome), Ok(()));

    let mut initiate = Msg::new();
    assert_eq!(client.next_handshake_command(&mut initiate), Ok(()));
    assert!(initiate.data().starts_with(b"INITIATE"));
    assert_eq!(server.process_handshake_command(&mut initiate, &mut session), Ok(()));
    assert_eq!(initiate.size(), 0);

    let mut ready = Msg::new();
    assert_eq!(server.next_handshake_command(&mut ready), Ok(()));
    assert!(ready.data().starts_with(b"READY"));
    assert_eq!(client.process_handshake_command(&mut ready), Ok(()));
    assert_eq!(client.status(), Status::Ready);

    let mut more = Msg::new();
    assert_eq!(server.next_handshake_command(&mut more), Err(ZmqError::Again));
}

#[test]
fn plain_client_rejects_out_of_order() {
    let mut client = PlainClient::new(options(5));
    let mut ready = Msg::from_bytes(b"READY".to_vec());
    assert_eq!(client.process_handshake_command(&mut ready), Err(EPROTO));
    let mut err = Msg::from_bytes(b"ERROR\x03400".to_vec());
    let mut hello = Msg::new();
    assert_eq!(client.next_handshake_command(&mut hello), Ok(()));
    assert_eq!(client.process_handshake_command(&mut err), Ok(()));
    assert_eq!(client.status(), Status::Error);
}

#[test]
fn plain_server_rejects_command_out_of_turn() {
    let mut server = PlainServer::new("peer".to_string(), options(5));
    let mut session = ZapSession::new(false);
    let mut msg = Msg::from_bytes(b"HELLO\x00\x00".to_vec());
    assert_eq!(server.process_handshake_command(&mut msg, &mut session), Err(ZmqError::Protocol));
    assert!(!PlainServer::zap_required(&options(5)));
}

use zmq_core::plain_server::State as ServerState;

#[test]
fn plain_server_hello_goes_to_zap() {
    let mut server = PlainServer::new("peer".to_string(), options(5));
    server.state = ServerState::WaitingForHello;
    let mut session = ZapSession::new(true);
    session.push_reply(b"200".to_vec());
    let mut hello = Msg::from_bytes(b"HELLO\x05admin\x07s\xc3\xa9cret".to_vec());
    assert_eq!(server.process_handshake_command(&mut hello, &mut session), Ok(()));
    assert_eq!(session.request_count(), 1);
    let req = session.request(0);
    assert_eq!(req.mechanism(), b"PLAIN");
    assert_eq!(req.credentials(), &vec![b"admin".to_vec(), "s\u{e9}cret".as_bytes().to_vec()]);
    let mut welcome = Msg::new();
    assert_eq!(server.next_handshake_command(&mut welcome), Ok(()));
    assert_eq!(welcome.data(), b"WELCOME");
}

#[test]
fn plain_server_hello_invalid_utf8_is_replaced() {
    let mut server = PlainServer::new("peer".to_string(), options(5));
    server.state = ServerState::WaitingForHello;
    let mut session = ZapSession::new(true);
    session.push_reply(b"400".to_vec());
    let mut hello = Msg::from_bytes(b"HELLO\x01\xff\x00".to_vec());
    assert_eq!(server.process_handshake_command(&mut hello, &mut session), Ok(()));
    let req = session.request(0);
    assert_eq!(req.credentials()[0], "\u{fffd}".as_bytes().to_vec());
    assert_eq!(req.credentials()[1], Vec::<u8>::new());
    let mut error = Msg::new();
    assert_eq!(server.next_handshake_command(&mut error), Ok(()));
    assert_eq!(error.data(), b"ERROR\x03400");
}
