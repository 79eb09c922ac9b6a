use zmq_core::socks::{
    SocksBasicAuthRequest, SocksBasicAuthRequestEncoder, SocksChoiceDecoder, SocksError,
    SocksGreeting, SocksGreetingEncoder, SocksRequest, SocksResponse,
};

#[test]
fn greeting_is_version_count_methods() {
    let g = SocksGreeting::with_methods(&[0x00, 0x02]);
    let mut e = SocksGreetingEncoder::new();
    assert!(!e.has_pending_data());
    e.encode(&g);
    assert!(e.has_pending_data());
    let mut sink = Vec::new();
    assert_eq!(e.write(&mut sink, 100), 4);
    assert_eq!(sink, vec![0x05, 0x02, 0x00, 0x02]);
    assert!(!e.has_pending_data());
}

#[test]
fn greeting_written_in_pieces() {
    let g = SocksGreeting::new(0x00);
    let mut e = SocksGreetingEncoder::new();
    e.encode(&g);
    let mut sink = Vec::new();
    assert_eq!(e.write(&mut sink, 2), 2);
    assert!(e.has_pending_data());
    assert_eq!(e.write(&mut sink, 2), 1);
    assert_eq!(e.write(&mut sink, 2), 0);
    assert_eq!(sink, vec![0x05, 0x01, 0x00]);
    e.reset();
    assert!(!e.has_pending_data());
}

#[test]
fn greeting_method_count_keeps_low_byte() {
    let methods = vec![7u8; 300];
    let g = SocksGreeting::with_methods(&methods);
    let mut e = SocksGreetingEncoder::new();
    e.encode(&g);
    let mut sink = Vec::new();
    assert_eq!(e.write(&mut sink, 1000), 302);
    assert_eq!(sink[0], 5);
    assert_eq!(sink[1], (300 % 256) as u8);
}

#[test]
fn choice_in_one_read() {
    let mut d = SocksChoiceDecoder::new();
    assert!(!d.message_ready());
    assert_eq!(d.read(&[0x05, 0x02, 0x99]), Ok(2));
    assert!(d.message_ready());
    assert_eq!(d.decode().method, 0x02);
    assert_eq!(d.read(&[0x05]), Ok(0));
}

#[test]
fn choice_in_two_reads() {
    let mut d = SocksChoiceDecoder::new();
    assert_eq!(d.read(&[0x05]), Ok(1));
    assert!(!d.message_ready());
    assert_eq!(d.read(&[0xff]), Ok(1));
    assert!(d.message_ready());
    assert_eq!(d.decode().method, 0xff);
    d.reset();
    assert!(!d.message_ready());
}

#[test]
fn choice_with_wrong_version_is_refused() {
    let mut d = SocksChoiceDecoder::new();
    assert_eq!(d.read(&[0x04, 0x00]), Err(SocksError::InvalidVersion));
    assert!(!d.message_ready());
    assert_eq!(d.read(&[]), Ok(0));
}

#[test]
fn basic_auth_request_encoding() {
    let req = SocksBasicAuthRequest::new("user".to_string(), "pw".to_string());
    let mut e = SocksBasicAuthRequestEncoder::new();
    e.encode(&req);
}

#[test]
fn request_and_response_can_be_made() {
    let _r = SocksRequest::new(1, "example.com".to_string(), 80);
    let _s = SocksResponse::new(0, "10.0.0.1".to_string(), 8080);
}

use zmq_core::socks_connecter::{
    AuthMethod, ConnectError, NextStep, SocksConnector, TargetAddr,
};

#[test]
fn socks_connector_greeting_and_choice() {
    let mut c = SocksConnector::new("proxy:1080".to_string(), "target:80".to_string());
    assert_eq!(c.greeting(), vec![5, 1, 0]);
    c.set_auth_method_basic("bob".to_string(), "pw".to_string());
    assert_eq!(c.auth_method, AuthMethod::BasicAuth);
    assert_eq!(c.greeting(), vec![5, 1, 2]);
    assert_eq!(c.basic_auth_request(), vec![1, 3, b'b', b'o', b'b', 2, b'p', b'w']);
    assert_eq!(c.on_choice([5, 0]), Ok(NextStep::SendRequest));
    assert_eq!(c.on_choice([5, 2]), Ok(NextStep::SendBasicAuth));
    assert_eq!(c.on_choice([5, 0xff]), Err(ConnectError::UnsupportedAuthMethod));
    assert_eq!(c.on_choice([4, 0]), Err(ConnectError::InvalidProtocol));
    c.set_auth_method_none();
    assert_eq!(c.auth_method, AuthMethod::NoAuthRequired);
    assert!(c.auth_username.is_empty());
}

#[test]
fn socks_connector_request_and_response() {
    let c = SocksConnector::new("proxy:1080".to_string(), "target:80".to_string());
    assert_eq!(
        c.connection_request(&TargetAddr::V4([10, 0, 0, 1], 0x1f90)),
        vec![5, 1, 0, 1, 10, 0, 0, 1, 0x1f, 0x90]
    );
    let mut v6 = [0u8; 16];
    v6[15] = 1;
    let r = c.connection_request(&TargetAddr::V6(v6, 443));
    assert_eq!(r.len(), 22);
    assert_eq!(&r[..4], &[5, 1, 0, 4]);
    assert_eq!(&r[20..], &[1, 187]);
    assert_eq!(c.on_auth_response([1, 0]), Ok(()));
    assert_eq!(c.on_auth_response([1, 1]), Err(ConnectError::AuthenticationFailed));
    assert_eq!(c.on_connection_response([5, 0, 0, 1]), Ok(6));
    assert_eq!(c.on_connection_response([5, 0, 0, 4]), Ok(18));
    assert_eq!(c.on_connection_response([5, 0, 0, 3]), Err(ConnectError::InvalidAddressType));
    assert_eq!(c.on_connection_response([5, 1, 0, 1]), Err(ConnectError::ConnectionFailed));
}
