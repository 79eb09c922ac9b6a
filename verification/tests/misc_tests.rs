use zmq_core::object::{Context as ObjContext, Endpoint, ObjectImpl};
use zmq_core::options::Options;
use zmq_core::raw_decoder::RawDecoder;
use zmq_core::raw_engine::Metadata;
use zmq_core::session_base::Msg as SessionMsg;
use zmq_core::socket_base::{
    check_protocol, parse_uri, SocketBase, SocketKind, SocketOptions, Transport, EINVAL, EPROTONOSUPPORT,
    ETERM, ZMQ_PAIR, ZMQ_SUB,
};
use zmq_core::sub::{Context as SubContext, Sub};

#[test]
fn options_defaults() {
    let o = Options::new();
    assert_eq!(o.send_high_water_mark, 1000);
    assert_eq!(o.recv_high_water_mark, 1000);
    assert_eq!(o.linger, -1);
    assert_eq!(o.reconnect_intvl, 100);
    assert_eq!(o.backlog, 100);
    assert_eq!(o.socket_type, -1);
    assert_eq!(o.routing_id_size, 0);
    assert!(o.routing_id.iter().all(|b| *b == 0));
    assert!(o.raw_notify);
    assert!(!o.raw_socket);
    assert!(o.zap_domain.is_empty());
}

#[test]
fn socket_base_option_defaults() {
    let o = SocketOptions::default();
    assert_eq!((o.socket_id, o.type_, o.immediate, o.sndhwm, o.rcvhwm), (0, 0, 0, 0, 0));
    assert!(!o.rcvmore);
}

#[test]
fn session_msg_life_cycle() {
    let mut m = SessionMsg::new();
    assert_eq!(m.flags(), 0);
    assert_eq!(m.init_buffer(b"abc", 1), 0);
    m.set_flags(1);
    assert_eq!(m.flags(), 1);
    assert!(!m.is_subscribe());
    assert!(!m.is_cancel());
    assert_eq!(m.close(), 0);
    assert_eq!(m.flags(), 1);
    assert_eq!(m.init(), 0);
    assert_eq!(m.flags(), 0);
}

#[test]
fn sub_refuses_options_and_sends() {
    let mut s = Sub::new(&SubContext, 0, 0);
    assert_eq!(s.xsetsockopt(6, b"topic"), -1);
    assert_eq!(s.xsetsockopt(7, b"topic"), -1);
    assert_eq!(s.xsetsockopt(99, b"topic"), -1);
}

#[test]
fn object_tid_and_endpoints() {
    let mut o = ObjectImpl::new(ObjContext, 3);
    assert_eq!(o.get_tid(), 3);
    o.set_tid(8);
    assert_eq!(o.get_tid(), 8);
    assert!(o.register_endpoint("tcp://*:5555", Endpoint {}).is_ok());
    assert!(o.choose_io_thread(1).is_none());
    o.send_stop();
}

#[test]
fn raw_decoder_takes_all_bytes() {
    let mut d = RawDecoder::new(64).unwrap();
    {
        let (buf, size) = d.get_buffer();
        assert_eq!(size, 64);
        assert_eq!(buf.len(), 64);
    }
    assert_eq!(d.decode(b"hello"), Ok(5));
    assert_eq!(d.decode(b""), Ok(0));
}

#[test]
fn raw_engine_metadata_duplicate() {
    let m = Metadata::new(vec![("Peer-Address".to_string(), "1.2.3.4".to_string())]);
    let _copy = m.duplicate();
}

use zmq_core::raw_engine::{EndpointUriPair, IEngine, Options as EngineOptions, RawEngine};

#[test]
fn raw_engine_notifies_connect_and_disconnect() {
    let opts = EngineOptions { out_batch_size: 8192, in_batch_size: 8192, raw_socket: true, raw_notify: true };
    let pair = EndpointUriPair { local: "tcp://127.0.0.1:1".to_string(), remote: "tcp://127.0.0.1:2".to_string() };
    let mut e = RawEngine::new(7, opts, pair);
    assert_eq!(e.session_count(), 0);
    e.plug_internal();
    assert_eq!(e.session_count(), 1);
    assert_eq!(e.session_message(0), (&b""[..], true));
    assert!(e.handshake());
    e.error(0);
    assert_eq!(e.session_count(), 2);
    assert_eq!(e.session_message(1), (&b""[..], true));
}

#[test]
fn raw_engine_quiet_without_notify() {
    let opts = EngineOptions { out_batch_size: 8192, in_batch_size: 8192, raw_socket: true, raw_notify: false };
    let pair = EndpointUriPair { local: String::new(), remote: String::new() };
    let mut e = RawEngine::new(7, opts, pair);
    e.plug_internal();
    e.error(0);
    assert_eq!(e.session_count(), 0);
}

#[test]
fn socket_base_parses_endpoints() {
    assert_eq!(
        parse_uri("tcp://127.0.0.1:5555"),
        Ok((String::from("tcp"), String::from("127.0.0.1:5555")))
    );
    assert_eq!(parse_uri("inproc://a://b"), Ok((String::from("inproc"), String::from("a://b"))));
    assert_eq!(parse_uri("tcp:/x"), Err(EINVAL));
    assert_eq!(parse_uri("://x"), Err(EINVAL));
    assert_eq!(parse_uri("tcp://"), Err(EINVAL));
    for uri in ["tcp://127.0.0.1:5555", "inproc://a://b", "pgm://eth0;239.1.1.1:5555"] {
        let (p, a) = parse_uri(uri).unwrap();
        assert_eq!(format!("{}://{}", p, a), uri);
    }
    assert_eq!(check_protocol("epgm"), Ok(()));
    assert_eq!(check_protocol("wss"), Ok(()));
    assert_eq!(check_protocol("udp"), Err(EPROTONOSUPPORT));
}

#[test]
fn socket_base_bind_and_connect_targets() {
    let mut s = SocketBase::new(0, 7, false);
    assert!(s.check_tag());
    assert!(!s.is_thread_safe());
    assert_eq!(s.bind("tcp://*:5555"), Ok((Transport::Tcp, String::from("*:5555"))));
    assert_eq!(s.connect("inproc://x"), Ok((Transport::Inproc, String::from("x"))));
    assert_eq!(s.bind("ipc:///tmp/s"), Err(EPROTONOSUPPORT));
    assert_eq!(s.bind("foo://x"), Err(EPROTONOSUPPORT));
    assert_eq!(s.connect("nothing"), Err(EINVAL));
    s.set_ctx_terminated();
    assert_eq!(s.bind("tcp://*:5555"), Err(ETERM));
    assert_eq!(SocketBase::create(ZMQ_PAIR), Some(SocketKind::Pair));
    assert_eq!(SocketBase::create(ZMQ_SUB), Some(SocketKind::Sub));
    assert_eq!(SocketBase::create(9), None);
}
