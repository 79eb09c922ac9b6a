use zmq_core::peer::{Context as PeerContext, Peer, Pipe as PeerPipe, ZMQ_PEER};
use zmq_core::stream::{Context, Msg, Pipe, Stream, EAGAIN, EHOSTUNREACH, ZMQ_STREAM};

fn msg(data: &[u8], more: bool) -> Msg {
    Msg { data: data.to_vec(), more }
}

#[test]
fn stream_names_peers_and_routes() {
    let mut ctx = Context;
    let mut s = Stream::new(&mut ctx, 0, 0);
    assert_eq!(s.options.typ, ZMQ_STREAM);
    s.next_integral_routing_id = 7;
    s.attach_pipe(Pipe::new(1, true), false, false);
    s.options.connect_routing_id = b"peer-b".to_vec();
    s.attach_pipe(Pipe::new(2, true), false, true);
    assert_eq!(s.pipes[0].routing_id, vec![0, 0, 0, 0, 7]);
    assert_eq!(s.pipes[1].routing_id, b"peer-b".to_vec());
    assert_eq!(s.next_integral_routing_id, 8);

    let mut id = msg(b"peer-b", true);
    assert_eq!(s.send(&mut id), Ok(()));
    assert!(id.data.is_empty());
    let mut body = msg(b"hello", false);
    assert_eq!(s.send(&mut body), Ok(()));
    assert_eq!(s.pipes[1].written, vec![b"hello".to_vec()]);
    assert!(s.pipes[0].written.is_empty());

    let mut unknown = msg(b"nobody", true);
    assert_eq!(s.send(&mut unknown), Err(EHOSTUNREACH));
}

#[test]
fn stream_empty_body_disconnects() {
    let mut ctx = Context;
    let mut s = Stream::new(&mut ctx, 0, 0);
    s.next_integral_routing_id = 0;
    s.attach_pipe(Pipe::new(1, true), false, false);
    let mut id = msg(&[0, 0, 0, 0, 0], true);
    assert_eq!(s.send(&mut id), Ok(()));
    let mut empty = msg(b"", false);
    assert_eq!(s.send(&mut empty), Ok(()));
    assert!(s.pipes[0].terminated);
}

#[test]
fn stream_full_pipe_is_again() {
    let mut ctx = Context;
    let mut s = Stream::new(&mut ctx, 0, 0);
    s.next_integral_routing_id = 0;
    s.attach_pipe(Pipe::new(1, false), false, false);
    let mut id = msg(&[0, 0, 0, 0, 0], true);
    assert_eq!(s.send(&mut id), Err(EAGAIN));
    assert!(s.current_out.is_none());
}

#[test]
fn peer_remembers_last_routing_id() {
    let mut ctx = PeerContext;
    let mut p = Peer::new(&mut ctx, 0, 0);
    assert_eq!(p.options.type_, ZMQ_PEER);
    assert!(p.options.can_send_hello_msg);
    let mut pipe = PeerPipe { server_socket_routing_id: 42 };
    p.attach_pipe(&mut pipe, false, true);
    assert_eq!(p.connect_peer("tcp://127.0.0.1:5555"), 42);
    p.options.immediate = 1;
    assert_eq!(p.connect_peer("tcp://127.0.0.1:5555"), 0);
}
