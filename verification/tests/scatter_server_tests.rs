use zmq_core::scatter::{self, Scatter, ScatterError};
use zmq_core::server::{self, Message, Server, EAGAIN, EHOSTUNREACH, EINVAL};

#[test]
fn scatter_needs_a_pipe_and_single_parts() {
    let mut s = Scatter::new();
    assert!(!s.has_out());
    let mut m = scatter::Msg::new();
    assert_eq!(s.send(&m), Err(ScatterError::NoPipes));
    s.attach_pipe(scatter::Pipe::new());
    assert!(s.has_out());
    assert_eq!(s.send(&m), Ok(()));
    m.set_more(true);
    assert!(m.flags().more());
    assert_eq!(s.send(&m), Err(ScatterError::MultipartNotAllowed));
    s.write_activated(&scatter::Pipe::new());
    s.pipe_terminated(&scatter::Pipe::new());
    assert!(s.has_out());
}

#[test]
fn server_routes_replies_by_routing_id() {
    let ctx = server::Context;
    let mut s = Server::new(&ctx, 0, 0);
    assert!(s.has_out());
    assert!(!s.has_in());
    s.attach_pipe(Box::new(server::Pipe::new(true)), false, false);
    s.push_inbound(7, Message::new(b"hi".to_vec(), false, 0));
    assert!(s.has_in());
    let mut m = Message::new(Vec::new(), false, 0);
    assert_eq!(s.recv(&mut m), Ok(()));
    assert_eq!(m.get_routing_id(), 7);
    assert!(!m.has_more());
    assert_eq!(s.recv(&mut m), Err(EAGAIN));
}

#[test]
fn server_drops_multipart_messages() {
    let ctx = server::Context;
    let mut s = Server::new(&ctx, 0, 0);
    s.push_inbound(1, Message::new(b"a".to_vec(), true, 0));
    s.push_inbound(1, Message::new(b"b".to_vec(), false, 0));
    s.push_inbound(2, Message::new(b"c".to_vec(), false, 0));
    let mut m = Message::new(Vec::new(), false, 0);
    assert_eq!(s.recv(&mut m), Ok(()));
    assert_eq!(m.get_routing_id(), 2);
}

#[test]
fn server_send_errors() {
    let ctx = server::Context;
    let mut s = Server::new(&ctx, 0, 0);
    let mut multi = Message::new(b"x".to_vec(), true, 5);
    assert_eq!(s.send(&mut multi), Err(EINVAL));
    let mut unknown = Message::new(b"x".to_vec(), false, 5);
    assert_eq!(s.send(&mut unknown), Err(EHOSTUNREACH));
}
