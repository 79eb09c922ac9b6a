use zmq_core::pull::{Pull, ZMQ_PULL};
use zmq_core::push::{Push, ZMQ_PUSH};
use zmq_core::scatter;
use zmq_core::server::{self, Context, Message, EAGAIN};

#[test]
fn push_sends_once_it_has_a_pipe_and_takes_multipart() {
    let mut ctx = Context;
    let mut p = Push::new(&mut ctx, 1, 2);
    assert!(!p.has_out());
    let mut m = scatter::Msg::new();
    assert_eq!(p.send(&mut m), -1);
    p.attach_pipe(scatter::Pipe::new(), false, true);
    assert!(p.has_out());
    assert_eq!(p.send(&mut m), 0);
    m.set_more(true);
    assert_eq!(p.send(&mut m), 0);
    assert!(m.flags().more());
    p.write_activated(&scatter::Pipe::new());
    p.pipe_terminated(&scatter::Pipe::new());
    assert!(p.has_out());
    assert_eq!(ZMQ_PUSH, 8);
}

#[test]
fn pull_reads_frames_in_arrival_order() {
    let ctx = Context;
    let mut p = Pull::new(&ctx, 1, 2);
    p.attach_pipe(&server::Pipe::new(true), false, false);
    assert!(!p.has_in());
    let mut out = Message::new(vec![9], false, 77);
    assert_eq!(p.recv(&mut out), Err(EAGAIN));
    assert_eq!(out.get_routing_id(), 77);
    p.push_inbound(5, Message::new(vec![1], true, 5));
    p.push_inbound(6, Message::new(vec![2], false, 6));
    assert!(p.has_in());
    assert_eq!(p.recv(&mut out), Ok(()));
    assert_eq!(out.get_routing_id(), 5);
    assert!(out.has_more());
    p.read_activated(&server::Pipe::new(true));
    assert_eq!(p.recv(&mut out), Ok(()));
    assert_eq!(out.get_routing_id(), 6);
    assert!(!out.has_more());
    p.pipe_terminated(&server::Pipe::new(true));
    assert!(!p.has_in());
    assert_eq!(ZMQ_PULL, 7);
}
