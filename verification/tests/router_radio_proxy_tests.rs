use zmq_core::proxy::{
    forward, handle_control, proxy, proxy_steerable, Message, ProxyState, Socket, StatsProxy, StatsSocket,
    CONTROL_REPLY_TYPE, ZMQ_SNDMORE,
};
use zmq_core::radio::{
    Address as RadioAddress, Context as RadioContext, IoThread as RadioIoThread, Msg as RadioMsg, MsgKind,
    Options as RadioOptions, Pipe as RadioPipe, Radio, RadioSession, SocketBase as RadioSocketBase,
    EAGAIN as RADIO_EAGAIN, EINVAL as RADIO_EINVAL, MSG_MORE, ZMQ_XPUB_NODROP,
};
use zmq_core::router::{
    Pipe, Router, EINVAL, ZMQ_PROBE_ROUTER, ZMQ_ROUTER_HANDOVER, ZMQ_ROUTER_RAW,
};

#[test]
fn router_raw_ids_count_up() {
    let mut r = Router::new();
    assert_eq!(r.set_sockopt(ZMQ_ROUTER_RAW, 1), Ok(()));
    let mut a = Pipe::new(1, vec![]);
    let mut b = Pipe::new(2, vec![]);
    r.attach_pipe(&mut a, false);
    r.attach_pipe(&mut b, false);
    assert_eq!(a.routing_id(), &[0, 0, 0, 0, 0]);
    assert_eq!(b.routing_id(), &[0, 0, 0, 0, 1]);
}

#[test]
fn router_names_peer_by_first_frame() {
    let mut r = Router::new();
    let mut a = Pipe::new(1, vec![b"alice".to_vec()]);
    r.attach_pipe(&mut a, false);
    assert_eq!(a.routing_id(), b"alice");
    // A second peer with the same name is refused without handover.
    let mut b = Pipe::new(2, vec![b"alice".to_vec()]);
    r.attach_pipe(&mut b, false);
    assert_eq!(b.routing_id(), b"");
    // With handover it takes the name.
    assert_eq!(r.set_sockopt(ZMQ_ROUTER_HANDOVER, 1), Ok(()));
    let mut c = Pipe::new(3, vec![b"alice".to_vec()]);
    r.attach_pipe(&mut c, false);
    assert_eq!(c.routing_id(), b"alice");
}

#[test]
fn router_empty_first_frame_gets_generated_id() {
    let mut r = Router::new();
    let mut a = Pipe::new(1, vec![vec![]]);
    r.attach_pipe(&mut a, false);
    assert_eq!(a.routing_id(), &[0, 0, 0, 0, 0]);
}

#[test]
fn router_connect_routing_id_and_probe() {
    let mut r = Router::new();
    r.set_connect_routing_id(b"srv".to_vec());
    assert_eq!(r.set_sockopt(ZMQ_PROBE_ROUTER, 1), Ok(()));
    let mut a = Pipe::new(1, vec![]);
    r.attach_pipe(&mut a, true);
    assert_eq!(a.routing_id(), b"srv");
    assert_eq!(a.written_count(), 1);
    assert_eq!(r.set_sockopt(12345, 1), Err(EINVAL));
}

fn join(group: &[u8]) -> RadioMsg {
    RadioMsg::new(MsgKind::Join, group.to_vec(), vec![], 0)
}

#[test]
fn radio_sends_to_joined_pipes() {
    let mut ctx = RadioContext;
    let mut radio = Radio::new(&mut ctx, 0, 0);
    let mut a = RadioPipe::new(1);
    a.deliver(join(b"news"));
    let mut b = RadioPipe::new(2);
    b.deliver(join(b"sport"));
    radio.attach_pipe(&mut a, false, false);
    radio.attach_pipe(&mut b, false, false);
    let mut msg = RadioMsg::new(MsgKind::Data, b"news".to_vec(), b"hello".to_vec(), 0);
    assert_eq!(radio.send(&mut msg), Ok(()));
    assert_eq!(radio.delivered_count(), 1);
    assert_eq!(radio.delivered_at(0), (1, &b"hello"[..]));
}

#[test]
fn radio_leave_and_udp() {
    let mut ctx = RadioContext;
    let mut radio = Radio::new(&mut ctx, 0, 0);
    let mut a = RadioPipe::new(1);
    a.deliver(join(b"g"));
    radio.attach_pipe(&mut a, false, false);
    a.deliver(RadioMsg::new(MsgKind::Leave, b"g".to_vec(), vec![], 0));
    radio.read_activated(&mut a);
    let mut u = RadioPipe::new(9);
    radio.attach_pipe(&mut u, true, false);
    let mut msg = RadioMsg::new(MsgKind::Data, b"g".to_vec(), b"x".to_vec(), 0);
    assert_eq!(radio.send(&mut msg), Ok(()));
    assert_eq!(radio.delivered_count(), 1);
    assert_eq!(radio.delivered_at(0).0, 9);
    let mut more = RadioMsg::new(MsgKind::Data, b"g".to_vec(), b"x".to_vec(), MSG_MORE);
    assert_eq!(radio.send(&mut more), Err(RADIO_EINVAL));
    assert_eq!(radio.set_sockopt(ZMQ_XPUB_NODROP, 1), Ok(()));
    assert_eq!(radio.set_sockopt(1, 0), Ok(()));
}

#[test]
fn proxy_forward_moves_a_whole_message() {
    let mut front = Socket::new(5);
    let mut back = Socket::new(5);
    front.deliver(b"one".to_vec(), true);
    front.deliver(b"two".to_vec(), false);
    front.deliver(b"next".to_vec(), false);
    let mut capture = None;
    let mut msg = Message::new().unwrap();
    let mut rs = StatsSocket { count: 0, bytes: 0 };
    let mut ss = StatsSocket { count: 0, bytes: 0 };
    assert!(forward(&mut front, &mut back, &mut capture, &mut msg, &mut rs, &mut ss).is_ok());
    let sent = back.sent();
    assert_eq!(sent[0], (b"one".to_vec(), ZMQ_SNDMORE));
    assert_eq!(sent[1], (b"two".to_vec(), 0));
    assert_eq!(sent[2], (b"next".to_vec(), 0));
    assert_eq!(sent.len(), 3);
    assert_eq!((rs.count, rs.bytes), (3, 10));
    assert_eq!((ss.count, ss.bytes), (3, 10));
    assert_eq!(front.pending(), 0);
}

#[test]
fn proxy_control_commands() {
    let stats = StatsProxy::new();
    let mut control = Socket::new(CONTROL_REPLY_TYPE);
    control.deliver(b"PAUSE".to_vec(), false);
    control.deliver(b"RESUME".to_vec(), false);
    control.deliver(b"STATISTICS".to_vec(), false);
    control.deliver(b"TERMINATE".to_vec(), false);
    let mut state = ProxyState::Active;
    assert!(handle_control(&mut control, &mut state, &stats).is_ok());
    assert_eq!(state, ProxyState::Paused);
    assert!(handle_control(&mut control, &mut state, &stats).is_ok());
    assert_eq!(state, ProxyState::Active);
    assert!(handle_control(&mut control, &mut state, &stats).is_ok());
    assert_eq!(state, ProxyState::Active);
    let n = control.sent().len();
    // An empty reply to each command, and eight counters before the third.
    assert_eq!(n, 11);
    assert_eq!(control.sent()[0], (vec![], 0));
    assert_eq!(control.sent()[2], (0u64.to_le_bytes().to_vec(), ZMQ_SNDMORE));
    assert_eq!(control.sent()[9], (0u64.to_le_bytes().to_vec(), 0));
    assert!(handle_control(&mut control, &mut state, &stats).is_ok());
    assert_eq!(state, ProxyState::Terminated);
    assert!(handle_control(&mut control, &mut state, &stats).is_err());
}

#[test]
fn proxy_without_control_ends_in_error() {
    let mut front = Socket::new(5);
    let mut back = Socket::new(5);
    let mut capture = None;
    assert!(proxy(&mut front, &mut back, &mut capture).is_err());
}

#[test]
fn proxy_forwards_until_a_side_runs_dry() {
    let mut front = Socket::new(5);
    let mut back = Socket::new(5);
    front.deliver(vec![1], false);
    front.deliver(vec![2], false);
    back.deliver(vec![3], false);
    let mut capture = Some(Socket::new(5));
    assert!(proxy(&mut front, &mut back, &mut capture).is_err());
    // first turn: front gives both messages, back gives its one; second turn: front is dry.
    assert_eq!(back.sent().len(), 2);
    assert_eq!(front.sent().len(), 1);
    assert_eq!(front.pending(), 0);
    let copies: Vec<Vec<u8>> = capture.unwrap().sent().iter().map(|p| p.0.clone()).collect();
    assert_eq!(copies, vec![vec![1], vec![2], vec![3]]);
}

#[test]
fn proxy_steerable_ends_ok_on_terminate_and_forwards_nothing_while_paused() {
    let mut front = Socket::new(5);
    let mut back = Socket::new(5);
    front.deliver(vec![1], false);
    back.deliver(vec![2], false);
    let mut control = Socket::new(5);
    control.deliver(b"PAUSE".to_vec(), false);
    control.deliver(b"TERMINATE".to_vec(), false);
    control.deliver(b"RESUME".to_vec(), false);
    let mut control = Some(control);
    let mut capture = None;
    assert_eq!(proxy_steerable(&mut front, &mut back, &mut capture, &mut control), Ok(()));
    assert_eq!(front.pending(), 1);
    assert_eq!(back.pending(), 1);
    assert!(back.sent().is_empty());
    assert_eq!(control.unwrap().pending(), 1);
}

#[test]
fn proxy_steerable_without_commands_left_is_an_error() {
    let mut front = Socket::new(5);
    let mut back = Socket::new(5);
    front.deliver(vec![1], false);
    back.deliver(vec![2], false);
    let mut control = Socket::new(5);
    control.deliver(b"RESUME".to_vec(), false);
    let mut control = Some(control);
    let mut capture = None;
    assert!(proxy_steerable(&mut front, &mut back, &mut capture, &mut control).is_err());
    assert_eq!(back.sent().len(), 1);
    assert_eq!(front.sent().len(), 1);
}

#[test]
fn radio_full_pipes_drop_or_refuse() {
    let mut ctx = RadioContext;
    let mut radio = Radio::new(&mut ctx, 0, 0);
    let mut a = RadioPipe::new(1);
    a.deliver(join(b"g"));
    let mut b = RadioPipe::new(2);
    b.deliver(join(b"g"));
    radio.attach_pipe(&mut a, false, false);
    radio.attach_pipe(&mut b, false, false);
    radio.pipe_full(&a);
    let mut msg = RadioMsg::new(MsgKind::Data, b"g".to_vec(), b"m".to_vec(), 0);
    // lossy: the full pipe drops the message, the other gets it
    assert_eq!(radio.send(&mut msg), Ok(()));
    assert_eq!(radio.delivered_count(), 1);
    assert_eq!(radio.delivered_at(0).0, 2);
    // no drop: nothing is sent while a matched pipe is full
    assert_eq!(radio.set_sockopt(ZMQ_XPUB_NODROP, 1), Ok(()));
    assert_eq!(radio.send(&mut msg), Err(zmq_core::radio::EAGAIN));
    assert_eq!(radio.delivered_count(), 1);
    radio.write_activated(&a);
    assert_eq!(radio.send(&mut msg), Ok(()));
    assert_eq!(radio.delivered_count(), 3);
}

#[test]
fn radio_session_pulls_group_then_body() {
    let mut s = RadioSession::new(&RadioIoThread, true, &RadioSocketBase, &RadioOptions, &RadioAddress);
    let mut frame = RadioMsg::new(MsgKind::Data, vec![], vec![9], 0);
    // Nothing to send: EAGAIN, the frame untouched.
    assert_eq!(s.pull_msg(&mut frame), Err(RADIO_EAGAIN));
    assert_eq!(frame.data(), &[9u8][..]);

    s.queue(RadioMsg::new(MsgKind::Data, b"news".to_vec(), b"hello".to_vec(), 0));
    assert_eq!(s.pull_msg(&mut frame), Ok(()));
    assert_eq!(frame.data(), b"news");
    assert_eq!(frame.flags(), MSG_MORE);
    assert_eq!(s.pull_msg(&mut frame), Ok(()));
    assert_eq!(frame.data(), b"hello");
    assert_eq!(frame.group(), b"news");
    assert_eq!(s.pull_msg(&mut frame), Err(RADIO_EAGAIN));
    assert_eq!(frame.data(), b"hello");
}
