use zmq_core::rep::{Context, EFSM};
use zmq_core::req::{
    Msg, Options, IoThread, ReqSession, ReqSessionState, ReqT, SocketBase, Pipe, EFAULT,
    ZMQ_REQ_CORRELATE, ZMQ_REQ_RELAXED,
};

#[test]
fn req_alternates_request_and_reply() {
    let mut ctx = Context;
    let mut r = ReqT::new(&mut ctx, 0, 0);
    assert!(r.xhas_out());
    assert!(!r.xhas_in());
    let mut part = Msg::new(true, false, 3);
    assert_eq!(r.xsend(&mut part), Ok(()));
    let mut last = Msg::new(false, false, 3);
    assert_eq!(r.xsend(&mut last), Ok(()));
    assert!(!r.xhas_out());
    assert!(r.xhas_in());
    assert_eq!(r.xsend(&mut last), Err(EFSM));
    let mut reply = Msg::new(false, false, 5);
    assert_eq!(r.xrecv(&mut reply), Ok(()));
    assert!(r.xhas_out());
    assert_eq!(r.xrecv(&mut reply), Err(EFSM));
}

#[test]
fn relaxed_req_may_send_again() {
    let mut ctx = Context;
    let mut r = ReqT::new(&mut ctx, 0, 0);
    assert_eq!(r.xsetsockopt(ZMQ_REQ_RELAXED, Some(1)), Ok(()));
    let mut m = Msg::new(false, false, 1);
    assert_eq!(r.xsend(&mut m), Ok(()));
    assert!(r.xhas_out());
    assert_eq!(r.xsend(&mut m), Ok(()));
}

#[test]
fn req_options_need_non_negative_integers() {
    let mut ctx = Context;
    let mut r = ReqT::new(&mut ctx, 0, 0);
    assert_eq!(r.xsetsockopt(ZMQ_REQ_RELAXED, Some(-1)), Ok(()));
    let mut m = Msg::new(false, false, 1);
    r.xsend(&mut m).unwrap();
    assert!(!r.xhas_out());
    assert_eq!(r.xsetsockopt(ZMQ_REQ_CORRELATE, None), Ok(()));
    assert_eq!(r.xsetsockopt(99, Some(1)), Ok(()));
    r.xpipe_terminated(&Pipe { id: 1 });
}

#[test]
fn session_accepts_a_request_envelope() {
    let mut s = ReqSession::new(&mut IoThread, true, &mut SocketBase, &Options { type_: 3 }, "tcp://x");
    assert_eq!(s.push_msg(&Msg::new(true, false, 0)), Ok(()));
    assert_eq!(s.push_msg(&Msg::new(true, false, 10)), Ok(()));
    assert_eq!(s.push_msg(&Msg::new(false, false, 10)), Ok(()));
    assert_eq!(s.push_msg(&Msg::new(true, false, 4)), Ok(()));
    assert_eq!(s.push_msg(&Msg::new(true, false, 0)), Ok(()));
    assert_eq!(s.push_msg(&Msg::new(false, false, 1)), Ok(()));
}

#[test]
fn session_refuses_a_broken_envelope() {
    let mut s = ReqSession::new(&mut IoThread, true, &mut SocketBase, &Options { type_: 3 }, "tcp://x");
    assert_eq!(s.push_msg(&Msg::new(false, false, 0)), Err(EFAULT));
    assert_eq!(s.push_msg(&Msg::new(true, false, 7)), Err(EFAULT));
    assert_eq!(s.push_msg(&Msg::new(true, false, 4)), Ok(()));
    assert_eq!(s.push_msg(&Msg::new(true, false, 4)), Err(EFAULT));
    assert_eq!(s.push_msg(&Msg::new(false, true, 99)), Ok(()));
    s.reset();
    assert_eq!(s.push_msg(&Msg::new(true, false, 0)), Ok(()));
    let _ = ReqSessionState::Body;
}
