use zmq_core::pair::{Context, Message, Pair, Pipe, EAGAIN};
use zmq_core::rep::{self, Rep, EFSM};

#[test]
fn pair_without_pipe_cannot_send() {
    let ctx = Context;
    let mut p = Pair::new(&ctx, 1, 2);
    assert!(!p.has_in());
    assert!(!p.has_out());
    let mut m = Message::new(0);
    assert_eq!(p.send(&mut m), Err(EAGAIN));
}

#[test]
fn pair_takes_its_first_pipe() {
    let ctx = Context;
    let mut p = Pair::new(&ctx, 1, 2);
    p.attach_pipe(Pipe { id: 1 }, false, false);
    p.read_activated(&Pipe { id: 1 });
    p.write_activated(&Pipe { id: 1 });
    p.pipe_terminated(&Pipe { id: 2 });
    p.pipe_terminated(&Pipe { id: 1 });
    let mut m = Message::new(1);
    assert_eq!(p.send(&mut m), Err(EAGAIN));
    assert!(m.has_more());
}

#[test]
fn message_more_flag() {
    assert!(Message::new(1).has_more());
    assert!(!Message::new(2).has_more());
}

#[test]
fn rep_refuses_to_send_before_a_request() {
    let ctx = rep::Context;
    let mut r = Rep::new(&ctx, 0, 0);
    let mut m = rep::Msg::new();
    assert_eq!(r.xsend(&mut m), Err(EFSM));
    assert!(!r.xhas_in());
    assert!(!r.xhas_out());
}

#[test]
fn rep_receives_a_request_then_replies() {
    let ctx = rep::Context;
    let mut r = Rep::new(&ctx, 0, 0);
    let mut bottom = rep::Msg::from_parts(rep::MSG_MORE, Vec::new());
    assert_eq!(r.xrecv(&mut bottom), Ok(()));
    let mut body = rep::Msg::from_parts(0, b"hello".to_vec());
    assert_eq!(r.xrecv(&mut body), Ok(()));
    assert_eq!(body.size(), 5);
    assert_eq!(r.xrecv(&mut body), Err(EFSM));
    let mut reply = rep::Msg::from_parts(0, b"world".to_vec());
    assert_eq!(r.xsend(&mut reply), Ok(()));
    assert_eq!(r.xsend(&mut reply), Err(EFSM));
}
