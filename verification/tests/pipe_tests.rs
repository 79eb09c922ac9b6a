use zmq_core::pipe::{create_pipe_pair, Blob, Msg, MsgFlags, YPipe};

#[test]
fn msg_init_size_zero_fills() {
    let mut m = Msg::new();
    assert_eq!(m.init_size(3), 0);
    assert_eq!(m.flags(), 0);
    m.set_flags(MsgFlags::MORE.bit());
    assert_eq!(m.flags(), 1);
    m.close();
    assert_eq!(m.flags(), 1);
}

#[test]
fn msg_flag_queries() {
    let mut m = Msg::new();
    m.init_delimiter();
    assert!(m.is_delimiter());
    assert!(!m.is_routing_id());
    m.set_flags(MsgFlags::ROUTING_ID.bit() | MsgFlags::CREDENTIAL.bit());
    assert!(m.is_routing_id());
    assert!(m.is_credential());
    assert!(!m.is_delimiter());
    assert_eq!(MsgFlags::DELIMITER.bit(), 2);
    assert_eq!(MsgFlags::CREDENTIAL.bit(), 8);
}

#[test]
fn msg_init_buffer_takes_the_first_bytes() {
    let mut m = Msg::new();
    assert_eq!(m.init_buffer(b"abcdef", 3), 0);
}

#[test]
fn ypipe_is_first_in_first_out() {
    let mut p = YPipe::new(false);
    assert!(!p.check_read());
    let mut a = Msg::new();
    a.set_flags(1);
    let mut b = Msg::new();
    b.set_flags(2);
    p.write(a, true);
    p.write(b, false);
    assert!(p.flush());
    let mut out = Msg::new();
    assert!(p.read(&mut out));
    assert_eq!(out.flags(), 1);
    assert!(p.read(&mut out));
    assert_eq!(out.flags(), 2);
    assert!(!p.read(&mut out));
    assert_eq!(out.flags(), 2);
}

#[test]
fn conflating_ypipe_keeps_only_the_last_message() {
    let mut p = YPipe::new(true);
    let mut a = Msg::new();
    a.set_flags(4);
    let mut b = Msg::new();
    b.set_flags(8);
    p.write(a, false);
    p.write(b, false);
    let mut out = Msg::new();
    assert!(p.read(&mut out));
    assert_eq!(out.flags(), 8);
    assert!(!p.check_read());
}

#[test]
fn ypipe_probe_looks_at_the_oldest_message() {
    let mut p = YPipe::new(false);
    assert!(!p.probe(|_m: &Msg| true));
    let mut a = Msg::new();
    a.init_delimiter();
    p.write(a, false);
    assert!(p.probe(|m: &Msg| m.is_delimiter()));
}

#[test]
fn blob_deep_copy() {
    let src = Blob::from_bytes(b"routing-id");
    let mut dst = Blob::from_bytes(b"old");
    dst.set_deep_copy(&src);
    assert_eq!(dst.data(), b"routing-id");
    assert_eq!(src.data(), b"routing-id");
}

#[test]
fn pipe_pair_can_be_created() {
    let (mut a, mut b) = create_pipe_pair([false, false], [10, 20]);
    assert!(!a.check_read());
    assert!(!b.check_read());
}
