use zmq_core::pollset::{
    PollCtl, PollEntry, Pollset, PollsetError, EINTR, POLLIN, POLLOUT, PS_ADD, PS_DELETE, PS_MOD,
    RETIRED_FD,
};

#[test]
fn pollset_needs_a_descriptor() {
    assert!(matches!(Pollset::new(-1), Err(PollsetError::CreateFailed)));
    assert!(Pollset::new(3).is_ok());
    assert_eq!(Pollset::max_fds(), -1);
}

#[test]
fn pollset_add_and_remove_descriptors() {
    let mut ps = Pollset::new(3).unwrap();
    let (mut e, pc) = ps.add_fd(5, 77);
    assert_eq!(e, PollEntry { fd: 5, flag_pollin: false, flag_pollout: false, events: 77 });
    assert_eq!(pc, PollCtl { fd: 5, cmd: PS_ADD, events: 0 });
    assert_eq!(ps.set_pollin(&mut e), vec![PollCtl { fd: 5, cmd: PS_MOD, events: POLLIN }]);
    assert!(ps.set_pollin(&mut e).is_empty());
    e.flag_pollout = true;
    assert_eq!(
        ps.reset_pollin(&mut e),
        vec![PollCtl { fd: 5, cmd: PS_DELETE, events: 0 }, PollCtl { fd: 5, cmd: PS_MOD, events: POLLOUT }]
    );
    assert!(!e.flag_pollin);
    assert!(ps.reset_pollin(&mut e).is_empty());
    assert_eq!(ps.rm_fd(e), PollCtl { fd: 5, cmd: PS_DELETE, events: 0 });
    assert_eq!(RETIRED_FD, -1);
}

#[test]
fn pollset_loop_steps() {
    let mut ps = Pollset::new(3).unwrap();
    let (e, _) = ps.add_fd(2, 1);
    ps.add_fd(4, 2);
    ps.rm_fd(e);
    assert!(ps.should_poll());
    assert_eq!(ps.poll_timeout(), -1);
    assert!(ps.after_poll(Err(EINTR)));
    assert!(ps.after_poll(Ok(&[2, 4])));
    assert!(!ps.after_poll(Err(9)));
    ps.start();
    ps.stop();
    assert!(!ps.should_poll());
}
