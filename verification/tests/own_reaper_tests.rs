use zmq_core::own::{Context, IoThread, Options, Own, OwnAction};
use zmq_core::reaper::{Command, Context as ReaperContext, Mailbox, Poller, Reaper, EAGAIN, EINTR};

#[test]
fn own_root_without_children_terminates_at_once() {
    let mut ctx = Context;
    let mut o = Own::new_with_context(&mut ctx, 0, 1);
    assert!(!o.is_terminating());
    assert_eq!(o.terminate(), vec![OwnAction::Destroy]);
    assert!(o.is_terminating());
    assert_eq!(o.terminate(), vec![]);
}

#[test]
fn own_children_acknowledge_before_destroy() {
    let mut io = IoThread;
    let mut parent = Own::new_with_io_thread(&mut io, Options { linger: 250 }, 1);
    let mut child = Own::new_with_io_thread(&mut io, Options { linger: 0 }, 2);
    assert_eq!(
        parent.launch_child(&mut child),
        vec![OwnAction::ProcessPlug { object: 2 }, OwnAction::SendOwn { owner: 1, object: 2 }]
    );
    assert_eq!(child.owner, Some(1));
    assert_eq!(parent.process_own(2), vec![]);
    assert_eq!(parent.process_own(3), vec![]);
    let r = parent.terminate();
    assert_eq!(r.len(), 2);
    assert!(r.contains(&OwnAction::SendTerm { object: 2, linger: 250 }));
    assert!(r.contains(&OwnAction::SendTerm { object: 3, linger: 250 }));
    assert_eq!(parent.term_acks, 2);
    assert_eq!(parent.process_term_ack(), vec![]);
    assert_eq!(parent.process_term_ack(), vec![OwnAction::Destroy]);
}

#[test]
fn own_child_asks_owner_to_terminate_it() {
    let mut io = IoThread;
    let mut parent = Own::new_with_io_thread(&mut io, Options { linger: 5 }, 1);
    let mut child = Own::new_with_io_thread(&mut io, Options { linger: 0 }, 2);
    parent.launch_child(&mut child);
    parent.process_own(2);
    assert_eq!(child.terminate(), vec![OwnAction::SendTermReq { owner: 1, object: 2 }]);
    assert_eq!(parent.term_child(&child), vec![OwnAction::SendTerm { object: 2, linger: 5 }]);
    // A second request finds no such child.
    assert_eq!(parent.process_term_req(2), vec![]);
    assert_eq!(parent.term_acks, 1);
    // The child terminates: it acknowledges to its owner.
    assert_eq!(child.process_term(5), vec![OwnAction::SendTermAck { owner: 1 }, OwnAction::Destroy]);
}

#[test]
fn own_waits_for_commands_in_flight() {
    let mut ctx = Context;
    let mut o = Own::new_with_context(&mut ctx, 0, 9);
    o.inc_seqnum();
    assert_eq!(o.terminate(), vec![]);
    assert_eq!(o.process_seqnum(), vec![OwnAction::Destroy]);
}

#[test]
fn own_terminating_parent_terminates_new_child() {
    let mut ctx = Context;
    let mut o = Own::new_with_context(&mut ctx, 0, 1);
    o.register_term_acks(1);
    assert_eq!(o.terminate(), vec![]);
    assert_eq!(o.process_own(4), vec![OwnAction::SendTerm { object: 4, linger: 0 }]);
    assert_eq!(o.term_acks, 2);
    assert_eq!(o.unregister_term_ack(), vec![]);
    assert_eq!(o.unregister_term_ack(), vec![OwnAction::Destroy]);
}

fn reaper_with_poller() -> Reaper {
    Reaper {
        mailbox: Mailbox { fd: Some(3) },
        mailbox_handle: Some(3),
        poller: Some(Poller::new(ReaperContext)),
        sockets: 0,
        terminating: false,
    }
}

#[test]
fn reaper_new_without_mailbox() {
    let r = Reaper::new(&ReaperContext, 0);
    assert!(!r.get_mailbox().valid());
    assert!(r.poller.is_none());
    assert_eq!(r.sockets, 0);
}

#[test]
fn reaper_stops_when_no_socket_left() {
    let mut r = reaper_with_poller();
    r.start();
    assert!(r.stop());
    assert!(r.process_stop());
    assert!(r.terminating);
}

#[test]
fn reaper_waits_for_sockets() {
    let mut r = reaper_with_poller();
    r.process_reap();
    r.process_reap();
    assert!(!r.process_stop());
    assert!(!r.process_reaped());
    assert!(r.process_reaped());
    assert_eq!(r.sockets, 0);
}

#[test]
fn reaper_mailbox() {
    let m = Mailbox::new();
    assert!(!m.valid());
    assert_eq!(m.get_fd(), None);
    let m = Mailbox { fd: Some(8) };
    assert!(m.valid());
    assert_eq!(m.get_fd(), Some(8));
    let mut p = Poller::new(ReaperContext);
    assert_eq!(p.add_fd(8), 8);
}

#[test]
fn reaper_reads_its_mailbox_until_nothing_waits() {
    let mut r = Reaper::new(&ReaperContext, 0);
    let mut cmd = Command { destination: 3 };
    let received = r.get_mailbox().recv(&mut cmd, 0);
    assert_eq!(received, Ok(()));
    assert_eq!(cmd, Command { destination: 3 });
    assert!(r.in_event_step(received));
    assert!(r.in_event_step(Err(EINTR)));
    assert!(!r.in_event_step(Err(EAGAIN)));
}
