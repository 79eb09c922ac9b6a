use zmq_core::poll::{Poll, PollEvent, PollFd, POLLERR, POLLIN, POLLOUT};
use zmq_core::poller::{get_poller_type, PollerType};
use zmq_core::polling_util::{compute_timeout, FastVector, ResizableFastVector};
use zmq_core::secure_allocator::SecureAllocator;
use zmq_core::select::{PollEvents, Select, RETIRED_FD};

struct MockPollEvents;
impl PollEvents for MockPollEvents {
    fn in_event(&mut self) {}
    fn out_event(&mut self) {}
}

#[test]
fn test_select_creation() {
    let select = Select::<Box<dyn PollEvents>>::new();
    assert_eq!(select.max_fd(), RETIRED_FD);
}

#[test]
fn test_add_remove_fd() {
    let mut select = Select::<Box<dyn PollEvents>>::new();
    let events: Box<dyn PollEvents> = Box::new(MockPollEvents);
    let fd = 42;

    let handle = select.add_fd(fd, events);
    assert_eq!(handle, fd);

    select.rm_fd(handle);
}

#[test]
fn select_max_fd_follows_the_descriptors() {
    let mut s = Select::<u8>::new();
    s.add_fd(3, 0);
    s.add_fd(9, 1);
    s.add_fd(5, 2);
    assert_eq!(s.max_fd(), 9);
    s.rm_fd(9);
    assert_eq!(s.max_fd(), 5);
    s.rm_fd(3);
    s.rm_fd(5);
    assert_eq!(s.max_fd(), RETIRED_FD);
}

#[test]
fn test_secure_allocator() {
    let allocator = SecureAllocator::<u8>::new();
    if let Some(buf) = allocator.allocate(1) {
        assert!(buf.is_empty());
        allocator.deallocate(buf);
    }
}

#[test]
fn poll_dispatches_in_and_out() {
    let mut p = Poll::<u32>::new();
    assert_eq!(p.add_fd(4, 40), 4);
    assert_eq!(p.add_fd(7, 70), 7);
    p.set_pollin(4);
    p.set_pollout(7);
    assert_eq!(p.load(), 2);
    assert!(p.prepare());
    let set: Vec<PollFd> = p.pollset().to_vec();
    assert_eq!(set.len(), 2);
    assert_eq!((set[0].fd, set[0].events), (4, POLLIN));
    assert_eq!((set[1].fd, set[1].events), (7, POLLOUT));
    p.set_revents(&[POLLIN, POLLOUT]);
    assert_eq!(p.dispatch(), vec![(4, PollEvent::In), (7, PollEvent::Out)]);
    assert_eq!(p.handler(7), Some(&70));
    assert_eq!(p.handler(5), None);
}

#[test]
fn poll_error_goes_to_in_event() {
    let mut p = Poll::<u32>::new();
    p.add_fd(2, 0);
    assert!(p.prepare());
    p.set_revents(&[POLLERR]);
    assert_eq!(p.dispatch(), vec![(2, PollEvent::In)]);
}

#[test]
fn poll_removed_descriptor_is_retired() {
    let mut p = Poll::<u32>::new();
    p.add_fd(2, 0);
    p.add_fd(3, 0);
    p.set_pollin(3);
    p.rm_fd(2);
    assert_eq!(p.load(), 1);
    assert!(p.prepare());
    let set: Vec<PollFd> = p.pollset().to_vec();
    assert_eq!(set.len(), 1);
    assert_eq!(set[0].fd, 3);
    p.reset_pollin(3);
    assert_eq!(p.pollset()[0].events, 0);
    p.rm_fd(3);
    assert!(!p.prepare());
    assert_eq!(Poll::<u32>::max_fds(), -1);
}

#[test]
fn poller_type_is_poll() {
    assert_eq!(get_poller_type(), PollerType::POLL);
}

#[test]
fn polling_util_timeouts() {
    assert_eq!(compute_timeout(true, 100, 0, 100), 0);
    assert_eq!(compute_timeout(false, -1, 0, 100), -1);
    assert_eq!(compute_timeout(false, 100, 40, 100), 60);
    assert_eq!(compute_timeout(false, 100, 140, 100), 0);
    assert_eq!(compute_timeout(false, 1, 0, u64::MAX), i32::MAX);
}

#[test]
fn polling_util_fast_vectors() {
    let mut v = FastVector::<u32, 4>::new(3);
    *v.get_mut(1) += 4;
    assert_eq!(*v.get(1), 4);
    v.set(2, 9);
    assert_eq!(*v.get(2), 9);
    assert_eq!(*v.get(0), 0);
    let mut big = FastVector::<u32, 2>::new(5);
    *big.get_mut(4) = 8;
    assert_eq!(*big.get(4), 8);
    big.set(4, 1);
    assert_eq!(*big.get(4), 1);
    let mut r = ResizableFastVector::<u8, 2>::new();
    r.resize(6);
    assert_eq!(r.get_buf().len(), 6);
    r.get_buf()[5] = 3;
    assert_eq!(r.get_buf()[5], 3);
}

use zmq_core::poller_base::{PollerBase, TimerInfo};

#[test]
fn poller_base_timers_fire_in_order() {
    let mut p = PollerBase::new();
    p.add_timer_at(30, 1, 7);
    p.add_timer_at(10, 2, 8);
    p.add_timer_at(20, 1, 9);
    // a timer is still to come at 30: the expired ones are dropped unfired
    let (next, fired) = p.execute_timers_at(20);
    assert!(fired.is_empty());
    assert_eq!(next, 10);
    p.add_timer_at(40, 3, 1);
    // nothing is left after the sweep: the expired ones fire, earliest first
    let (next, fired) = p.execute_timers_at(100);
    assert_eq!(fired, vec![TimerInfo { sink: 1, id: 7 }, TimerInfo { sink: 3, id: 1 }]);
    assert_eq!(next, 0);
    let (next, fired) = p.execute_timers_at(100);
    assert!(fired.is_empty());
    assert_eq!(next, 0);
}

#[test]
fn poller_base_load() {
    let mut p = PollerBase::new();
    assert_eq!(p.get_load(), 0);
    p.adjust_load(3);
    p.adjust_load(-1);
    assert_eq!(p.get_load(), 2);
}

#[test]
fn poller_base_add_timer_is_due_timeout_from_now() {
    // A timer set for now fires at the next sweep.
    let mut p = PollerBase::new();
    p.add_timer(0, 5, 1);
    let (next, fired) = p.execute_timers();
    assert_eq!(fired, vec![TimerInfo { sink: 5, id: 1 }]);
    assert_eq!(next, 0);
    // One set an hour ahead does not, and is waited for at most an hour.
    let mut q = PollerBase::new();
    q.add_timer(3_600_000, 6, 2);
    let (next, fired) = q.execute_timers();
    assert!(fired.is_empty());
    assert!(next > 3_500_000 && next <= 3_600_000);
}
