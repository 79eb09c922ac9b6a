use vstd::prelude::*;

verus! {

/// The kinds of I/O multiplexer a poller can be built on.
#[allow(non_camel_case_types)]
#[derive(Debug, Clone, Copy, PartialEq, Eq, Structural)]
pub enum PollerType {
    KQUEUE,
    EPOLL,
    DEVPOLL,
    POLLSET,
    POLL,
    SELECT,
}

/// The multiplexer this library is built on: `poll`.
pub fn get_poller_type() -> (t: PollerType)
    ensures
        t == PollerType::POLL,
{
    PollerType::POLL
}

} // verus!
