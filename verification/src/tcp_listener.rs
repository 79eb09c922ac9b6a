use crate::tcp_address::TcpAddressMask;
use vstd::prelude::*;

verus! {

/// What a TCP listener is configured with: a descriptor to listen on that
/// was handed over (-1 for none), the type of service and the priority to
/// give accepted connections (0 leaves them as they are), and the networks
/// a peer must come from (none means any).
pub struct ListenerOptions {
    pub use_fd: i32,
    pub tos: u32,
    pub priority: i32,
    pub tcp_accept_filters: Vec<TcpAddressMask>,
}

/// Where the listening socket comes from.
#[derive(PartialEq, Eq, Debug, Clone, Copy, Structural)]
pub enum ListenSource {
    /// The descriptor the options hand over.
    ExistingFd(i32),
    /// A new socket, bound to the address.
    Bind,
}

/// What to set on a connection just accepted: the type of service and the
/// priority, where the options ask for them.
#[derive(PartialEq, Eq, Debug, Clone, Copy, Structural)]
pub struct AcceptSetup {
    pub tos: Option<u32>,
    pub priority: Option<i32>,
}

/// Why an accepted connection is not handed on.
#[derive(PartialEq, Eq, Debug, Clone, Copy, Structural)]
pub enum ListenerError {
    /// The peer lies in none of the accepted networks.
    Filtered,
}

/// A TCP listener: its options and the endpoint it listens on, as the
/// system names it.
pub struct TcpListenerZmq {
    options: ListenerOptions,
    endpoint: String,
}

impl TcpListenerZmq {
    pub closed spec fn spec_use_fd(&self) -> i32 {
        self.options.use_fd
    }

    pub closed spec fn spec_tos(&self) -> u32 {
        self.options.tos
    }

    pub closed spec fn spec_priority(&self) -> i32 {
        self.options.priority
    }

    pub closed spec fn filter_count(&self) -> nat {
        self.options.tcp_accept_filters@.len()
    }

    pub closed spec fn spec_endpoint(&self) -> Seq<char> {
        self.endpoint@
    }

    /// A listener with these options, not listening yet.
    pub fn new(options: ListenerOptions) -> (l: Self)
        ensures
            l.spec_use_fd() == options.use_fd,
            l.spec_tos() == options.tos,
            l.spec_priority() == options.priority,
            l.filter_count() == options.tcp_accept_filters@.len(),
            l.spec_endpoint() == Seq::<char>::empty(),
    {
        TcpListenerZmq { options, endpoint: String::new() }
    }

    /// Listens on the descriptor the options hand over, if any; else on a
    /// new socket bound to the address.
    pub fn listen_source(&self) -> (r: ListenSource)
        ensures
            r == (if self.spec_use_fd() != -1 {
                ListenSource::ExistingFd(self.spec_use_fd())
            } else {
                ListenSource::Bind
            }),
    {
        if self.options.use_fd != -1 {
            ListenSource::ExistingFd(self.options.use_fd)
        } else {
            ListenSource::Bind
        }
    }

    /// Records the name of the address the listener ended up on.
    pub fn set_endpoint(&mut self, name: String)
        ensures
            final(self).spec_endpoint() == name@,
            final(self).spec_use_fd() == old(self).spec_use_fd(),
            final(self).spec_tos() == old(self).spec_tos(),
            final(self).spec_priority() == old(self).spec_priority(),
            final(self).filter_count() == old(self).filter_count(),
    {
        self.endpoint = name;
    }

    /// The endpoint the listener listens on; empty before it listens.
    pub fn get_endpoint(&self) -> (s: &str)
        ensures
            s@ == self.spec_endpoint(),
    {
        self.endpoint.as_str()
    }

    /// What to set on each accepted connection.
    pub fn accept_setup(&self) -> (r: AcceptSetup)
        ensures
            r.tos == (if self.spec_tos() != 0 { Some(self.spec_tos()) } else { None::<u32> }),
            r.priority == (if self.spec_priority() != 0 {
                Some(self.spec_priority())
            } else {
                None::<i32>
            }),
    {
        let tos = if self.options.tos != 0 { Some(self.options.tos) } else { None };
        let priority = if self.options.priority != 0 { Some(self.options.priority) } else { None };
        AcceptSetup { tos, priority }
    }

    /// The connection `fd` from the peer at `peer` (its raw address) is
    /// handed on when no network is configured, or when one of them holds
    /// the peer; as every network holds every address, it always is.
    pub fn accept_outcome(&self, fd: i32, peer: &[u8]) -> (r: Result<i32, ListenerError>)
        ensures
            r == Ok::<i32, ListenerError>(fd),
    {
        let n = self.options.tcp_accept_filters.len();
        if n == 0 {
            return Ok(fd);
        }
        // Every network holds every address, so the first one takes the peer
        // and the search never goes past it.
        let mut i: usize = 0;
        while i < n
            invariant
                i == 0,
                n == self.options.tcp_accept_filters@.len(),
                n > 0,
            decreases n - i,
        {
            if self.options.tcp_accept_filters[i].match_address(peer) {
                return Ok(fd);
            }
            i = i + 1;
        }
        Err(ListenerError::Filtered)
    }
}

} // verus!
