use crate::tipc_address::{address_text, resolved, AddressError, TipcAddress};
use vstd::prelude::*;

verus! {

/// `EINTR`.
pub const EINTR: i32 = 4;
/// `EAGAIN`, the same number as `EWOULDBLOCK`.
pub const EAGAIN: i32 = 11;
/// `ENFILE`.
pub const ENFILE: i32 = 23;
/// `EMFILE`.
pub const EMFILE: i32 = 24;
/// `ECONNABORTED`.
pub const ECONNABORTED: i32 = 103;
/// `ENOBUFS`.
pub const ENOBUFS: i32 = 105;

/// The options a listener is made with: the length of its queue of pending
/// connections.
#[derive(Debug, Clone, Copy, PartialEq, Eq, Structural)]
pub struct Options {
    pub backlog: i32,
}

/// Whether a failed `accept` is one to try again later rather than an
/// error.
pub open spec fn accept_retryable(errno: i32) -> bool {
    errno == EAGAIN || errno == ENOBUFS || errno == EINTR || errno == ECONNABORTED || errno
        == EMFILE || errno == ENFILE
}

/// A listener on a TIPC address. The socket calls are the caller's; the
/// listener holds the address, the descriptor and the endpoint text.
pub struct TipcListener {
    pub options: Options,
    pub address: TipcAddress,
    pub fd: i32,
    pub endpoint: String,
}

impl TipcListener {
    pub fn new(options: Options) -> (l: Self)
        ensures
            l.options == options,
            !l.address.random,
            l.fd == -1,
            l.endpoint@ == Seq::<char>::empty(),
    {
        TipcListener { options, address: TipcAddress::new(), fd: -1, endpoint: String::new() }
    }

    /// Reads the address to listen on and writes its endpoint text; on an
    /// error nothing changes.
    pub fn set_local_address(&mut self, addr: &str) -> (r: Result<(), AddressError>)
        ensures
            final(self).options == old(self).options,
            final(self).fd == old(self).fd,
            match resolved(old(self).address, addr@) {
                Some(a) => r is Ok && final(self).address == a && final(self).endpoint@ == (
                    match address_text(a) {
                        Some(t) => t,
                        None => Seq::<char>::empty(),
                    }),
                None => r == Err::<(), AddressError>(AddressError::InvalidInput)
                    && final(self).address == old(self).address
                    && final(self).endpoint@ == old(self).endpoint@,
            },
    {
        self.address.resolve(addr)?;
        self.endpoint = match self.address.to_string() {
            Ok(s) => s,
            Err(_) => String::new(),
        };
        Ok(())
    }

    /// What an `accept` that returned `sock`, with `errno` set where it
    /// failed, comes to: the new descriptor; -1 where the failure is one to
    /// try again later; else the error.
    pub fn accept_outcome(sock: i32, errno: i32) -> (r: Result<i32, i32>)
        ensures
            sock >= 0 ==> r == Ok::<i32, i32>(sock),
            sock < 0 && accept_retryable(errno) ==> r == Ok::<i32, i32>(-1i32),
            sock < 0 && !accept_retryable(errno) ==> r == Err::<i32, i32>(errno),
    {
        if sock >= 0 {
            Ok(sock)
        } else if errno == EAGAIN || errno == ENOBUFS || errno == EINTR || errno == ECONNABORTED
            || errno == EMFILE || errno == ENFILE {
            Ok(-1)
        } else {
            Err(errno)
        }
    }
}

} // verus!
