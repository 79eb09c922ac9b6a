use crate::tipc_address::TipcAddress;
use vstd::prelude::*;

verus! {

/// The descriptor of no socket.
pub const RETIRED_FD: i32 = -1;
/// `ENETDOWN`.
pub const ENETDOWN: i32 = 100;
/// `ENETUNREACH`.
pub const ENETUNREACH: i32 = 101;
/// `ECONNRESET`.
pub const ECONNRESET: i32 = 104;
/// `ETIMEDOUT`.
pub const ETIMEDOUT: i32 = 110;
/// `ECONNREFUSED`.
pub const ECONNREFUSED: i32 = 111;
/// `EHOSTUNREACH`.
pub const EHOSTUNREACH: i32 = 113;

/// Why a connection could not be opened.
#[derive(Debug, Clone, Copy, PartialEq, Eq, Structural)]
pub enum OpenError {
    /// A socket is open already.
    AlreadyExists,
    /// The address is one the system would choose: nothing to connect to.
    InvalidInput,
}

/// Whether a pending connection failed in a way the connecter expects (and
/// retries), rather than one it does not.
pub open spec fn expected_connect_error(err: i32) -> bool {
    err == ECONNREFUSED || err == ECONNRESET || err == ETIMEDOUT || err == EHOSTUNREACH || err
        == ENETUNREACH || err == ENETDOWN
}

/// Connects to a TIPC address. The socket calls are the caller's; the
/// connecter holds the address and the socket, and decides.
pub struct TipcConnecter {
    pub address: TipcAddress,
    pub socket: i32,
    pub delayed_start: bool,
    pub handle: Option<i32>,
}

impl TipcConnecter {
    pub fn new(address: TipcAddress, delayed_start: bool) -> (c: Self)
        ensures
            c.address == address,
            c.socket == RETIRED_FD,
            c.delayed_start == delayed_start,
            c.handle is None,
    {
        TipcConnecter { address, socket: RETIRED_FD, delayed_start, handle: None }
    }

    /// Whether a socket may be opened: none is open yet, and the address is
    /// not one the system would choose.
    pub fn open_check(&self) -> (r: Result<(), OpenError>)
        ensures
            self.socket != RETIRED_FD ==> r == Err::<(), OpenError>(OpenError::AlreadyExists),
            self.socket == RETIRED_FD && self.address.random ==> r == Err::<(), OpenError>(
                OpenError::InvalidInput,
            ),
            self.socket == RETIRED_FD && !self.address.random ==> r is Ok,
    {
        if self.socket != RETIRED_FD {
            return Err(OpenError::AlreadyExists);
        }
        if self.address.is_random() {
            return Err(OpenError::InvalidInput);
        }
        Ok(())
    }

    /// The outcome of a pending connection whose socket reports `err`: the
    /// socket, handed over to the caller, where `err` is 0; else the error.
    /// An error the connecter does not expect is left out.
    pub fn connect_outcome(&mut self, err: i32) -> (r: Result<i32, i32>)
        requires
            err == 0 || expected_connect_error(err),
        ensures
            err == 0 ==> r == Ok::<i32, i32>(old(self).socket) && final(self).socket
                == RETIRED_FD,
            err != 0 ==> r == Err::<i32, i32>(err) && final(self).socket == old(self).socket,
            final(self).address == old(self).address,
            final(self).delayed_start == old(self).delayed_start,
            final(self).handle == old(self).handle,
    {
        if err != 0 {
            return Err(err);
        }
        let result = self.socket;
        self.socket = RETIRED_FD;
        Ok(result)
    }

    /// Forgets the socket; returns the descriptor the caller is to close,
    /// where there was one.
    pub fn close(&mut self) -> (to_close: Option<i32>)
        ensures
            to_close == (if old(self).socket != RETIRED_FD { Some(old(self).socket) } else { None }),
            final(self).socket == RETIRED_FD,
            final(self).address == old(self).address,
            final(self).delayed_start == old(self).delayed_start,
            final(self).handle == old(self).handle,
    {
        if self.socket != RETIRED_FD {
            let s = self.socket;
            self.socket = RETIRED_FD;
            Some(s)
        } else {
            None
        }
    }

    /// Stops watching the socket.
    pub fn remove_handle(&mut self)
        ensures
            final(self).handle is None,
            final(self).socket == old(self).socket,
            final(self).address == old(self).address,
            final(self).delayed_start == old(self).delayed_start,
    {
        self.handle = None;
    }
}

} // verus!
