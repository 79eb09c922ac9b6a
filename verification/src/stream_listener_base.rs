use vstd::prelude::*;

verus! {

/// The options a listener reads.
#[derive(Debug, Clone, Copy, PartialEq, Eq, Structural)]
pub struct Options {
    pub raw_socket: bool,
    pub affinity: u64,
}

/// Why a listener could not answer.
#[derive(Debug, Clone, Copy, PartialEq, Eq, Structural)]
pub enum ListenerError {
    /// No socket is open.
    SocketNotInitialized,
}

/// What a listener asks of its I/O thread.
#[derive(Debug, Clone, Copy, PartialEq, Eq, Structural)]
pub enum ListenerAction {
    /// Watch this handle for incoming connections.
    SetPollin(i32),
    /// Stop watching this handle.
    RmFd(i32),
}

/// The engine a new connection gets.
#[derive(Debug, Clone, Copy, PartialEq, Eq, Structural)]
pub enum EngineKind {
    Raw,
    Zmtp,
}

/// Listens on a stream socket; the system calls are the caller's.
pub struct StreamListenerBase {
    pub socket: i32,
    pub handle: Option<i32>,
    pub endpoint: String,
    pub options: Options,
}

impl StreamListenerBase {
    pub fn new(options: Options) -> (l: Self)
        ensures
            l.socket == -1,
            l.handle is None,
            l.endpoint@ == Seq::<char>::empty(),
            l.options == options,
    {
        StreamListenerBase { socket: -1, handle: None, endpoint: String::new(), options }
    }

    /// The local address of the socket: the name the system gives it, which
    /// this listener does not look up (empty).
    pub fn get_local_address(&self) -> (r: Result<String, ListenerError>)
        ensures
            self.socket == -1 ==> r == Err::<String, ListenerError>(
                ListenerError::SocketNotInitialized,
            ),
            self.socket != -1 ==> r is Ok && r->Ok_0@ == Seq::<char>::empty(),
    {
        if self.socket == -1 {
            return Err(ListenerError::SocketNotInitialized);
        }
        Ok(String::new())
    }

    /// Plugged in: watches its handle for connections, where it has one.
    pub fn process_plug(&mut self) -> (r: Vec<ListenerAction>)
        ensures
            *final(self) == *old(self),
            r@ == match old(self).handle {
                Some(h) => seq![ListenerAction::SetPollin(h)],
                None => Seq::<ListenerAction>::empty(),
            },
    {
        let mut r = Vec::new();
        if let Some(h) = self.handle {
            r.push(ListenerAction::SetPollin(h));
        }
        r
    }

    /// Terminating: stops watching the handle and closes the socket.
    pub fn process_term(&mut self) -> (r: Vec<ListenerAction>)
        ensures
            final(self).handle is None,
            final(self).socket == -1,
            final(self).options == old(self).options,
            final(self).endpoint == old(self).endpoint,
            r@ == match old(self).handle {
                Some(h) => seq![ListenerAction::RmFd(h)],
                None => Seq::<ListenerAction>::empty(),
            },
    {
        let mut r = Vec::new();
        if let Some(h) = self.handle {
            r.push(ListenerAction::RmFd(h));
            self.handle = None;
        }
        self.close();
        r
    }

    /// Forgets the socket.
    pub fn close(&mut self)
        ensures
            final(self).socket == -1,
            final(self).handle == old(self).handle,
            final(self).options == old(self).options,
            final(self).endpoint == old(self).endpoint,
    {
        if self.socket != -1 {
            self.socket = -1;
        }
    }

    /// The engine a new connection on `fd` gets: a raw one for a raw
    /// socket, else a ZMTP one.
    pub fn create_engine(&mut self, _fd: i32) -> (k: EngineKind)
        ensures
            *final(self) == *old(self),
            k == if old(self).options.raw_socket {
                EngineKind::Raw
            } else {
                EngineKind::Zmtp
            },
    {
        if self.options.raw_socket {
            EngineKind::Raw
        } else {
            EngineKind::Zmtp
        }
    }
}

} // verus!
