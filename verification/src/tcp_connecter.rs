use vstd::prelude::*;

verus! {

/// The id of the connect timer.
pub const CONNECT_TIMER_ID: i32 = 2;
/// `reconnect_stop` bit: stop reconnecting once the peer refuses.
pub const ZMQ_RECONNECT_STOP_CONN_REFUSED: i32 = 1;

/// The options a TCP connecter reads: how long a connection attempt may
/// take (0: no limit), and when to stop reconnecting.
#[derive(Debug, Clone, Copy, PartialEq, Eq, Structural)]
pub struct Options {
    pub connect_timeout: i64,
    pub reconnect_stop: i32,
}

/// How a connection attempt ended.
#[derive(Debug, Clone, Copy, PartialEq, Eq, Structural)]
pub enum ConnectResult {
    /// Connected; whether the socket took its options.
    Connected { tuned: bool },
    /// The peer refused the connection.
    Refused,
    /// Any other failure.
    Failed,
}

/// How starting a connection went.
#[derive(Debug, Clone, Copy, PartialEq, Eq, Structural)]
pub enum OpenResult {
    /// Connected at once.
    Connected,
    /// Under way; the socket reports when it is done.
    InProgress,
    /// Failed.
    Failed,
}

/// What a TCP connecter asks of its I/O thread, session and socket.
#[derive(Debug, Clone, Copy, PartialEq, Eq, Structural)]
pub enum TcpConnecterAction {
    StartConnecting,
    /// Set the timer `CONNECT_TIMER_ID` for this many milliseconds.
    AddConnectTimer(i64),
    CancelConnectTimer,
    /// Stop watching the socket.
    RmHandle,
    /// Watch the socket.
    AddHandle,
    /// Watch the socket for writability.
    SetPollout,
    /// Report that the connection is under way.
    ConnectDelayed,
    /// Handle the socket becoming writable now.
    OutEvent,
    /// Close the socket.
    Close,
    /// Try again after the reconnection delay.
    AddReconnectTimer,
    /// Hand the connection to a new engine.
    CreateEngine,
    /// Report that connecting failed for good.
    SendConnFailed,
    /// Terminate the connecter.
    Terminate,
    /// Go on with the termination every connecter does.
    TerminateBase(i32),
}

/// Connects over TCP; the system calls are the caller's.
pub struct TcpConnecter {
    pub options: Options,
    pub connect_timer_started: bool,
    pub fd: i32,
}

impl TcpConnecter {
    /// A connecter, and what it does first: connect at once unless the start
    /// is delayed.
    pub fn new(options: Options, delayed_start: bool) -> (r: (Self, Vec<TcpConnecterAction>))
        ensures
            r.0.options == options,
            !r.0.connect_timer_started,
            r.0.fd == -1,
            r.1@ == if delayed_start {
                Seq::<TcpConnecterAction>::empty()
            } else {
                seq![TcpConnecterAction::StartConnecting]
            },
    {
        let c = TcpConnecter { options, connect_timer_started: false, fd: -1 };
        let mut a = Vec::new();
        if !delayed_start {
            a.push(TcpConnecterAction::StartConnecting);
        }
        (c, a)
    }

    fn stop_connect_timer(&mut self, a: &mut Vec<TcpConnecterAction>)
        ensures
            !final(self).connect_timer_started,
            final(self).options == old(self).options,
            final(self).fd == old(self).fd,
            final(a)@ == old(a)@ + (if old(self).connect_timer_started {
                seq![TcpConnecterAction::CancelConnectTimer]
            } else {
                Seq::<TcpConnecterAction>::empty()
            }),
    {
        if self.connect_timer_started {
            a.push(TcpConnecterAction::CancelConnectTimer);
            self.connect_timer_started = false;
        }
        assert(a@ =~= old(a)@ + (if old(self).connect_timer_started {
            seq![TcpConnecterAction::CancelConnectTimer]
        } else {
            Seq::<TcpConnecterAction>::empty()
        }));
    }

    /// Terminates: the connect timer is cancelled first.
    pub fn process_term(&mut self, linger: i32) -> (r: Vec<TcpConnecterAction>)
        ensures
            !final(self).connect_timer_started,
            final(self).options == old(self).options,
            r@ == (if old(self).connect_timer_started {
                seq![TcpConnecterAction::CancelConnectTimer]
            } else {
                Seq::<TcpConnecterAction>::empty()
            }).push(TcpConnecterAction::TerminateBase(linger)),
    {
        let mut a = Vec::new();
        self.stop_connect_timer(&mut a);
        a.push(TcpConnecterAction::TerminateBase(linger));
        a
    }

    /// The socket became writable: the attempt has ended as `result` says.
    /// A connection whose socket took its options goes to an engine; a
    /// refusal ends the connecter where the options say to stop then; any
    /// other failure retries later.
    pub fn out_event(&mut self, result: ConnectResult) -> (r: Vec<TcpConnecterAction>)
        ensures
            !final(self).connect_timer_started,
            final(self).options == old(self).options,
            ({
                let cancel = if old(self).connect_timer_started {
                    seq![TcpConnecterAction::CancelConnectTimer]
                } else {
                    Seq::<TcpConnecterAction>::empty()
                };
                let rest = match result {
                    ConnectResult::Connected { tuned } => if tuned {
                        seq![TcpConnecterAction::CreateEngine]
                    } else {
                        seq![TcpConnecterAction::Close, TcpConnecterAction::AddReconnectTimer]
                    },
                    ConnectResult::Refused => if old(self).options.reconnect_stop
                        & ZMQ_RECONNECT_STOP_CONN_REFUSED != 0 {
                        seq![
                            TcpConnecterAction::SendConnFailed,
                            TcpConnecterAction::Close,
                            TcpConnecterAction::Terminate,
                        ]
                    } else {
                        seq![TcpConnecterAction::Close, TcpConnecterAction::AddReconnectTimer]
                    },
                    ConnectResult::Failed => seq![
                        TcpConnecterAction::Close,
                        TcpConnecterAction::AddReconnectTimer,
                    ],
                };
                r@ == cancel + seq![TcpConnecterAction::RmHandle] + rest
            }),
    {
        let mut a = Vec::new();
        self.stop_connect_timer(&mut a);
        a.push(TcpConnecterAction::RmHandle);
        match result {
            ConnectResult::Connected { tuned } => {
                if tuned {
                    a.push(TcpConnecterAction::CreateEngine);
                } else {
                    a.push(TcpConnecterAction::Close);
                    a.push(TcpConnecterAction::AddReconnectTimer);
                }
            },
            ConnectResult::Refused => {
                if self.options.reconnect_stop & ZMQ_RECONNECT_STOP_CONN_REFUSED != 0 {
                    a.push(TcpConnecterAction::SendConnFailed);
                    a.push(TcpConnecterAction::Close);
                    a.push(TcpConnecterAction::Terminate);
                } else {
                    a.push(TcpConnecterAction::Close);
                    a.push(TcpConnecterAction::AddReconnectTimer);
                }
            },
            ConnectResult::Failed => {
                a.push(TcpConnecterAction::Close);
                a.push(TcpConnecterAction::AddReconnectTimer);
            },
        }
        a
    }

    /// Connecting was started and went as `result` says.
    pub fn start_connecting(&mut self, result: OpenResult) -> (r: Vec<TcpConnecterAction>)
        ensures
            final(self).options == old(self).options,
            result == OpenResult::Connected ==> r@ == seq![
                TcpConnecterAction::AddHandle,
                TcpConnecterAction::OutEvent,
            ] && final(self).connect_timer_started == old(self).connect_timer_started,
            result == OpenResult::InProgress ==> r@ == seq![
                TcpConnecterAction::AddHandle,
                TcpConnecterAction::SetPollout,
                TcpConnecterAction::ConnectDelayed,
            ] + (if old(self).options.connect_timeout > 0 {
                seq![TcpConnecterAction::AddConnectTimer(old(self).options.connect_timeout)]
            } else {
                Seq::<TcpConnecterAction>::empty()
            }) && final(self).connect_timer_started == (old(self).connect_timer_started
                || old(self).options.connect_timeout > 0),
            result == OpenResult::Failed ==> r@ == seq![
                TcpConnecterAction::Close,
                TcpConnecterAction::AddReconnectTimer,
            ] && final(self).connect_timer_started == old(self).connect_timer_started,
    {
        let mut a = Vec::new();
        match result {
            OpenResult::Connected => {
                a.push(TcpConnecterAction::AddHandle);
                a.push(TcpConnecterAction::OutEvent);
            },
            OpenResult::InProgress => {
                a.push(TcpConnecterAction::AddHandle);
                a.push(TcpConnecterAction::SetPollout);
                a.push(TcpConnecterAction::ConnectDelayed);
                self.add_connect_timer(&mut a);
            },
            OpenResult::Failed => {
                a.push(TcpConnecterAction::Close);
                a.push(TcpConnecterAction::AddReconnectTimer);
            },
        }
        a
    }

    fn add_connect_timer(&mut self, a: &mut Vec<TcpConnecterAction>)
        ensures
            final(self).options == old(self).options,
            final(self).connect_timer_started == (old(self).connect_timer_started
                || old(self).options.connect_timeout > 0),
            final(a)@ == old(a)@ + (if old(self).options.connect_timeout > 0 {
                seq![TcpConnecterAction::AddConnectTimer(old(self).options.connect_timeout)]
            } else {
                Seq::<TcpConnecterAction>::empty()
            }),
    {
        if self.options.connect_timeout > 0 {
            a.push(TcpConnecterAction::AddConnectTimer(self.options.connect_timeout));
            self.connect_timer_started = true;
        }
        assert(a@ =~= old(a)@ + (if old(self).options.connect_timeout > 0 {
            seq![TcpConnecterAction::AddConnectTimer(old(self).options.connect_timeout)]
        } else {
            Seq::<TcpConnecterAction>::empty()
        }));
    }
}

} // verus!
