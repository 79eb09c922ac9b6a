use vstd::prelude::*;

verus! {

/// Why an engine stopped.
#[derive(Debug, Clone, Copy, PartialEq, Eq)]
pub enum ErrorReason {
    ConnectionError,
    ProtocolError,
    TimeoutError,
}

/// Which readiness the poller reports.
#[derive(Debug, Clone, Copy, PartialEq, Eq)]
pub enum IoEventType {
    In,
    Out,
}

/// Turns messages into bytes on the wire.
pub trait Encoder {
    fn encode(&mut self, data: &[u8]) -> usize;
}

/// Turns bytes from the wire into messages; an error number where they do
/// not decode.
pub trait Decoder {
    fn decode(&mut self, data: &[u8]) -> Result<Vec<u8>, i32>;
}

/// A security handshake, as far as the engine asks about it.
pub trait Mechanism {
    fn status(&self) -> MechanismStatus;
}

/// How far a handshake has gone.
#[derive(Debug, Clone, Copy, PartialEq, Eq, Structural)]
pub enum MechanismStatus {
    Ready,
    Error,
    Handshaking,
}

/// The local and remote address of a connection.
pub struct EndpointUriPair {
    pub local: String,
    pub remote: String,
}

/// Properties of a connection, name and value.
pub struct Metadata {
    pub properties: Vec<(String, String)>,
}

/// The timer that bounds the handshake.
pub const HANDSHAKE_TIMER_ID: i32 = 0x40;
pub const HEARTBEAT_IVL_TIMER_ID: i32 = 0x80;
pub const HEARTBEAT_TIMEOUT_TIMER_ID: i32 = 0x81;
pub const HEARTBEAT_TTL_TIMER_ID: i32 = 0x82;

/// The timing options of an engine, in milliseconds.
#[derive(Debug, Clone, Copy, PartialEq, Eq, Structural)]
pub struct Options {
    pub heartbeat_interval: u64,
    pub handshake_ivl: u64,
}

/// What an engine asks of its session and its I/O thread.
#[derive(Debug, Clone, Copy, PartialEq, Eq)]
pub enum EngineAction {
    /// Tell the session the engine is ready.
    EngineReady,
    /// Tell the session the engine failed, whether after the handshake,
    /// and why.
    EngineError(bool, ErrorReason),
    CancelTimer(i32),
}

/// The part of an engine that runs a connection: its descriptor, whether it
/// is plugged into a session, where the handshake stands, the timers that
/// run, and the mechanism it secures the connection with, by its status.
pub struct StreamEngineBase {
    options: Options,
    endpoint_uri_pair: EndpointUriPair,
    peer_address: String,
    socket: i32,
    plugged: bool,
    handshaking: bool,
    io_error: bool,
    has_session: bool,
    has_handshake_stage: bool,
    has_handshake_timer: bool,
    mechanism: Option<MechanismStatus>,
    input_stopped: bool,
    output_stopped: bool,
}

/// The address of the peer on `fd`: none is looked up.
fn get_peer_address(_fd: i32) -> (s: String)
    ensures
        s@ == Seq::<char>::empty(),
{
    String::new()
}

impl StreamEngineBase {
    pub closed spec fn spec_plugged(&self) -> bool {
        self.plugged
    }

    pub closed spec fn spec_handshaking(&self) -> bool {
        self.handshaking
    }

    pub closed spec fn spec_io_error(&self) -> bool {
        self.io_error
    }

    pub closed spec fn spec_has_session(&self) -> bool {
        self.has_session
    }

    pub closed spec fn spec_has_handshake_stage(&self) -> bool {
        self.has_handshake_stage
    }

    pub closed spec fn spec_has_handshake_timer(&self) -> bool {
        self.has_handshake_timer
    }

    pub closed spec fn spec_mechanism(&self) -> Option<MechanismStatus> {
        self.mechanism
    }

    pub closed spec fn spec_socket(&self) -> i32 {
        self.socket
    }

    pub closed spec fn spec_peer_address(&self) -> Seq<char> {
        self.peer_address@
    }

    /// An engine on `fd`, not plugged, about to handshake, with no
    /// mechanism and no timer.
    pub fn new(fd: i32, options: Options, endpoint_uri_pair: EndpointUriPair, has_handshake_stage: bool) -> (e: Self)
        ensures
            e.spec_socket() == fd,
            !e.spec_plugged() && e.spec_handshaking() && !e.spec_io_error(),
            !e.spec_has_session() && !e.spec_has_handshake_timer(),
            e.spec_has_handshake_stage() == has_handshake_stage,
            e.spec_mechanism() is None,
            e.spec_peer_address() == Seq::<char>::empty(),
    {
        StreamEngineBase {
            options,
            endpoint_uri_pair,
            peer_address: get_peer_address(fd),
            socket: fd,
            plugged: false,
            handshaking: true,
            io_error: false,
            has_session: false,
            has_handshake_stage,
            has_handshake_timer: false,
            mechanism: None,
            input_stopped: false,
            output_stopped: false,
        }
    }

    /// Plugs the engine into a session.
    pub fn plug(&mut self)
        requires
            !old(self).spec_plugged(),
        ensures
            final(self).spec_plugged(),
            final(self).spec_has_session(),
            final(self).spec_handshaking() == old(self).spec_handshaking(),
            final(self).spec_io_error() == old(self).spec_io_error(),
            final(self).spec_has_handshake_stage() == old(self).spec_has_handshake_stage(),
            final(self).spec_has_handshake_timer() == old(self).spec_has_handshake_timer(),
            final(self).spec_mechanism() == old(self).spec_mechanism(),
            final(self).spec_socket() == old(self).spec_socket(),
    {
        self.plugged = true;
        self.has_session = true;
    }

    /// Unplugs the engine, stopping the handshake timer if it runs.
    pub fn terminate(&mut self) -> (actions: Vec<EngineAction>)
        requires
            old(self).spec_plugged(),
        ensures
            actions@ == (if old(self).spec_has_handshake_timer() {
                seq![EngineAction::CancelTimer(HANDSHAKE_TIMER_ID)]
            } else {
                Seq::<EngineAction>::empty()
            }),
            !final(self).spec_plugged(),
            !final(self).spec_has_handshake_timer(),
            final(self).spec_has_session() == old(self).spec_has_session(),
            final(self).spec_handshaking() == old(self).spec_handshaking(),
            final(self).spec_io_error() == old(self).spec_io_error(),
            final(self).spec_has_handshake_stage() == old(self).spec_has_handshake_stage(),
            final(self).spec_mechanism() == old(self).spec_mechanism(),
            final(self).spec_socket() == old(self).spec_socket(),
    {
        self.unplug()
    }

    fn unplug(&mut self) -> (actions: Vec<EngineAction>)
        requires
            old(self).spec_plugged(),
        ensures
            actions@ == (if old(self).spec_has_handshake_timer() {
                seq![EngineAction::CancelTimer(HANDSHAKE_TIMER_ID)]
            } else {
                Seq::<EngineAction>::empty()
            }),
            !final(self).spec_plugged(),
            !final(self).spec_has_handshake_timer(),
            final(self).spec_has_session() == old(self).spec_has_session(),
            final(self).spec_handshaking() == old(self).spec_handshaking(),
            final(self).spec_io_error() == old(self).spec_io_error(),
            final(self).spec_has_handshake_stage() == old(self).spec_has_handshake_stage(),
            final(self).spec_mechanism() == old(self).spec_mechanism(),
            final(self).spec_socket() == old(self).spec_socket(),
    {
        self.plugged = false;
        let mut actions: Vec<EngineAction> = Vec::new();
        if self.has_handshake_timer {
            actions.push(EngineAction::CancelTimer(HANDSHAKE_TIMER_ID));
            self.has_handshake_timer = false;
        }
        proof {
            if old(self).spec_has_handshake_timer() {
                assert(actions@ =~= seq![EngineAction::CancelTimer(HANDSHAKE_TIMER_ID)]);
            } else {
                assert(actions@ =~= Seq::<EngineAction>::empty());
            }
        }
        actions
    }

    /// Runs the handshake; there is nothing to exchange, so it is done.
    fn handshake(&mut self) -> (done: bool)
        ensures
            done,
            *final(self) == *old(self),
    {
        true
    }

    /// Data arrived. While handshaking, the handshake completes; an engine
    /// with a handshake stage and no mechanism then tells its session it is
    /// ready and stops the handshake timer. Returns whether the engine goes
    /// on.
    pub fn in_event(&mut self) -> (r: (bool, Vec<EngineAction>))
        requires
            !old(self).spec_io_error(),
        ensures
            r.0,
            r.1@ == (if old(self).spec_handshaking() && old(self).spec_mechanism() is None
                && old(self).spec_has_handshake_stage() {
                (if old(self).spec_has_session() {
                    seq![EngineAction::EngineReady]
                } else {
                    Seq::<EngineAction>::empty()
                }) + (if old(self).spec_has_handshake_timer() {
                    seq![EngineAction::CancelTimer(HANDSHAKE_TIMER_ID)]
                } else {
                    Seq::<EngineAction>::empty()
                })
            } else {
                Seq::<EngineAction>::empty()
            }),
            !final(self).spec_handshaking(),
            final(self).spec_has_handshake_timer() == (old(self).spec_has_handshake_timer() && !(
            old(self).spec_handshaking() && old(self).spec_mechanism() is None
                && old(self).spec_has_handshake_stage())),
            final(self).spec_plugged() == old(self).spec_plugged(),
            final(self).spec_has_session() == old(self).spec_has_session(),
            final(self).spec_io_error() == old(self).spec_io_error(),
            final(self).spec_has_handshake_stage() == old(self).spec_has_handshake_stage(),
            final(self).spec_mechanism() == old(self).spec_mechanism(),
            final(self).spec_socket() == old(self).spec_socket(),
    {
        self.in_event_internal()
    }

    fn in_event_internal(&mut self) -> (r: (bool, Vec<EngineAction>))
        requires
            !old(self).spec_io_error(),
        ensures
            r.0,
            r.1@ == (if old(self).spec_handshaking() && old(self).spec_mechanism() is None
                && old(self).spec_has_handshake_stage() {
                (if old(self).spec_has_session() {
                    seq![EngineAction::EngineReady]
                } else {
                    Seq::<EngineAction>::empty()
                }) + (if old(self).spec_has_handshake_timer() {
                    seq![EngineAction::CancelTimer(HANDSHAKE_TIMER_ID)]
                } else {
                    Seq::<EngineAction>::empty()
                })
            } else {
                Seq::<EngineAction>::empty()
            }),
            !final(self).spec_handshaking(),
            final(self).spec_has_handshake_timer() == (old(self).spec_has_handshake_timer() && !(
            old(self).spec_handshaking() && old(self).spec_mechanism() is None
                && old(self).spec_has_handshake_stage())),
            final(self).spec_plugged() == old(self).spec_plugged(),
            final(self).spec_has_session() == old(self).spec_has_session(),
            final(self).spec_io_error() == old(self).spec_io_error(),
            final(self).spec_has_handshake_stage() == old(self).spec_has_handshake_stage(),
            final(self).spec_mechanism() == old(self).spec_mechanism(),
            final(self).spec_socket() == old(self).spec_socket(),
    {
        let mut actions: Vec<EngineAction> = Vec::new();
        if self.handshaking {
            if self.handshake() {
                self.handshaking = false;
                if self.mechanism.is_none() && self.has_handshake_stage {
                    if self.has_session {
                        actions.push(EngineAction::EngineReady);
                    }
                    if self.has_handshake_timer {
                        actions.push(EngineAction::CancelTimer(HANDSHAKE_TIMER_ID));
                        self.has_handshake_timer = false;
                    }
                }
            } else {
                return (false, actions);
            }
        }
        proof {
            let ready = if old(self).spec_has_session() {
                seq![EngineAction::EngineReady]
            } else {
                Seq::<EngineAction>::empty()
            };
            let cancel = if old(self).spec_has_handshake_timer() {
                seq![EngineAction::CancelTimer(HANDSHAKE_TIMER_ID)]
            } else {
                Seq::<EngineAction>::empty()
            };
            if old(self).spec_handshaking() && old(self).spec_mechanism() is None
                && old(self).spec_has_handshake_stage() {
                assert(actions@ =~= ready + cancel);
            } else {
                assert(actions@ =~= Seq::<EngineAction>::empty());
            }
        }
        (true, actions)
    }

    /// The connection failed for `reason`: tells the session, whether the
    /// handshake was done, and unplugs.
    pub fn error(&mut self, reason: ErrorReason) -> (actions: Vec<EngineAction>)
        requires
            old(self).spec_plugged(),
        ensures
            actions@ == (if old(self).spec_has_session() {
                seq![EngineAction::EngineError(!old(self).spec_handshaking(), reason)]
            } else {
                Seq::<EngineAction>::empty()
            }) + (if old(self).spec_has_handshake_timer() {
                seq![EngineAction::CancelTimer(HANDSHAKE_TIMER_ID)]
            } else {
                Seq::<EngineAction>::empty()
            }),
            !final(self).spec_plugged(),
            !final(self).spec_has_handshake_timer(),
            final(self).spec_has_session() == old(self).spec_has_session(),
            final(self).spec_handshaking() == old(self).spec_handshaking(),
    {
        let mut actions: Vec<EngineAction> = Vec::new();
        if self.has_session {
            actions.push(EngineAction::EngineError(!self.handshaking, reason));
        }
        let ghost first = actions@;
        let mut rest = self.unplug();
        let ghost second = rest@;
        actions.append(&mut rest);
        assert(actions@ =~= first + second);
        actions
    }

    /// Readiness from the poller: input runs `in_event`; output has nothing
    /// to write.
    pub fn handle_io_event(&mut self, event_type: IoEventType) -> (actions: Vec<EngineAction>)
        requires
            event_type == IoEventType::In ==> !old(self).spec_io_error(),
        ensures
            event_type == IoEventType::Out ==> actions@ == Seq::<EngineAction>::empty() && *final(self)
                == *old(self),
            event_type == IoEventType::In ==> !final(self).spec_handshaking(),
    {
        match event_type {
            IoEventType::In => {
                let (_, actions) = self.in_event();
                actions
            },
            IoEventType::Out => Vec::new(),
        }
    }
}

} // verus!
