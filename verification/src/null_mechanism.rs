use crate::mechanism::{
    command_with_basic_properties, has_prefix, is_valid_status_code, make_command_with_basic_properties,
    parse_metadata, parse_properties, starts_with, valid_status_code, lemma_parse_shift, Msg, ZapRequest, ZapSession, EAGAIN, ECONNREFUSED, EFSM,
    EPROTO,
};
use crate::mechanism::{compatible, law_basic_properties_accepted};
use crate::options::Options;
use vstd::prelude::*;

verus! {

/// The bytes of the ERROR command name, its length first.
pub open spec fn error_command_name() -> Seq<u8> {
    seq![5u8, 69u8, 82u8, 82u8, 79u8, 82u8]
}

/// The bytes of the READY command name, its length first.
pub open spec fn ready_command_name() -> Seq<u8> {
    seq![5u8, 82u8, 69u8, 65u8, 68u8, 89u8]
}

/// "NULL".
pub open spec fn null_mechanism_name() -> Seq<u8> {
    seq![78u8, 85u8, 76u8, 76u8]
}

/// The status code of a ZAP reply that lets the peer in: "200".
pub open spec fn status_ok() -> Seq<u8> {
    seq![50u8, 48u8, 48u8]
}

/// The status code of a temporary ZAP failure: "300".
pub open spec fn status_temporary() -> Seq<u8> {
    seq![51u8, 48u8, 48u8]
}

pub const ERROR_REASON_LEN_SIZE: usize = 1;

fn error_command_name_bytes() -> (v: Vec<u8>)
    ensures
        v@ == error_command_name(),
{
    let v: Vec<u8> = vec![5u8, 69u8, 82u8, 82u8, 79u8, 82u8];
    assert(v@ =~= error_command_name());
    v
}

fn ready_command_name_bytes() -> (v: Vec<u8>)
    ensures
        v@ == ready_command_name(),
{
    let v: Vec<u8> = vec![5u8, 82u8, 69u8, 65u8, 68u8, 89u8];
    assert(v@ =~= ready_command_name());
    v
}

fn is_status(code: &Vec<u8>, a: u8) -> (r: bool)
    ensures
        r == (code@ == seq![a, 48u8, 48u8]),
{
    if code.len() == 3 && code[0] == a && code[1] == 48u8 && code[2] == 48u8 {
        assert(code@ =~= seq![a, 48u8, 48u8]);
        true
    } else {
        false
    }
}

/// The ERROR command that carries a status code.
pub open spec fn error_command(status_code: Seq<u8>) -> Seq<u8> {
    error_command_name() + seq![status_code.len() as u8] + status_code
}

/// How far a handshake has gone.
#[derive(Debug, PartialEq, Eq, Clone, Copy, Structural)]
pub enum Status {
    Ready,
    Error,
    Handshaking,
}

/// What the NULL mechanism has done and what it was made with.
pub struct NullView {
    pub ready_command_sent: bool,
    pub error_command_sent: bool,
    pub ready_command_received: bool,
    pub error_command_received: bool,
    pub zap_request_sent: bool,
    pub zap_reply_received: bool,
    pub status_code: Seq<u8>,
    pub zap_required: bool,
    pub zap_enforce_domain: bool,
    pub socket_type: i32,
    pub routing_id: Seq<u8>,
}

/// The command the mechanism sends next from `v`: ERROR when the ZAP reply
/// refused the peer (nothing on a temporary failure), READY otherwise.
/// Returns the new state and either the command or the error.
pub open spec fn command_step(v: NullView) -> (NullView, Result<Seq<u8>, i32>) {
    if v.zap_reply_received && v.status_code != status_ok() {
        let v2 = NullView { error_command_sent: true, ..v };
        if v.status_code != status_temporary() {
            (v2, Ok(error_command(v.status_code)))
        } else {
            (v2, Err(EAGAIN))
        }
    } else {
        (
            NullView { ready_command_sent: true, ..v },
            Ok(command_with_basic_properties(ready_command_name(), v.socket_type, v.routing_id)),
        )
    }
}

/// The outcome of a call that ends in `command_step(v)`.
pub open spec fn ends_in_command_step(
    v: NullView,
    new_v: NullView,
    r: Result<(), i32>,
    old_msg: Seq<u8>,
    new_msg: Seq<u8>,
) -> bool {
    let (v2, out) = command_step(v);
    &&& new_v == v2
    &&& match out {
        Ok(bytes) => r is Ok && new_msg == bytes,
        Err(e) => r == Err::<(), i32>(e) && new_msg == old_msg,
    }
}

/// The NULL security mechanism: no credentials; each side sends READY, or
/// the server sends ERROR where a ZAP handler refuses the peer.
pub struct NullMechanism {
    ready_command_sent: bool,
    error_command_sent: bool,
    ready_command_received: bool,
    error_command_received: bool,
    zap_request_sent: bool,
    zap_reply_received: bool,
    peer_address: String,
    options: Options,
    status_code: Vec<u8>,
}

impl View for NullMechanism {
    type V = NullView;

    closed spec fn view(&self) -> NullView {
        NullView {
            ready_command_sent: self.ready_command_sent,
            error_command_sent: self.error_command_sent,
            ready_command_received: self.ready_command_received,
            error_command_received: self.error_command_received,
            zap_request_sent: self.zap_request_sent,
            zap_reply_received: self.zap_reply_received,
            status_code: self.status_code@,
            zap_required: self.options.zap_domain@.len() > 0,
            zap_enforce_domain: self.options.zap_enforce_domain,
            socket_type: self.options.socket_type as i32,
            routing_id: self.options.routing_id@.take(self.options.routing_id_size as int),
        }
    }
}

impl NullMechanism {
    pub closed spec fn spec_peer_address(&self) -> String {
        self.peer_address
    }

    pub closed spec fn wf(&self) -> bool {
        &&& self.options.routing_id@.len() == 256
        &&& self.zap_reply_received ==> self.status_code@.len() == 3
    }

    /// A mechanism that has sent and received nothing.  ZAP is consulted
    /// when the options name a ZAP domain.
    pub fn new(peer_address: String, options: Options) -> (m: Self)
        ensures
            m.wf(),
            m.spec_peer_address() == peer_address,
            !m@.ready_command_sent,
            !m@.error_command_sent,
            !m@.ready_command_received,
            !m@.error_command_received,
            !m@.zap_request_sent,
            !m@.zap_reply_received,
            m@.status_code == Seq::<u8>::empty(),
            m@.zap_required == (options.zap_domain@.len() > 0),
            m@.zap_enforce_domain == options.zap_enforce_domain,
            m@.socket_type == options.socket_type as i32,
            m@.routing_id == options.routing_id@.take(options.routing_id_size as int),
    {
        NullMechanism {
            ready_command_sent: false,
            error_command_sent: false,
            ready_command_received: false,
            error_command_received: false,
            zap_request_sent: false,
            zap_reply_received: false,
            peer_address,
            options,
            status_code: Vec::new(),
        }
    }

    fn zap_required(&self) -> (r: bool)
        ensures
            r == self@.zap_required,
    {
        !self.options.zap_domain.as_str().is_empty()
    }

    /// Takes the next ZAP reply, whose status code must be valid.
    fn receive_and_process_zap_reply(&mut self, session: &mut ZapSession) -> (r: Result<(), i32>)
        ensures
            final(session).spec_requests() == old(session).spec_requests(),
            final(session).spec_handler_bound() == old(session).spec_handler_bound(),
            old(session).spec_replies().len() == 0 ==> r == Err::<(), i32>(EAGAIN) && final(self)@
                == old(self)@ && final(session).spec_replies() == old(session).spec_replies(),
            old(session).spec_replies().len() > 0 ==> {
                let code = old(session).spec_replies()[0];
                &&& final(session).spec_replies() == old(session).spec_replies().drop_first()
                &&& !valid_status_code(code) ==> r == Err::<(), i32>(EPROTO) && final(self)@ == old(self)@
                &&& valid_status_code(code) ==> r is Ok && final(self)@ == (NullView {
                    status_code: code,
                    ..old(self)@
                })
            },
            old(self).wf() ==> final(self).wf(),
            final(self).spec_peer_address() == old(self).spec_peer_address(),
    {
        match session.receive_zap_reply() {
            Ok(code) => {
                if !is_valid_status_code(&code) {
                    return Err(EPROTO);
                }
                self.status_code = code;
                Ok(())
            },
            Err(e) => Err(e),
        }
    }

    fn send_zap_request(&self, session: &mut ZapSession)
        ensures
            final(session).spec_requests().len() == old(session).spec_requests().len() + 1,
            final(session).spec_requests().last().spec_mechanism() == null_mechanism_name(),
            final(session).spec_requests().last().spec_credentials() == Seq::<Seq<u8>>::empty(),
            final(session).spec_requests().take(old(session).spec_requests().len() as int)
                == old(session).spec_requests(),
            final(session).spec_replies() == old(session).spec_replies(),
            final(session).spec_handler_bound() == old(session).spec_handler_bound(),
    {
        let name: Vec<u8> = vec![78u8, 85u8, 76u8, 76u8];
        assert(name@ =~= null_mechanism_name());
        let credentials: Vec<Vec<u8>> = Vec::new();
        assert(credentials.deep_view() =~= Seq::<Seq<u8>>::empty());
        let request = ZapRequest::new(name, credentials);
        session.send_zap_request(request);
        assert(session.spec_requests().take(old(session).spec_requests().len() as int)
            =~= old(session).spec_requests());
    }

    /// Sends READY, or ERROR with the ZAP status code, as `command_step`
    /// says.
    fn finish_command(&mut self, msg: &mut Msg) -> (r: Result<(), i32>)
        requires
            old(self).wf(),
        ensures
            ends_in_command_step(old(self)@, final(self)@, r, old(msg).body(), final(msg).body()),
            final(self).wf(),
            final(self).spec_peer_address() == old(self).spec_peer_address(),
    {
        if self.zap_reply_received && !is_status(&self.status_code, 50u8) {
            self.error_command_sent = true;
            if !is_status(&self.status_code, 51u8) {
                let mut data = error_command_name_bytes();
                data.push((self.status_code.len() % 256) as u8);
                crate::mechanism::append_bytes(&mut data, self.status_code.as_slice());
                assert(data@ =~= error_command(self.status_code@));
                msg.set_data(data);
                return Ok(());
            }
            return Err(EAGAIN);
        }
        let prefix = ready_command_name_bytes();
        let size = self.options.routing_id_size as usize;
        let routing_id = vstd::slice::slice_subrange(self.options.routing_id.as_slice(), 0, size);
        let _ = make_command_with_basic_properties(
            msg,
            prefix.as_slice(),
            self.options.socket_type as i32,
            routing_id,
        );
        self.ready_command_sent = true;
        Ok(())
    }

    /// Produces the next handshake command, consulting the ZAP handler
    /// first where the options ask for it.
    pub fn next_handshake_command(&mut self, msg: &mut Msg, session: &mut ZapSession) -> (r: Result<
        (),
        i32,
    >)
        requires
            old(self).wf(),
        ensures
            final(self).wf(),
            final(self).spec_peer_address() == old(self).spec_peer_address(),
            final(session).spec_handler_bound() == old(session).spec_handler_bound(),
            ({
                let v = old(self)@;
                let consult = v.zap_required && !v.zap_reply_received;
                if v.ready_command_sent || v.error_command_sent || (consult && v.zap_request_sent) {
                    &&& r == Err::<(), i32>(EAGAIN)
                    &&& final(self)@ == v
                    &&& final(msg).body() == old(msg).body()
                    &&& *final(session) == *old(session)
                } else if consult && !old(session).spec_handler_bound() {
                    &&& *final(session) == *old(session)
                    &&& v.zap_enforce_domain ==> r == Err::<(), i32>(ECONNREFUSED) && final(self)@ == v
                        && final(msg).body() == old(msg).body()
                    &&& !v.zap_enforce_domain ==> ends_in_command_step(
                        v,
                        final(self)@,
                        r,
                        old(msg).body(),
                        final(msg).body(),
                    )
                } else if consult {
                    let v1 = NullView { zap_request_sent: true, ..v };
                    let replies = old(session).spec_replies();
                    &&& final(session).spec_requests().len() == old(session).spec_requests().len() + 1
                    &&& final(session).spec_requests().last().spec_mechanism() == null_mechanism_name()
                    &&& final(session).spec_requests().last().spec_credentials() == Seq::<Seq<u8>>::empty()
                    &&& replies.len() == 0 ==> r == Err::<(), i32>(EAGAIN) && final(self)@ == v1
                        && final(msg).body() == old(msg).body() && final(session).spec_replies() == replies
                    &&& replies.len() > 0 ==> final(session).spec_replies() == replies.drop_first()
                    &&& replies.len() > 0 && !valid_status_code(replies[0]) ==> r == Err::<(), i32>(EPROTO)
                        && final(self)@ == v1 && final(msg).body() == old(msg).body()
                    &&& replies.len() > 0 && valid_status_code(replies[0]) ==> ends_in_command_step(
                        NullView { zap_reply_received: true, status_code: replies[0], ..v1 },
                        final(self)@,
                        r,
                        old(msg).body(),
                        final(msg).body(),
                    )
                } else {
                    &&& *final(session) == *old(session)
                    &&& ends_in_command_step(v, final(self)@, r, old(msg).body(), final(msg).body())
                }
            }),
    {
        if self.ready_command_sent || self.error_command_sent {
            return Err(EAGAIN);
        }
        if self.zap_required() && !self.zap_reply_received {
            if self.zap_request_sent {
                return Err(EAGAIN);
            }
            match session.zap_connect() {
                Ok(_) => {
                    self.send_zap_request(session);
                    self.zap_request_sent = true;
                    let rc = self.receive_and_process_zap_reply(session);
                    if rc.is_err() {
                        return rc;
                    }
                    self.zap_reply_received = true;
                },
                Err(e) => {
                    if self.options.zap_enforce_domain {
                        return Err(e);
                    }
                },
            }
        }
        self.finish_command(msg)
    }

    /// Reads a READY or ERROR command from the peer.  A second command, or
    /// anything else, is a protocol error.
    pub fn process_handshake_command(&mut self, msg: &mut Msg) -> (r: Result<(), i32>)
        ensures
            old(self).wf() ==> final(self).wf(),
            final(self).spec_peer_address() == old(self).spec_peer_address(),
            final(msg).body() == old(msg).body(),
            ({
                let v = old(self)@;
                let data = old(msg).body();
                let n = ready_command_name().len() as int;
                if v.ready_command_received || v.error_command_received {
                    r == Err::<(), i32>(EPROTO) && final(self)@ == v
                } else if has_prefix(data, ready_command_name()) {
                    &&& final(self)@ == (NullView { ready_command_received: true, ..v })
                    &&& (r is Ok <==> parse_properties(data, n, v.socket_type) is Some)
                } else if has_prefix(data, error_command_name()) {
                    let fixed = n + ERROR_REASON_LEN_SIZE;
                    if data.len() < fixed || data[n] > data.len() - fixed {
                        r == Err::<(), i32>(EPROTO) && final(self)@ == v
                    } else {
                        r is Ok && final(self)@ == (NullView { error_command_received: true, ..v })
                    }
                } else {
                    r == Err::<(), i32>(EPROTO) && final(self)@ == v
                }
            }),
    {
        if self.ready_command_received || self.error_command_received {
            return Err(EPROTO);
        }
        let data = msg.data();
        let ready = ready_command_name_bytes();
        let error = error_command_name_bytes();
        if starts_with(data, ready.as_slice()) {
            self.process_ready_command(data)
        } else if starts_with(data, error.as_slice()) {
            self.process_error_command(data)
        } else {
            Err(EPROTO)
        }
    }

    fn process_ready_command(&mut self, cmd_data: &[u8]) -> (r: Result<(), i32>)
        requires
            has_prefix(cmd_data@, ready_command_name()),
        ensures
            final(self)@ == (NullView { ready_command_received: true, ..old(self)@ }),
            old(self).wf() ==> final(self).wf(),
            final(self).spec_peer_address() == old(self).spec_peer_address(),
            r is Ok <==> parse_properties(
                cmd_data@,
                ready_command_name().len() as int,
                old(self)@.socket_type,
            ) is Some,
    {
        self.ready_command_received = true;
        let body = vstd::slice::slice_subrange(cmd_data, 6, cmd_data.len());
        let parsed = parse_metadata(body, self.options.socket_type as i32);
        proof {
            lemma_parse_shift(cmd_data@, 6, self.options.socket_type as i32);
        }
        match parsed {
            Ok(_) => Ok(()),
            Err(e) => Err(e),
        }
    }

    fn process_error_command(&mut self, cmd_data: &[u8]) -> (r: Result<(), i32>)
        requires
            has_prefix(cmd_data@, error_command_name()),
        ensures
            old(self).wf() ==> final(self).wf(),
            final(self).spec_peer_address() == old(self).spec_peer_address(),
            ({
                let data = cmd_data@;
                let fixed = error_command_name().len() + ERROR_REASON_LEN_SIZE;
                if data.len() < fixed || data[error_command_name().len() as int] > data.len() - fixed {
                    r == Err::<(), i32>(EPROTO) && final(self)@ == old(self)@
                } else {
                    r is Ok && final(self)@ == (NullView { error_command_received: true, ..old(self)@ })
                }
            }),
    {
        let fixed_prefix_size = 6 + ERROR_REASON_LEN_SIZE;
        if cmd_data.len() < fixed_prefix_size {
            return Err(EPROTO);
        }
        let error_reason_len = cmd_data[6] as usize;
        if error_reason_len > cmd_data.len() - fixed_prefix_size {
            return Err(EPROTO);
        }
        self.error_command_received = true;
        Ok(())
    }

    /// A ZAP reply has arrived: reads it, unless one was already read.
    pub fn zap_msg_available(&mut self, session: &mut ZapSession) -> (r: Result<(), i32>)
        ensures
            old(self).wf() ==> final(self).wf(),
            final(self).spec_peer_address() == old(self).spec_peer_address(),
            final(session).spec_requests() == old(session).spec_requests(),
            final(session).spec_handler_bound() == old(session).spec_handler_bound(),
            ({
                let v = old(self)@;
                let replies = old(session).spec_replies();
                if v.zap_reply_received {
                    r == Err::<(), i32>(EFSM) && final(self)@ == v && *final(session) == *old(session)
                } else if replies.len() == 0 {
                    r == Err::<(), i32>(EAGAIN) && final(self)@ == v && final(session).spec_replies() == replies
                } else if !valid_status_code(replies[0]) {
                    r == Err::<(), i32>(EPROTO) && final(self)@ == v && final(session).spec_replies()
                        == replies.drop_first()
                } else {
                    &&& r is Ok
                    &&& final(self)@ == (NullView {
                        zap_reply_received: true,
                        status_code: replies[0],
                        ..v
                    })
                    &&& final(session).spec_replies() == replies.drop_first()
                }
            }),
    {
        if self.zap_reply_received {
            return Err(EFSM);
        }
        let rc = self.receive_and_process_zap_reply(session);
        if rc.is_err() {
            return rc;
        }
        self.zap_reply_received = true;
        Ok(())
    }

    /// READY both ways is ready; a command each way otherwise is an error;
    /// anything less is still handshaking.
    pub fn status(&self) -> (s: Status)
        ensures
            s == if self@.ready_command_sent && self@.ready_command_received {
                Status::Ready
            } else if (self@.ready_command_sent || self@.error_command_sent) && (
            self@.ready_command_received || self@.error_command_received) {
                Status::Error
            } else {
                Status::Handshaking
            },
    {
        if self.ready_command_sent && self.ready_command_received {
            return Status::Ready;
        }
        let command_sent = self.ready_command_sent || self.error_command_sent;
        let command_received = self.ready_command_received || self.error_command_received;
        if command_sent && command_received {
            Status::Error
        } else {
            Status::Handshaking
        }
    }
}

/// Where no ZAP reply refused the peer, the command the NULL mechanism
/// sends is a READY that any peer of a type it may talk to accepts.
pub proof fn law_ready_accepted(v: NullView, peer_type: i32)
    requires
        !v.zap_reply_received,
        0 <= v.socket_type <= 20,
        compatible(peer_type, v.socket_type),
        v.routing_id.len() <= 255,
    ensures
        command_step(v).1 is Ok,
        has_prefix(command_step(v).1->Ok_0, ready_command_name()),
        parse_properties(
            command_step(v).1->Ok_0,
            ready_command_name().len() as int,
            peer_type,
        ) is Some,
{
    let bytes = command_with_basic_properties(ready_command_name(), v.socket_type, v.routing_id);
    law_basic_properties_accepted(ready_command_name(), v.socket_type, v.routing_id, peer_type);
    assert(bytes.take(ready_command_name().len() as int) =~= ready_command_name());
}

} // verus!
