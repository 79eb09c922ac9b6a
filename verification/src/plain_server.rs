use crate::mechanism::{
    append_bytes, command_with_basic_properties, has_prefix, is_valid_status_code,
    make_command_with_basic_properties, parse_metadata, parse_properties, starts_with,
    valid_status_code, Msg, ZapRequest, ZapSession,
};
use crate::mechanism::lemma_parse_shift;
use crate::plain_client::hello_command;
use crate::options::Options;
use crate::plain_client::{
    error_name, error_name_bytes, hello_name, hello_name_bytes, initiate_name,
    initiate_name_bytes, ready_name, ready_name_bytes, welcome_name, welcome_name_bytes,
    HELLO_NAME_LEN, INITIATE_NAME_LEN,
};
use vstd::prelude::*;

verus! {

/// What `String::from_utf8_lossy` makes of some bytes.
pub uninterp spec fn utf8_lossy(bytes: Seq<u8>) -> Seq<char>;

/// Calls `String::from_utf8_lossy` and takes the text as an owned string.
///
/// Trusted: the result is what the name `utf8_lossy` gives for the bytes;
/// where the bytes are valid UTF-8, it is the text they encode (std's
/// documentation: only invalid sequences are replaced).
#[verifier::external_body]
fn from_utf8_lossy(bytes: &[u8]) -> (s: String)
    ensures
        s@ == utf8_lossy(bytes@),
        vstd::utf8::valid_utf8(bytes@) ==> s@ == vstd::utf8::decode_utf8(bytes@),
{
    String::from_utf8_lossy(bytes).to_string()
}

/// Why the server refused a handshake step.
#[derive(Debug, PartialEq, Eq, Clone, Copy, Structural)]
pub enum ZmqError {
    /// Nothing to do yet.
    Again,
    /// The peer broke the protocol.
    Protocol,
    /// No ZAP handler could be reached.
    ConnectionRefused,
}

/// Where the server side of a PLAIN handshake stands.
#[derive(Debug, PartialEq, Eq, Clone, Copy, Structural)]
pub enum State {
    SendingWelcome,
    WaitingForHello,
    WaitingForInitiate,
    SendingReady,
    SendingError,
    Ready,
    ErrorSent,
    WaitingForZapReply,
}

/// "PLAIN".
pub open spec fn plain_mechanism_name() -> Seq<u8> {
    seq![80u8, 76u8, 65u8, 73u8, 78u8]
}

/// The username and password a HELLO command carries, or `None` where it
/// is not a well-formed HELLO: the name, then each field after its length
/// byte, with nothing left over.
pub open spec fn parse_hello(data: Seq<u8>) -> Option<(Seq<u8>, Seq<u8>)> {
    let p = HELLO_NAME_LEN as int;
    if !has_prefix(data, hello_name()) || p >= data.len() {
        None
    } else {
        let p1 = p + 1;
        let ulen = data[p] as int;
        if p1 + ulen > data.len() {
            None
        } else {
            let p2 = p1 + ulen;
            if p2 >= data.len() {
                None
            } else {
                let p3 = p2 + 1;
                let plen = data[p2] as int;
                if p3 + plen != data.len() {
                    None
                } else {
                    Some((data.subrange(p1, p2), data.subrange(p3, data.len() as int)))
                }
            }
        }
    }
}

/// The ERROR command that carries a status code.
pub open spec fn error_command(status_code: Seq<u8>) -> Seq<u8> {
    error_name() + seq![3u8] + status_code
}

/// The state a valid ZAP status code leads to: "200" lets the peer in,
/// "300" ends the handshake without an ERROR command, any other sends ERROR.
pub open spec fn state_after_zap(code: Seq<u8>) -> State {
    if code[0] == 50 {
        State::SendingWelcome
    } else if code[0] == 51 {
        State::ErrorSent
    } else {
        State::SendingError
    }
}

/// The server side of the PLAIN mechanism.
pub struct PlainServer {
    /// Where the handshake stands.
    pub state: State,
    peer_address: String,
    options: Options,
    status_code: Vec<u8>,
}

impl PlainServer {
    pub closed spec fn spec_state(&self) -> State {
        self.state
    }

    pub closed spec fn spec_status_code(&self) -> Seq<u8> {
        self.status_code@
    }

    pub closed spec fn spec_peer_address(&self) -> String {
        self.peer_address
    }

    pub closed spec fn spec_socket_type(&self) -> i32 {
        self.options.socket_type as i32
    }

    pub closed spec fn spec_routing_id(&self) -> Seq<u8> {
        self.options.routing_id@.take(self.options.routing_id_size as int)
    }

    pub closed spec fn wf(&self) -> bool {
        &&& self.options.routing_id@.len() == 256
        &&& self.state == State::SendingError ==> valid_status_code(self.status_code@)
    }

    /// Whether the options ask for ZAP: they name a ZAP domain.
    pub fn zap_required(options: &Options) -> (r: bool)
        ensures
            r == (options.zap_domain@.len() > 0),
    {
        !options.zap_domain.as_str().is_empty()
    }

    pub fn new(peer_address: String, options: Options) -> (s: Self)
        requires
            options.zap_enforce_domain ==> options.zap_domain@.len() > 0,
        ensures
            s.wf(),
            s.spec_state() == State::SendingWelcome,
            s.spec_status_code() == Seq::<u8>::empty(),
            s.spec_peer_address() == peer_address,
            s.spec_socket_type() == options.socket_type as i32,
            s.spec_routing_id() == options.routing_id@.take(options.routing_id_size as int),
    {
        PlainServer { state: State::SendingWelcome, peer_address, options, status_code: Vec::new() }
    }

    /// Produces WELCOME, READY or ERROR as the state asks, and moves on;
    /// `Again` in any other state.
    pub fn next_handshake_command(&mut self, msg: &mut Msg) -> (r: Result<(), ZmqError>)
        requires
            old(self).wf(),
        ensures
            final(self).wf(),
            final(self).spec_status_code() == old(self).spec_status_code(),
            final(self).spec_socket_type() == old(self).spec_socket_type(),
            final(self).spec_routing_id() == old(self).spec_routing_id(),
            match old(self).spec_state() {
                State::SendingWelcome => r is Ok && final(self).spec_state()
                    == State::WaitingForInitiate && final(msg).body() == welcome_name(),
                State::SendingReady => r is Ok && final(self).spec_state() == State::Ready
                    && final(msg).body() == command_with_basic_properties(
                    ready_name(),
                    old(self).spec_socket_type(),
                    old(self).spec_routing_id(),
                ),
                State::SendingError => r is Ok && final(self).spec_state() == State::ErrorSent
                    && final(msg).body() == error_command(old(self).spec_status_code()),
                _ => r == Err::<(), ZmqError>(ZmqError::Again) && final(self).spec_state() == old(self).spec_state() && final(msg).body() == old(msg).body(),
            },
    {
        match self.state {
            State::SendingWelcome => {
                self.produce_welcome(msg);
                self.state = State::WaitingForInitiate;
                Ok(())
            },
            State::SendingReady => {
                self.produce_ready(msg);
                self.state = State::Ready;
                Ok(())
            },
            State::SendingError => {
                self.produce_error(msg);
                self.state = State::ErrorSent;
                Ok(())
            },
            _ => Err(ZmqError::Again),
        }
    }

    /// Reads HELLO or INITIATE as the state asks; on success the message is
    /// left empty.  HELLO goes to the ZAP handler with its credentials.
    pub fn process_handshake_command(&mut self, msg: &mut Msg, session: &mut ZapSession) -> (r:
        Result<(), ZmqError>)
        requires
            old(self).wf(),
        ensures
            final(self).wf(),
            final(self).spec_socket_type() == old(self).spec_socket_type(),
            final(self).spec_routing_id() == old(self).spec_routing_id(),
            r is Ok ==> final(msg).body() == Seq::<u8>::empty(),
            r is Err ==> final(msg).body() == old(msg).body(),
            final(session).spec_handler_bound() == old(session).spec_handler_bound(),
            ({
                let data = old(msg).body();
                match old(self).spec_state() {
                    State::WaitingForHello => match parse_hello(data) {
                        None => r == Err::<(), ZmqError>(ZmqError::Protocol) && final(self).spec_state()
                            == State::WaitingForHello && *final(session) == *old(session),
                        Some(creds) => if !old(session).spec_handler_bound() {
                            r == Err::<(), ZmqError>(ZmqError::ConnectionRefused) && final(self).spec_state()
                                == State::WaitingForHello && *final(session) == *old(session)
                        } else {
                            let replies = old(session).spec_replies();
                            let req = final(session).spec_requests().last();
                            &&& final(session).spec_requests().len() == old(session).spec_requests().len() + 1
                            &&& req.spec_mechanism() == plain_mechanism_name()
                            &&& req.spec_credentials() == seq![
                                vstd::utf8::encode_utf8(utf8_lossy(creds.0)),
                                vstd::utf8::encode_utf8(utf8_lossy(creds.1)),
                            ]
                            &&& replies.len() == 0 ==> r == Err::<(), ZmqError>(ZmqError::Again)
                                && final(self).spec_state() == State::WaitingForZapReply
                                && final(session).spec_replies() == replies
                            &&& replies.len() > 0 ==> final(session).spec_replies() == replies.drop_first()
                            &&& replies.len() > 0 && !valid_status_code(replies[0]) ==> r == Err::<
                                (),
                                ZmqError,
                            >(ZmqError::Protocol) && final(self).spec_state() == State::WaitingForZapReply
                            &&& replies.len() > 0 && valid_status_code(replies[0]) ==> r is Ok
                                && final(self).spec_status_code() == replies[0] && final(self).spec_state()
                                == state_after_zap(replies[0])
                        },
                    },
                    State::WaitingForInitiate => {
                        &&& *final(session) == *old(session)
                        &&& if has_prefix(data, initiate_name()) && parse_properties(
                            data,
                            INITIATE_NAME_LEN as int,
                            old(self).spec_socket_type(),
                        ) is Some {
                            r is Ok && final(self).spec_state() == State::SendingReady
                        } else {
                            r == Err::<(), ZmqError>(ZmqError::Protocol) && final(self).spec_state()
                                == State::WaitingForInitiate
                        }
                    },
                    _ => r == Err::<(), ZmqError>(ZmqError::Protocol) && final(self).spec_state()
                        == old(self).spec_state() && *final(session) == *old(session),
                }
            }),
    {
        let rc = match self.state {
            State::WaitingForHello => self.process_hello(msg, session),
            State::WaitingForInitiate => self.process_initiate(msg),
            _ => Err(ZmqError::Protocol),
        };
        if rc.is_err() {
            return rc;
        }
        let _ = msg.close();
        let _ = msg.init();
        Ok(())
    }

    fn process_hello(&mut self, msg: &Msg, session: &mut ZapSession) -> (r: Result<(), ZmqError>)
        requires
            old(self).wf(),
            old(self).spec_state() == State::WaitingForHello,
        ensures
            final(self).wf(),
            final(self).options == old(self).options,
            final(session).spec_handler_bound() == old(session).spec_handler_bound(),
            match parse_hello(msg.body()) {
                None => r == Err::<(), ZmqError>(ZmqError::Protocol) && final(self).spec_state()
                    == State::WaitingForHello && *final(session) == *old(session),
                Some(creds) => if !old(session).spec_handler_bound() {
                    r == Err::<(), ZmqError>(ZmqError::ConnectionRefused) && final(self).spec_state()
                        == State::WaitingForHello && *final(session) == *old(session)
                } else {
                    let replies = old(session).spec_replies();
                    let req = final(session).spec_requests().last();
                    &&& final(session).spec_requests().len() == old(session).spec_requests().len() + 1
                    &&& req.spec_mechanism() == plain_mechanism_name()
                    &&& req.spec_credentials() == seq![
                        vstd::utf8::encode_utf8(utf8_lossy(creds.0)),
                        vstd::utf8::encode_utf8(utf8_lossy(creds.1)),
                    ]
                    &&& replies.len() == 0 ==> r == Err::<(), ZmqError>(ZmqError::Again)
                        && final(self).spec_state() == State::WaitingForZapReply
                        && final(session).spec_replies() == replies
                    &&& replies.len() > 0 ==> final(session).spec_replies() == replies.drop_first()
                    &&& replies.len() > 0 && !valid_status_code(replies[0]) ==> r == Err::<
                        (),
                        ZmqError,
                    >(ZmqError::Protocol) && final(self).spec_state() == State::WaitingForZapReply
                    &&& replies.len() > 0 && valid_status_code(replies[0]) ==> r is Ok
                        && final(self).spec_status_code() == replies[0] && final(self).spec_state()
                        == state_after_zap(replies[0])
                },
            },
    {
        let data = msg.data();
        let len = data.len();
        let prefix = hello_name_bytes();
        if !starts_with(data, prefix.as_slice()) {
            return Err(ZmqError::Protocol);
        }
        let mut pos = HELLO_NAME_LEN;
        if pos >= len {
            return Err(ZmqError::Protocol);
        }
        let username_len = data[pos] as usize;
        pos = pos + 1;
        if username_len > len - pos {
            return Err(ZmqError::Protocol);
        }
        let username = from_utf8_lossy(vstd::slice::slice_subrange(data, pos, pos + username_len));
        pos = pos + username_len;
        if pos >= len {
            return Err(ZmqError::Protocol);
        }
        let password_len = data[pos] as usize;
        pos = pos + 1;
        if password_len != len - pos {
            return Err(ZmqError::Protocol);
        }
        let password = from_utf8_lossy(vstd::slice::slice_subrange(data, pos, len));
        if session.zap_connect().is_err() {
            return Err(ZmqError::ConnectionRefused);
        }
        self.send_zap_request(&username, &password, session);
        self.state = State::WaitingForZapReply;
        self.receive_and_process_zap_reply(session)
    }

    fn send_zap_request(&self, username: &String, password: &String, session: &mut ZapSession)
        ensures
            final(session).spec_requests().len() == old(session).spec_requests().len() + 1,
            final(session).spec_requests().last().spec_mechanism() == plain_mechanism_name(),
            final(session).spec_requests().last().spec_credentials() == seq![
                vstd::utf8::encode_utf8(username@),
                vstd::utf8::encode_utf8(password@),
            ],
            final(session).spec_replies() == old(session).spec_replies(),
            final(session).spec_handler_bound() == old(session).spec_handler_bound(),
    {
        let name: Vec<u8> = vec![80u8, 76u8, 65u8, 73u8, 78u8];
        assert(name@ =~= plain_mechanism_name());
        let user = vstd::slice::slice_to_vec(username.as_str().as_bytes());
        let pass = vstd::slice::slice_to_vec(password.as_str().as_bytes());
        assert(user.deep_view() =~= user@);
        assert(pass.deep_view() =~= pass@);
        let mut credentials: Vec<Vec<u8>> = Vec::new();
        credentials.push(user);
        credentials.push(pass);
        assert(credentials.deep_view() =~= seq![
            vstd::utf8::encode_utf8(username@),
            vstd::utf8::encode_utf8(password@),
        ]);
        let request = ZapRequest::new(name, credentials);
        session.send_zap_request(request);
    }

    /// Takes the ZAP reply and moves on as its status code says.
    fn receive_and_process_zap_reply(&mut self, session: &mut ZapSession) -> (r: Result<
        (),
        ZmqError,
    >)
        requires
            old(self).wf(),
            old(self).spec_state() == State::WaitingForZapReply,
        ensures
            final(self).wf(),
            final(self).options == old(self).options,
            final(session).spec_requests() == old(session).spec_requests(),
            final(session).spec_handler_bound() == old(session).spec_handler_bound(),
            ({
                let replies = old(session).spec_replies();
                &&& replies.len() == 0 ==> r == Err::<(), ZmqError>(ZmqError::Again)
                    && final(self).spec_state() == State::WaitingForZapReply
                    && final(session).spec_replies() == replies
                &&& replies.len() > 0 ==> final(session).spec_replies() == replies.drop_first()
                &&& replies.len() > 0 && !valid_status_code(replies[0]) ==> r == Err::<
                    (),
                    ZmqError,
                >(ZmqError::Protocol) && final(self).spec_state() == State::WaitingForZapReply
                &&& replies.len() > 0 && valid_status_code(replies[0]) ==> r is Ok
                    && final(self).spec_status_code() == replies[0] && final(self).spec_state()
                    == state_after_zap(replies[0])
            }),
    {
        match session.receive_zap_reply() {
            Ok(code) => {
                if !is_valid_status_code(&code) {
                    return Err(ZmqError::Protocol);
                }
                let first = code[0];
                self.status_code = code;
                if first == 50 {
                    self.state = State::SendingWelcome;
                } else if first == 51 {
                    self.state = State::ErrorSent;
                } else {
                    self.state = State::SendingError;
                }
                Ok(())
            },
            Err(_) => Err(ZmqError::Again),
        }
    }

    fn process_initiate(&mut self, msg: &Msg) -> (r: Result<(), ZmqError>)
        requires
            old(self).wf(),
            old(self).spec_state() == State::WaitingForInitiate,
        ensures
            final(self).wf(),
            final(self).options == old(self).options,
            final(self).spec_status_code() == old(self).spec_status_code(),
            if has_prefix(msg.body(), initiate_name()) && parse_properties(
                msg.body(),
                INITIATE_NAME_LEN as int,
                old(self).spec_socket_type(),
            ) is Some {
                r is Ok && final(self).spec_state() == State::SendingReady
            } else {
                r == Err::<(), ZmqError>(ZmqError::Protocol) && final(self).spec_state()
                    == State::WaitingForInitiate
            },
    {
        let data = msg.data();
        let prefix = initiate_name_bytes();
        if !starts_with(data, prefix.as_slice()) {
            return Err(ZmqError::Protocol);
        }
        let body = vstd::slice::slice_subrange(data, INITIATE_NAME_LEN, data.len());
        proof {
            lemma_parse_shift(msg.body(), INITIATE_NAME_LEN as int, self.options.socket_type as i32);
        }
        match parse_metadata(body, self.options.socket_type as i32) {
            Ok(_) => {
                self.state = State::SendingReady;
                Ok(())
            },
            Err(_) => Err(ZmqError::Protocol),
        }
    }

    fn produce_welcome(&self, msg: &mut Msg)
        ensures
            final(msg).body() == welcome_name(),
    {
        msg.set_data(welcome_name_bytes());
    }

    fn produce_ready(&self, msg: &mut Msg)
        requires
            self.wf(),
        ensures
            final(msg).body() == command_with_basic_properties(
                ready_name(),
                self.spec_socket_type(),
                self.spec_routing_id(),
            ),
    {
        let prefix = ready_name_bytes();
        let size = self.options.routing_id_size as usize;
        let routing_id = vstd::slice::slice_subrange(self.options.routing_id.as_slice(), 0, size);
        let _ = make_command_with_basic_properties(
            msg,
            prefix.as_slice(),
            self.options.socket_type as i32,
            routing_id,
        );
    }

    fn produce_error(&self, msg: &mut Msg)
        requires
            valid_status_code(self.spec_status_code()),
        ensures
            final(msg).body() == error_command(self.spec_status_code()),
    {
        let mut data = error_name_bytes();
        data.push(3u8);
        append_bytes(&mut data, self.status_code.as_slice());
        assert(data@ =~= error_command(self.spec_status_code()));
        msg.set_data(data);
    }
}

/// The HELLO a client makes from a username and a password of at most 255
/// bytes each is read back by the server as the same username and password.
pub proof fn law_hello_round_trip(username: Seq<u8>, password: Seq<u8>)
    requires
        username.len() <= 255,
        password.len() <= 255,
    ensures
        parse_hello(hello_command(username, password)) == Some((username, password)),
{
    let data = hello_command(username, password);
    let ul = username.len() as int;
    let pl = password.len() as int;
    assert(data.len() == 7 + ul + pl);
    assert(data.take(5) =~= hello_name());
    assert(data[5] == ul as u8);
    assert(data[6 + ul] == pl as u8);
    assert(data.subrange(6, 6 + ul) =~= username);
    assert(data.subrange(7 + ul, data.len() as int) =~= password);
}

} // verus!
