use crate::mechanism::{
    append_bytes, command_with_basic_properties, has_prefix, make_command_with_basic_properties,
    parse_metadata, parse_properties, starts_with, Msg, EAGAIN, EPROTO,
};
use crate::mechanism::lemma_parse_shift;
use crate::null_mechanism::Status;
use crate::options::Options;
use crate::plain_common::BRIEF_LEN_SIZE;
use crate::socks::utf8_bytes;
use vstd::prelude::*;

verus! {

/// The HELLO command name as the PLAIN client and server write and read
/// it: the bare name, with no length byte before it.
pub open spec fn hello_name() -> Seq<u8> {
    seq![72u8, 69u8, 76u8, 76u8, 79u8]
}

pub const HELLO_NAME_LEN: usize = 5;

pub fn hello_name_bytes() -> (v: Vec<u8>)
    ensures
        v@ == hello_name(),
{
    let v: Vec<u8> = vec![72u8, 69u8, 76u8, 76u8, 79u8];
    assert(v@ =~= hello_name());
    v
}

/// The WELCOME command name as the PLAIN client and server write and read
/// it: the bare name, with no length byte before it.
pub open spec fn welcome_name() -> Seq<u8> {
    seq![87u8, 69u8, 76u8, 67u8, 79u8, 77u8, 69u8]
}

pub const WELCOME_NAME_LEN: usize = 7;

pub fn welcome_name_bytes() -> (v: Vec<u8>)
    ensures
        v@ == welcome_name(),
{
    let v: Vec<u8> = vec![87u8, 69u8, 76u8, 67u8, 79u8, 77u8, 69u8];
    assert(v@ =~= welcome_name());
    v
}

/// The INITIATE command name as the PLAIN client and server write and read
/// it: the bare name, with no length byte before it.
pub open spec fn initiate_name() -> Seq<u8> {
    seq![73u8, 78u8, 73u8, 84u8, 73u8, 65u8, 84u8, 69u8]
}

pub const INITIATE_NAME_LEN: usize = 8;

pub fn initiate_name_bytes() -> (v: Vec<u8>)
    ensures
        v@ == initiate_name(),
{
    let v: Vec<u8> = vec![73u8, 78u8, 73u8, 84u8, 73u8, 65u8, 84u8, 69u8];
    assert(v@ =~= initiate_name());
    v
}

/// The READY command name as the PLAIN client and server write and read
/// it: the bare name, with no length byte before it.
pub open spec fn ready_name() -> Seq<u8> {
    seq![82u8, 69u8, 65u8, 68u8, 89u8]
}

pub const READY_NAME_LEN: usize = 5;

pub fn ready_name_bytes() -> (v: Vec<u8>)
    ensures
        v@ == ready_name(),
{
    let v: Vec<u8> = vec![82u8, 69u8, 65u8, 68u8, 89u8];
    assert(v@ =~= ready_name());
    v
}

/// The ERROR command name as the PLAIN client and server write and read
/// it: the bare name, with no length byte before it.
pub open spec fn error_name() -> Seq<u8> {
    seq![69u8, 82u8, 82u8, 79u8, 82u8]
}

pub const ERROR_NAME_LEN: usize = 5;

pub fn error_name_bytes() -> (v: Vec<u8>)
    ensures
        v@ == error_name(),
{
    let v: Vec<u8> = vec![69u8, 82u8, 82u8, 79u8, 82u8];
    assert(v@ =~= error_name());
    v
}


/// Where the client side of a PLAIN handshake stands.
#[derive(Debug, PartialEq, Eq, Clone, Copy, Structural)]
pub enum State {
    SendingHello,
    WaitingForWelcome,
    SendingInitiate,
    WaitingForReady,
    ErrorCommandReceived,
    Ready,
}

/// The HELLO command: the prefix, then the username and the password, each
/// preceded by its length byte.
pub open spec fn hello_command(username: Seq<u8>, password: Seq<u8>) -> Seq<u8> {
    hello_name() + seq![username.len() as u8] + username + seq![password.len() as u8] + password
}

/// The client side of the PLAIN mechanism: sends HELLO with the username
/// and password, waits for WELCOME, sends INITIATE, waits for READY.
pub struct PlainClient {
    state: State,
    options: Options,
}

impl PlainClient {
    pub closed spec fn spec_state(&self) -> State {
        self.state
    }

    pub closed spec fn spec_username(&self) -> Seq<u8> {
        utf8_bytes(self.options.plain_username)
    }

    pub closed spec fn spec_password(&self) -> Seq<u8> {
        utf8_bytes(self.options.plain_password)
    }

    pub closed spec fn spec_socket_type(&self) -> i32 {
        self.options.socket_type as i32
    }

    pub closed spec fn spec_routing_id(&self) -> Seq<u8> {
        self.options.routing_id@.take(self.options.routing_id_size as int)
    }

    pub fn new(options: Options) -> (c: Self)
        ensures
            c.spec_state() == State::SendingHello,
            c.spec_username() == utf8_bytes(options.plain_username),
            c.spec_password() == utf8_bytes(options.plain_password),
            c.spec_socket_type() == options.socket_type as i32,
            c.spec_routing_id() == options.routing_id@.take(options.routing_id_size as int),
    {
        PlainClient { state: State::SendingHello, options }
    }

    /// Produces HELLO, then INITIATE; `EAGAIN` while waiting for the server.
    pub fn next_handshake_command(&mut self, msg: &mut Msg) -> (r: Result<(), i32>)
        requires
            old(self).spec_state() == State::SendingHello ==> old(self).spec_username().len()
                <= 255 && old(self).spec_password().len() <= 255,
        ensures
            final(self).spec_username() == old(self).spec_username(),
            final(self).spec_password() == old(self).spec_password(),
            final(self).spec_socket_type() == old(self).spec_socket_type(),
            final(self).spec_routing_id() == old(self).spec_routing_id(),
            old(self).spec_state() == State::SendingHello ==> r is Ok && final(self).spec_state()
                == State::WaitingForWelcome && final(msg).body() == hello_command(
                old(self).spec_username(),
                old(self).spec_password(),
            ),
            old(self).spec_state() == State::SendingInitiate ==> r is Ok && final(self).spec_state()
                == State::WaitingForReady && final(msg).body() == command_with_basic_properties(
                initiate_name(),
                old(self).spec_socket_type(),
                old(self).spec_routing_id(),
            ),
            old(self).spec_state() != State::SendingHello && old(self).spec_state()
                != State::SendingInitiate ==> r == Err::<(), i32>(EAGAIN) && final(self).spec_state()
                == old(self).spec_state() && final(msg).body() == old(msg).body(),
    {
        match self.state {
            State::SendingHello => {
                self.produce_hello(msg);
                self.state = State::WaitingForWelcome;
                Ok(())
            },
            State::SendingInitiate => {
                let r = self.produce_initiate(msg);
                self.state = State::WaitingForReady;
                r
            },
            _ => Err(EAGAIN),
        }
    }

    /// Reads WELCOME, READY or ERROR from the server; on success the
    /// message is left empty.
    pub fn process_handshake_command(&mut self, msg: &mut Msg) -> (r: Result<(), i32>)
        ensures
            final(self).spec_username() == old(self).spec_username(),
            final(self).spec_password() == old(self).spec_password(),
            final(self).spec_socket_type() == old(self).spec_socket_type(),
            final(self).spec_routing_id() == old(self).spec_routing_id(),
            r is Ok ==> final(msg).body() == Seq::<u8>::empty(),
            r is Err ==> final(msg).body() == old(msg).body() && final(self).spec_state() == old(self).spec_state(),
            ({
                let s = old(self).spec_state();
                let data = old(msg).body();
                if has_prefix(data, welcome_name()) {
                    if s != State::WaitingForWelcome || data.len() != WELCOME_NAME_LEN {
                        r == Err::<(), i32>(EPROTO)
                    } else {
                        r is Ok && final(self).spec_state() == State::SendingInitiate
                    }
                } else if has_prefix(data, ready_name()) {
                    if s != State::WaitingForReady {
                        r == Err::<(), i32>(EPROTO)
                    } else {
                        &&& (r is Ok <==> parse_properties(
                            data,
                            READY_NAME_LEN as int,
                            old(self).spec_socket_type(),
                        ) is Some)
                        &&& r is Ok ==> final(self).spec_state() == State::Ready
                    }
                } else if has_prefix(data, error_name()) {
                    let body = data.subrange(ERROR_NAME_LEN as int, data.len() as int);
                    if (s != State::WaitingForWelcome && s != State::WaitingForReady) || body.len()
                        < BRIEF_LEN_SIZE || body[0] > body.len() - BRIEF_LEN_SIZE {
                        r == Err::<(), i32>(EPROTO)
                    } else {
                        r is Ok && final(self).spec_state() == State::ErrorCommandReceived
                    }
                } else {
                    r == Err::<(), i32>(EPROTO)
                }
            }),
    {
        let data = msg.data();
        let welcome = welcome_name_bytes();
        let ready = ready_name_bytes();
        let error = error_name_bytes();
        let result = if starts_with(data, welcome.as_slice()) {
            self.process_welcome(data)
        } else if starts_with(data, ready.as_slice()) {
            self.process_ready(vstd::slice::slice_subrange(data, READY_NAME_LEN, data.len()))
        } else if starts_with(data, error.as_slice()) {
            self.process_error(vstd::slice::slice_subrange(data, ERROR_NAME_LEN, data.len()))
        } else {
            Err(EPROTO)
        };
        proof {
            if has_prefix(old(msg).body(), ready_name()) {
                lemma_parse_shift(old(msg).body(), READY_NAME_LEN as int, self.options.socket_type as i32);
            }
        }
        if result.is_ok() {
            let _ = msg.close();
            let _ = msg.init();
        }
        result
    }

    pub fn status(&self) -> (s: Status)
        ensures
            s == match self.spec_state() {
                State::Ready => Status::Ready,
                State::ErrorCommandReceived => Status::Error,
                _ => Status::Handshaking,
            },
    {
        match self.state {
            State::Ready => Status::Ready,
            State::ErrorCommandReceived => Status::Error,
            _ => Status::Handshaking,
        }
    }

    fn produce_hello(&self, msg: &mut Msg)
        requires
            self.spec_username().len() <= 255,
            self.spec_password().len() <= 255,
        ensures
            final(msg).body() == hello_command(self.spec_username(), self.spec_password()),
    {
        let username = self.options.plain_username.as_str().as_bytes();
        let password = self.options.plain_password.as_str().as_bytes();
        let mut data = hello_name_bytes();
        data.push(username.len() as u8);
        append_bytes(&mut data, username);
        data.push(password.len() as u8);
        append_bytes(&mut data, password);
        assert(data@ =~= hello_command(self.spec_username(), self.spec_password()));
        msg.set_data(data);
    }

    fn produce_initiate(&self, msg: &mut Msg) -> (r: Result<(), i32>)
        ensures
            r is Ok,
            final(msg).body() == command_with_basic_properties(
                initiate_name(),
                self.spec_socket_type(),
                self.spec_routing_id(),
            ),
    {
        let prefix = initiate_name_bytes();
        let size = self.options.routing_id_size as usize;
        let routing_id = vstd::slice::slice_subrange(self.options.routing_id.as_slice(), 0, size);
        make_command_with_basic_properties(
            msg,
            prefix.as_slice(),
            self.options.socket_type as i32,
            routing_id,
        )
    }

    fn process_welcome(&mut self, data: &[u8]) -> (r: Result<(), i32>)
        ensures
            final(self).options == old(self).options,
            if old(self).spec_state() != State::WaitingForWelcome || data@.len() != WELCOME_NAME_LEN {
                r == Err::<(), i32>(EPROTO) && final(self).spec_state() == old(self).spec_state()
            } else {
                r is Ok && final(self).spec_state() == State::SendingInitiate
            },
    {
        if self.state != State::WaitingForWelcome {
            return Err(EPROTO);
        }
        if data.len() != WELCOME_NAME_LEN {
            return Err(EPROTO);
        }
        self.state = State::SendingInitiate;
        Ok(())
    }

    fn process_ready(&mut self, data: &[u8]) -> (r: Result<(), i32>)
        ensures
            final(self).options == old(self).options,
            old(self).spec_state() != State::WaitingForReady ==> r == Err::<(), i32>(EPROTO),
            old(self).spec_state() == State::WaitingForReady ==> (r is Ok <==> parse_properties(
                data@,
                0,
                old(self).spec_socket_type(),
            ) is Some),
            r is Ok ==> final(self).spec_state() == State::Ready,
            r is Err ==> final(self).spec_state() == old(self).spec_state(),
    {
        if self.state != State::WaitingForReady {
            return Err(EPROTO);
        }
        match parse_metadata(data, self.options.socket_type as i32) {
            Ok(_) => {
                self.state = State::Ready;
                Ok(())
            },
            Err(e) => Err(e),
        }
    }

    fn process_error(&mut self, data: &[u8]) -> (r: Result<(), i32>)
        ensures
            final(self).options == old(self).options,
            if (old(self).spec_state() != State::WaitingForWelcome && old(self).spec_state()
                != State::WaitingForReady) || data@.len() < BRIEF_LEN_SIZE || data@[0] > data@.len()
                - BRIEF_LEN_SIZE {
                r == Err::<(), i32>(EPROTO) && final(self).spec_state() == old(self).spec_state()
            } else {
                r is Ok && final(self).spec_state() == State::ErrorCommandReceived
            },
    {
        if self.state != State::WaitingForWelcome && self.state != State::WaitingForReady {
            return Err(EPROTO);
        }
        if data.len() < BRIEF_LEN_SIZE {
            return Err(EPROTO);
        }
        let error_reason_len = data[0] as usize;
        if error_reason_len > data.len() - BRIEF_LEN_SIZE {
            return Err(EPROTO);
        }
        self.state = State::ErrorCommandReceived;
        Ok(())
    }
}

} // verus!
