use vstd::prelude::*;

verus! {

/// The version byte that opens a SOCKS5 greeting and the server's choice.
pub const SOCKS_VERSION: u8 = 5;

/// The version byte of the username/password sub-negotiation.
pub const BASIC_AUTH_VERSION: u8 = 1;

/// The largest length that fits in a length byte.
pub const MAX_UINT8: usize = 255;

/// A length written in one byte keeps its low eight bits.
pub open spec fn len_byte(n: nat) -> u8 {
    (n % 256) as u8
}

/// The UTF-8 bytes of a string.
pub open spec fn utf8_bytes(s: String) -> Seq<u8> {
    vstd::utf8::encode_utf8(s@)
}

/// Wire form of a greeting: version, method count, the methods.
pub open spec fn greeting_bytes(methods: Seq<u8>) -> Seq<u8> {
    seq![SOCKS_VERSION, len_byte(methods.len())] + methods
}

/// Wire form of a username/password request: version, then each field
/// preceded by its length byte.
pub open spec fn auth_request_bytes(username: Seq<u8>, password: Seq<u8>) -> Seq<u8> {
    seq![BASIC_AUTH_VERSION, len_byte(username.len())] + username + seq![
        len_byte(password.len()),
    ] + password
}

/// The buffer of a choice decoder after `input` has been copied in at `from`,
/// `n` bytes of it.
pub open spec fn copied_in(buf: Seq<u8>, from: int, input: Seq<u8>, n: int) -> Seq<u8> {
    Seq::new(buf.len(), |i: int| if from <= i < from + n { input[i - from] } else { buf[i] })
}

pub open spec fn min_nat(a: int, b: int) -> int {
    if a <= b {
        a
    } else {
        b
    }
}

fn len_as_byte(n: usize) -> (b: u8)
    ensures
        b == len_byte(n as nat),
{
    (n % 256) as u8
}

fn append_bytes(buf: &mut Vec<u8>, src: &[u8])
    ensures
        final(buf)@ == old(buf)@ + src@,
{
    let mut i: usize = 0;
    while i < src.len()
        invariant
            i <= src@.len(),
            buf@ == old(buf)@ + src@.take(i as int),
        decreases src@.len() - i,
    {
        buf.push(src[i]);
        i += 1;
        assert(src@.take(i as int) =~= src@.take(i - 1).push(src@[i - 1]));
    }
    assert(src@.take(src@.len() as int) =~= src@);
}

/// The methods a client offers.
pub struct SocksGreeting {
    methods: Vec<u8>,
}

impl SocksGreeting {
    pub closed spec fn spec_methods(&self) -> Seq<u8> {
        self.methods@
    }

    pub fn new(method: u8) -> (g: Self)
        ensures
            g.spec_methods() == seq![method],
    {
        let mut methods: Vec<u8> = Vec::new();
        methods.push(method);
        Self { methods }
    }

    pub fn with_methods(methods: &[u8]) -> (g: Self)
        ensures
            g.spec_methods() == methods@,
    {
        Self { methods: vstd::slice::slice_to_vec(methods) }
    }
}

/// Holds an encoded greeting and how much of it has been handed out.
pub struct SocksGreetingEncoder {
    buffer: Vec<u8>,
    bytes_written: usize,
}

impl SocksGreetingEncoder {
    pub closed spec fn spec_buffer(&self) -> Seq<u8> {
        self.buffer@
    }

    pub closed spec fn spec_written(&self) -> nat {
        self.bytes_written as nat
    }

    /// What has been encoded and not yet written.
    pub open spec fn spec_pending(&self) -> Seq<u8> {
        self.spec_buffer().subrange(self.spec_written() as int, self.spec_buffer().len() as int)
    }

    pub open spec fn wf(&self) -> bool {
        self.spec_written() <= self.spec_buffer().len()
    }

    pub fn new() -> (e: Self)
        ensures
            e.wf(),
            e.spec_buffer() == Seq::<u8>::empty(),
            e.spec_written() == 0,
    {
        Self { buffer: Vec::new(), bytes_written: 0 }
    }

    pub fn encode(&mut self, greeting: &SocksGreeting)
        ensures
            final(self).wf(),
            final(self).spec_buffer() == greeting_bytes(greeting.spec_methods()),
            final(self).spec_written() == 0,
    {
        self.buffer.clear();
        self.buffer.push(SOCKS_VERSION);
        self.buffer.push(len_as_byte(greeting.methods.len()));
        append_bytes(&mut self.buffer, greeting.methods.as_slice());
        self.bytes_written = 0;
    }

    /// Hands the pending bytes to `sink`, which takes at most `capacity` of
    /// them, and returns how many it took.
    pub fn write(&mut self, sink: &mut Vec<u8>, capacity: usize) -> (n: usize)
        requires
            old(self).wf(),
        ensures
            n == min_nat(capacity as int, old(self).spec_pending().len() as int),
            final(sink)@ == old(sink)@ + old(self).spec_pending().take(n as int),
            final(self).spec_buffer() == old(self).spec_buffer(),
            final(self).spec_written() == old(self).spec_written() + n,
            final(self).wf(),
    {
        let remaining = self.buffer.len() - self.bytes_written;
        let n = if capacity < remaining {
            capacity
        } else {
            remaining
        };
        let chunk = vstd::slice::slice_subrange(
            self.buffer.as_slice(),
            self.bytes_written,
            self.bytes_written + n,
        );
        append_bytes(sink, chunk);
        assert(chunk@ =~= old(self).spec_pending().take(n as int));
        self.bytes_written = self.bytes_written + n;
        n
    }

    pub fn has_pending_data(&self) -> (r: bool)
        ensures
            r == (self.spec_written() < self.spec_buffer().len()),
    {
        self.bytes_written < self.buffer.len()
    }

    pub fn reset(&mut self)
        ensures
            final(self).wf(),
            final(self).spec_buffer() == Seq::<u8>::empty(),
            final(self).spec_written() == 0,
    {
        self.buffer.clear();
        self.bytes_written = 0;
    }
}

/// The method the server picked.
pub struct SocksChoice {
    pub method: u8,
}

/// Why a choice message is refused.
#[derive(Clone, Copy, PartialEq, Eq, Debug)]
pub enum SocksError {
    /// The first byte is not the SOCKS5 version.
    InvalidVersion,
}

/// Collects the two bytes of the server's choice.
pub struct SocksChoiceDecoder {
    buffer: [u8; 2],
    bytes_read: usize,
}

impl SocksChoiceDecoder {
    pub closed spec fn spec_buffer(&self) -> Seq<u8> {
        self.buffer@
    }

    pub closed spec fn spec_read(&self) -> nat {
        self.bytes_read as nat
    }

    pub open spec fn wf(&self) -> bool {
        &&& self.spec_read() <= 2
        &&& self.spec_buffer().len() == 2
    }

    pub fn new() -> (d: Self)
        ensures
            d.wf(),
            d.spec_buffer() == seq![0u8, 0u8],
            d.spec_read() == 0,
    {
        let d = Self { buffer: [0u8, 0u8], bytes_read: 0 };
        assert(d.buffer@ =~= seq![0u8, 0u8]);
        d
    }

    /// Takes bytes from `input` into the free part of the buffer, as many as
    /// fit, and returns how many it took; refuses a first byte that is not the
    /// SOCKS5 version, in which case the bytes stay in the buffer but do not
    /// count as read.
    pub fn read(&mut self, input: &[u8]) -> (r: Result<usize, SocksError>)
        requires
            old(self).wf(),
        ensures
            ({
                let n = min_nat(input@.len() as int, 2 - old(self).spec_read());
                let buf = copied_in(old(self).spec_buffer(), old(self).spec_read() as int, input@, n);
                &&& final(self).wf()
                &&& final(self).spec_buffer() == buf
                &&& match r {
                    Ok(k) => {
                        &&& !(n > 0 && buf[0] != SOCKS_VERSION)
                        &&& k == n
                        &&& final(self).spec_read() == old(self).spec_read() + n
                    },
                    Err(e) => {
                        &&& n > 0 && buf[0] != SOCKS_VERSION
                        &&& e == SocksError::InvalidVersion
                        &&& final(self).spec_read() == old(self).spec_read()
                    },
                }
            }),
    {
        let free = 2 - self.bytes_read;
        let n = if input.len() < free {
            input.len()
        } else {
            free
        };
        let ghost buf0 = self.buffer@;
        let mut i: usize = 0;
        while i < n
            invariant
                i <= n,
                n <= input@.len(),
                self.bytes_read + n <= 2,
                self.bytes_read == old(self).bytes_read,
                self.buffer@.len() == 2,
                forall|j: int|
                    0 <= j < 2 ==> #[trigger] self.buffer@[j] == if self.bytes_read <= j
                        < self.bytes_read + i {
                        input@[j - self.bytes_read]
                    } else {
                        buf0[j]
                    },
            decreases n - i,
        {
            let at = self.bytes_read + i;
            self.buffer[at] = input[i];
            i += 1;
        }
        assert(self.buffer@ =~= copied_in(buf0, self.bytes_read as int, input@, n as int));
        if n > 0 && self.buffer[0] != SOCKS_VERSION {
            return Err(SocksError::InvalidVersion);
        }
        self.bytes_read = self.bytes_read + n;
        Ok(n)
    }

    pub fn message_ready(&self) -> (r: bool)
        ensures
            r == (self.spec_read() == 2),
    {
        self.bytes_read == 2
    }

    pub fn decode(&self) -> (c: SocksChoice)
        requires
            self.wf(),
            self.spec_read() == 2,
        ensures
            c.method == self.spec_buffer()[1],
    {
        SocksChoice { method: self.buffer[1] }
    }

    pub fn reset(&mut self)
        ensures
            final(self).spec_buffer() == old(self).spec_buffer(),
            final(self).spec_read() == 0,
    {
        self.bytes_read = 0;
    }
}

/// A username and password, each at most 255 bytes long.
pub struct SocksBasicAuthRequest {
    username: String,
    password: String,
}

impl SocksBasicAuthRequest {
    pub closed spec fn spec_username(&self) -> String {
        self.username
    }

    pub closed spec fn spec_password(&self) -> String {
        self.password
    }

    pub fn new(username: String, password: String) -> (r: Self)
        requires
            utf8_bytes(username).len() <= MAX_UINT8,
            utf8_bytes(password).len() <= MAX_UINT8,
        ensures
            r.spec_username() == username,
            r.spec_password() == password,
    {
        Self { username, password }
    }
}

/// Holds an encoded username/password request.
pub struct SocksBasicAuthRequestEncoder {
    buffer: Vec<u8>,
    bytes_written: usize,
}

impl SocksBasicAuthRequestEncoder {
    pub closed spec fn spec_buffer(&self) -> Seq<u8> {
        self.buffer@
    }

    pub closed spec fn spec_written(&self) -> nat {
        self.bytes_written as nat
    }

    pub fn new() -> (e: Self)
        ensures
            e.spec_buffer() == Seq::<u8>::empty(),
            e.spec_written() == 0,
    {
        Self { buffer: Vec::new(), bytes_written: 0 }
    }

    pub fn encode(&mut self, req: &SocksBasicAuthRequest)
        ensures
            final(self).spec_buffer() == auth_request_bytes(
                utf8_bytes(req.spec_username()),
                utf8_bytes(req.spec_password()),
            ),
            final(self).spec_written() == 0,
    {
        let user = req.username.as_str().as_bytes();
        let pass = req.password.as_str().as_bytes();
        self.buffer.clear();
        self.buffer.push(BASIC_AUTH_VERSION);
        self.buffer.push(len_as_byte(user.len()));
        append_bytes(&mut self.buffer, user);
        self.buffer.push(len_as_byte(pass.len()));
        append_bytes(&mut self.buffer, pass);
        self.bytes_written = 0;
    }
}

/// A connect request: command, host name (at most 255 bytes) and port.
pub struct SocksRequest {
    command: u8,
    hostname: String,
    port: u16,
}

impl SocksRequest {
    pub closed spec fn spec_command(&self) -> u8 {
        self.command
    }

    pub closed spec fn spec_hostname(&self) -> String {
        self.hostname
    }

    pub closed spec fn spec_port(&self) -> u16 {
        self.port
    }

    pub fn new(command: u8, hostname: String, port: u16) -> (r: Self)
        requires
            utf8_bytes(hostname).len() <= MAX_UINT8,
        ensures
            r.spec_command() == command,
            r.spec_hostname() == hostname,
            r.spec_port() == port,
    {
        Self { command, hostname, port }
    }
}

/// The server's answer to a request.
pub struct SocksResponse {
    response_code: u8,
    address: String,
    port: u16,
}

impl SocksResponse {
    pub closed spec fn spec_response_code(&self) -> u8 {
        self.response_code
    }

    pub closed spec fn spec_address(&self) -> String {
        self.address
    }

    pub closed spec fn spec_port(&self) -> u16 {
        self.port
    }

    pub fn new(response_code: u8, address: String, port: u16) -> (r: Self)
        ensures
            r.spec_response_code() == response_code,
            r.spec_address() == address,
            r.spec_port() == port,
    {
        Self { response_code, address, port }
    }
}


/// The server's two-byte choice can arrive in one read or in two: after
/// the version byte and then the method byte, the buffer holds both.
pub proof fn law_choice_in_two_reads(buf: Seq<u8>, method: u8)
    requires
        buf.len() == 2,
    ensures
        copied_in(copied_in(buf, 0, seq![SOCKS_VERSION], 1), 1, seq![method], 1) == seq![
            SOCKS_VERSION,
            method,
        ],
        copied_in(buf, 0, seq![SOCKS_VERSION, method], 2) == seq![SOCKS_VERSION, method],
{
    assert(copied_in(copied_in(buf, 0, seq![SOCKS_VERSION], 1), 1, seq![method], 1) =~= seq![
        SOCKS_VERSION,
        method,
    ]);
    assert(copied_in(buf, 0, seq![SOCKS_VERSION, method], 2) =~= seq![SOCKS_VERSION, method]);
}

} // verus!
