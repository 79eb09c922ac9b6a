use crate::mechanism::append_bytes;
use crate::socks::{auth_request_bytes, utf8_bytes};
use vstd::prelude::*;

verus! {

/// How the connector authenticates to the proxy.
#[derive(Debug, Clone, Copy, PartialEq, Eq, Structural)]
pub enum AuthMethod {
    NoAuthRequired,
    BasicAuth,
    NoAcceptableMethod,
}

/// The byte that names an authentication method on the wire.
pub open spec fn auth_code(m: AuthMethod) -> u8 {
    match m {
        AuthMethod::NoAuthRequired => 0x00,
        AuthMethod::BasicAuth => 0x02,
        AuthMethod::NoAcceptableMethod => 0xff,
    }
}

impl AuthMethod {
    pub fn code(&self) -> (b: u8)
        ensures
            b == auth_code(*self),
    {
        match self {
            AuthMethod::NoAuthRequired => 0x00,
            AuthMethod::BasicAuth => 0x02,
            AuthMethod::NoAcceptableMethod => 0xff,
        }
    }
}

/// Where a connection through the proxy stands.
#[derive(Debug, Clone, Copy, PartialEq, Eq, Structural)]
pub enum Status {
    Unplugged,
    WaitingForReconnect,
    WaitingForProxyConnection,
    SendingGreeting,
    WaitingForChoice,
    SendingBasicAuthRequest,
    WaitingForAuthResponse,
    SendingRequest,
    WaitingForResponse,
}

/// Why a connection through the proxy failed.
#[derive(Debug, Clone, Copy, PartialEq, Eq, Structural)]
pub enum ConnectError {
    /// The proxy does not speak SOCKS 5.
    InvalidProtocol,
    /// The proxy chose a method the connector does not offer.
    UnsupportedAuthMethod,
    /// The proxy refused the username and password.
    AuthenticationFailed,
    /// The proxy could not connect to the target.
    ConnectionFailed,
    /// The proxy's reply holds an address of an unknown type.
    InvalidAddressType,
}

/// What to send after the proxy's choice of method.
#[derive(Debug, Clone, Copy, PartialEq, Eq, Structural)]
pub enum NextStep {
    /// The connection request, at once.
    SendRequest,
    /// The username and password first.
    SendBasicAuth,
}

/// The address the proxy is to connect to: four or sixteen bytes, and a
/// port.
#[derive(Debug, Clone, Copy)]
pub enum TargetAddr {
    V4([u8; 4], u16),
    V6([u8; 16], u16),
}

/// The greeting: version 5, one method, the method.
pub open spec fn greeting_bytes(m: AuthMethod) -> Seq<u8> {
    seq![5u8, 1u8, auth_code(m)]
}

/// A port's two bytes, most significant first.
pub open spec fn port_bytes(port: u16) -> Seq<u8> {
    seq![(port / 256) as u8, (port % 256) as u8]
}

/// The connection request: version 5, CONNECT, a reserved zero, the address
/// type (1 for IPv4, 4 for IPv6), the address and the port.
pub open spec fn request_bytes(addr: TargetAddr) -> Seq<u8> {
    match addr {
        TargetAddr::V4(a, port) => seq![5u8, 1u8, 0u8, 1u8] + a@ + port_bytes(port),
        TargetAddr::V6(a, port) => seq![5u8, 1u8, 0u8, 4u8] + a@ + port_bytes(port),
    }
}

/// Connects through a SOCKS 5 proxy. The connector decides what to send and
/// what the replies mean; the caller does the reading and writing.
pub struct SocksConnector {
    pub proxy_addr: String,
    pub target_addr: String,
    pub auth_method: AuthMethod,
    pub auth_username: String,
    pub auth_password: String,
    pub status: Status,
}

impl SocksConnector {
    pub fn new(proxy_addr: String, target_addr: String) -> (c: Self)
        ensures
            c.proxy_addr == proxy_addr,
            c.target_addr == target_addr,
            c.auth_method == AuthMethod::NoAuthRequired,
            c.auth_username@ == Seq::<char>::empty(),
            c.auth_password@ == Seq::<char>::empty(),
            c.status == Status::Unplugged,
    {
        SocksConnector {
            proxy_addr,
            target_addr,
            auth_method: AuthMethod::NoAuthRequired,
            auth_username: String::new(),
            auth_password: String::new(),
            status: Status::Unplugged,
        }
    }

    /// Authenticates with a username and password.
    pub fn set_auth_method_basic(&mut self, username: String, password: String)
        ensures
            final(self).auth_method == AuthMethod::BasicAuth,
            final(self).auth_username == username,
            final(self).auth_password == password,
            final(self).proxy_addr == old(self).proxy_addr,
            final(self).target_addr == old(self).target_addr,
            final(self).status == old(self).status,
    {
        self.auth_method = AuthMethod::BasicAuth;
        self.auth_username = username;
        self.auth_password = password;
    }

    /// Authenticates with nothing; the username and password are cleared.
    pub fn set_auth_method_none(&mut self)
        ensures
            final(self).auth_method == AuthMethod::NoAuthRequired,
            final(self).auth_username@ == Seq::<char>::empty(),
            final(self).auth_password@ == Seq::<char>::empty(),
            final(self).proxy_addr == old(self).proxy_addr,
            final(self).target_addr == old(self).target_addr,
            final(self).status == old(self).status,
    {
        self.auth_method = AuthMethod::NoAuthRequired;
        self.auth_username = String::new();
        self.auth_password = String::new();
    }

    /// The greeting to send first.
    pub fn greeting(&self) -> (g: Vec<u8>)
        ensures
            g@ == greeting_bytes(self.auth_method),
    {
        let mut g = Vec::new();
        g.push(5u8);
        g.push(1u8);
        g.push(self.auth_method.code());
        assert(g@ =~= greeting_bytes(self.auth_method));
        g
    }

    /// What the proxy's two-byte choice asks for next.
    pub fn on_choice(&self, response: [u8; 2]) -> (r: Result<NextStep, ConnectError>)
        ensures
            response@[0] != 5 ==> r == Err::<NextStep, ConnectError>(ConnectError::InvalidProtocol),
            response@[0] == 5 && response@[1] == 0 ==> r == Ok::<NextStep, ConnectError>(
                NextStep::SendRequest,
            ),
            response@[0] == 5 && response@[1] == 2 ==> r == Ok::<NextStep, ConnectError>(
                NextStep::SendBasicAuth,
            ),
            response@[0] == 5 && response@[1] != 0 && response@[1] != 2 ==> r == Err::<
                NextStep,
                ConnectError,
            >(ConnectError::UnsupportedAuthMethod),
    {
        if response[0] != 5 {
            return Err(ConnectError::InvalidProtocol);
        }
        if response[1] == 0 {
            Ok(NextStep::SendRequest)
        } else if response[1] == 2 {
            Ok(NextStep::SendBasicAuth)
        } else {
            Err(ConnectError::UnsupportedAuthMethod)
        }
    }

    /// The username and password request: version 1, then the UTF-8 bytes
    /// of each after their length (cut to a byte).
    pub fn basic_auth_request(&self) -> (r: Vec<u8>)
        ensures
            r@ == auth_request_bytes(utf8_bytes(self.auth_username), utf8_bytes(self.auth_password)),
    {
        let user = self.auth_username.as_str().as_bytes();
        let pass = self.auth_password.as_str().as_bytes();
        let mut r: Vec<u8> = Vec::new();
        r.push(1u8);
        r.push((user.len() % 256) as u8);
        append_bytes(&mut r, user);
        r.push((pass.len() % 256) as u8);
        append_bytes(&mut r, pass);
        assert(r@ =~= auth_request_bytes(utf8_bytes(self.auth_username), utf8_bytes(self.auth_password)));
        r
    }

    /// Whether the proxy accepted the username and password.
    pub fn on_auth_response(&self, response: [u8; 2]) -> (r: Result<(), ConnectError>)
        ensures
            response@[1] == 0 ==> r is Ok,
            response@[1] != 0 ==> r == Err::<(), ConnectError>(ConnectError::AuthenticationFailed),
    {
        if response[1] != 0 {
            Err(ConnectError::AuthenticationFailed)
        } else {
            Ok(())
        }
    }

    /// The request to connect to `addr`.
    pub fn connection_request(&self, addr: &TargetAddr) -> (r: Vec<u8>)
        ensures
            r@ == request_bytes(*addr),
    {
        let mut r: Vec<u8> = Vec::new();
        r.push(5u8);
        r.push(1u8);
        r.push(0u8);
        let port = match addr {
            TargetAddr::V4(a, port) => {
                r.push(1u8);
                append_bytes(&mut r, a.as_slice());
                *port
            },
            TargetAddr::V6(a, port) => {
                r.push(4u8);
                append_bytes(&mut r, a.as_slice());
                *port
            },
        };
        r.push((port / 256) as u8);
        r.push((port % 256) as u8);
        assert(r@ =~= request_bytes(*addr));
        r
    }

    /// What the first four bytes of the proxy's reply to the request mean:
    /// how many more bytes (the bound address and port) to read and skip.
    pub fn on_connection_response(&self, head: [u8; 4]) -> (r: Result<usize, ConnectError>)
        ensures
            head@[1] != 0 ==> r == Err::<usize, ConnectError>(ConnectError::ConnectionFailed),
            head@[1] == 0 && head@[3] == 1 ==> r == Ok::<usize, ConnectError>(6),
            head@[1] == 0 && head@[3] == 4 ==> r == Ok::<usize, ConnectError>(18),
            head@[1] == 0 && head@[3] != 1 && head@[3] != 4 ==> r == Err::<usize, ConnectError>(
                ConnectError::InvalidAddressType,
            ),
    {
        if head[1] != 0 {
            return Err(ConnectError::ConnectionFailed);
        }
        if head[3] == 1 {
            Ok(6)
        } else if head[3] == 4 {
            Ok(18)
        } else {
            Err(ConnectError::InvalidAddressType)
        }
    }
}

/// The CONNECT request for an IPv6 target is 22 bytes: version 5, CONNECT,
/// a reserved zero, address type 4, the sixteen address bytes in the order
/// given, then the port, most significant byte first. For an IPv4 target it
/// is 10 bytes: the same head with address type 1, the four address bytes
/// in order, then the port.
pub proof fn law_request_carries_the_target(addr: TargetAddr)
    ensures
        request_bytes(addr).subrange(0, 3) == seq![5u8, 1u8, 0u8],
        match addr {
            TargetAddr::V6(a, port) => {
                let r = request_bytes(addr);
                &&& r.len() == 22
                &&& r[3] == 4u8
                &&& r.subrange(4, 20) == a@
                &&& r[20] as int * 256 + r[21] as int == port as int
            },
            TargetAddr::V4(a, port) => {
                let r = request_bytes(addr);
                &&& r.len() == 10
                &&& r[3] == 1u8
                &&& r.subrange(4, 8) == a@
                &&& r[8] as int * 256 + r[9] as int == port as int
            },
        },
{
    match addr {
        TargetAddr::V6(a, port) => {
            let r = request_bytes(addr);
            assert(r.subrange(0, 3) =~= seq![5u8, 1u8, 0u8]);
            assert(r.subrange(4, 20) =~= a@);
        },
        TargetAddr::V4(a, port) => {
            let r = request_bytes(addr);
            assert(r.subrange(0, 3) =~= seq![5u8, 1u8, 0u8]);
            assert(r.subrange(4, 8) =~= a@);
        },
    }
}

} // verus!
