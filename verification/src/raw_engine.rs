use vstd::prelude::*;

verus! {

/// What a connection's engine does for its socket.
pub trait IEngine {
    fn error(&mut self, reason: i32);

    fn plug_internal(&mut self);

    fn handshake(&mut self) -> bool;
}

/// The poller registrations of an engine.
pub trait IoObject {
    fn set_pollin(&mut self);

    fn set_pollout(&mut self);

    fn in_event(&mut self);
}

/// The settings an engine reads.
#[derive(Clone, Copy)]
pub struct Options {
    pub out_batch_size: usize,
    pub in_batch_size: usize,
    pub raw_socket: bool,
    pub raw_notify: bool,
}

/// Properties of a connection, name and value.
pub struct Metadata {
    properties: Vec<(String, String)>,
}

impl Metadata {
    pub closed spec fn spec_properties(&self) -> Seq<(String, String)> {
        self.properties@
    }

    pub fn new(properties: Vec<(String, String)>) -> (m: Self)
        ensures
            m.spec_properties() == properties@,
    {
        Self { properties }
    }

    /// A copy with the same properties.
    pub fn duplicate(&self) -> (m: Self)
        ensures
            m.spec_properties() == self.spec_properties(),
    {
        let mut properties: Vec<(String, String)> = Vec::new();
        let mut i: usize = 0;
        while i < self.properties.len()
            invariant
                i <= self.properties@.len(),
                properties@ == self.properties@.take(i as int),
            decreases self.properties@.len() - i,
        {
            let name = self.properties[i].0.clone();
            let value = self.properties[i].1.clone();
            properties.push((name, value));
            i += 1;
            assert(properties@ =~= self.properties@.take(i as int));
        }
        assert(self.properties@.take(self.properties@.len() as int) =~= self.properties@);
        Self { properties }
    }
}

/// A message: its bytes and the metadata of its connection.
pub struct Msg {
    pub data: Vec<u8>,
    pub metadata: Option<Box<Metadata>>,
}

impl Msg {
    pub fn new() -> (m: Self)
        ensures
            m.data@ == Seq::<u8>::empty(),
            m.metadata is None,
    {
        Self { data: Vec::new(), metadata: None }
    }

    pub fn set_metadata(&mut self, metadata: Box<Metadata>)
        ensures
            final(self).metadata == Some(metadata),
            final(self).data == old(self).data,
    {
        self.metadata = Some(metadata);
    }
}

/// The local and remote address of a connection.
pub struct EndpointUriPair {
    pub local: String,
    pub remote: String,
}

/// What every stream engine holds: its descriptor, settings, addresses, the
/// connection's metadata once known, and the messages it handed to its
/// session.
pub struct StreamEngineBase {
    fd: i32,
    options: Options,
    endpoint_pair: EndpointUriPair,
    metadata: Option<Box<Metadata>>,
    to_session: Vec<Msg>,
}

/// The engine of a raw TCP connection: bytes in, bytes out, and an empty
/// message to the socket when the connection comes and goes, where the
/// options ask for that.
pub struct RawEngine {
    base: StreamEngineBase,
}

impl RawEngine {
    pub closed spec fn spec_options(&self) -> Options {
        self.base.options
    }

    pub closed spec fn spec_fd(&self) -> i32 {
        self.base.fd
    }

    /// Whether the engine knows the connection's metadata.
    pub closed spec fn has_metadata(&self) -> bool {
        self.base.metadata is Some
    }

    /// The messages handed to the session: their bytes and whether each
    /// carries metadata.
    pub closed spec fn session_log(&self) -> Seq<(Seq<u8>, bool)> {
        self.base.to_session@.map_values(|m: Msg| (m.data@, m.metadata is Some))
    }

    pub fn new(fd: i32, options: Options, endpoint_pair: EndpointUriPair) -> (e: Self)
        ensures
            e.spec_fd() == fd,
            e.spec_options() == options,
            !e.has_metadata(),
            e.session_log() == Seq::<(Seq<u8>, bool)>::empty(),
    {
        let e = Self {
            base: StreamEngineBase {
                fd,
                options,
                endpoint_pair,
                metadata: None,
                to_session: Vec::new(),
            },
        };
        assert(e.session_log() =~= Seq::<(Seq<u8>, bool)>::empty());
        e
    }

    /// How many messages went to the session.
    pub fn session_count(&self) -> (n: usize)
        ensures
            n == self.session_log().len(),
    {
        self.base.to_session.len()
    }

    /// The `i`-th message handed to the session: its bytes, and whether it
    /// carries metadata.
    pub fn session_message(&self, i: usize) -> (r: (&[u8], bool))
        requires
            i < self.session_log().len(),
        ensures
            r.0@ == self.session_log()[i as int].0,
            r.1 == self.session_log()[i as int].1,
    {
        let m = &self.base.to_session[i];
        (m.data.as_slice(), m.metadata.is_some())
    }

    /// Hands a message to the session, giving it the connection's metadata
    /// if it has none.
    fn push_raw_msg_to_session(&mut self, msg: Msg) -> (rc: i32)
        ensures
            rc == 0,
            final(self).session_log() == old(self).session_log().push(
                (msg.data@, msg.metadata is Some || old(self).has_metadata()),
            ),
            final(self).has_metadata() == old(self).has_metadata(),
            final(self).spec_options() == old(self).spec_options(),
            final(self).spec_fd() == old(self).spec_fd(),
    {
        let mut msg = msg;
        match &self.base.metadata {
            Some(metadata) => {
                if msg.metadata.is_none() {
                    msg.set_metadata(Box::new(metadata.duplicate()));
                }
            },
            None => {},
        }
        self.push_msg_to_session(msg)
    }

    fn push_msg_to_session(&mut self, msg: Msg) -> (rc: i32)
        ensures
            rc == 0,
            final(self).session_log() == old(self).session_log().push(
                (msg.data@, msg.metadata is Some),
            ),
            final(self).has_metadata() == old(self).has_metadata(),
            final(self).spec_options() == old(self).spec_options(),
            final(self).spec_fd() == old(self).spec_fd(),
    {
        let ghost m = (msg.data@, msg.metadata is Some);
        self.base.to_session.push(msg);
        assert(self.session_log() =~= old(self).session_log().push(m));
        0
    }

    /// The connection's properties: a raw connection announces none.
    fn init_properties(&mut self, properties: &mut Vec<(String, String)>) -> (r: bool)
        ensures
            r,
            final(properties)@ == old(properties)@,
            *final(self) == *old(self),
    {
        true
    }
}

impl IEngine for RawEngine {
    /// The connection failed: a raw socket that asked to be told gets an
    /// empty message.
    fn error(&mut self, reason: i32)
        ensures
            final(self).has_metadata() == old(self).has_metadata(),
            final(self).spec_options() == old(self).spec_options(),
            final(self).session_log() == if old(self).spec_options().raw_socket && old(self).spec_options().raw_notify {
                old(self).session_log().push((Seq::<u8>::empty(), old(self).has_metadata()))
            } else {
                old(self).session_log()
            },
    {
        if self.base.options.raw_socket && self.base.options.raw_notify {
            let terminator = Msg::new();
            let _ = self.push_raw_msg_to_session(terminator);
        }
    }

    /// The engine starts: it learns the connection's metadata and, if asked
    /// to, tells the socket with an empty message.
    fn plug_internal(&mut self)
        ensures
            final(self).has_metadata(),
            final(self).spec_options() == old(self).spec_options(),
            final(self).session_log() == if old(self).spec_options().raw_notify {
                old(self).session_log().push((Seq::<u8>::empty(), true))
            } else {
                old(self).session_log()
            },
    {
        let mut properties: Vec<(String, String)> = Vec::new();
        if self.init_properties(&mut properties) {
            self.base.metadata = Some(Box::new(Metadata::new(properties)));
        }
        if self.base.options.raw_notify {
            let connector = Msg::new();
            let _ = self.push_raw_msg_to_session(connector);
        }
        self.set_pollin();
        self.set_pollout();
        self.in_event();
    }

    /// A raw connection has no handshake.
    fn handshake(&mut self) -> (r: bool)
        ensures
            r,
            *final(self) == *old(self),
    {
        true
    }
}

impl IoObject for RawEngine {
    fn set_pollin(&mut self)
        ensures
            *final(self) == *old(self),
    {
    }

    fn set_pollout(&mut self)
        ensures
            *final(self) == *old(self),
    {
    }

    fn in_event(&mut self)
        ensures
            *final(self) == *old(self),
    {
    }
}

} // verus!
