use crate::own::Own;
use vstd::prelude::*;

verus! {

/// The context objects live in.
#[derive(Clone, Copy)]
pub struct Context;

/// An endpoint a socket is bound to.
pub struct Endpoint {}

/// The I/O thread an object can be given to.
pub struct IoThread {}

/// The local and remote address of a connection.
pub struct EndpointUriPair {}

/// The commands objects send each other.
#[derive(Debug, Clone, Copy, PartialEq, Eq, Structural)]
pub enum CommandType {
    ActivateRead,
    ActivateWrite { msgs_read: u64 },
    Stop,
    Plug,
}

/// A command and the thread of the object it goes to.
pub struct Command {
    pub destination_tid: u32,
    pub cmd_type: CommandType,
}

/// Something that lives in a thread of the context and takes commands.
pub struct ObjectImpl {
    ctx: Context,
    tid: u32,
}

impl ObjectImpl {
    pub closed spec fn spec_tid(&self) -> u32 {
        self.tid
    }

    pub fn new(ctx: Context, tid: u32) -> (o: Self)
        ensures
            o.spec_tid() == tid,
    {
        Self { ctx, tid }
    }

    /// An object in the context and thread of `parent`.
    pub fn from_parent(parent: &ObjectImpl) -> (o: Self)
        ensures
            o.spec_tid() == parent.spec_tid(),
    {
        Self { ctx: parent.ctx, tid: parent.tid }
    }

    /// The context the object lives in.
    pub fn get_ctx(&self) -> (c: &Context) {
        &self.ctx
    }

    pub fn get_tid(&self) -> (t: u32)
        ensures
            t == self.spec_tid(),
    {
        self.tid
    }

    pub fn set_tid(&mut self, id: u32)
        ensures
            final(self).spec_tid() == id,
    {
        self.tid = id;
    }

    /// Hands a command to the thread it goes to; this object keeps no
    /// mailbox of its own.
    pub fn send_command(&self, cmd: Command) {
    }

    /// Registers an endpoint under `addr`; always accepted.
    pub fn register_endpoint(&self, addr: &str, endpoint: Endpoint) -> (r: Result<(), &'static str>)
        ensures
            r is Ok,
    {
        Ok(())
    }

    /// Picks an I/O thread for `affinity`; this object has none to offer.
    pub fn choose_io_thread(&self, affinity: u64) -> (r: Option<IoThread>)
        ensures
            r is None,
    {
        None
    }

    /// Tells `destination` to plug itself in; counts the command first
    /// when `inc_seqnum` asks for it.
    pub fn send_plug(&self, destination: &mut Own, inc_seqnum: bool)
        ensures
            final(destination).sent_seqnum == (if inc_seqnum {
                old(destination).sent_seqnum.wrapping_add(1)
            } else {
                old(destination).sent_seqnum
            }),
            final(destination).processed_seqnum == old(destination).processed_seqnum,
            final(destination).id == old(destination).id,
            final(destination).options == old(destination).options,
            final(destination).terminating == old(destination).terminating,
            final(destination).owner == old(destination).owner,
            final(destination).owned == old(destination).owned,
            final(destination).term_acks == old(destination).term_acks,
    {
        if inc_seqnum {
            destination.inc_seqnum();
        }
        let cmd = Command { destination_tid: self.tid, cmd_type: CommandType::Plug };
        self.send_command(cmd);
    }

    /// Asks this object's own thread to stop it.
    pub fn send_stop(&self) {
        let cmd = Command { destination_tid: self.tid, cmd_type: CommandType::Stop };
        self.send_command(cmd);
    }
}

} // verus!
