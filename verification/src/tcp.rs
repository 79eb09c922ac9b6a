use vstd::prelude::*;

verus! {

/// Transport-level options applied to a TCP socket.
pub struct TcpOptions {
    pub sndbuf: i32,
    pub rcvbuf: i32,
    pub tos: u8,
    pub priority: i32,
    pub loopback_fastpath: bool,
    pub busy_poll: i32,
    pub bound_device: String,
    pub ipv6: bool,
}

impl Default for TcpOptions {
    /// Kernel defaults: buffer sizes untouched (-1), no TOS, no priority,
    /// no fast path, no busy polling, no bound device, IPv4 only.
    fn default() -> (opts: Self)
        ensures
            opts.sndbuf == -1,
            opts.rcvbuf == -1,
            opts.tos == 0,
            opts.priority == 0,
            !opts.loopback_fastpath,
            opts.busy_poll == 0,
            opts.bound_device@.len() == 0,
            !opts.ipv6,
    {
        TcpOptions {
            sndbuf: -1,
            rcvbuf: -1,
            tos: 0,
            priority: 0,
            loopback_fastpath: false,
            busy_poll: 0,
            bound_device: String::new(),
            ipv6: false,
        }
    }
}

/// What to set on a socket just opened: the send and receive buffer sizes
/// where the options give them, the loopback fast path where asked for,
/// and busy polling for this many microseconds where asked for.
#[derive(PartialEq, Eq, Debug, Clone, Copy, Structural)]
pub struct TcpTuning {
    pub sndbuf: Option<i32>,
    pub rcvbuf: Option<i32>,
    pub loopback_fastpath: bool,
    pub busy_poll: Option<i32>,
}

/// The settings `tcp_open_socket` applies for `options`: a buffer size of
/// 0 or more is set, a negative one left to the system; busy polling is set
/// when positive.
pub fn tcp_open_plan(options: &TcpOptions) -> (t: TcpTuning)
    ensures
        t.sndbuf == (if options.sndbuf >= 0 { Some(options.sndbuf) } else { None::<i32> }),
        t.rcvbuf == (if options.rcvbuf >= 0 { Some(options.rcvbuf) } else { None::<i32> }),
        t.loopback_fastpath == options.loopback_fastpath,
        t.busy_poll == (if options.busy_poll > 0 { Some(options.busy_poll) } else { None::<i32> }),
{
    TcpTuning {
        sndbuf: if options.sndbuf >= 0 { Some(options.sndbuf) } else { None },
        rcvbuf: if options.rcvbuf >= 0 { Some(options.rcvbuf) } else { None },
        loopback_fastpath: options.loopback_fastpath,
        busy_poll: if options.busy_poll > 0 { Some(options.busy_poll) } else { None },
    }
}

} // verus!
