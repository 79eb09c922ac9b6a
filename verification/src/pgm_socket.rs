use vstd::prelude::*;

verus! {

/// The options a PGM socket reads.
#[derive(Debug, Clone, Copy, PartialEq, Eq, Structural)]
pub struct Options {
    pub rate: i64,
    pub recovery_ivl: i32,
    pub multicast_hops: i32,
    pub multicast_maxtpdu: usize,
    pub sndbuf: usize,
    pub rcvbuf: usize,
    pub in_batch_size: usize,
}

/// `a / b` rounded towards zero, as Rust divides.
pub open spec fn tdiv(a: int, b: int) -> int {
    let q = (if a < 0 { -a } else { a }) / (if b < 0 { -b } else { b });
    if (a < 0) != (b < 0) {
        -q
    } else {
        q
    }
}

/// The transmit window in packets of `tpdu` bytes: the bytes the rate
/// (bits per second) sends over the recovery interval (seconds), at least
/// one packet.
pub open spec fn sqns(o: Options, tpdu: i32) -> int {
    let size = o.recovery_ivl * tdiv(o.rate as int, 8);
    let n = tdiv(size, tpdu as int);
    if n == 0 {
        1
    } else {
        n
    }
}

/// A PGM socket. The multicast transport is not linked into this library:
/// the socket opens nothing, sends by taking all it is given, and receives
/// nothing.
pub struct PgmSocket {
    pub sock: Option<u64>,
    pub options: Options,
    pub receiver: bool,
    pub pgm_msgv: Option<u64>,
    pub pgm_msgv_len: usize,
    pub nbytes_rec: usize,
    pub nbytes_processed: usize,
    pub pgm_msgv_processed: usize,
    pub last_rx_status: i32,
    pub last_tx_status: i32,
}

impl PgmSocket {
    pub fn new(receiver: bool, options: Options) -> (s: Self)
        ensures
            s.sock is None,
            s.options == options,
            s.receiver == receiver,
            s.pgm_msgv is None,
            s.pgm_msgv_len == 0 && s.nbytes_rec == 0 && s.nbytes_processed == 0
                && s.pgm_msgv_processed == 0,
            s.last_rx_status == 0 && s.last_tx_status == 0,
    {
        PgmSocket {
            sock: None,
            options,
            receiver,
            pgm_msgv: None,
            pgm_msgv_len: 0,
            nbytes_rec: 0,
            nbytes_processed: 0,
            pgm_msgv_processed: 0,
            last_rx_status: 0,
            last_tx_status: 0,
        }
    }

    /// Sets the socket up on `network`; there is nothing to set up.
    pub fn init(&mut self, _udp_encapsulation: bool, _network: &str) -> (r: Result<(), i32>)
        ensures
            r is Ok,
            *final(self) == *old(self),
    {
        Ok(())
    }

    pub fn get_receiver_fds(&self) -> (r: (i32, i32))
        ensures
            r == (0i32, 0i32),
    {
        (0, 0)
    }

    pub fn get_sender_fds(&self) -> (r: (i32, i32, i32, i32))
        ensures
            r == (0i32, 0i32, 0i32, 0i32),
    {
        (0, 0, 0, 0)
    }

    /// Sends `data`: all of it is taken.
    pub fn send(&mut self, data: &[u8]) -> (r: Result<usize, i32>)
        ensures
            r == Ok::<usize, i32>(data@.len() as usize),
            *final(self) == *old(self),
    {
        Ok(data.len())
    }

    /// Receives the next data and who sent it: nothing, from no one.
    pub fn receive(&mut self) -> (r: Result<(Vec<u8>, Option<u64>), i32>)
        ensures
            r matches Ok((d, tsi)) && d@.len() == 0 && tsi is None,
    {
        Ok((Vec::new(), None))
    }

    pub fn get_rx_timeout(&self) -> (t: i64)
        ensures
            t == -1,
    {
        -1
    }

    pub fn get_tx_timeout(&self) -> (t: i64)
        ensures
            t == -1,
    {
        -1
    }

    /// Handles what receivers sent back (repair requests); there is none to
    /// handle, and nothing is held back.
    pub fn process_upstream(&mut self) -> (r: Result<(), i32>)
        ensures
            r is Ok,
            *final(self) == *old(self),
    {
        Ok(())
    }

    /// The largest message one packet carries: as large as the options let
    /// a packet be.
    pub fn get_max_tsdu_size(&self) -> (r: usize)
        ensures
            r == self.options.multicast_maxtpdu,
    {
        self.options.multicast_maxtpdu
    }

    /// The transmit window in packets of `tpdu` bytes (see `sqns`), cut to
    /// 32 bits.
    pub fn compute_sqns(&self, tpdu: i32) -> (r: i32)
        requires
            tpdu != 0,
            i64::MIN <= self.options.recovery_ivl * tdiv(self.options.rate as int, 8) <= i64::MAX,
            !(self.options.recovery_ivl * tdiv(self.options.rate as int, 8) == i64::MIN && tpdu
                == -1),
        ensures
            r == sqns(self.options, tpdu) as i32,
    {
        let rate = self.options.rate / 8;
        assert(rate as int == tdiv(self.options.rate as int, 8));
        let size = (self.options.recovery_ivl as i64) * rate;
        let a: i128 = if size < 0 { -(size as i128) } else { size as i128 };
        let b: i128 = if tpdu < 0 { -(tpdu as i128) } else { tpdu as i128 };
        let q: i128 = a / b;
        assert(0 <= q <= a) by (nonlinear_arith)
            requires
                a >= 0,
                b >= 1,
                q == a / b,
        ;
        assert(size == i64::MIN && tpdu < 0 ==> q <= i64::MAX) by (nonlinear_arith)
            requires
                size == i64::MIN && tpdu < 0 ==> (a == 0x8000_0000_0000_0000 && b >= 2),
                q == a / b,
                b >= 1,
        ;
        assert(q as int == tdiv(size as int, tpdu as int) || q as int == -tdiv(size as int, tpdu as int));
        let mut n: i64 = if (size < 0) != (tpdu < 0) { (-q) as i64 } else { q as i64 };
        if n == 0 {
            n = 1;
        }
        n as i32
    }
}

} // verus!
