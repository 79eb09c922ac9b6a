use crate::random::generate_random;
use vstd::prelude::*;

verus! {

/// The descriptor of no socket.
pub const RETIRED_FD: u64 = u64::MAX;

/// The options a connecter reads: the first reconnection interval, the
/// largest one (0: no largest, add jitter instead), and whether the
/// connection is raw.
#[derive(Debug, Clone, Copy, PartialEq, Eq, Structural)]
pub struct Options {
    pub reconnect_ivl: i32,
    pub reconnect_ivl_max: i32,
    pub raw_socket: bool,
}

/// The timers a connecter sets.
#[derive(Debug, Clone, Copy, PartialEq, Eq, Structural)]
pub enum TimerId {
    ReconnectTimer,
}

/// What a connecter asks of its I/O thread and socket.
#[derive(Debug, Clone, Copy, PartialEq, Eq, Structural)]
pub enum ConnecterAction {
    /// Try to connect now.
    StartConnecting,
    /// Set the reconnection timer for this many milliseconds, and report
    /// the retry.
    AddReconnectTimer(i32),
    /// Cancel the reconnection timer.
    CancelReconnectTimer,
    /// Stop watching this handle.
    RmFd(u64),
    /// Close this socket and report it closed.
    Close(u64),
}

/// The next reconnection interval after `current` (-1 before the first)
/// with a largest interval set: the first interval, then twice the last
/// (the largest `i32` where doubling would overflow), capped at the
/// largest.
pub open spec fn backoff_ivl(current: i32, ivl: i32, max: i32) -> i32 {
    let candidate = if current == -1 {
        ivl
    } else if current > i32::MAX / 2 {
        i32::MAX
    } else {
        (current * 2) as i32
    };
    if candidate > max {
        max
    } else {
        candidate
    }
}

/// The interval with no largest set: the current one (the first interval
/// before any) plus `jitter`, or the largest `i32` where that overflows.
pub open spec fn jittered_ivl(current: i32, jitter: i32) -> i32 {
    if current < i32::MAX - jitter {
        (current + jitter) as i32
    } else {
        i32::MAX
    }
}

/// Whether `ivl` may be the next reconnection interval after `cur` under
/// `o`, leaving `new_cur` as the current interval: the backoff where a
/// largest interval is set, else the current interval plus a jitter below
/// the first interval.
pub open spec fn next_ivl(o: Options, cur: i32, new_cur: i32, ivl: i32) -> bool {
    if o.reconnect_ivl_max > 0 {
        &&& ivl == backoff_ivl(cur, o.reconnect_ivl, o.reconnect_ivl_max)
        &&& new_cur == ivl
    } else {
        &&& new_cur == base_ivl(o, cur)
        &&& exists|jitter: i32|
            0 <= jitter < o.reconnect_ivl && ivl == #[trigger] jittered_ivl(base_ivl(o, cur), jitter)
    }
}

/// The interval jitter is added to: the current one, or the first before
/// any.
pub open spec fn base_ivl(o: Options, cur: i32) -> i32 {
    if cur == -1 {
        o.reconnect_ivl
    } else {
        cur
    }
}

/// Connects a stream socket, retrying after a growing or jittered delay.
pub struct StreamConnecterBase {
    pub endpoint: String,
    pub s: u64,
    pub handle: Option<u64>,
    pub delayed_start: bool,
    pub reconnect_timer_started: bool,
    pub current_reconnect_ivl: i32,
    pub options: Options,
}

impl StreamConnecterBase {
    /// A connecter to `endpoint` with no socket yet.
    pub fn new(endpoint: String, options: Options, delayed_start: bool) -> (c: Self)
        ensures
            c.endpoint == endpoint,
            c.s == RETIRED_FD,
            c.handle is None,
            c.delayed_start == delayed_start,
            !c.reconnect_timer_started,
            c.current_reconnect_ivl == -1,
            c.options == options,
    {
        StreamConnecterBase {
            endpoint,
            s: RETIRED_FD,
            handle: None,
            delayed_start,
            reconnect_timer_started: false,
            current_reconnect_ivl: -1,
            options,
        }
    }

    /// The next reconnection interval, `random` giving the jitter where no
    /// largest interval is set.
    pub fn next_reconnect_ivl(&mut self, random: u32) -> (ivl: i32)
        requires
            old(self).options.reconnect_ivl > 0,
            old(self).current_reconnect_ivl == -1 || old(self).current_reconnect_ivl >= 0,
        ensures
            final(self).options == old(self).options,
            final(self).s == old(self).s,
            final(self).handle == old(self).handle,
            final(self).delayed_start == old(self).delayed_start,
            final(self).reconnect_timer_started == old(self).reconnect_timer_started,
            final(self).endpoint == old(self).endpoint,
            ({
                let o = old(self).options;
                let cur = old(self).current_reconnect_ivl;
                if o.reconnect_ivl_max > 0 {
                    &&& ivl == backoff_ivl(cur, o.reconnect_ivl, o.reconnect_ivl_max)
                    &&& final(self).current_reconnect_ivl == ivl
                } else {
                    let base = if cur == -1 { o.reconnect_ivl } else { cur };
                    let jitter = (random % (o.reconnect_ivl as u32)) as i32;
                    &&& final(self).current_reconnect_ivl == base
                    &&& ivl == jittered_ivl(base, jitter)
                }
            }),
    {
        if self.options.reconnect_ivl_max > 0 {
            let candidate = if self.current_reconnect_ivl == -1 {
                self.options.reconnect_ivl
            } else if self.current_reconnect_ivl > i32::MAX / 2 {
                i32::MAX
            } else {
                self.current_reconnect_ivl * 2
            };
            self.current_reconnect_ivl = if candidate > self.options.reconnect_ivl_max {
                self.options.reconnect_ivl_max
            } else {
                candidate
            };
            self.current_reconnect_ivl
        } else {
            if self.current_reconnect_ivl == -1 {
                self.current_reconnect_ivl = self.options.reconnect_ivl;
            }
            let jitter = (random % (self.options.reconnect_ivl as u32)) as i32;
            if self.current_reconnect_ivl < i32::MAX - jitter {
                self.current_reconnect_ivl + jitter
            } else {
                i32::MAX
            }
        }
    }

    /// The next reconnection interval, with a fresh random number for the
    /// jitter.
    pub fn get_new_reconnect_ivl(&mut self) -> (ivl: i32)
        requires
            old(self).options.reconnect_ivl > 0,
            old(self).current_reconnect_ivl == -1 || old(self).current_reconnect_ivl >= 0,
        ensures
            final(self).options == old(self).options,
            final(self).reconnect_timer_started == old(self).reconnect_timer_started,
            final(self).s == old(self).s,
            final(self).handle == old(self).handle,
            final(self).endpoint == old(self).endpoint,
            final(self).delayed_start == old(self).delayed_start,
            next_ivl(old(self).options, old(self).current_reconnect_ivl, final(self).current_reconnect_ivl, ivl),
    {
        let random = generate_random();
        let ivl = self.next_reconnect_ivl(random);
        proof {
            if self.options.reconnect_ivl_max <= 0 {
                let cur = old(self).current_reconnect_ivl;
                let jitter = (random % (self.options.reconnect_ivl as u32)) as i32;
                assert(0 <= jitter < self.options.reconnect_ivl);
                assert(ivl == jittered_ivl(base_ivl(old(self).options, cur), jitter));
                assert(next_ivl(old(self).options, cur, self.current_reconnect_ivl, ivl));
            }
        }
        ivl
    }

    /// Sets the reconnection timer where reconnecting is on (a positive
    /// first interval).
    pub fn add_reconnect_timer(&mut self) -> (r: Vec<ConnecterAction>)
        requires
            old(self).current_reconnect_ivl == -1 || old(self).current_reconnect_ivl >= 0,
        ensures
            final(self).options == old(self).options,
            final(self).s == old(self).s,
            final(self).handle == old(self).handle,
            old(self).options.reconnect_ivl <= 0 ==> *final(self) == *old(self) && r@ == Seq::<
                ConnecterAction,
            >::empty(),
            old(self).options.reconnect_ivl > 0 ==> final(self).reconnect_timer_started && exists|ivl: i32|
                #[trigger] next_ivl(old(self).options, old(self).current_reconnect_ivl, final(self).current_reconnect_ivl, ivl)
                && r@ == seq![ConnecterAction::AddReconnectTimer(ivl)],
            final(self).endpoint == old(self).endpoint,
            final(self).delayed_start == old(self).delayed_start,
            final(self).current_reconnect_ivl == -1 || final(self).current_reconnect_ivl >= 0,
    {
        let mut r = Vec::new();
        if self.options.reconnect_ivl > 0 {
            let ivl = self.get_new_reconnect_ivl();
            r.push(ConnecterAction::AddReconnectTimer(ivl));
            assert(r@ == seq![ConnecterAction::AddReconnectTimer(ivl)]);
            self.reconnect_timer_started = true;
            assert(next_ivl(old(self).options, old(self).current_reconnect_ivl, self.current_reconnect_ivl, ivl)
                && r@ == seq![ConnecterAction::AddReconnectTimer(ivl)]);
        }
        r
    }

    /// A timer went off: the reconnection timer starts a new attempt.
    pub fn timer_event(&mut self, id: TimerId) -> (r: Vec<ConnecterAction>)
        ensures
            !final(self).reconnect_timer_started,
            final(self).options == old(self).options,
            final(self).s == old(self).s,
            final(self).handle == old(self).handle,
            final(self).current_reconnect_ivl == old(self).current_reconnect_ivl,
            r@ == seq![ConnecterAction::StartConnecting],
    {
        let mut r = Vec::new();
        match id {
            TimerId::ReconnectTimer => {
                self.reconnect_timer_started = false;
                r.push(ConnecterAction::StartConnecting);
            },
        }
        r
    }

    /// Plugged in: connects at once, or after the reconnection delay where
    /// the start is delayed.
    pub fn process_plug(&mut self) -> (r: Vec<ConnecterAction>)
        requires
            old(self).current_reconnect_ivl == -1 || old(self).current_reconnect_ivl >= 0,
        ensures
            !old(self).delayed_start ==> *final(self) == *old(self) && r@ == seq![
                ConnecterAction::StartConnecting,
            ],
            old(self).delayed_start && old(self).options.reconnect_ivl <= 0 ==> r@ == Seq::<
                ConnecterAction,
            >::empty(),
            old(self).delayed_start && old(self).options.reconnect_ivl > 0 ==> final(self).reconnect_timer_started && exists|ivl: i32|
                #[trigger] next_ivl(old(self).options, old(self).current_reconnect_ivl, final(self).current_reconnect_ivl, ivl)
                && r@ == seq![ConnecterAction::AddReconnectTimer(ivl)],
    {
        if self.delayed_start {
            self.add_reconnect_timer()
        } else {
            let mut r = Vec::new();
            r.push(ConnecterAction::StartConnecting);
            r
        }
    }

    /// Stops watching the socket.
    pub fn rm_handle(&mut self) -> (r: Vec<ConnecterAction>)
        ensures
            final(self).handle is None,
            final(self).s == old(self).s,
            final(self).reconnect_timer_started == old(self).reconnect_timer_started,
            r@ == match old(self).handle {
                Some(h) => seq![ConnecterAction::RmFd(h)],
                None => Seq::<ConnecterAction>::empty(),
            },
    {
        let mut r = Vec::new();
        if let Some(h) = self.handle {
            r.push(ConnecterAction::RmFd(h));
            self.handle = None;
        }
        r
    }

    /// Closes the socket, where there is one.
    pub fn close(&mut self) -> (r: Vec<ConnecterAction>)
        ensures
            final(self).s == RETIRED_FD,
            final(self).handle == old(self).handle,
            final(self).reconnect_timer_started == old(self).reconnect_timer_started,
            r@ == if old(self).s != RETIRED_FD {
                seq![ConnecterAction::Close(old(self).s)]
            } else {
                Seq::<ConnecterAction>::empty()
            },
    {
        let mut r = Vec::new();
        if self.s != RETIRED_FD {
            r.push(ConnecterAction::Close(self.s));
            self.s = RETIRED_FD;
        }
        r
    }

    /// Terminating: the timer is cancelled, the socket unwatched and
    /// closed.
    pub fn process_term(&mut self, _linger: i32) -> (r: Vec<ConnecterAction>)
        ensures
            !final(self).reconnect_timer_started,
            final(self).handle is None,
            final(self).s == RETIRED_FD,
            r@ == (if old(self).reconnect_timer_started {
                seq![ConnecterAction::CancelReconnectTimer]
            } else {
                Seq::<ConnecterAction>::empty()
            }) + (match old(self).handle {
                Some(h) => seq![ConnecterAction::RmFd(h)],
                None => Seq::<ConnecterAction>::empty(),
            }) + (if old(self).s != RETIRED_FD {
                seq![ConnecterAction::Close(old(self).s)]
            } else {
                Seq::<ConnecterAction>::empty()
            }),
    {
        let mut r = Vec::new();
        if self.reconnect_timer_started {
            r.push(ConnecterAction::CancelReconnectTimer);
            self.reconnect_timer_started = false;
        }
        let mut a = self.rm_handle();
        r.append(&mut a);
        let mut b = self.close();
        r.append(&mut b);
        r
    }
}

/// With a largest interval set, the intervals start at the first interval,
/// then double, and never pass the largest: each is at most the largest
/// and, until the largest is reached, twice the one before.
pub proof fn law_backoff_doubles_up_to_max(current: i32, ivl: i32, max: i32)
    requires
        0 < ivl,
        0 < max,
        current == -1 || current >= 0,
    ensures
        backoff_ivl(current, ivl, max) <= max,
        current == -1 ==> backoff_ivl(current, ivl, max) == if ivl > max { max } else { ivl },
        current >= 0 && 2 * current <= max ==> backoff_ivl(current, ivl, max) == 2 * current,
        current >= 0 && 2 * current > max ==> backoff_ivl(current, ivl, max) == max,
{
}

} // verus!
