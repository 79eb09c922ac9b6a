use vstd::prelude::*;

verus! {

/// The descriptor of no socket.
pub const RETIRED_FD: i32 = -1;

/// How waiting for a signal ended.
#[derive(Debug, Clone, Copy, PartialEq, Eq, Structural)]
pub enum WaitOutcome {
    /// A signal is waiting to be read.
    Signalled,
    /// The time ran out first.
    TimedOut,
    /// The wait failed; the system's error says why.
    Failed,
}

/// What `poll` returning `rc` on the signaler's descriptor means.
pub fn wait_outcome(rc: i32) -> (w: WaitOutcome)
    ensures
        rc == -1 ==> w == WaitOutcome::Failed,
        rc == 0 ==> w == WaitOutcome::TimedOut,
        rc != -1 && rc != 0 ==> w == WaitOutcome::Signalled,
{
    if rc == -1 {
        WaitOutcome::Failed
    } else if rc == 0 {
        WaitOutcome::TimedOut
    } else {
        WaitOutcome::Signalled
    }
}

/// The `poll` timeout for a wait of `millis` milliseconds (cut to 32 bits),
/// or -1 to wait for ever.
pub fn poll_timeout(millis: Option<u128>) -> (t: i32)
    ensures
        t == match millis {
            Some(m) => m as i32,
            None => -1i32,
        },
{
    match millis {
        Some(m) => m as i32,
        None => -1,
    }
}

/// Whether a signaler with this writing end works.
pub fn valid(writer: i32) -> (b: bool)
    ensures
        b == (writer != RETIRED_FD),
{
    writer != RETIRED_FD
}

} // verus!
