//! The time source of the monitor: the current instant and sleeping, behind
//! a trait so that a fake clock can stand in for it.

use vstd::prelude::*;

verus! {

/// A time source.
pub trait Clock: Send + Sync {
    /// The current instant on a monotonic clock.
    fn now(&self) -> std::time::Instant;

    /// Blocks the calling thread for at least `d`.
    fn sleep(&self, d: std::time::Duration);
}

/// The clock of the machine.
#[derive(Debug, Default, Clone, Copy)]
pub struct SystemClock;

/// The current instant, as `std::time::Instant::now` gives it.
///
/// Nothing is stated of the instant: it depends on the clock.
#[verifier::external_body]
pub(crate) fn monotonic_now() -> std::time::Instant {
    std::time::Instant::now()
}

/// Blocks for at least `d`: waits for the one message of
/// `crossbeam_channel::after(d)`, which its documentation says is delivered
/// once `d` has passed. For a duration so long that its deadline cannot be
/// represented, `after` gives a channel that never delivers and the call
/// does not return, as a sleep that long would not.
///
/// Nothing is stated: the call only takes time.
#[verifier::external_body]
fn block_for(d: std::time::Duration) {
    let _ = crossbeam_channel::after(d).recv();
}

impl Clock for SystemClock {
    fn now(&self) -> std::time::Instant {
        monotonic_now()
    }

    fn sleep(&self, d: std::time::Duration) {
        block_for(d)
    }
}

} // verus!
