//! The two countdown timers.
//!
//! The delay timer and the sound timer are 8-bit registers that count down to
//! zero at 60 Hz and stay there. The tone sounds while the sound timer is not
//! zero. The clock that paces the ticks is the host's; it is independent of the
//! rate at which instructions run, and it keeps going while the machine waits
//! for a key.

use vstd::prelude::*;

verus! {

/// The number of ticks in a second.
pub const TICK_RATE: u32 = 60;

/// A timer register after one tick.
pub open spec fn ticked(t: u8) -> u8 {
    if t > 0 {
        (t - 1) as u8
    } else {
        0
    }
}

/// A timer register after `n` ticks.
pub open spec fn ticked_times(t: u8, n: nat) -> u8
    decreases n,
{
    if n == 0 {
        t
    } else {
        ticked(ticked_times(t, (n - 1) as nat))
    }
}

/// Counts a timer register down by one tick.
pub fn tick(t: u8) -> (r: u8)
    ensures
        r == ticked(t),
{
    if t > 0 {
        t - 1
    } else {
        0
    }
}

/// After `n` ticks a timer has lost `n`, or has reached zero and stayed there.
pub proof fn lemma_ticked_times(t: u8, n: nat)
    ensures
        ticked_times(t, n) == if n >= t { 0 } else { t - n },
    decreases n,
{
    if n > 0 {
        lemma_ticked_times(t, (n - 1) as nat);
    }
}

} // verus!
