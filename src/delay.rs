//! Wraparound-safe busy-wait arithmetic over a free-running microsecond counter.
use vstd::prelude::*;

verus! {

/// Microseconds from `start` to `now` on a 32-bit counter that wraps around.
pub open spec fn elapsed_spec(start: u32, now: u32) -> nat {
    ((now as int - start as int) % 0x1_0000_0000int) as nat
}

/// Microseconds elapsed since `start`, by unsigned modular subtraction.
pub fn elapsed_us(start: u32, now: u32) -> (r: u32)
    ensures
        r == elapsed_spec(start, now),
{
    now.wrapping_sub(start)
}

/// Whether a wait of `us` microseconds begun at `start` is over at `now`.
pub fn delay_done(start: u32, now: u32, us: u32) -> (r: bool)
    ensures
        r == (elapsed_spec(start, now) >= us),
{
    elapsed_us(start, now) >= us
}

} // verus!
