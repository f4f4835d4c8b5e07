//! The millisecond clock kept by the Timer0 compare interrupt, matching
//! Arduino `millis()`.
//!
//! Timer0 runs in CTC mode from the 16 MHz system clock through a /1024
//! prescaler and raises its compare interrupt every [`TIMER_COUNTS`] counts;
//! each interrupt advances the clock by the milliseconds that period spans.
use vstd::prelude::*;

verus! {

/// Timer0 clock prescaler.
pub const PRESCALER: u32 = 1024;

/// Timer0 counts between compare interrupts (the compare register value).
pub const TIMER_COUNTS: u32 = 125;

/// Milliseconds that elapse between two compare interrupts at 16 MHz.
pub const MILLIS_INCREMENT: u32 = PRESCALER * TIMER_COUNTS / 16_000;

/// The clock value after one more compare interrupt: it advances by
/// [`MILLIS_INCREMENT`] and wraps around at the end of the `u32` range.
pub fn advance_millis(counter: u32) -> (next: u32)
    ensures
        next == (counter + MILLIS_INCREMENT) % 0x1_0000_0000,
{
    counter.wrapping_add(MILLIS_INCREMENT)
}

/// One compare interrupt spans exactly 8 ms: 1024 * 125 cycles of 16 MHz.
pub proof fn law_tick_is_eight_ms()
    ensures
        MILLIS_INCREMENT == 8,
        PRESCALER * TIMER_COUNTS == 8 * 16_000,
{
}

} // verus!
