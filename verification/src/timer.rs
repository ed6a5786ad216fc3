//! The repeating timer that paces the player's hops.

use vstd::prelude::*;
use bevy::time::Timer;
use bevy::time::TimerMode;
use std::time::Duration;

verus! {

/// Where a repeating timer of the given period stands after `delta` more
/// microseconds, having stood at `elapsed`.
pub open spec fn repeating_elapsed(period: int, elapsed: int, delta: int) -> int {
    if period == 0 {
        0
    } else {
        (elapsed + delta) % period
    }
}

/// Advances a repeating timer and reads it: builds a `bevy::time::Timer` in
/// `TimerMode::Repeating` with `Timer::new`, puts it at `elapsed` with
/// `Timer::set_elapsed`, advances it with `Timer::tick` and returns
/// `Timer::elapsed`, all in microseconds.
///
/// Believed of `Timer::tick`, not proved: a repeating timer adds the delta to
/// the time elapsed and, once that reaches the period, keeps the remainder of
/// the division by the period; a timer of period zero goes back to zero.
#[verifier::external_body]
pub(crate) fn tick_repeating(period: u32, elapsed: u32, delta: u32) -> (r: u32)
    ensures
        r as int == repeating_elapsed(period as int, elapsed as int, delta as int),
{
    let mut timer = Timer::new(Duration::from_micros(period as u64), TimerMode::Repeating);
    timer.set_elapsed(Duration::from_micros(elapsed as u64));
    timer.tick(Duration::from_micros(delta as u64));
    timer.elapsed().as_micros() as u32
}

} // verus!
