//! Millisecond timestamps on a 32-bit clock that wraps.

use vstd::prelude::*;

verus! {

/// How many milliseconds the clock counts before it starts over at zero.
pub const CLOCK_SPAN: u64 = 0x1_0000_0000;

/// The timestamp `ms` milliseconds after a moment at which the clock read zero.
pub open spec fn stamp_of(ms: int) -> int {
    ms % (CLOCK_SPAN as int)
}

/// Milliseconds from `start` to `now`, wherever the clock wrapped in between.
pub open spec fn elapsed_between(start: u32, now: u32) -> int {
    (now - start) % (CLOCK_SPAN as int)
}

/// The timestamp `by` milliseconds after `stamp`.
pub open spec fn later(stamp: u32, by: int) -> u32 {
    stamp_of(stamp + by) as u32
}

/// Milliseconds since boot, wrapped into the timestamp that the detector takes.
/// The clock starts over every 49.7 days.
pub fn wrap_millis(ms: u64) -> (r: u32)
    ensures
        r == stamp_of(ms as int),
{
    (ms % CLOCK_SPAN) as u32
}

/// Milliseconds from `start` to `now` on the wrapping clock.
pub fn elapsed_ms(start: u32, now: u32) -> (r: u32)
    ensures
        r == elapsed_between(start, now),
{
    now.wrapping_sub(start)
}

/// The elapsed time read off two timestamps is the true one, for any two moments
/// less than one turn of the clock apart.
pub proof fn law_elapsed_survives_the_wrap(from_ms: u64, to_ms: u64)
    requires
        from_ms <= to_ms,
        to_ms - from_ms < CLOCK_SPAN,
    ensures
        elapsed_between(stamp_of(from_ms as int) as u32, stamp_of(to_ms as int) as u32) == to_ms
            - from_ms,
{
}

/// Setting a clock forward by any amount changes no elapsed time.
pub proof fn law_elapsed_ignores_the_epoch(start: u32, now: u32, by: int)
    ensures
        elapsed_between(later(start, by), later(now, by)) == elapsed_between(start, now),
{
}

/// Elapsed time leads from the start to now: added to the start it gives the
/// present timestamp, with one turn of the clock to spare at most.
pub proof fn law_elapsed_leads_from_start_to_now(start: u32, now: u32)
    ensures
        0 <= elapsed_between(start, now) < 0x1_0000_0000,
        ({
            ||| start + elapsed_between(start, now) == now
            ||| start + elapsed_between(start, now) == now + 0x1_0000_0000
        }),
{
}

/// A timestamp fits 32 bits and stands off the time since boot by whole turns of
/// the clock, so it goes up by one every millisecond but at the end of a turn.
pub proof fn law_a_timestamp_is_the_time_less_whole_turns(ms: u64)
    ensures
        0 <= stamp_of(ms as int) < 0x1_0000_0000,
        (ms - stamp_of(ms as int)) % 0x1_0000_0000 == 0,
        ms < 0x1_0000_0000 ==> stamp_of(ms as int) == ms,
        stamp_of(ms + 1) == stamp_of(ms as int) + 1 || (stamp_of(ms as int) == 0xffff_ffff
            && stamp_of(ms + 1) == 0),
{
}

} // verus!
