//! What goes into the log: a row every few ticks and a line on every reversal.

use vstd::prelude::*;

use crate::direction::{Direction, Reason};

verus! {

/// A telemetry row is due every this many ticks. At a 10ms tick, 10 gives 10 rows
/// a second, which is readable in a terminal and still resolves a stall edge.
pub const LOG_EVERY: u32 = 10;

/// One row of telemetry, less the time at which it is logged.
#[derive(Debug, Clone, Copy, PartialEq, Eq)]
pub struct Row {
    /// The reading, in ADC counts.
    pub sample: u16,
    /// The baseline after it, in ADC counts.
    pub baseline: u16,
    /// The threshold after it, in ADC counts.
    pub threshold: u16,
    /// Consecutive over-threshold samples so far.
    pub confirm: u16,
    /// The direction driven.
    pub dir: Direction,
    /// The duty driven.
    pub duty_permille: u16,
}

/// A reversal, less the time at which it is logged.
#[derive(Debug, Clone, Copy, PartialEq, Eq)]
pub struct Reversal {
    /// Why the carriage turned around.
    pub reason: Reason,
    /// The direction it goes next.
    pub new_dir: Direction,
    /// The reading, in ADC counts.
    pub sample: u16,
    /// The baseline at the time, in ADC counts.
    pub baseline: u16,
    /// The threshold at the time, in ADC counts.
    pub threshold: u16,
}

/// The name of a direction in the log.
pub open spec fn dir_name(dir: Direction) -> Seq<char> {
    match dir {
        Direction::Forward => "fwd"@,
        Direction::Reverse => "rev"@,
    }
}

/// The name of a reason in the log.
pub open spec fn reason_name(reason: Reason) -> Seq<char> {
    match reason {
        Reason::Stall => "stall"@,
        Reason::Timeout => "timeout"@,
    }
}

/// The name of a direction in the log.
pub fn dir_str(dir: Direction) -> (r: &'static str)
    ensures
        r@ == dir_name(dir),
        dir == Direction::Forward ==> r@ == "fwd"@,
        dir == Direction::Reverse ==> r@ == "rev"@,
{
    match dir {
        Direction::Forward => "fwd",
        Direction::Reverse => "rev",
    }
}

/// The name of a reason in the log.
pub fn reason_str(reason: Reason) -> (r: &'static str)
    ensures
        r@ == reason_name(reason),
        reason == Reason::Stall ==> r@ == "stall"@,
        reason == Reason::Timeout ==> r@ == "timeout"@,
{
    match reason {
        Reason::Stall => "stall",
        Reason::Timeout => "timeout",
    }
}

/// The names in the log tell the directions apart, and the reasons.
pub proof fn law_names_are_distinct(a: Direction, b: Direction, x: Reason, y: Reason)
    ensures
        dir_name(a) == dir_name(b) <==> a == b,
        reason_name(x) == reason_name(y) <==> x == y,
{
    reveal_strlit("fwd");
    reveal_strlit("rev");
    reveal_strlit("stall");
    reveal_strlit("timeout");
    assert("fwd"@[0] != "rev"@[0]);
    assert("stall"@.len() != "timeout"@.len());
}

} // verus!
