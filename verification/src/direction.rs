//! Travel direction, and why it changes.

use vstd::prelude::*;

verus! {

/// Which way the carriage is travelling.
///
/// `Forward` is the direction the carriage starts in at power-on; which end of
/// the rope that corresponds to is a wiring detail.
#[derive(Debug, Clone, Copy, PartialEq, Eq, Structural)]
pub enum Direction {
    Forward,
    Reverse,
}

/// Why a reversal happened.
#[derive(Debug, Clone, Copy, PartialEq, Eq, Structural)]
pub enum Reason {
    /// Sense current stayed above threshold for `confirm_samples` consecutive
    /// samples: the carriage hit a stopper.
    Stall,
    /// `max_traverse_ms` elapsed without a stall. Seeing these in a log means
    /// something is wrong.
    Timeout,
}

impl Direction {
    /// The opposite direction.
    pub open spec fn opposite(self) -> Direction {
        match self {
            Direction::Forward => Direction::Reverse,
            Direction::Reverse => Direction::Forward,
        }
    }

    /// The opposite direction.
    #[must_use]
    pub fn flipped(self) -> (r: Self)
        ensures
            r == self.opposite(),
    {
        match self {
            Direction::Forward => Direction::Reverse,
            Direction::Reverse => Direction::Forward,
        }
    }
}

/// Turning around twice restores the direction, and turning around once never
/// leaves it as it was.
pub proof fn law_opposite_is_an_involution(dir: Direction)
    ensures
        dir.opposite() != dir,
        dir.opposite().opposite() == dir,
{
}

} // verus!
