//! The detector as mathematics: its state, what one sample does to it, and the
//! quantities that decide.

use vstd::arithmetic::power2::pow2;
use vstd::prelude::*;

use crate::clock::elapsed_between;
use crate::config::Config;
use crate::direction::{Direction, Reason};

verus! {

/// What the caller should do with the motor this tick.
#[derive(Debug, Clone, Copy, PartialEq, Eq)]
pub struct Tick {
    /// Direction to drive. On a reversal tick this is already the *new*
    /// direction.
    pub dir: Direction,
    /// Duty cycle to apply, 0..=1000.
    pub duty_permille: u16,
    /// `Some(..)` only on the tick where a reversal fired.
    pub reversed: Option<Reason>,
}

/// The largest value that a `u32` in Q8 holds.
pub open spec fn q8_max() -> int {
    u32::MAX as int
}

/// ADC counts in Q8 fixed point: 8 fractional bits.
pub open spec fn q8(counts: int) -> int {
    counts * 256
}

/// The smaller of two numbers.
pub open spec fn lesser(a: int, b: int) -> int {
    if a <= b { a } else { b }
}

/// The larger of two numbers.
pub open spec fn greater(a: int, b: int) -> int {
    if a >= b { a } else { b }
}

/// The floor under the baseline in Q8, saturating.
pub open spec fn floor_q8(cfg: Config) -> int {
    lesser(q8(cfg.min_baseline_counts as int), q8_max())
}

/// The trigger threshold in Q8 over a given baseline, saturating:
/// `max(baseline, min_baseline_counts) * stall_ratio_pct / 100`.
pub open spec fn threshold_over(cfg: Config, baseline_q8: int) -> int {
    lesser(greater(baseline_q8, floor_q8(cfg)) * cfg.stall_ratio_pct / 100, q8_max())
}

/// One step of the moving average: the baseline gives up one part in
/// `2^baseline_shift` of itself and takes on that part of the sample.
pub open spec fn folded(cfg: Config, baseline_q8: int, sample_q8: int) -> int {
    let parts = pow2(cfg.baseline_shift as nat) as int;
    baseline_q8 - baseline_q8 / parts + sample_q8 / parts
}

/// Duty `elapsed` milliseconds into a traverse: a straight line from standstill
/// to cruise across the ramp, cruise from there on.
pub open spec fn duty_at(cfg: Config, elapsed: int) -> int {
    if elapsed < cfg.ramp_ms {
        cfg.cruise_duty_permille * elapsed / (cfg.ramp_ms as int)
    } else {
        cfg.cruise_duty_permille as int
    }
}

/// The state of a detector.
pub struct State {
    /// The tuning in use.
    pub cfg: Config,
    /// Travel direction.
    pub dir: Direction,
    /// Start of the current traverse.
    pub phase_start_ms: u32,
    /// Moving average of the sense reading, Q8. Stale until `seeded`.
    pub baseline_q8: int,
    /// A sample has set the baseline since the last reversal.
    pub seeded: bool,
    /// Consecutive over-threshold samples so far.
    pub confirm: int,
}

impl State {
    /// What holds of a detector at all times.
    pub open spec fn wf(self) -> bool {
        &&& self.cfg.sane()
        &&& 0 <= self.baseline_q8 <= q8(u16::MAX as int)
        &&& 0 <= self.confirm < self.cfg.confirm_samples
        &&& !self.seeded ==> self.confirm == 0
    }

    /// A detector at power-on.
    pub open spec fn initial(cfg: Config, now_ms: u32) -> State {
        State {
            cfg: cfg.clamped(),
            dir: Direction::Forward,
            phase_start_ms: now_ms,
            baseline_q8: 0,
            seeded: false,
            confirm: 0,
        }
    }

    /// Milliseconds into the current traverse.
    pub open spec fn elapsed(self, now_ms: u32) -> int {
        elapsed_between(self.phase_start_ms, now_ms)
    }

    /// The traverse has reached its time limit.
    pub open spec fn timed_out(self, now_ms: u32) -> bool {
        self.elapsed(now_ms) >= self.cfg.max_traverse_ms
    }

    /// The traverse is too young for its readings to count.
    pub open spec fn blanked(self, now_ms: u32) -> bool {
        self.elapsed(now_ms) < self.cfg.blank_ms
    }

    /// A reading taken now is compared with the threshold.
    pub open spec fn examines(self, now_ms: u32) -> bool {
        !self.timed_out(now_ms) && !self.blanked(now_ms)
    }

    /// The baseline that a reading is compared against: the first one examined in
    /// a traverse becomes the baseline outright.
    pub open spec fn reference_q8(self, counts: u16) -> int {
        if self.seeded { self.baseline_q8 } else { q8(counts as int) }
    }

    /// The reading counts, and lies over the threshold.
    pub open spec fn over(self, now_ms: u32, counts: u16) -> bool {
        self.examines(now_ms) && q8(counts as int) > threshold_over(
            self.cfg,
            self.reference_q8(counts),
        )
    }

    /// The reading lies below the threshold.
    pub open spec fn under(self, counts: u16) -> bool {
        q8(counts as int) < threshold_over(self.cfg, self.reference_q8(counts))
    }

    /// Whether the reading makes the carriage turn around, and why. The time
    /// limit goes first, so that no tuning can disable it.
    pub open spec fn verdict(self, now_ms: u32, counts: u16) -> Option<Reason> {
        if self.timed_out(now_ms) {
            Some(Reason::Timeout)
        } else if self.over(now_ms, counts) && self.confirm + 1 >= self.cfg.confirm_samples {
            Some(Reason::Stall)
        } else {
            None
        }
    }

    /// The same detector at the start of a traverse the other way.
    pub open spec fn turned(self, now_ms: u32) -> State {
        State {
            dir: self.dir.opposite(),
            phase_start_ms: now_ms,
            confirm: 0,
            seeded: false,
            ..self
        }
    }

    /// The same detector with its baseline set by a first reading, if none was.
    pub open spec fn seeded_by(self, counts: u16) -> State {
        State { baseline_q8: self.reference_q8(counts), seeded: true, ..self }
    }

    /// The state that a reading leaves behind.
    ///
    /// A reading over the threshold moves the count and never the baseline; one
    /// below it clears the count and is folded into the baseline; one exactly at
    /// it clears the count and leaves the baseline alone; one that is not examined
    /// moves neither.
    pub open spec fn after(self, now_ms: u32, counts: u16) -> State {
        if self.timed_out(now_ms) {
            self.turned(now_ms)
        } else if self.blanked(now_ms) {
            self
        } else if self.verdict(now_ms, counts) == Some(Reason::Stall) {
            self.seeded_by(counts).turned(now_ms)
        } else if self.over(now_ms, counts) {
            State { confirm: self.confirm + 1, ..self.seeded_by(counts) }
        } else {
            State {
                confirm: 0,
                baseline_q8: if self.under(counts) {
                    folded(self.cfg, self.reference_q8(counts), q8(counts as int))
                } else {
                    self.reference_q8(counts)
                },
                ..self.seeded_by(counts)
            }
        }
    }

    /// What the caller is told to do on a reading. A reversal starts a traverse,
    /// so its duty is that of a traverse just begun.
    pub open spec fn tick(self, now_ms: u32, counts: u16) -> Tick {
        let reversed = self.verdict(now_ms, counts);
        Tick {
            dir: if reversed is Some { self.dir.opposite() } else { self.dir },
            duty_permille: duty_at(
                self.cfg,
                if reversed is Some { 0 } else { self.elapsed(now_ms) },
            ) as u16,
            reversed,
        }
    }

    /// The same detector with its traverse clock restarted.
    pub open spec fn resumed(self, now_ms: u32) -> State {
        State { phase_start_ms: now_ms, ..self }
    }
}

/// The baseline in whole ADC counts.
pub open spec fn reported_baseline(s: State) -> int {
    s.baseline_q8 / 256
}

/// The trigger threshold in whole ADC counts, saturating.
pub open spec fn reported_threshold(s: State) -> int {
    lesser(threshold_over(s.cfg, s.baseline_q8) / 256, u16::MAX as int)
}

} // verus!
