//! The control loop: what to do with each reading, and with the dwell between one
//! direction and the other.
//!
//! On a reversal the motor coasts, the loop dwells until it has stopped turning,
//! and only then is the traverse clock restarted and the new direction applied.
//! The caller does the reading, the coasting and the waiting; the controller says
//! when.

use vstd::prelude::*;

use crate::config::{Config, FULL_DUTY_PERMILLE};
use crate::detector::Detector;
use crate::direction::Direction;
use crate::laws::{law_a_reversal_starts_over, law_duty_stays_in_range};
use crate::model::{reported_baseline, reported_threshold, State, Tick};
use crate::telemetry::{Reversal, Row, LOG_EVERY};

verus! {

/// Control loop period. The detector's time constants are in milliseconds, so
/// this only has to be fast enough to resolve `confirm_samples`.
pub const TICK_MS: u32 = 10;

/// Coast time between directions. Long enough that the motor is no longer turning
/// before the H-bridge is asked to push it the other way: slamming a spinning
/// brushed motor into reverse gives a current spike that reads as a stall, or a
/// dead driver.
pub const DWELL_MS: u32 = 300;

/// What the loop reports to the controller.
#[derive(Debug, Clone, Copy, PartialEq, Eq)]
pub enum Input {
    /// A tick has come, and with it a reading.
    Sampled { now_ms: u32, counts: u16 },
    /// The dwell that a [`Action::Turn`] asked for is over.
    Dwelt { now_ms: u32 },
}

/// What to apply to the motor.
#[derive(Debug, Clone, Copy, PartialEq, Eq)]
pub struct Drive {
    /// Direction to drive.
    pub dir: Direction,
    /// Duty to drive it at, 0..=1000.
    pub duty_permille: u16,
    /// The tick cadence starts over, since a dwell came in between.
    pub reset_ticker: bool,
    /// The row to log, on ticks that are logged.
    pub row: Option<Row>,
}

/// What the controller asks of the loop.
#[derive(Debug, Clone, Copy, PartialEq, Eq)]
pub enum Action {
    /// Apply this to the motor and wait for the next tick.
    Drive(Drive),
    /// Log the reversal, coast, restart a replayed trace, dwell for [`DWELL_MS`],
    /// and report [`Input::Dwelt`].
    Turn(Reversal),
    /// Nothing to do: a reading during the dwell, or a dwell nobody asked for.
    Wait,
}

/// The state of a controller.
pub struct LoopState {
    /// The detector.
    pub det: State,
    /// Readings so far, on a counter of 32 bits.
    pub ticks: u32,
    /// During the dwell: the reading and the tick that called for it.
    pub turning: Option<(u16, Tick)>,
}

/// The row to log over a detector, if this tick is logged.
pub open spec fn due_row(det: State, ticks: u32, sample: u16, tick: Tick) -> Option<Row> {
    if ticks % LOG_EVERY == 0 {
        Some(
            Row {
                sample,
                baseline: reported_baseline(det) as u16,
                threshold: reported_threshold(det) as u16,
                confirm: det.confirm as u16,
                dir: tick.dir,
                duty_permille: tick.duty_permille,
            },
        )
    } else {
        None
    }
}

impl LoopState {
    /// What holds of a controller at all times.
    pub open spec fn wf(self) -> bool {
        &&& self.det.wf()
        &&& self.turning matches Some((_, tick)) ==> {
            &&& tick.dir == self.det.dir
            &&& tick.duty_permille <= FULL_DUTY_PERMILLE
            &&& self.det.cfg.ramp_ms > 0 ==> tick.duty_permille == 0
        }
    }

    /// A controller at power-on.
    pub open spec fn initial(cfg: Config, now_ms: u32) -> LoopState {
        LoopState { det: State::initial(cfg, now_ms), ticks: 0, turning: None }
    }

    /// The state that an input leaves behind.
    pub open spec fn next(self, input: Input) -> LoopState {
        match (input, self.turning) {
            (Input::Sampled { now_ms, counts }, None) => {
                let tick = self.det.tick(now_ms, counts);
                LoopState {
                    det: self.det.after(now_ms, counts),
                    ticks: self.ticks.wrapping_add(1),
                    turning: if tick.reversed is Some { Some((counts, tick)) } else { None },
                }
            },
            (Input::Dwelt { now_ms }, Some(_)) => LoopState {
                det: self.det.resumed(now_ms),
                turning: None,
                ..self
            },
            _ => self,
        }
    }

    /// What an input is answered with.
    pub open spec fn action(self, input: Input) -> Action {
        let next = self.next(input);
        match (input, self.turning) {
            (Input::Sampled { now_ms, counts }, None) => {
                let tick = self.det.tick(now_ms, counts);
                match tick.reversed {
                    Some(reason) => Action::Turn(
                        Reversal {
                            reason,
                            new_dir: tick.dir,
                            sample: counts,
                            baseline: reported_baseline(next.det) as u16,
                            threshold: reported_threshold(next.det) as u16,
                        },
                    ),
                    None => Action::Drive(
                        Drive {
                            dir: tick.dir,
                            duty_permille: tick.duty_permille,
                            reset_ticker: false,
                            row: due_row(next.det, next.ticks, counts, tick),
                        },
                    ),
                }
            },
            (Input::Dwelt { .. }, Some((sample, tick))) => Action::Drive(
                Drive {
                    dir: tick.dir,
                    duty_permille: tick.duty_permille,
                    reset_ticker: true,
                    row: due_row(next.det, next.ticks, sample, tick),
                },
            ),
            _ => Action::Wait,
        }
    }
}

/// The control loop's state machine.
#[derive(Debug)]
pub struct Controller {
    det: Detector,
    ticks: u32,
    turning: Option<(u16, Tick)>,
}

impl View for Controller {
    type V = LoopState;

    closed spec fn view(&self) -> LoopState {
        LoopState { det: self.det@, ticks: self.ticks, turning: self.turning }
    }
}

impl Controller {
    #[verifier::type_invariant]
    spec fn always_wf(self) -> bool {
        self@.wf()
    }

    /// A controller whose first traverse starts at `now_ms`.
    #[must_use]
    pub fn new(cfg: Config, now_ms: u32) -> (r: Self)
        ensures
            r@ == LoopState::initial(cfg, now_ms),
            r@.wf(),
    {
        Controller { det: Detector::new(cfg, now_ms), ticks: 0, turning: None }
    }

    /// Takes an input and says what to do about it.
    pub fn step(&mut self, input: Input) -> (r: Action)
        ensures
            r == old(self)@.action(input),
            final(self)@ == old(self)@.next(input),
            final(self)@.wf(),
    {
        proof {
            use_type_invariant(&*self);
        }
        match (input, self.turning) {
            (Input::Sampled { now_ms, counts }, None) => self.sampled(now_ms, counts),
            (Input::Dwelt { now_ms }, Some((sample, tick))) => {
                let mut det: Detector = self.det.clone();
                det.resume(now_ms);
                self.turning = None;
                self.det = det;
                let row: Option<Row> = self.row(sample, tick);
                Action::Drive(
                    Drive {
                        dir: tick.dir,
                        duty_permille: tick.duty_permille,
                        reset_ticker: true,
                        row,
                    },
                )
            },
            _ => Action::Wait,
        }
    }

    /// A reading outside of a dwell.
    fn sampled(&mut self, now_ms: u32, counts: u16) -> (r: Action)
        requires
            old(self)@.turning is None,
        ensures
            r == old(self)@.action(Input::Sampled { now_ms, counts }),
            final(self)@ == old(self)@.next(Input::Sampled { now_ms, counts }),
            final(self)@.wf(),
    {
        proof {
            use_type_invariant(&*self);
            law_a_reversal_starts_over(self@.det, now_ms, counts);
            law_duty_stays_in_range(self@.det, now_ms, counts);
        }
        // Worked on aside, so that the controller is whole at every step.
        let mut det: Detector = self.det.clone();
        let tick: Tick = det.update(now_ms, counts);
        self.det = det;
        self.ticks = self.ticks.wrapping_add(1);
        match tick.reversed {
            Some(reason) => {
                self.turning = Some((counts, tick));
                Action::Turn(
                    Reversal {
                        reason,
                        new_dir: tick.dir,
                        sample: counts,
                        baseline: self.det.baseline_counts(),
                        threshold: self.det.threshold_counts(),
                    },
                )
            },
            None => {
                let row: Option<Row> = self.row(counts, tick);
                Action::Drive(
                    Drive {
                        dir: tick.dir,
                        duty_permille: tick.duty_permille,
                        reset_ticker: false,
                        row,
                    },
                )
            },
        }
    }

    /// The row to log on this tick, if it is one that is logged.
    fn row(&self, sample: u16, tick: Tick) -> (r: Option<Row>)
        ensures
            r == due_row(self@.det, self@.ticks, sample, tick),
    {
        if self.ticks % LOG_EVERY == 0 {
            Some(
                Row {
                    sample,
                    baseline: self.det.baseline_counts(),
                    threshold: self.det.threshold_counts(),
                    confirm: self.det.confirm_count(),
                    dir: tick.dir,
                    duty_permille: tick.duty_permille,
                },
            )
        } else {
            None
        }
    }
}

} // verus!
