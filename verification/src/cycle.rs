//! What holds of the control loop over any sequence of inputs.

use vstd::prelude::*;

use crate::clock::law_elapsed_leads_from_start_to_now;
use crate::config::{Config, FULL_DUTY_PERMILLE};
use crate::controller::{Action, Input, LoopState, DWELL_MS, TICK_MS};
use crate::history::{run, Event};
use crate::laws::{
    law_a_reversal_starts_over, law_calls_keep_the_detector_well_formed, law_duty_stays_in_range,
    law_the_commanded_duty_is_the_soft_start, law_the_log_reports_whole_counts,
};
use crate::model::{reported_baseline, reported_threshold, State, Tick};
use crate::telemetry::LOG_EVERY;

verus! {

/// The state after a sequence of inputs.
pub open spec fn cycled(s: LoopState, inputs: Seq<Input>) -> LoopState
    decreases inputs.len(),
{
    if inputs.len() == 0 {
        s
    } else {
        cycled(s, inputs.drop_last()).next(inputs.last())
    }
}

/// What input number `i` is answered with.
pub open spec fn answered(s: LoopState, inputs: Seq<Input>, i: int) -> Action {
    cycled(s, inputs.take(i)).action(inputs[i])
}

/// The calls that a sequence of inputs makes to the detector.
pub open spec fn detector_calls(s: LoopState, inputs: Seq<Input>) -> Seq<Event>
    decreases inputs.len(),
{
    if inputs.len() == 0 {
        seq![]
    } else {
        let calls = detector_calls(s, inputs.drop_last());
        match (inputs.last(), cycled(s, inputs.drop_last()).turning) {
            (Input::Sampled { now_ms, counts }, None) => calls.push(
                Event::Update { now_ms, counts },
            ),
            (Input::Dwelt { now_ms }, Some(_)) => calls.push(Event::Resume { now_ms }),
            _ => calls,
        }
    }
}

proof fn lemma_cycled_step(s: LoopState, inputs: Seq<Input>, i: int)
    requires
        0 <= i < inputs.len(),
    ensures
        cycled(s, inputs.take(i + 1)) == cycled(s, inputs.take(i)).next(inputs[i]),
{
    assert(inputs.take(i + 1).drop_last() =~= inputs.take(i));
}

/// An input keeps the controller well-formed.
pub proof fn law_inputs_keep_the_controller_well_formed(s: LoopState, input: Input)
    requires
        s.wf(),
    ensures
        s.next(input).wf(),
{
    match input {
        Input::Sampled { now_ms, counts } => {
            law_calls_keep_the_detector_well_formed(s.det, s.det.cfg, now_ms, counts);
            law_a_reversal_starts_over(s.det, now_ms, counts);
            law_duty_stays_in_range(s.det, now_ms, counts);
        },
        Input::Dwelt { .. } => {},
    }
}

proof fn lemma_cycled_wf(s: LoopState, inputs: Seq<Input>)
    requires
        s.wf(),
    ensures
        cycled(s, inputs).wf(),
    decreases inputs.len(),
{
    if inputs.len() > 0 {
        lemma_cycled_wf(s, inputs.drop_last());
        law_inputs_keep_the_controller_well_formed(
            cycled(s, inputs.drop_last()),
            inputs.last(),
        );
    }
}

/// The loop does to its detector nothing but update it with each reading taken
/// outside of a dwell and resume it after each dwell, so whatever holds of every
/// history of a detector holds of it.
pub proof fn law_the_loop_runs_the_detector(s: LoopState, inputs: Seq<Input>)
    ensures
        cycled(s, inputs).det == run(s.det, detector_calls(s, inputs)),
    decreases inputs.len(),
{
    if inputs.len() > 0 {
        let shorter = inputs.drop_last();
        law_the_loop_runs_the_detector(s, shorter);
        let calls = detector_calls(s, shorter);
        match (inputs.last(), cycled(s, shorter).turning) {
            (Input::Sampled { now_ms, counts }, None) => {
                assert(calls.push(Event::Update { now_ms, counts }).drop_last() =~= calls);
            },
            (Input::Dwelt { now_ms }, Some(_)) => {
                assert(calls.push(Event::Resume { now_ms }).drop_last() =~= calls);
            },
            _ => {},
        }
    }
}

/// A turn always dwells: once the loop has been told to turn, no reading drives
/// the motor or reaches the detector until the dwell is reported over. The drive
/// that follows goes the new way, from a standstill wherever there is a ramp, with
/// the traverse clock at zero and the tick cadence started over.
pub proof fn law_a_turn_dwells(s: LoopState, turn: Input, sampled: Input, dwelt_ms: u32)
    requires
        s.wf(),
        s.action(turn) is Turn,
        sampled is Sampled,
    ensures
        ({
            let dwelling = s.next(turn);
            let resumed = dwelling.next(Input::Dwelt { now_ms: dwelt_ms });
            &&& dwelling.det.dir == s.det.dir.opposite()
            &&& s.action(turn)->Turn_0.new_dir == dwelling.det.dir
            &&& dwelling.action(sampled) == Action::Wait
            &&& dwelling.next(sampled) == dwelling
            &&& dwelling.action(Input::Dwelt { now_ms: dwelt_ms }) matches Action::Drive(drive) && {
                &&& drive.dir == dwelling.det.dir
                &&& drive.reset_ticker
                &&& s.det.cfg.ramp_ms > 0 ==> drive.duty_permille == 0
            }
            &&& resumed.turning is None
            &&& resumed.det.elapsed(dwelt_ms) == 0
        }),
{
    match turn {
        Input::Sampled { now_ms, counts } => {
            law_a_reversal_starts_over(s.det, now_ms, counts);
        },
        Input::Dwelt { .. } => {},
    }
}

/// A dwell is only ever ended once, and only after a turn.
pub proof fn law_an_unasked_dwell_is_ignored(s: LoopState, now_ms: u32)
    requires
        s.turning is None,
    ensures
        s.action(Input::Dwelt { now_ms }) == Action::Wait,
        s.next(Input::Dwelt { now_ms }) == s,
{
}

proof fn lemma_drive_settles(s: LoopState, input: Input)
    requires
        s.wf(),
    ensures
        s.action(input) matches Action::Drive(drive) ==> {
            &&& s.next(input).turning is None
            &&& s.next(input).det.dir == drive.dir
            &&& s.det.dir == drive.dir
        },
        s.turning is None && !(s.action(input) is Turn) ==> {
            &&& s.next(input).turning is None
            &&& s.next(input).det.dir == s.det.dir
        },
{
    match input {
        Input::Sampled { now_ms, counts } => {
            law_a_reversal_starts_over(s.det, now_ms, counts);
        },
        Input::Dwelt { .. } => {},
    }
}

proof fn lemma_direction_holds(s: LoopState, inputs: Seq<Input>, i: int, j: int)
    requires
        s.wf(),
        0 <= i < j < inputs.len(),
        answered(s, inputs, i) is Drive,
        forall|k: int| i < k < j ==> !(#[trigger] answered(s, inputs, k) is Turn),
    ensures
        cycled(s, inputs.take(j)).turning is None,
        cycled(s, inputs.take(j)).det.dir == answered(s, inputs, i)->Drive_0.dir,
    decreases j - i,
{
    lemma_cycled_wf(s, inputs.take(j - 1));
    lemma_cycled_step(s, inputs, j - 1);
    lemma_drive_settles(cycled(s, inputs.take(j - 1)), inputs[j - 1]);
    if i < j - 1 {
        lemma_direction_holds(s, inputs, i, j - 1);
        assert(!(answered(s, inputs, j - 1) is Turn));
    }
}

/// Coast between directions: two drives the opposite way have a turn, and so a
/// coast and a dwell, in between.
pub proof fn law_opposite_drives_have_a_turn_between(
    s: LoopState,
    inputs: Seq<Input>,
    i: int,
    j: int,
)
    requires
        s.wf(),
        0 <= i < j < inputs.len(),
        answered(s, inputs, i) is Drive,
        answered(s, inputs, j) is Drive,
        answered(s, inputs, i)->Drive_0.dir != answered(s, inputs, j)->Drive_0.dir,
    ensures
        exists|k: int| i < k < j && #[trigger] answered(s, inputs, k) is Turn,
{
    if forall|k: int| i < k < j ==> !(#[trigger] answered(s, inputs, k) is Turn) {
        lemma_direction_holds(s, inputs, i, j);
        lemma_cycled_wf(s, inputs.take(j));
        lemma_drive_settles(cycled(s, inputs.take(j)), inputs[j]);
    }
}

/// The duty asked for never exceeds full duty.
pub proof fn law_no_drive_exceeds_full_duty(s: LoopState, input: Input)
    requires
        s.wf(),
    ensures
        s.action(input) matches Action::Drive(drive) ==> drive.duty_permille <= FULL_DUTY_PERMILLE,
{
    match input {
        Input::Sampled { now_ms, counts } => {
            law_duty_stays_in_range(s.det, now_ms, counts);
        },
        Input::Dwelt { .. } => {},
    }
}

/// A loop at power-on has a detector at power-on, has counted no tick and is in no
/// dwell.
pub proof fn law_the_loop_at_power_on(cfg: Config, now_ms: u32)
    ensures
        ({
            let s = LoopState::initial(cfg, now_ms);
            &&& s.det == State::initial(cfg, now_ms)
            &&& s.ticks == 0
            &&& s.turning is None
        }),
{
}

/// Every reading outside of a dwell goes to the detector, as it is and when it
/// came, and counts one tick.
pub proof fn law_every_reading_reaches_the_detector(s: LoopState, now_ms: u32, counts: u16)
    requires
        s.turning is None,
    ensures
        ({
            let next = s.next(Input::Sampled { now_ms, counts });
            &&& next.det == s.det.after(now_ms, counts)
            &&& s.ticks < 0xffff_ffff ==> next.ticks == s.ticks + 1
            &&& s.ticks == 0xffff_ffff ==> next.ticks == 0
            &&& next.turning is Some <==> s.det.tick(now_ms, counts).reversed is Some
        }),
{
}

/// The motor is driven as the detector says: on a reading outside of a dwell that
/// does not reverse, the way the carriage travels, at the soft start's duty for
/// the time into the traverse. That is a straight line up to the end of the ramp,
/// and cruise from there on.
pub proof fn law_the_drive_follows_the_detector(
    s: LoopState,
    now_ms: u32,
    counts: u16,
    elapsed: int,
)
    requires
        s.turning is None,
        s.det.tick(now_ms, counts).reversed is None,
        0 <= elapsed < 0x1_0000_0000,
        s.det.phase_start_ms + elapsed == now_ms || s.det.phase_start_ms + elapsed == now_ms
            + 0x1_0000_0000,
    ensures
        ({
            let tick = s.det.tick(now_ms, counts);
            let ramp = s.det.cfg.ramp_ms as int;
            let cruise = s.det.cfg.cruise_duty_permille as int;
            s.action(Input::Sampled { now_ms, counts }) matches Action::Drive(drive) && {
                &&& drive.dir == tick.dir
                &&& drive.dir == s.det.dir
                &&& drive.duty_permille == tick.duty_permille
                &&& elapsed < ramp ==> ramp * drive.duty_permille <= cruise * elapsed < ramp * (
                drive.duty_permille + 1)
                &&& elapsed >= ramp ==> drive.duty_permille == cruise
                &&& !drive.reset_ticker
            }
        }),
{
    law_the_commanded_duty_is_the_soft_start(s.det, now_ms, counts, elapsed);
    law_a_reversal_starts_over(s.det, now_ms, counts);
}

/// A reversal asks for a turn, and says why, which way, and on which reading; the
/// reading and the tick wait for the end of the dwell.
pub proof fn law_a_reversal_asks_for_a_turn(s: LoopState, now_ms: u32, counts: u16)
    requires
        s.wf(),
        s.turning is None,
        s.det.tick(now_ms, counts).reversed is Some,
    ensures
        ({
            let tick = s.det.tick(now_ms, counts);
            let next = s.next(Input::Sampled { now_ms, counts });
            &&& next.turning == Some((counts, tick))
            &&& s.action(Input::Sampled { now_ms, counts }) matches Action::Turn(turn) && {
                &&& Some(turn.reason) == tick.reversed
                &&& turn.new_dir == tick.dir
                &&& turn.new_dir != s.det.dir
                &&& turn.sample == counts
                &&& turn.baseline == reported_baseline(next.det)
                &&& turn.threshold == reported_threshold(next.det)
            }
        }),
{
    law_calls_keep_the_detector_well_formed(s.det, s.det.cfg, now_ms, counts);
    lemma_reported_fits(s.det.after(now_ms, counts));
    law_a_reversal_starts_over(s.det, now_ms, counts);
}

proof fn lemma_reported_fits(det: State)
    requires
        det.wf(),
    ensures
        0 <= reported_baseline(det) <= 0xffff,
        0 <= reported_threshold(det) <= 0xffff,
{
    let floor = det.cfg.min_baseline_counts * 256;
    law_the_log_reports_whole_counts(
        det,
        if det.baseline_q8 >= floor { det.baseline_q8 } else { floor },
    );
}

/// During a dwell readings change nothing and are answered with nothing to do. Its
/// end resumes the detector at that moment and drives as the reversal said: its
/// direction, its duty. No tick is counted, and the cadence starts over.
pub proof fn law_a_dwell_ends_as_the_reversal_said(
    s: LoopState,
    now_ms: u32,
    counts: u16,
    sample: u16,
    tick: Tick,
)
    requires
        s.turning == Some((sample, tick)),
    ensures
        ({
            let next = s.next(Input::Dwelt { now_ms });
            &&& s.next(Input::Sampled { now_ms, counts }) == s
            &&& s.action(Input::Sampled { now_ms, counts }) is Wait
            &&& next.det == s.det.resumed(now_ms)
            &&& next.ticks == s.ticks
            &&& next.turning is None
            &&& s.action(Input::Dwelt { now_ms }) matches Action::Drive(drive) && {
                &&& drive.dir == tick.dir
                &&& drive.duty_permille == tick.duty_permille
                &&& drive.reset_ticker
            }
        }),
{
}

/// The new direction starts softly: the drive that ends the dwell goes the other
/// way than before the reversal, at a standstill wherever there is a ramp and at
/// cruise where there is none, and the readings after it find the traverse begun
/// when the dwell was over.
pub proof fn law_the_new_direction_starts_softly(
    s: LoopState,
    now_ms: u32,
    counts: u16,
    dwelt_ms: u32,
)
    requires
        s.turning is None,
        s.det.tick(now_ms, counts).reversed is Some,
    ensures
        ({
            let dwelling = s.next(Input::Sampled { now_ms, counts });
            let next = dwelling.next(Input::Dwelt { now_ms: dwelt_ms });
            &&& next.det.phase_start_ms == dwelt_ms
            &&& next.det.dir != s.det.dir
            &&& dwelling.action(Input::Dwelt { now_ms: dwelt_ms }) matches Action::Drive(drive) && {
                &&& drive.dir != s.det.dir
                &&& s.det.cfg.ramp_ms > 0 ==> drive.duty_permille == 0
                &&& s.det.cfg.ramp_ms == 0 ==> drive.duty_permille
                    == s.det.cfg.cruise_duty_permille
            }
        }),
{
    law_elapsed_leads_from_start_to_now(s.det.phase_start_ms, now_ms);
    law_the_commanded_duty_is_the_soft_start(
        s.det,
        now_ms,
        counts,
        s.det.elapsed(now_ms),
    );
    law_a_reversal_starts_over(s.det, now_ms, counts);
}

/// Every tenth tick logs a row, and no other: the reading it came with, what the
/// detector holds after it, and the very drive that the motor got.
pub proof fn law_every_tenth_tick_is_logged(s: LoopState, input: Input)
    requires
        s.wf(),
        s.action(input) is Drive,
    ensures
        ({
            let next = s.next(input);
            let drive = s.action(input)->Drive_0;
            &&& drive.row is Some <==> next.ticks % 10 == 0
            &&& drive.row matches Some(row) ==> {
                &&& input matches Input::Sampled { counts, .. } ==> row.sample == counts
                &&& s.turning matches Some((sample, _)) ==> row.sample == sample
                &&& row.baseline == reported_baseline(next.det)
                &&& row.threshold == reported_threshold(next.det)
                &&& row.confirm == next.det.confirm
                &&& row.dir == drive.dir
                &&& row.duty_permille == drive.duty_permille
            }
        }),
{
    law_inputs_keep_the_controller_well_formed(s, input);
    lemma_reported_fits(s.next(input).det);
}

/// The cadence: a hundred ticks to the second, ten rows to the second, and thirty
/// ticks of dwell.
pub proof fn law_cadence()
    ensures
        100 * TICK_MS == 1_000,
        10 * LOG_EVERY * TICK_MS == 1_000,
        DWELL_MS == 30 * TICK_MS,
{
}

} // verus!
