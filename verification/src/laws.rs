//! What holds of every single call to the detector.

use vstd::arithmetic::power2::pow2;
use vstd::prelude::*;

use crate::arith::{
    law_average_goes_toward_the_sample, law_average_trades_whole_parts, law_duty_is_a_ramp,
    law_duty_rises_linearly, law_the_comparison_is_exact, law_threshold_has_a_floor,
    law_threshold_is_a_percentage, lemma_duty_bounds,
};
use crate::config::{Config, FULL_DUTY_PERMILLE};
use crate::direction::{Direction, Reason};
use crate::model::{
    duty_at, floor_q8, folded, q8, reported_baseline, reported_threshold, threshold_over, State,
};

verus! {

/// A detector starts well-formed, and every call keeps it so.
pub proof fn law_calls_keep_the_detector_well_formed(
    s: State,
    cfg: Config,
    now_ms: u32,
    counts: u16,
)
    ensures
        State::initial(cfg, now_ms).wf(),
        s.wf() ==> s.after(now_ms, counts).wf(),
        s.wf() ==> s.resumed(now_ms).wf(),
{
    if s.wf() {
        law_average_goes_toward_the_sample(
            s.cfg,
            s.reference_q8(counts),
            q8(counts as int),
        );
    }
}

/// A detector does not tell a config from its sanitized form.
pub proof fn law_detectors_sanitize_their_config(cfg: Config, now_ms: u32)
    ensures
        State::initial(cfg, now_ms) == State::initial(cfg.clamped(), now_ms),
{
}

/// The commanded duty is at most cruise, and cruise at most full duty.
pub proof fn law_duty_stays_in_range(s: State, now_ms: u32, counts: u16)
    requires
        s.wf(),
    ensures
        s.tick(now_ms, counts).duty_permille <= s.cfg.cruise_duty_permille,
        s.cfg.cruise_duty_permille <= FULL_DUTY_PERMILLE,
{
    lemma_duty_bounds(s.cfg, 0);
    lemma_duty_bounds(s.cfg, s.elapsed(now_ms));
}

/// The safety net: a traverse at its time limit is turned around, whatever the
/// reading and whatever the tuning, and nothing else is called a timeout.
pub proof fn law_the_time_limit_always_turns(s: State, now_ms: u32, counts: u16)
    ensures
        s.timed_out(now_ms) <==> s.verdict(now_ms, counts) == Some(Reason::Timeout),
        s.timed_out(now_ms) ==> s.after(now_ms, counts).dir == s.dir.opposite(),
{
}

/// A reversal turns around and starts a traverse over: clock at zero, count at
/// zero, baseline to be set anew, and the tick already names the new direction.
/// Wherever there is a ramp, the tick commands a standstill. Without a reversal
/// the direction and the traverse clock stay.
pub proof fn law_a_reversal_starts_over(s: State, now_ms: u32, counts: u16)
    ensures
        ({
            let tick = s.tick(now_ms, counts);
            let next = s.after(now_ms, counts);
            &&& tick.reversed == s.verdict(now_ms, counts)
            &&& tick.dir == next.dir
            &&& tick.reversed is Some ==> {
                &&& next.dir == s.dir.opposite()
                &&& next.elapsed(now_ms) == 0
                &&& next.confirm == 0
                &&& !next.seeded
                &&& tick.duty_permille == duty_at(s.cfg, 0)
                &&& s.cfg.ramp_ms > 0 ==> tick.duty_permille == 0
            }
            &&& tick.reversed is None ==> {
                &&& next.dir == s.dir
                &&& next.phase_start_ms == s.phase_start_ms
            }
        }),
{
    lemma_duty_bounds(s.cfg, 0);
    lemma_duty_bounds(s.cfg, s.elapsed(now_ms));
}

/// A reading taken inside the blanking window changes nothing: not the baseline,
/// not the count, not the direction. Only the time limit outranks the window.
pub proof fn law_blanking_changes_nothing(s: State, now_ms: u32, counts: u16)
    requires
        s.blanked(now_ms),
        !s.timed_out(now_ms),
    ensures
        s.after(now_ms, counts) == s,
        s.verdict(now_ms, counts) is None,
{
}

/// Detection never runs during the soft start: a reading is examined, and so a
/// stall called, only with the ramp over and the duty at cruise.
pub proof fn law_detection_waits_for_the_ramp(s: State, now_ms: u32, counts: u16)
    requires
        s.wf(),
    ensures
        s.examines(now_ms) ==> {
            &&& s.elapsed(now_ms) >= s.cfg.ramp_ms
            &&& duty_at(s.cfg, s.elapsed(now_ms)) == s.cfg.cruise_duty_permille
        },
        s.verdict(now_ms, counts) == Some(Reason::Stall) ==> s.examines(now_ms),
{
    law_duty_is_a_ramp(s.cfg, s.elapsed(now_ms));
}

/// A reading over the threshold never moves a baseline that was set, so the
/// baseline cannot chase a stall. It only counts, or turns the carriage around.
pub proof fn law_over_threshold_freezes_the_baseline(s: State, now_ms: u32, counts: u16)
    requires
        s.over(now_ms, counts),
    ensures
        s.after(now_ms, counts).baseline_q8 == s.reference_q8(counts),
        s.seeded ==> s.after(now_ms, counts).baseline_q8 == s.baseline_q8,
        s.verdict(now_ms, counts) is None ==> s.after(now_ms, counts).confirm == s.confirm + 1,
{
}

/// A reading that is examined and not over the threshold clears the count. Only
/// one below the threshold is folded into the baseline; one exactly at it leaves
/// the baseline where it was.
pub proof fn law_a_quiet_reading_clears_the_count(s: State, now_ms: u32, counts: u16)
    requires
        s.examines(now_ms),
        !s.over(now_ms, counts),
    ensures
        s.verdict(now_ms, counts) is None,
        s.after(now_ms, counts).confirm == 0,
        s.after(now_ms, counts).seeded,
        s.seeded && q8(counts as int) < threshold_over(s.cfg, s.baseline_q8) ==> s.after(
            now_ms,
            counts,
        ).baseline_q8 == folded(s.cfg, s.baseline_q8, q8(counts as int)),
        s.seeded && q8(counts as int) == threshold_over(s.cfg, s.baseline_q8) ==> s.after(
            now_ms,
            counts,
        ).baseline_q8 == s.baseline_q8,
{
}

/// Only a reading below the threshold moves a baseline that was set.
pub proof fn law_only_readings_below_the_threshold_are_folded(
    s: State,
    now_ms: u32,
    counts: u16,
)
    requires
        s.seeded,
        s.after(now_ms, counts).baseline_q8 != s.baseline_q8,
    ensures
        s.examines(now_ms),
        q8(counts as int) < threshold_over(s.cfg, s.baseline_q8),
{
}

/// The first reading examined in a traverse is the baseline outright, with
/// nothing left of what was there before. At a ratio of 100% or more it cannot
/// itself lie over the threshold.
pub proof fn law_the_first_reading_seeds(s: State, now_ms: u32, counts: u16)
    requires
        s.examines(now_ms),
        !s.seeded,
    ensures
        s.after(now_ms, counts).baseline_q8 == q8(counts as int),
        s.cfg.stall_ratio_pct >= 100 ==> {
            &&& !s.over(now_ms, counts)
            &&& s.after(now_ms, counts).seeded
        },
{
    law_threshold_has_a_floor(s.cfg, q8(counts as int));
}

/// One spike is not a stall: with two or more samples to confirm, a reading that
/// follows a cleared count never calls one.
pub proof fn law_a_lone_spike_is_rejected(s: State, now_ms: u32, counts: u16)
    requires
        s.confirm == 0,
        s.cfg.confirm_samples >= 2,
    ensures
        s.verdict(now_ms, counts) != Some(Reason::Stall),
{
}

/// A dead sense line is not a stall: no current at all never lies over the
/// threshold, and neither does a reading that does not exceed the threshold of the
/// floor, whatever the baseline. At a ratio of 100% or more that holds of every
/// reading up to `min_baseline_counts`.
pub proof fn law_a_dead_line_is_not_a_stall(s: State, now_ms: u32, counts: u16)
    requires
        s.wf(),
        ({
            ||| counts == 0
            ||| q8(counts as int) <= threshold_over(s.cfg, 0)
            ||| s.cfg.stall_ratio_pct >= 100 && counts <= s.cfg.min_baseline_counts
        }),
    ensures
        !s.over(now_ms, counts),
        s.verdict(now_ms, counts) != Some(Reason::Stall),
{
    law_threshold_has_a_floor(s.cfg, s.reference_q8(counts));
    let base = floor_q8(s.cfg);
    let ratio = s.cfg.stall_ratio_pct as int;
    assert(0 <= base * ratio / 100) by (nonlinear_arith)
        requires
            0 <= base,
            0 <= ratio,
    ;
}

/// The threshold in whole counts loses nothing: against a baseline that is set, a
/// reading lies over the threshold exactly if it exceeds the counts that
/// [`Detector::threshold_counts`](crate::Detector::threshold_counts) reports.
/// Where those saturate, no reading does.
pub proof fn law_the_reported_threshold_is_exact(s: State, now_ms: u32, counts: u16)
    requires
        s.seeded,
        s.examines(now_ms),
    ensures
        s.over(now_ms, counts) <==> counts > reported_threshold(s),
{
}

/// Resuming keeps the direction, and restarts both the soft start and the
/// blanking window: the next reading finds the traverse at its very beginning.
pub proof fn law_resuming_restarts_the_soft_start(s: State, now_ms: u32, counts: u16)
    requires
        s.wf(),
    ensures
        ({
            let resumed = s.resumed(now_ms);
            &&& resumed.dir == s.dir
            &&& resumed.elapsed(now_ms) == 0
            &&& s.cfg.blank_ms > 0 ==> resumed.blanked(now_ms)
            &&& s.cfg.ramp_ms > 0 ==> resumed.tick(now_ms, counts).duty_permille == 0
        }),
{
    law_a_reversal_starts_over(s.resumed(now_ms), now_ms, counts);
    law_duty_is_a_ramp(s.cfg, 0);
}

/// A detector at power-on goes forward, with its traverse starting now, nothing
/// counted and no baseline.
pub proof fn law_power_on(cfg: Config, now_ms: u32)
    ensures
        ({
            let s = State::initial(cfg, now_ms);
            &&& s.dir == Direction::Forward
            &&& s.phase_start_ms == now_ms
            &&& s.baseline_q8 == 0
            &&& !s.seeded
            &&& s.confirm == 0
            &&& s.cfg == cfg.clamped()
        }),
{
}

/// A reading is examined exactly from the end of the blanking window to the time
/// limit, with the time into the traverse held against both as they are.
pub proof fn law_readings_count_from_blanking_to_the_limit(s: State, now_ms: u32, elapsed: int)
    requires
        0 <= elapsed < 0x1_0000_0000,
        s.phase_start_ms + elapsed == now_ms || s.phase_start_ms + elapsed == now_ms
            + 0x1_0000_0000,
    ensures
        s.elapsed(now_ms) == elapsed,
        s.timed_out(now_ms) <==> s.cfg.max_traverse_ms <= elapsed,
        s.blanked(now_ms) <==> elapsed < s.cfg.blank_ms,
        s.examines(now_ms) <==> s.cfg.blank_ms <= elapsed < s.cfg.max_traverse_ms,
{
}

/// At the time limit, and however far past it, a reading of any size turns the
/// carriage around with a timeout. All but the stale baseline starts over.
pub proof fn law_a_reading_at_the_limit_turns(s: State, now_ms: u32, counts: u16, elapsed: int)
    requires
        0 <= elapsed < 0x1_0000_0000,
        s.phase_start_ms + elapsed == now_ms || s.phase_start_ms + elapsed == now_ms
            + 0x1_0000_0000,
        s.cfg.max_traverse_ms <= elapsed,
    ensures
        ({
            let tick = s.tick(now_ms, counts);
            let next = s.after(now_ms, counts);
            &&& tick.reversed == Some(Reason::Timeout)
            &&& tick.dir != s.dir
            &&& next.dir == tick.dir
            &&& next.phase_start_ms == now_ms
            &&& next.confirm == 0
            &&& !next.seeded
            &&& next.baseline_q8 == s.baseline_q8
            &&& next.cfg == s.cfg
        }),
{
}

/// Before the end of the blanking window, and of the time limit, a reading of any
/// size leaves the detector as it was.
pub proof fn law_a_reading_before_the_end_of_blanking_is_ignored(
    s: State,
    now_ms: u32,
    counts: u16,
    elapsed: int,
)
    requires
        0 <= elapsed < 0x1_0000_0000,
        s.phase_start_ms + elapsed == now_ms || s.phase_start_ms + elapsed == now_ms
            + 0x1_0000_0000,
        elapsed < s.cfg.max_traverse_ms,
        elapsed < s.cfg.blank_ms,
    ensures
        s.tick(now_ms, counts).reversed is None,
        s.tick(now_ms, counts).dir == s.dir,
        s.after(now_ms, counts) == s,
{
}

/// From the end of the blanking window to the time limit every reading is held
/// against the threshold: the larger of floor and baseline times the ratio, where
/// the first reading of a traverse is its own baseline. Over it, the reading
/// counts, and the one that makes `confirm_samples` of them turns the carriage
/// around; at it or below, the count is cleared. The baseline moves for none of
/// those that are not below.
pub proof fn law_a_reading_past_blanking_is_held_against_the_threshold(
    s: State,
    now_ms: u32,
    counts: u16,
    elapsed: int,
    base_q8: int,
)
    requires
        0 <= elapsed < 0x1_0000_0000,
        s.phase_start_ms + elapsed == now_ms || s.phase_start_ms + elapsed == now_ms
            + 0x1_0000_0000,
        s.cfg.blank_ms <= elapsed < s.cfg.max_traverse_ms,
        0 <= s.baseline_q8 <= 0xffff * 256,
        s.cfg.min_baseline_counts * 256 <= base_q8,
        s.seeded ==> s.baseline_q8 <= base_q8,
        !s.seeded ==> counts * 256 <= base_q8,
        ({
            ||| base_q8 == s.cfg.min_baseline_counts * 256
            ||| s.seeded && base_q8 == s.baseline_q8
            ||| !s.seeded && base_q8 == counts * 256
        }),
    ensures
        ({
            let tick = s.tick(now_ms, counts);
            let next = s.after(now_ms, counts);
            let over = counts * 25_600 > base_q8 * s.cfg.stall_ratio_pct;
            let below = counts * 25_600 + 100 <= base_q8 * s.cfg.stall_ratio_pct;
            &&& next.cfg == s.cfg
            &&& next.dir == tick.dir
            &&& over && s.confirm + 1 >= s.cfg.confirm_samples ==> {
                &&& tick.reversed == Some(Reason::Stall)
                &&& tick.dir != s.dir
                &&& next.phase_start_ms == now_ms
                &&& next.confirm == 0
                &&& !next.seeded
            }
            &&& !(over && s.confirm + 1 >= s.cfg.confirm_samples) ==> {
                &&& tick.reversed is None
                &&& tick.dir == s.dir
                &&& next.phase_start_ms == s.phase_start_ms
                &&& next.confirm == if over { s.confirm + 1 } else { 0 }
                &&& next.seeded
            }
            &&& !below && s.seeded ==> next.baseline_q8 == s.baseline_q8
            &&& !s.seeded ==> next.baseline_q8 == counts * 256
        }),
{
    let reference_q8 = if s.seeded { s.baseline_q8 } else { counts * 256 };
    law_readings_count_from_blanking_to_the_limit(s, now_ms, elapsed);
    law_the_comparison_is_exact(s.cfg, reference_q8, base_q8, counts * 256);
    assert(s.reference_q8(counts) == reference_q8);
}

/// A reading below the threshold is averaged in: a baseline that was set gives up
/// as many units as it holds whole parts of `2^baseline_shift` and takes on as
/// many as the reading does.
pub proof fn law_a_reading_below_the_threshold_is_averaged_in(
    s: State,
    now_ms: u32,
    counts: u16,
    elapsed: int,
    base_q8: int,
    given_up: int,
    taken_on: int,
)
    requires
        0 <= elapsed < 0x1_0000_0000,
        s.phase_start_ms + elapsed == now_ms || s.phase_start_ms + elapsed == now_ms
            + 0x1_0000_0000,
        s.cfg.blank_ms <= elapsed < s.cfg.max_traverse_ms,
        s.seeded,
        0 <= s.baseline_q8 <= 0xffff * 256,
        s.cfg.min_baseline_counts * 256 <= base_q8,
        s.baseline_q8 <= base_q8,
        base_q8 == s.cfg.min_baseline_counts * 256 || base_q8 == s.baseline_q8,
        counts * 25_600 + 100 <= base_q8 * s.cfg.stall_ratio_pct,
        pow2(s.cfg.baseline_shift as nat) * given_up <= s.baseline_q8 < pow2(
            s.cfg.baseline_shift as nat,
        ) * (given_up + 1),
        pow2(s.cfg.baseline_shift as nat) * taken_on <= counts * 256 < pow2(
            s.cfg.baseline_shift as nat,
        ) * (taken_on + 1),
    ensures
        s.after(now_ms, counts).baseline_q8 == s.baseline_q8 - given_up + taken_on,
{
    law_readings_count_from_blanking_to_the_limit(s, now_ms, elapsed);
    law_the_comparison_is_exact(s.cfg, s.baseline_q8, base_q8, counts * 256);
    law_average_trades_whole_parts(s.cfg, s.baseline_q8, counts * 256, given_up, taken_on);
}

/// The commanded duty is the soft start: a straight line from standstill to cruise
/// over the time into the traverse, cruise from the end of the ramp on, and on a
/// reversal that of a traverse just begun.
pub proof fn law_the_commanded_duty_is_the_soft_start(
    s: State,
    now_ms: u32,
    counts: u16,
    elapsed: int,
)
    requires
        0 <= elapsed < 0x1_0000_0000,
        s.phase_start_ms + elapsed == now_ms || s.phase_start_ms + elapsed == now_ms
            + 0x1_0000_0000,
    ensures
        ({
            let tick = s.tick(now_ms, counts);
            let ramp = s.cfg.ramp_ms as int;
            let cruise = s.cfg.cruise_duty_permille as int;
            &&& tick.reversed is None && elapsed < ramp ==> ramp * tick.duty_permille <= cruise
                * elapsed < ramp * (tick.duty_permille + 1)
            &&& tick.reversed is None && elapsed >= ramp ==> tick.duty_permille == cruise
            &&& tick.reversed is Some && ramp > 0 ==> tick.duty_permille == 0
            &&& tick.reversed is Some && ramp == 0 ==> tick.duty_permille == cruise
        }),
{
    law_readings_count_from_blanking_to_the_limit(s, now_ms, elapsed);
    lemma_duty_bounds(s.cfg, 0);
    lemma_duty_bounds(s.cfg, elapsed);
    law_duty_rises_linearly(s.cfg, elapsed);
}

/// Resuming moves the start of the traverse to now, and nothing else.
pub proof fn law_resuming_moves_only_the_clock(s: State, now_ms: u32)
    ensures
        ({
            let next = s.resumed(now_ms);
            &&& next.phase_start_ms == now_ms
            &&& next.cfg == s.cfg
            &&& next.dir == s.dir
            &&& next.baseline_q8 == s.baseline_q8
            &&& next.seeded == s.seeded
            &&& next.confirm == s.confirm
        }),
{
}

/// What the log reports: baseline and threshold in whole counts, rounded down, the
/// threshold at most 65535.
pub proof fn law_the_log_reports_whole_counts(s: State, base_q8: int)
    requires
        0 <= s.baseline_q8 <= 0xffff * 256,
        s.baseline_q8 <= base_q8,
        s.cfg.min_baseline_counts * 256 <= base_q8,
        base_q8 == s.baseline_q8 || base_q8 == s.cfg.min_baseline_counts * 256,
    ensures
        0 <= reported_baseline(s) <= 0xffff,
        reported_baseline(s) * 256 <= s.baseline_q8 < (reported_baseline(s) + 1) * 256,
        0 <= reported_threshold(s) <= 0xffff,
        reported_threshold(s) * 25_600 <= base_q8 * s.cfg.stall_ratio_pct,
        reported_threshold(s) < 0xffff ==> base_q8 * s.cfg.stall_ratio_pct < (
        reported_threshold(s) + 1) * 25_600,
{
    let held = if base_q8 <= 0xffff_ffff { base_q8 } else { 0xffff_ffff };
    let ratio = s.cfg.stall_ratio_pct as int;
    law_threshold_is_a_percentage(s.cfg, s.baseline_q8, held);
    if ratio == 0 {
        assert(held * ratio == 0 && base_q8 * ratio == 0) by (nonlinear_arith)
            requires
                ratio == 0,
        ;
    } else {
        assert(held * ratio <= base_q8 * ratio && held <= held * ratio) by (nonlinear_arith)
            requires
                0 <= held <= base_q8,
                1 <= ratio,
        ;
    }
}

} // verus!
