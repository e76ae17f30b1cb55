//! How the threshold, the moving average and the soft-start ramp behave.

use vstd::arithmetic::div_mod::{lemma_div_is_ordered, lemma_fundamental_div_mod};
use vstd::arithmetic::power2::{lemma_pow2_pos, pow2};
use vstd::prelude::*;

use crate::config::{Config, FULL_DUTY_PERMILLE};
use crate::model::{duty_at, floor_q8, folded, greater, q8_max, threshold_over};

verus! {

/// Giving up one part in `parts` keeps larger numbers larger.
proof fn lemma_remainder_is_ordered(a: int, b: int, parts: int)
    requires
        0 <= a <= b,
        parts >= 1,
    ensures
        a - a / parts <= b - b / parts,
{
    assert(a - a / parts <= b - b / parts) by (nonlinear_arith)
        requires
            0 <= a <= b,
            parts >= 1,
    {
        let qa = a / parts;
        let qb = b / parts;
        lemma_fundamental_div_mod(a, parts);
        lemma_fundamental_div_mod(b, parts);
        assert(b - a >= qb - qa) by (nonlinear_arith)
            requires
                a == parts * qa + a % parts,
                b == parts * qb + b % parts,
                0 <= a % parts < parts,
                0 <= b % parts < parts,
                a <= b,
                parts >= 1,
        ;
    }
}

/// The moving average goes toward the sample and never past it. It stands still
/// exactly where both hold the same number of whole parts, and moves otherwise.
pub proof fn law_average_goes_toward_the_sample(cfg: Config, baseline_q8: int, sample_q8: int)
    requires
        0 <= baseline_q8,
        0 <= sample_q8,
    ensures
        ({
            let parts = pow2(cfg.baseline_shift as nat) as int;
            let next = folded(cfg, baseline_q8, sample_q8);
            &&& baseline_q8 <= sample_q8 ==> baseline_q8 <= next <= sample_q8
            &&& sample_q8 <= baseline_q8 ==> sample_q8 <= next <= baseline_q8
            &&& next == baseline_q8 <==> baseline_q8 / parts == sample_q8 / parts
        }),
{
    let parts = pow2(cfg.baseline_shift as nat) as int;
    lemma_pow2_pos(cfg.baseline_shift as nat);
    if baseline_q8 <= sample_q8 {
        lemma_div_is_ordered(baseline_q8, sample_q8, parts);
        lemma_remainder_is_ordered(baseline_q8, sample_q8, parts);
    }
    if sample_q8 <= baseline_q8 {
        lemma_div_is_ordered(sample_q8, baseline_q8, parts);
        lemma_remainder_is_ordered(sample_q8, baseline_q8, parts);
    }
}

/// The time constant: one step moves the average by one part in
/// `2^baseline_shift` of its distance to the sample, to within one unit of Q8.
pub proof fn law_average_moves_by_its_share(cfg: Config, baseline_q8: int, sample_q8: int)
    requires
        0 <= baseline_q8,
        0 <= sample_q8,
    ensures
        ({
            let parts = pow2(cfg.baseline_shift as nat) as int;
            let moved = folded(cfg, baseline_q8, sample_q8) - baseline_q8;
            -parts < parts * moved - (sample_q8 - baseline_q8) < parts
        }),
{
    let parts = pow2(cfg.baseline_shift as nat) as int;
    lemma_pow2_pos(cfg.baseline_shift as nat);
    lemma_fundamental_div_mod(baseline_q8, parts);
    lemma_fundamental_div_mod(sample_q8, parts);
    let given_up = baseline_q8 / parts;
    let taken_on = sample_q8 / parts;
    assert(parts * (taken_on - given_up) == parts * taken_on - parts * given_up)
        by (nonlinear_arith);
}

/// The moving average under one sample, over and over.
pub open spec fn folded_often(cfg: Config, baseline_q8: int, sample_q8: int, times: nat) -> int
    decreases times,
{
    if times == 0 {
        baseline_q8
    } else {
        folded_often(cfg, folded(cfg, baseline_q8, sample_q8), sample_q8, (times - 1) as nat)
    }
}

/// The moving average tracks: under a steady sample it settles, within as many
/// steps as it started away, to less than one part's worth of the sample.
pub proof fn law_average_settles(cfg: Config, baseline_q8: int, sample_q8: int, times: nat)
    requires
        0 <= baseline_q8,
        0 <= sample_q8,
        times >= baseline_q8 - sample_q8,
        times >= sample_q8 - baseline_q8,
    ensures
        ({
            let parts = pow2(cfg.baseline_shift as nat) as int;
            let settled = folded_often(cfg, baseline_q8, sample_q8, times);
            &&& settled / parts == sample_q8 / parts
            &&& -parts < settled - sample_q8 < parts
        }),
    decreases times,
{
    let parts = pow2(cfg.baseline_shift as nat) as int;
    lemma_pow2_pos(cfg.baseline_shift as nat);
    law_average_goes_toward_the_sample(cfg, baseline_q8, sample_q8);
    if times == 0 {
        assert(baseline_q8 == sample_q8);
    } else {
        let next = folded(cfg, baseline_q8, sample_q8);
        if next == baseline_q8 {
            lemma_settled_stays(cfg, baseline_q8, sample_q8, times);
        } else {
            law_average_settles(cfg, next, sample_q8, (times - 1) as nat);
        }
    }
    let settled = folded_often(cfg, baseline_q8, sample_q8, times);
    lemma_fundamental_div_mod(settled, parts);
    lemma_fundamental_div_mod(sample_q8, parts);
    assert(0 <= settled % parts < parts && 0 <= sample_q8 % parts < parts);
}

proof fn lemma_settled_stays(cfg: Config, baseline_q8: int, sample_q8: int, times: nat)
    requires
        folded(cfg, baseline_q8, sample_q8) == baseline_q8,
    ensures
        folded_often(cfg, baseline_q8, sample_q8, times) == baseline_q8,
    decreases times,
{
    if times > 0 {
        lemma_settled_stays(cfg, baseline_q8, sample_q8, (times - 1) as nat);
    }
}

/// A higher baseline never makes for a lower threshold.
pub proof fn law_threshold_follows_the_baseline(cfg: Config, lower_q8: int, higher_q8: int)
    requires
        lower_q8 <= higher_q8,
    ensures
        threshold_over(cfg, lower_q8) <= threshold_over(cfg, higher_q8),
{
    let a = greater(lower_q8, floor_q8(cfg));
    let b = greater(higher_q8, floor_q8(cfg));
    let ratio = cfg.stall_ratio_pct as int;
    assert(a * ratio <= b * ratio) by (nonlinear_arith)
        requires
            a <= b,
            0 <= ratio,
    ;
}

/// A higher ratio, a higher floor and a higher baseline are never more sensitive,
/// alone or together: none of them makes for a lower threshold.
pub proof fn law_threshold_is_monotone(a: Config, b: Config, x: int, y: int)
    requires
        a.stall_ratio_pct <= b.stall_ratio_pct,
        a.min_baseline_counts <= b.min_baseline_counts,
        0 <= x <= y,
    ensures
        threshold_over(a, x) <= threshold_over(b, y),
{
    let lower = greater(x, floor_q8(a));
    let higher = greater(y, floor_q8(b));
    let ratio = a.stall_ratio_pct as int;
    let steeper = b.stall_ratio_pct as int;
    assert(lower * ratio <= higher * steeper) by (nonlinear_arith)
        requires
            0 <= lower <= higher,
            0 <= ratio <= steeper,
    ;
}

/// The threshold cannot collapse: whatever the baseline, it stays at or over the
/// threshold of the floor. At a ratio of 100% or more it also stays at or over
/// both the floor and the baseline.
pub proof fn law_threshold_has_a_floor(cfg: Config, baseline_q8: int)
    requires
        0 <= baseline_q8 <= q8_max(),
    ensures
        threshold_over(cfg, 0) <= threshold_over(cfg, baseline_q8),
        cfg.stall_ratio_pct >= 100 ==> {
            &&& floor_q8(cfg) <= threshold_over(cfg, baseline_q8)
            &&& baseline_q8 <= threshold_over(cfg, baseline_q8)
        },
{
    law_threshold_follows_the_baseline(cfg, 0, baseline_q8);
    let base = greater(baseline_q8, floor_q8(cfg));
    let ratio = cfg.stall_ratio_pct as int;
    if ratio >= 100 {
        assert(base * ratio / 100 >= base) by (nonlinear_arith)
            requires
                base >= 0,
                ratio >= 100,
        ;
    }
}

/// Duty lies between standstill and cruise, never over full duty, starts at
/// standstill wherever there is a ramp, and is at cruise from its end on and, for
/// any cruise but a standstill, not before.
pub proof fn law_duty_is_a_ramp(cfg: Config, elapsed: int)
    requires
        cfg.sane(),
        0 <= elapsed,
    ensures
        0 <= duty_at(cfg, elapsed) <= cfg.cruise_duty_permille <= FULL_DUTY_PERMILLE,
        cfg.ramp_ms > 0 ==> duty_at(cfg, 0) == 0,
        elapsed >= cfg.ramp_ms ==> duty_at(cfg, elapsed) == cfg.cruise_duty_permille,
        cfg.cruise_duty_permille > 0 ==> (duty_at(cfg, elapsed) == cfg.cruise_duty_permille
            <==> elapsed >= cfg.ramp_ms),
{
    lemma_duty_bounds(cfg, elapsed);
    let cruise = cfg.cruise_duty_permille as int;
    let ramp = cfg.ramp_ms as int;
    if cruise > 0 && elapsed < ramp {
        assert(cruise * elapsed / ramp < cruise) by (nonlinear_arith)
            requires
                0 < cruise,
                0 <= elapsed < ramp,
        ;
    }
}

/// Duty is at most cruise and a ramp starts at standstill, whatever the config.
pub(crate) proof fn lemma_duty_bounds(cfg: Config, elapsed: int)
    requires
        0 <= elapsed,
    ensures
        0 <= duty_at(cfg, elapsed) <= cfg.cruise_duty_permille,
        cfg.ramp_ms > 0 ==> duty_at(cfg, 0) == 0,
{
    let cruise = cfg.cruise_duty_permille as int;
    let ramp = cfg.ramp_ms as int;
    if ramp > 0 {
        assert(cruise * 0 / ramp == 0) by (nonlinear_arith)
            requires
                ramp > 0,
        ;
    }
    if elapsed < ramp {
        assert(0 <= cruise * elapsed / ramp <= cruise) by (nonlinear_arith)
            requires
                0 <= cruise,
                0 <= elapsed < ramp,
        ;
    }
}

/// Duty never falls as a traverse goes on.
pub proof fn law_duty_never_falls(cfg: Config, earlier: int, later: int)
    requires
        0 <= earlier <= later,
    ensures
        duty_at(cfg, earlier) <= duty_at(cfg, later),
{
    lemma_duty_bounds(cfg, earlier);
    if later < cfg.ramp_ms {
        let cruise = cfg.cruise_duty_permille as int;
        let ramp = cfg.ramp_ms as int;
        assert(cruise * earlier <= cruise * later) by (nonlinear_arith)
            requires
                0 <= cruise,
                earlier <= later,
        ;
        lemma_div_is_ordered(cruise * earlier, cruise * later, ramp);
    }
}

/// The ramp is a straight line: before its end, duty is to cruise as the time
/// elapsed is to the ramp, short of it by less than one permille. From the end of
/// the ramp on, duty is cruise.
pub proof fn law_duty_rises_linearly(cfg: Config, elapsed: int)
    requires
        0 <= elapsed,
    ensures
        elapsed < cfg.ramp_ms ==> cfg.ramp_ms * duty_at(cfg, elapsed) <= cfg.cruise_duty_permille
            * elapsed < cfg.ramp_ms * (duty_at(cfg, elapsed) + 1),
        elapsed >= cfg.ramp_ms ==> duty_at(cfg, elapsed) == cfg.cruise_duty_permille,
{
    let ramp = cfg.ramp_ms as int;
    if elapsed < ramp {
        let line = cfg.cruise_duty_permille * elapsed;
        let duty = duty_at(cfg, elapsed);
        lemma_fundamental_div_mod(line, ramp);
        assert(ramp * (duty + 1) == ramp * duty + ramp) by (nonlinear_arith);
    }
}

/// The threshold is the stated percentage of the larger of baseline and floor,
/// short of it by less than one unit of Q8, and held to what 32 bits can carry.
pub proof fn law_threshold_is_a_percentage(cfg: Config, baseline_q8: int, base_q8: int)
    requires
        0 <= baseline_q8 <= 0xffff_ffff,
        baseline_q8 <= base_q8,
        cfg.min_baseline_counts * 256 <= base_q8 || base_q8 == 0xffff_ffff,
        ({
            ||| base_q8 == baseline_q8
            ||| base_q8 == cfg.min_baseline_counts * 256 && base_q8 <= 0xffff_ffff
            ||| base_q8 == 0xffff_ffff && base_q8 < cfg.min_baseline_counts * 256
        }),
    ensures
        0 <= threshold_over(cfg, baseline_q8) <= 0xffff_ffff,
        100 * threshold_over(cfg, baseline_q8) <= base_q8 * cfg.stall_ratio_pct,
        threshold_over(cfg, baseline_q8) < 0xffff_ffff ==> base_q8 * cfg.stall_ratio_pct < 100 * (
        threshold_over(cfg, baseline_q8) + 1),
{
    assert(greater(baseline_q8, floor_q8(cfg)) == base_q8);
    let ratio = cfg.stall_ratio_pct as int;
    assert(0 <= base_q8 * ratio) by (nonlinear_arith)
        requires
            0 <= base_q8,
            0 <= ratio,
    ;
}

/// The comparison that decides, in whole numbers: a reading in Q8 lies over the
/// threshold exactly if a hundred times it exceeds the larger of baseline and
/// floor times the ratio, and below it exactly if a hundred times the next higher
/// one does not. No rounding and no saturation ever tips it.
pub proof fn law_the_comparison_is_exact(
    cfg: Config,
    baseline_q8: int,
    base_q8: int,
    sample_q8: int,
)
    requires
        0 <= baseline_q8 <= 0xffff_ffff,
        0 <= sample_q8 <= 0xffff * 256,
        baseline_q8 <= base_q8,
        cfg.min_baseline_counts * 256 <= base_q8,
        base_q8 == baseline_q8 || base_q8 == cfg.min_baseline_counts * 256,
    ensures
        sample_q8 > threshold_over(cfg, baseline_q8) <==> 100 * sample_q8 > base_q8
            * cfg.stall_ratio_pct,
        sample_q8 < threshold_over(cfg, baseline_q8) <==> 100 * (sample_q8 + 1) <= base_q8
            * cfg.stall_ratio_pct,
{
    let ratio = cfg.stall_ratio_pct as int;
    let held = if base_q8 <= 0xffff_ffff { base_q8 } else { 0xffff_ffff };
    law_threshold_is_a_percentage(cfg, baseline_q8, held);
    if ratio == 0 {
        assert(held * ratio == 0 && base_q8 * ratio == 0) by (nonlinear_arith)
            requires
                ratio == 0,
        ;
    } else {
        assert(held * ratio <= base_q8 * ratio && held <= held * ratio) by (nonlinear_arith)
            requires
                0 <= held <= base_q8,
                1 <= ratio,
        ;
    }
}

/// The moving average in whole parts: it gives up as many units as it holds whole
/// parts, and takes on as many as the sample does.
pub proof fn law_average_trades_whole_parts(
    cfg: Config,
    baseline_q8: int,
    sample_q8: int,
    given_up: int,
    taken_on: int,
)
    requires
        0 <= baseline_q8,
        0 <= sample_q8,
        pow2(cfg.baseline_shift as nat) * given_up <= baseline_q8 < pow2(cfg.baseline_shift as nat)
            * (given_up + 1),
        pow2(cfg.baseline_shift as nat) * taken_on <= sample_q8 < pow2(cfg.baseline_shift as nat)
            * (taken_on + 1),
    ensures
        folded(cfg, baseline_q8, sample_q8) == baseline_q8 - given_up + taken_on,
{
    let parts = pow2(cfg.baseline_shift as nat) as int;
    lemma_pow2_pos(cfg.baseline_shift as nat);
    lemma_quotient_is_unique(baseline_q8, parts, given_up);
    lemma_quotient_is_unique(sample_q8, parts, taken_on);
}

proof fn lemma_quotient_is_unique(x: int, parts: int, quotient: int)
    requires
        parts >= 1,
        parts * quotient <= x < parts * (quotient + 1),
    ensures
        x / parts == quotient,
{
    assert(x / parts == quotient) by (nonlinear_arith)
        requires
            parts >= 1,
            parts * quotient <= x < parts * (quotient + 1),
    ;
}

} // verus!
