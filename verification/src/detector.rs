//! The stall detector and direction sequencer.

use vstd::arithmetic::div_mod::lemma_div_is_ordered_by_denominator;
use vstd::arithmetic::power2::{lemma_pow2_pos, pow2};
use vstd::bits::lemma_u32_shr_is_div;
use vstd::prelude::*;

use crate::arith::{
    law_average_goes_toward_the_sample, law_average_moves_by_its_share, law_duty_is_a_ramp,
    law_duty_rises_linearly,
};
use crate::clock::elapsed_ms;
use crate::config::{Config, FULL_DUTY_PERMILLE};
use crate::direction::{Direction, Reason};
use crate::model::{
    duty_at, folded, greater, lesser, q8, reported_baseline, reported_threshold, threshold_over,
    State, Tick,
};

verus! {

/// Fractional bits of the baseline and the threshold.
const Q8: u32 = 8;

/// Stall detector and direction sequencer.
///
/// Drive it by calling [`Detector::update`] on a fixed cadence with a
/// millisecond timestamp and an ADC reading.
#[derive(Debug)]
pub struct Detector {
    cfg: Config,
    dir: Direction,
    /// Start of the current traverse. Reset on every reversal.
    phase_start_ms: u32,
    /// EMA of the sense reading, Q8.
    baseline_q8: u32,
    /// Cleared on reversal; the first post-blanking sample is taken as the
    /// baseline outright rather than eased into from whatever was there before.
    baseline_seeded: bool,
    /// Consecutive over-threshold samples so far.
    confirm: u16,
}

impl View for Detector {
    type V = State;

    closed spec fn view(&self) -> State {
        State {
            cfg: self.cfg,
            dir: self.dir,
            phase_start_ms: self.phase_start_ms,
            baseline_q8: self.baseline_q8 as int,
            seeded: self.baseline_seeded,
            confirm: self.confirm as int,
        }
    }
}

impl Clone for Detector {
    fn clone(&self) -> (r: Self)
        ensures
            r@ == self@,
    {
        proof {
            use_type_invariant(self);
        }
        Detector {
            cfg: self.cfg,
            dir: self.dir,
            phase_start_ms: self.phase_start_ms,
            baseline_q8: self.baseline_q8,
            baseline_seeded: self.baseline_seeded,
            confirm: self.confirm,
        }
    }
}

impl Detector {
    #[verifier::type_invariant]
    spec fn always_wf(self) -> bool {
        self@.wf()
    }

    /// Creates a detector travelling [`Direction::Forward`], with its first
    /// traverse starting at `now_ms`.
    #[must_use]
    pub fn new(cfg: Config, now_ms: u32) -> (r: Self)
        ensures
            r@ == State::initial(cfg, now_ms),
            r@.wf(),
    {
        Detector {
            cfg: cfg.sanitized(),
            dir: Direction::Forward,
            phase_start_ms: now_ms,
            baseline_q8: 0,
            baseline_seeded: false,
            confirm: 0,
        }
    }

    /// Advances the state machine by one sample.
    ///
    /// Pure state transition: same inputs, same outputs, no globals, no panics
    /// on any input. `now_ms` is free to wrap.
    pub fn update(&mut self, now_ms: u32, sample_counts: u16) -> (r: Tick)
        ensures
            r == old(self)@.tick(now_ms, sample_counts),
            final(self)@ == old(self)@.after(now_ms, sample_counts),
            final(self)@.wf(),
    {
        proof {
            use_type_invariant(&*self);
        }
        let elapsed: u32 = elapsed_ms(self.phase_start_ms, now_ms);

        // Safety net first, so a pathological config (blanking longer than the
        // traverse limit, say) can't disable it.
        if elapsed >= self.cfg.max_traverse_ms {
            return self.reverse(now_ms, Reason::Timeout);
        }
        if elapsed < self.cfg.blank_ms {
            // Blanked: no detection, and critically no baseline update either.
            // Folding inrush into the baseline would park the threshold far too
            // high for the rest of the traverse.
            return self.tick(elapsed, None);
        }
        let sample_q8: u32 = counts_to_q8(sample_counts);

        if !self.baseline_seeded {
            self.baseline_q8 = sample_q8;
            self.baseline_seeded = true;
        }
        let threshold_q8: u32 = self.threshold_q8();
        if sample_q8 > threshold_q8 {
            // Over threshold. Do NOT fold this sample into the baseline: if
            // stall samples move the baseline, the baseline chases the stall,
            // the threshold runs away ahead of the current, and the detector
            // never fires.
            let confirm: u16 = self.confirm.saturating_add(1);
            if confirm >= self.cfg.confirm_samples {
                return self.reverse(now_ms, Reason::Stall);
            }
            self.confirm = confirm;
        } else {
            self.confirm = 0;
            // Only what is below the threshold may move the baseline.
            if sample_q8 < threshold_q8 {
                self.fold_baseline(sample_q8);
            }
            proof {
                use_type_invariant(&*self);
            }
        }
        self.tick(elapsed, None)
    }

    /// Restarts the traverse clock at `now_ms` without changing direction.
    ///
    /// Call this after the coast dwell that follows a reversal. The dwell sits
    /// between [`update`](Self::update) returning `reversed: Some(..)` and the
    /// motor actually starting to turn; without this the soft-start ramp and the
    /// blanking window would be measured from the start of the dwell and the
    /// motor would jump straight to part-throttle when it finally engages.
    pub fn resume(&mut self, now_ms: u32)
        ensures
            final(self)@ == old(self)@.resumed(now_ms),
            final(self)@.wf(),
    {
        proof {
            use_type_invariant(&*self);
        }
        self.phase_start_ms = now_ms;
    }

    /// Current travel direction.
    #[must_use]
    pub fn direction(&self) -> (r: Direction)
        ensures
            r == self@.dir,
    {
        self.dir
    }

    /// Current baseline, in ADC counts. For logging.
    #[must_use]
    pub fn baseline_counts(&self) -> (r: u16)
        ensures
            r == reported_baseline(self@),
    {
        proof {
            use_type_invariant(self);
        }
        q8_to_counts(self.baseline_q8) as u16
    }

    /// Current trigger threshold, in ADC counts. For logging.
    #[must_use]
    pub fn threshold_counts(&self) -> (r: u16)
        ensures
            r == reported_threshold(self@),
    {
        // The threshold can legitimately exceed the ADC's 12-bit range, which
        // just means "cannot fire"; saturate rather than wrap so the log reads
        // sensibly.
        let counts: u32 = q8_to_counts(self.threshold_q8());
        if counts > 0xffff {
            0xffff
        } else {
            counts as u16
        }
    }

    /// Consecutive over-threshold samples so far. For logging.
    #[must_use]
    pub fn confirm_count(&self) -> (r: u16)
        ensures
            r == self@.confirm,
    {
        self.confirm
    }

    /// The config in use, after sanitizing.
    #[must_use]
    pub fn config(&self) -> (r: &Config)
        ensures
            *r == self@.cfg,
            r.sane(),
    {
        proof {
            use_type_invariant(self);
        }
        &self.cfg
    }

    /// `max(baseline, min_baseline_counts) * stall_ratio_pct / 100`, Q8.
    ///
    /// Comparing against a moving baseline rather than a fixed number is the
    /// point: battery voltage sags over the evening and friction changes with
    /// temperature, and nobody will be on site to retune a constant.
    pub(crate) fn threshold_q8(&self) -> (r: u32)
        ensures
            r == threshold_over(self@.cfg, self@.baseline_q8),
    {
        let floor_q8: u32 = if self.cfg.min_baseline_counts > 0x00ff_ffff {
            u32::MAX
        } else {
            self.cfg.min_baseline_counts * 256
        };
        let base_q8: u32 = if self.baseline_q8 >= floor_q8 { self.baseline_q8 } else { floor_q8 };
        let ratio: u32 = self.cfg.stall_ratio_pct;
        // Widened before the multiply: at 12-bit counts this fits u32, but the
        // config is not range-checked and overflow here would read as a stall.
        assert(base_q8 * ratio <= 0xffff_ffff * 0xffff_ffff) by (nonlinear_arith)
            requires
                0 <= base_q8 <= 0xffff_ffff,
                0 <= ratio <= 0xffff_ffff,
        ;
        let scaled: u64 = base_q8 as u64 * ratio as u64 / 100;
        if scaled > 0xffff_ffff {
            u32::MAX
        } else {
            scaled as u32
        }
    }

    /// EMA step, by shift rather than divide. It never overshoots the sample, and
    /// takes one part in `2^baseline_shift` of the way, to within one unit of Q8.
    pub(crate) fn fold_baseline(&mut self, sample_q8: u32)
        requires
            sample_q8 <= q8(u16::MAX as int),
        ensures
            final(self)@ == (State {
                baseline_q8: folded(old(self)@.cfg, old(self)@.baseline_q8, sample_q8 as int),
                ..old(self)@
            }),
            lesser(old(self)@.baseline_q8, sample_q8 as int) <= final(self)@.baseline_q8
                <= greater(old(self)@.baseline_q8, sample_q8 as int),
            ({
                let parts = pow2(old(self)@.cfg.baseline_shift as nat) as int;
                let moved = final(self)@.baseline_q8 - old(self)@.baseline_q8;
                -parts < parts * moved - (sample_q8 - old(self)@.baseline_q8) < parts
            }),
    {
        proof {
            use_type_invariant(&*self);
        }
        let shift: u32 = self.cfg.baseline_shift as u32;
        let given_up: u32 = self.baseline_q8 >> shift;
        let taken_on: u32 = sample_q8 >> shift;
        proof {
            let baseline_q8 = self.baseline_q8 as int;
            let parts = pow2(shift as nat) as int;
            lemma_pow2_pos(shift as nat);
            lemma_u32_shr_is_div(self.baseline_q8, shift);
            lemma_u32_shr_is_div(sample_q8, shift);
            law_average_goes_toward_the_sample(self.cfg, baseline_q8, sample_q8 as int);
            law_average_moves_by_its_share(self.cfg, baseline_q8, sample_q8 as int);
            lemma_div_is_ordered_by_denominator(baseline_q8, 1, parts);
            assert(folded(self.cfg, baseline_q8, sample_q8 as int) == baseline_q8 - given_up
                + taken_on);
        }
        self.baseline_q8 = self.baseline_q8.saturating_sub(given_up).saturating_add(taken_on);
    }

    /// Duty for a given point in the traverse.
    pub(crate) fn duty_permille(&self, elapsed: u32) -> (r: u16)
        ensures
            r == duty_at(self@.cfg, elapsed as int),
            r <= self@.cfg.cruise_duty_permille <= FULL_DUTY_PERMILLE,
            elapsed < self@.cfg.ramp_ms ==> self@.cfg.ramp_ms * r
                <= self@.cfg.cruise_duty_permille * elapsed < self@.cfg.ramp_ms * (r + 1),
            self@.cfg.cruise_duty_permille > 0 ==> (r == self@.cfg.cruise_duty_permille <==> elapsed
                >= self@.cfg.ramp_ms),
    {
        proof {
            use_type_invariant(self);
            law_duty_is_a_ramp(self.cfg, elapsed as int);
            law_duty_rises_linearly(self.cfg, elapsed as int);
        }
        let cruise: u16 = self.cfg.cruise_duty_permille;
        let ramp: u32 = self.cfg.ramp_ms;
        if elapsed >= ramp || ramp == 0 {
            return cruise;
        }
        assert(cruise * elapsed <= 0xffff * 0xffff_ffff) by (nonlinear_arith)
            requires
                0 <= cruise <= 0xffff,
                0 <= elapsed <= 0xffff_ffff,
        ;
        let ramped: u64 = cruise as u64 * elapsed as u64 / ramp as u64;
        ramped as u16
    }

    fn tick(&self, elapsed: u32, reversed: Option<Reason>) -> (r: Tick)
        ensures
            r.dir == self@.dir,
            r.duty_permille == duty_at(self@.cfg, elapsed as int),
            r.reversed == reversed,
    {
        Tick { dir: self.dir, duty_permille: self.duty_permille(elapsed), reversed }
    }

    /// Flips direction and restarts the traverse.
    ///
    /// Any dwell/coast between directions is the caller's job — see
    /// [`resume`](Self::resume).
    fn reverse(&mut self, now_ms: u32, reason: Reason) -> (r: Tick)
        ensures
            final(self)@ == old(self)@.turned(now_ms),
            r.dir == old(self)@.dir.opposite(),
            r.duty_permille == duty_at(old(self)@.cfg, 0),
            r.reversed == Some(reason),
    {
        proof {
            use_type_invariant(&*self);
        }
        self.dir = self.dir.flipped();
        self.phase_start_ms = now_ms;
        self.confirm = 0;
        self.baseline_seeded = false;
        self.tick(0, Some(reason))
    }
}

/// ADC counts in Q8.
fn counts_to_q8(counts: u16) -> (r: u32)
    ensures
        r == q8(counts as int),
{
    let wide: u32 = counts as u32;
    assert(wide << 8u32 == wide * 256) by (bit_vector)
        requires
            wide <= 0xffff,
    ;
    wide << Q8
}

/// Whole ADC counts of a Q8 value.
fn q8_to_counts(value_q8: u32) -> (r: u32)
    ensures
        r == value_q8 / 256,
{
    assert(value_q8 >> 8u32 == value_q8 / 256) by (bit_vector);
    value_q8 >> Q8
}

} // verus!
