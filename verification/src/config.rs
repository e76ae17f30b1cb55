//! Tuning parameters and the ranges they are held to.

use vstd::prelude::*;

verus! {

/// Full duty, in permille.
pub const FULL_DUTY_PERMILLE: u16 = 1000;

/// The largest baseline shift in use. With readings of 16 bits and 8 fractional
/// bits, larger shifts would leave next to nothing of a sample to fold in.
pub const MAX_BASELINE_SHIFT: u8 = 16;

/// Tuning parameters.
///
/// The values in [`Config::default`] are provisional until the motor's running
/// and stall current have been measured at the duty they are used at.
#[derive(Debug, Clone, Copy, PartialEq, Eq, Structural)]
pub struct Config {
    /// Soft-start ramp length. Duty rises linearly from 0 to
    /// `cruise_duty_permille` across this window at the start of every traverse.
    ///
    /// A stationary motor presents only its winding resistance and draws a large
    /// inrush spike that looks exactly like a stall. Ramping mostly prevents the
    /// spike from forming in the first place.
    pub ramp_ms: u32,
    /// Detection is suppressed and the baseline is not updated for this long
    /// after a reversal, so whatever inrush survives the ramp is ignored.
    ///
    /// Must be `>= ramp_ms`; [`Config::sanitized`] raises it if it is not.
    pub blank_ms: u32,
    /// Trigger threshold as a percentage of the baseline, e.g. 250 for 2.5x.
    /// Higher is less sensitive.
    pub stall_ratio_pct: u32,
    /// Consecutive over-threshold samples required to call it a stall. Brushed
    /// motors are electrically noisy; a single spike must not trigger. Treated
    /// as 1 if set to 0.
    pub confirm_samples: u16,
    /// Safety net: reverse anyway after this long in one direction.
    ///
    /// Nobody is on site. If the carriage slips past a stopper, this keeps it
    /// moving instead of grinding into the rope end all night.
    pub max_traverse_ms: u32,
    /// EMA smoothing factor for the baseline, as a right-shift: the time
    /// constant is `2^baseline_shift` samples. Clamped to 16.
    pub baseline_shift: u8,
    /// Floor under the baseline so the threshold cannot collapse toward zero if
    /// the sense line reads near-nothing (motor disconnected, sense resistor
    /// shorted) and turn every sample into a stall.
    pub min_baseline_counts: u32,
    /// Normal running speed, 0..=1000. Clamped to 1000.
    pub cruise_duty_permille: u16,
}

impl Config {
    /// Every value lies in the range the detector works with.
    pub open spec fn sane(self) -> bool {
        &&& self.ramp_ms <= self.blank_ms
        &&& self.cruise_duty_permille <= FULL_DUTY_PERMILLE
        &&& 1 <= self.confirm_samples
        &&& self.baseline_shift <= MAX_BASELINE_SHIFT
    }

    /// This config with each out-of-range value at the nearest end of its range,
    /// and every other value as it is.
    pub open spec fn clamped(self) -> Config {
        Config {
            blank_ms: if self.blank_ms < self.ramp_ms { self.ramp_ms } else { self.blank_ms },
            cruise_duty_permille: if self.cruise_duty_permille > FULL_DUTY_PERMILLE {
                FULL_DUTY_PERMILLE
            } else {
                self.cruise_duty_permille
            },
            confirm_samples: if self.confirm_samples == 0 { 1 } else { self.confirm_samples },
            baseline_shift: if self.baseline_shift > MAX_BASELINE_SHIFT {
                MAX_BASELINE_SHIFT
            } else {
                self.baseline_shift
            },
            ..self
        }
    }

    /// The provisional tuning that [`Config::default`] returns.
    pub open spec fn provisional() -> Config {
        Config {
            ramp_ms: 500,
            blank_ms: 800,
            stall_ratio_pct: 112,
            confirm_samples: 5,
            max_traverse_ms: 300_000,
            baseline_shift: 12,
            min_baseline_counts: 40,
            cruise_duty_permille: 1000,
        }
    }

    /// Returns the config with out-of-range values pulled into range.
    ///
    /// Clamping rather than rejecting is deliberate: this runs unattended for
    /// hours and a config mistake should degrade, not panic.
    #[must_use]
    pub fn sanitized(self) -> (r: Self)
        ensures
            r == self.clamped(),
            r.sane(),
    {
        let mut cfg: Config = self;
        // Detection must not start before the soft-start ramp has finished.
        if cfg.blank_ms < cfg.ramp_ms {
            cfg.blank_ms = cfg.ramp_ms;
        }
        if cfg.cruise_duty_permille > FULL_DUTY_PERMILLE {
            cfg.cruise_duty_permille = FULL_DUTY_PERMILLE;
        }
        if cfg.confirm_samples == 0 {
            cfg.confirm_samples = 1;
        }
        if cfg.baseline_shift > MAX_BASELINE_SHIFT {
            cfg.baseline_shift = MAX_BASELINE_SHIFT;
        }
        cfg
    }
}

impl Default for Config {
    /// Mostly provisional.
    ///
    /// `stall_ratio_pct` sits in the middle of the 110-113% window between the
    /// noise floor and the weakest measured stall. It was measured at a cruise
    /// duty of 700 and has not been checked again at 1000.
    ///
    /// `baseline_shift` is not a free guess. The baseline chases the sample, so a
    /// stall only fires if current rises faster than the baseline can follow. At
    /// a 10ms tick and a ratio of 250%, shift 12 (~41s) catches a ramp from 250 to
    /// 900 counts over 10s about 7.5s in, while shift 9 (~5s) follows the current
    /// up and never fires.
    fn default() -> (r: Self)
        ensures
            r == Config::provisional(),
    {
        Config {
            ramp_ms: 500,
            blank_ms: 800,
            stall_ratio_pct: 112,
            confirm_samples: 5,
            max_traverse_ms: 300_000,
            baseline_shift: 12,
            min_baseline_counts: 40,
            cruise_duty_permille: 1000,
        }
    }
}

/// A sanitized config is sane, a sane config comes back untouched, and so
/// sanitizing twice is sanitizing once.
pub proof fn law_sanitizing_is_idempotent(cfg: Config)
    ensures
        cfg.clamped().sane(),
        cfg.sane() ==> cfg.clamped() == cfg,
        cfg.clamped().clamped() == cfg.clamped(),
{
}

/// The default tuning needs no clamping.
pub proof fn law_default_is_sane()
    ensures
        Config::provisional().sane(),
        Config::provisional().clamped() == Config::provisional(),
{
}

/// Sanitizing moves a value only as far as its range demands. Blanking ends up at
/// the later of itself and the ramp's end, duty at the smaller of itself and 1000,
/// the shift at the smaller of itself and 16, and a count of zero at one. Ratio,
/// ramp, time limit and floor are anyone's choice and stay.
pub proof fn law_sanitizing_moves_no_more_than_it_must(cfg: Config)
    ensures
        ({
            let c = cfg.clamped();
            &&& c.ramp_ms == cfg.ramp_ms
            &&& c.stall_ratio_pct == cfg.stall_ratio_pct
            &&& c.max_traverse_ms == cfg.max_traverse_ms
            &&& c.min_baseline_counts == cfg.min_baseline_counts
            &&& c.blank_ms >= cfg.blank_ms && c.blank_ms >= cfg.ramp_ms
            &&& c.blank_ms == cfg.blank_ms || c.blank_ms == cfg.ramp_ms
            &&& c.cruise_duty_permille <= cfg.cruise_duty_permille && c.cruise_duty_permille <= 1000
            &&& c.cruise_duty_permille == cfg.cruise_duty_permille || c.cruise_duty_permille == 1000
            &&& c.baseline_shift <= cfg.baseline_shift && c.baseline_shift <= 16
            &&& c.baseline_shift == cfg.baseline_shift || c.baseline_shift == 16
            &&& c.confirm_samples >= cfg.confirm_samples && c.confirm_samples >= 1
            &&& c.confirm_samples == cfg.confirm_samples || c.confirm_samples == 1
        }),
{
}

/// What a sane config is: blanking outlasts the ramp, duty is at most 1000, the
/// shift at most 16, and a stall takes at least one sample.
pub proof fn law_sane_means_in_range(cfg: Config)
    ensures
        cfg.sane() <==> {
            &&& cfg.ramp_ms <= cfg.blank_ms
            &&& cfg.cruise_duty_permille <= 1000
            &&& cfg.baseline_shift <= 16
            &&& cfg.confirm_samples >= 1
        },
{
}

} // verus!
