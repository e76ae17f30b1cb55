//! The detector's general properties on concrete values, and its edge cases.

use stall::{Config, Detector, Direction, Reason, Tick};

/// A config with every sample confirmed at once and no blanking.
fn bare() -> Config {
    Config {
        ramp_ms: 0,
        blank_ms: 0,
        stall_ratio_pct: 200,
        confirm_samples: 1,
        max_traverse_ms: 1_000,
        baseline_shift: 4,
        min_baseline_counts: 0,
        cruise_duty_permille: 700,
    }
}

#[test]
fn default_tuning() {
    let cfg = Config::default();
    assert_eq!(
        cfg,
        Config {
            ramp_ms: 500,
            blank_ms: 800,
            stall_ratio_pct: 112,
            confirm_samples: 5,
            max_traverse_ms: 300_000,
            baseline_shift: 12,
            min_baseline_counts: 40,
            cruise_duty_permille: 1000,
        }
    );
    assert_eq!(cfg.sanitized(), cfg);
}

#[test]
fn doc_example() {
    let mut det = Detector::new(Config::default(), 0);
    let tick = det.update(10, 250);
    assert!(tick.reversed.is_none());
}

#[test]
fn sanitizing_clamps_and_is_idempotent() {
    let wild = Config {
        ramp_ms: 900,
        blank_ms: 100,
        stall_ratio_pct: 0,
        confirm_samples: 0,
        max_traverse_ms: 0,
        baseline_shift: 200,
        min_baseline_counts: u32::MAX,
        cruise_duty_permille: 5_000,
    };
    let tame = wild.sanitized();
    assert_eq!(
        tame,
        Config {
            blank_ms: 900,
            confirm_samples: 1,
            baseline_shift: 16,
            cruise_duty_permille: 1000,
            ..wild
        }
    );
    assert_eq!(tame.sanitized(), tame);
    assert_eq!(*Detector::new(wild, 7).config(), tame);
    // The ends of the ranges stay.
    let edge = Config {
        ramp_ms: 100,
        blank_ms: 100,
        confirm_samples: 1,
        baseline_shift: 16,
        cruise_duty_permille: 1000,
        ..wild
    };
    assert_eq!(edge.sanitized(), edge);
}

#[test]
fn flipping_twice_restores() {
    assert_eq!(Direction::Forward.flipped(), Direction::Reverse);
    assert_eq!(Direction::Reverse.flipped(), Direction::Forward);
    assert_eq!(Direction::Forward.flipped().flipped(), Direction::Forward);
}

#[test]
fn a_new_detector_is_blank() {
    let det = Detector::new(Config::default(), 123);
    assert_eq!(det.direction(), Direction::Forward);
    assert_eq!(det.baseline_counts(), 0);
    assert_eq!(det.confirm_count(), 0);
    // 40 counts of floor at 112%.
    assert_eq!(det.threshold_counts(), 44);
}

#[test]
fn the_first_reading_is_the_baseline() {
    let mut det = Detector::new(Config::default(), 0);
    det.update(799, 900);
    assert_eq!(det.baseline_counts(), 0);
    det.update(800, 250);
    assert_eq!(det.baseline_counts(), 250);
    assert_eq!(det.threshold_counts(), 280);
}

#[test]
fn folding_takes_one_part_in_sixteen() {
    let cfg = Config {
        stall_ratio_pct: 250,
        ..bare()
    };
    let mut det = Detector::new(cfg, 0);
    det.update(0, 160);
    // 160 - 160/16 + 320/16.
    det.update(10, 320);
    assert_eq!(det.baseline_counts(), 170);
    // And back down, never past the sample.
    det.update(20, 10);
    assert_eq!(det.baseline_counts(), 160);
}

#[test]
fn a_reading_exactly_at_the_threshold_is_not_folded() {
    let cfg = Config {
        ramp_ms: 5,
        blank_ms: 5,
        stall_ratio_pct: 200,
        confirm_samples: 2,
        max_traverse_ms: 1000,
        baseline_shift: 1,
        min_baseline_counts: 0,
        cruise_duty_permille: 1000,
    };
    let mut det = Detector::new(cfg, 0);
    det.update(10, 100);
    assert_eq!(det.threshold_counts(), 200);
    // At the threshold: neither counted nor folded.
    assert_eq!(det.update(20, 200).reversed, None);
    assert_eq!(det.baseline_counts(), 100);
    assert_eq!(det.confirm_count(), 0);
    // Over it: counted, not folded. At it again: the count is cleared.
    assert_eq!(det.update(30, 201).reversed, None);
    assert_eq!(det.baseline_counts(), 100);
    assert_eq!(det.confirm_count(), 1);
    det.update(40, 200);
    assert_eq!(det.confirm_count(), 0);
    assert_eq!(det.baseline_counts(), 100);
    // Below it: folded.
    det.update(50, 198);
    assert_eq!(det.baseline_counts(), 149);
}

#[test]
fn the_average_settles_on_a_steady_sample() {
    let mut det = Detector::new(bare(), 0);
    det.update(0, 400);
    for _ in 0..400 {
        det.update(10, 100);
    }
    assert_eq!(det.baseline_counts(), 100);
}

#[test]
fn the_reported_threshold_is_exact() {
    let mut det = Detector::new(Config::default(), 0);
    det.update(800, 250);
    det.update(810, 280);
    assert_eq!(det.confirm_count(), 0);
    let mut det = Detector::new(Config::default(), 0);
    det.update(800, 250);
    det.update(810, 281);
    assert_eq!(det.confirm_count(), 1);
}

#[test]
fn a_higher_ratio_is_less_sensitive() {
    let mut last = 0;
    for ratio in [100, 112, 160, 200, 240] {
        let cfg = Config {
            stall_ratio_pct: ratio,
            ..Config::default()
        };
        let mut det = Detector::new(cfg, 0);
        det.update(800, 250);
        assert_eq!(u32::from(det.threshold_counts()), 250 * ratio / 100);
        assert!(det.threshold_counts() > last);
        last = det.threshold_counts();
    }
}

#[test]
fn a_higher_floor_is_less_sensitive() {
    let threshold = |ratio: u32, floor: u32, counts: u16| -> u16 {
        let cfg = Config {
            stall_ratio_pct: ratio,
            min_baseline_counts: floor,
            ..Config::default()
        };
        let mut det = Detector::new(cfg, 0);
        det.update(800, counts);
        det.threshold_counts()
    };
    assert_eq!(threshold(200, 40, 100), 200);
    assert_eq!(threshold(200, 100, 100), 200);
    assert_eq!(threshold(200, 150, 100), 300);
    assert_eq!(threshold(300, 150, 160), 480);
}

#[test]
fn the_threshold_saturates() {
    let cfg = Config {
        stall_ratio_pct: u32::MAX,
        min_baseline_counts: u32::MAX,
        ..bare()
    };
    let mut det = Detector::new(cfg, 0);
    assert_eq!(det.threshold_counts(), u16::MAX);
    assert_eq!(det.update(0, u16::MAX).reversed, None);
    assert_eq!(det.baseline_counts(), u16::MAX);
    assert_eq!(det.update(10, u16::MAX).reversed, None);
    assert_eq!(det.baseline_counts(), u16::MAX);
}

#[test]
fn a_zero_ratio_calls_every_reading_a_stall() {
    let cfg = Config {
        stall_ratio_pct: 0,
        ..bare()
    };
    let mut det = Detector::new(cfg, 0);
    assert_eq!(det.update(0, 1).reversed, Some(Reason::Stall));
    assert_eq!(det.baseline_counts(), 1);
    assert_eq!(det.update(10, 0).reversed, None);
}

#[test]
fn a_stall_fires_on_exactly_the_last_confirming_sample() {
    let mut det = Detector::new(Config::default(), 0);
    det.update(800, 250);
    for i in 1..5u32 {
        assert_eq!(det.update(800 + 10 * i, 900).reversed, None);
        assert_eq!(u32::from(det.confirm_count()), i);
        assert_eq!(det.baseline_counts(), 250);
    }
    let tick = det.update(850, 900);
    assert_eq!(
        tick,
        Tick {
            dir: Direction::Reverse,
            duty_permille: 0,
            reversed: Some(Reason::Stall),
        }
    );
    assert_eq!(det.confirm_count(), 0);
    assert_eq!(det.direction(), Direction::Reverse);
}

#[test]
fn one_quiet_reading_clears_the_count() {
    let mut det = Detector::new(Config::default(), 0);
    det.update(800, 250);
    for i in 1..5 {
        det.update(800 + 10 * i, 900);
    }
    det.update(850, 250);
    assert_eq!(det.confirm_count(), 0);
    for i in 0..4 {
        assert_eq!(det.update(860 + 10 * i, 900).reversed, None);
    }
    assert_eq!(det.update(900, 900).reversed, Some(Reason::Stall));
}

#[test]
fn the_time_limit_outranks_blanking_and_stalls() {
    let cfg = Config {
        blank_ms: 5_000,
        ..bare()
    };
    let mut det = Detector::new(cfg, 0);
    assert_eq!(det.update(999, 900).reversed, None);
    assert_eq!(det.update(1_000, 900).reversed, Some(Reason::Timeout));
    let mut det = Detector::new(bare(), 0);
    det.update(0, 100);
    assert_eq!(det.update(1_000, 900).reversed, Some(Reason::Timeout));
}

#[test]
fn a_zero_limit_turns_every_tick() {
    let cfg = Config {
        max_traverse_ms: 0,
        ..bare()
    };
    let mut det = Detector::new(cfg, 0);
    for i in 0..4u32 {
        let tick = det.update(10 * i, 0);
        assert_eq!(tick.reversed, Some(Reason::Timeout));
        let expected = if i % 2 == 0 {
            Direction::Reverse
        } else {
            Direction::Forward
        };
        assert_eq!(tick.dir, expected);
    }
}

#[test]
fn blanked_readings_leave_no_trace() {
    let mut quiet = Detector::new(Config::default(), 0);
    let mut loud = Detector::new(Config::default(), 0);
    for i in 0..80u32 {
        let a = quiet.update(10 * i, 0);
        let b = loud.update(10 * i, 4_000 - 50 * i as u16);
        assert_eq!(a, b);
    }
    for i in 80..200u32 {
        assert_eq!(quiet.update(10 * i, 250), loud.update(10 * i, 250));
        assert_eq!(quiet.baseline_counts(), loud.baseline_counts());
        assert_eq!(quiet.threshold_counts(), loud.threshold_counts());
    }
}

#[test]
fn steady_band_never_stalls() {
    // 265 is not over 112% of 237.
    let mut det = Detector::new(Config::default(), 0);
    for i in 0..20_000u32 {
        let counts = if i % 3 == 0 { 237 } else { 265 };
        assert_eq!(det.update(10 * i, counts).reversed, None);
    }
    assert!((237..=265).contains(&det.baseline_counts()));
}

#[test]
fn a_falling_current_never_stalls() {
    let mut det = Detector::new(Config::default(), 0);
    for i in 0..4_000u32 {
        let counts = 4_000 - i as u16;
        assert_eq!(det.update(800 + 10 * i, counts).reversed, None);
        assert!(det.baseline_counts() >= counts);
    }
}

#[test]
fn duty_is_linear_and_stays_in_range() {
    let cfg = Config {
        ramp_ms: 7,
        cruise_duty_permille: 1000,
        ..bare()
    };
    let mut det = Detector::new(cfg, 0);
    let duties: Vec<u16> = (0..9).map(|ms| det.update(ms, 0).duty_permille).collect();
    assert_eq!(duties, vec![0, 142, 285, 428, 571, 714, 857, 1000, 1000]);
}

#[test]
fn without_a_ramp_a_reversal_tick_is_at_cruise() {
    let mut det = Detector::new(bare(), 0);
    assert_eq!(det.update(0, 100).duty_permille, 700);
    let tick = det.update(10, 201);
    assert_eq!(tick.reversed, Some(Reason::Stall));
    assert_eq!(tick.duty_permille, 700);
}

#[test]
fn resuming_restarts_ramp_and_blanking() {
    let mut det = Detector::new(Config::default(), 0);
    det.update(800, 250);
    for i in 1..=5 {
        det.update(800 + 10 * i, 900);
    }
    assert_eq!(det.direction(), Direction::Reverse);
    det.resume(1_150);
    assert_eq!(det.direction(), Direction::Reverse);
    assert_eq!(det.update(1_150, 900).duty_permille, 0);
    assert_eq!(det.update(1_400, 900).duty_permille, 500);
    assert_eq!(det.update(1_949, 900).duty_permille, 1000);
    // Still blanked: the old baseline stands until the first reading after it.
    assert_eq!(det.baseline_counts(), 250);
    det.update(1_950, 300);
    assert_eq!(det.baseline_counts(), 300);
}

#[test]
fn a_dead_line_is_not_a_stall() {
    let mut det = Detector::new(Config::default(), 0);
    for i in 0..1_000u32 {
        let counts = if i % 2 == 0 { 0 } else { 44 };
        assert_eq!(det.update(800 + 10 * i, counts).reversed, None);
        assert_eq!(det.confirm_count(), 0);
    }
}

#[test]
fn clones_go_their_own_way() {
    let mut det = Detector::new(Config::default(), 0);
    det.update(800, 250);
    det.update(810, 900);
    let mut twin = det.clone();
    assert_eq!(twin.confirm_count(), 1);
    assert_eq!(twin.baseline_counts(), 250);
    twin.update(820, 900);
    assert_eq!(twin.confirm_count(), 2);
    assert_eq!(det.confirm_count(), 1);
}

/// The baseline's time constant has to be long against the slowest stall.
#[test]
fn a_fast_baseline_follows_a_slow_ramp() {
    let fires_at = |shift: u8| -> Option<u32> {
        let cfg = Config {
            stall_ratio_pct: 250,
            baseline_shift: shift,
            ..Config::default()
        };
        let mut det = Detector::new(cfg, 0);
        for i in 0..=2_000u32 {
            let ms = 10 * i;
            let into = ms.saturating_sub(2_000).min(10_000);
            if det.update(ms, (250 + 650 * into / 10_000) as u16).reversed.is_some() {
                return Some(ms - 2_000);
            }
        }
        None
    };
    assert_eq!(fires_at(12), Some(7_370));
    assert_eq!(fires_at(9), None);
}

#[test]
fn no_current_is_never_a_stall() {
    let cfg = Config {
        stall_ratio_pct: 0,
        ..bare()
    };
    let mut det = Detector::new(cfg, 0);
    for i in 0..90 {
        assert_eq!(det.update(10 * i, 0).reversed, None);
    }
}

#[test]
fn a_step_is_one_part_of_the_distance() {
    // One part in 16 of 160 counts up, then of 80 down.
    let cfg = Config {
        stall_ratio_pct: 1_000,
        ..bare()
    };
    let mut det = Detector::new(cfg, 0);
    det.update(0, 320);
    det.update(10, 480);
    assert_eq!(det.baseline_counts(), 330);
    det.update(20, 250);
    assert_eq!(det.baseline_counts(), 325);
}

#[test]
fn duty_is_at_cruise_exactly_from_the_end_of_the_ramp() {
    let mut det = Detector::new(Config::default(), 0);
    assert_eq!(det.update(499, 250).duty_permille, 998);
    assert_eq!(det.update(500, 250).duty_permille, 1000);
    // A long ramp to a slow cruise stays below it to the last millisecond.
    let cfg = Config {
        ramp_ms: 100_000,
        cruise_duty_permille: 1,
        max_traverse_ms: u32::MAX,
        ..Config::default()
    };
    let mut det = Detector::new(cfg, 0);
    assert_eq!(det.update(99_999, 250).duty_permille, 0);
    assert_eq!(det.update(100_000, 250).duty_permille, 1);
}

/// Runs the detector into a stall; the time of the reversal.
fn stalled(det: &mut Detector, start_ms: u32) -> u32 {
    let mut now = start_ms;
    while det.update(now, 4_095).reversed.is_none() {
        now += 10;
    }
    now
}

/// Holds `det` against a detector made at `turned_ms`, call by call.
fn goes_on_like_a_new_one(det: &mut Detector, turned_ms: u32, opposite: bool) {
    let mut fresh = Detector::new(*det.config(), turned_ms);
    let mut reversals = 0;
    for i in 1..2_000u32 {
        let now = turned_ms + 10 * i;
        if i == 30 {
            det.resume(now);
            fresh.resume(now);
        }
        let counts = if i % 700 > 600 { 900 } else { 250 };
        let a = det.update(now, counts);
        let b = fresh.update(now, counts);
        assert_eq!(a.duty_permille, b.duty_permille);
        assert_eq!(a.reversed, b.reversed);
        assert_eq!(a.dir != b.dir, opposite);
        if a.reversed.is_some() {
            reversals += 1;
        }
    }
    assert!(reversals > 0);
    assert_eq!(det.baseline_counts(), fresh.baseline_counts());
}

#[test]
fn a_reversal_forgets_the_past() {
    // A high baseline behind it, and off in reverse.
    let mut det = Detector::new(Config::default(), 0);
    for i in 0..100u32 {
        det.update(10 * i, 2_000);
    }
    let first = stalled(&mut det, 1_000);
    assert_eq!(det.direction(), Direction::Reverse);
    let mut twice = det.clone();
    goes_on_like_a_new_one(&mut det, first, true);
    // And again, off forward.
    for i in 1..100u32 {
        twice.update(first + 10 * i, 250);
    }
    let second = stalled(&mut twice, first + 1_000);
    assert_eq!(twice.direction(), Direction::Forward);
    goes_on_like_a_new_one(&mut twice, second, false);
}
