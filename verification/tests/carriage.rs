//! The pieces around the detector: clock, sense input, bridge, replay, telemetry
//! and the control loop.

use stall::bridge::{coast_writes, drive_writes, pwm_permille, pwm_top, Pin, PinWrite};
use stall::clock::{elapsed_ms, wrap_millis};
use stall::controller::{DWELL_MS, TICK_MS};
use stall::sense::{averaged, OVERSAMPLE};
use stall::telemetry::{dir_str, reason_str, LOG_EVERY};
use stall::{
    Action, Config, Controller, Detector, Direction, Drive, Input, Reason, Replay, Reversal, Row,
    SenseInput,
};

#[test]
fn the_clock_wraps() {
    assert_eq!(wrap_millis(0), 0);
    assert_eq!(wrap_millis(u64::from(u32::MAX)), u32::MAX);
    assert_eq!(wrap_millis(0x1_0000_0000), 0);
    assert_eq!(wrap_millis(0x5_0000_0007), 7);
    assert_eq!(elapsed_ms(10, 250), 240);
    assert_eq!(elapsed_ms(u32::MAX - 9, 20), 30);
    let boot: u64 = 0xffff_ff00;
    assert_eq!(elapsed_ms(wrap_millis(boot), wrap_millis(boot + 1_000)), 1_000);
}

#[test]
fn readings_are_averaged() {
    assert_eq!(averaged(&[Some(250); OVERSAMPLE]), 250);
    assert_eq!(averaged(&[Some(u16::MAX); OVERSAMPLE]), u16::MAX);
    let mut readings = [None; OVERSAMPLE];
    assert_eq!(averaged(&readings), 0);
    readings[3] = Some(100);
    assert_eq!(averaged(&readings), 100);
    readings[15] = Some(103);
    assert_eq!(averaged(&readings), 101);
    readings[0] = Some(0);
    assert_eq!(averaged(&readings), 67);
}

/// Applies pin writes to (AIN1, AIN2), checking that they are never both high.
fn write_all(levels: &mut (bool, bool), writes: (PinWrite, PinWrite)) {
    for write in [writes.0, writes.1] {
        match write.pin {
            Pin::Ain1 => levels.0 = write.high,
            Pin::Ain2 => levels.1 = write.high,
        }
        assert!(!(levels.0 && levels.1), "braked");
    }
}

#[test]
fn the_bridge_never_brakes() {
    for start in [(false, false), (true, false), (false, true), (true, true)] {
        let mut levels = start;
        write_all(&mut levels, drive_writes(Direction::Forward));
        assert_eq!(levels, (true, false));
        let mut levels = start;
        write_all(&mut levels, drive_writes(Direction::Reverse));
        assert_eq!(levels, (false, true));
    }
    for start in [(false, false), (true, false), (false, true)] {
        let mut levels = start;
        write_all(&mut levels, coast_writes());
        assert_eq!(levels, (false, false));
    }
}

#[test]
fn pwm_settings() {
    // 125MHz: 5000 counts a period.
    assert_eq!(pwm_top(125_000_000), 4_999);
    assert_eq!(pwm_top(25_000), 0);
    assert_eq!(pwm_top(24_999), 0);
    assert_eq!(pwm_top(0), 0);
    assert_eq!(pwm_top(25_000 * 65_536), 65_535);
    assert_eq!(pwm_top(25_000 * 65_537), 0);
    assert_eq!(pwm_permille(0), 0);
    assert_eq!(pwm_permille(1000), 1000);
    assert_eq!(pwm_permille(1001), 1000);
    assert_eq!(pwm_permille(u16::MAX), 1000);
}

#[test]
fn names_in_the_log() {
    assert_eq!(dir_str(Direction::Forward), "fwd");
    assert_eq!(dir_str(Direction::Reverse), "rev");
    assert_eq!(reason_str(Reason::Stall), "stall");
    assert_eq!(reason_str(Reason::Timeout), "timeout");
}

#[test]
fn the_replayed_trace() {
    let mut replay = Replay::new();
    let trace: Vec<u16> = (0..500).map(|_| replay.next()).collect();
    assert_eq!(trace[..12], [900, 835, 770, 705, 640, 575, 510, 445, 380, 315, 250, 250]);
    assert_eq!(trace[29], 250);
    assert_eq!(trace[30], 249);
    assert_eq!(trace[299], 236);
    assert_eq!(trace[300], 900);
    assert!(trace[300..].iter().all(|v| *v == 900));
    replay.restart();
    assert_eq!(replay.next(), 900);
    assert_eq!(replay.next(), 835);
}

#[test]
fn restarting_rewinds_a_trace_and_leaves_a_live_input_alone() {
    let conversions = [Some(123); OVERSAMPLE];
    let mut replayed = SenseInput::Replayed(Replay::new());
    for _ in 0..500 {
        replayed.read(&conversions);
    }
    assert_eq!(replayed.read(&conversions), 900);
    replayed.restart();
    assert_eq!(replayed.read(&conversions), 900);
    assert_eq!(replayed.read(&conversions), 835);
    let mut live = SenseInput::Live;
    assert_eq!(live.read(&conversions), 123);
    live.restart();
    assert_eq!(live.read(&conversions), 123);
    assert_eq!(live.read(&[None; OVERSAMPLE]), 0);
}

#[test]
fn a_replayed_traverse_stalls_once() {
    let mut replay = Replay::new();
    let mut det = Detector::new(Config::default(), 0);
    let mut fired = Vec::new();
    for i in 0..1_000u32 {
        if let Some(reason) = det.update(10 * i, replay.next()).reversed {
            fired.push((i, reason));
            replay.restart();
        }
    }
    // The stopper is entry 300, and the fifth sample there confirms it.
    assert_eq!(
        fired,
        vec![
            (304, Reason::Stall),
            (609, Reason::Stall),
            (914, Reason::Stall)
        ]
    );
}

#[test]
fn loop_timing() {
    assert_eq!(TICK_MS, 10);
    assert_eq!(DWELL_MS, 300);
    assert_eq!(LOG_EVERY, 10);
    assert_eq!(OVERSAMPLE, 16);
}

/// Brings a fresh controller to the reading before a stall is confirmed.
fn about_to_stall() -> Controller {
    let mut ctl = Controller::new(Config::default(), 0);
    ctl.step(Input::Sampled { now_ms: 800, counts: 250 });
    for i in 1..5 {
        ctl.step(Input::Sampled { now_ms: 800 + 10 * i, counts: 900 });
    }
    ctl
}

#[test]
fn a_turn_coasts_dwells_and_resumes() {
    let mut ctl = about_to_stall();
    assert_eq!(
        ctl.step(Input::Sampled { now_ms: 850, counts: 901 }),
        Action::Turn(Reversal {
            reason: Reason::Stall,
            new_dir: Direction::Reverse,
            sample: 901,
            baseline: 250,
            threshold: 280,
        })
    );
    // Readings during the dwell are ignored.
    assert_eq!(ctl.step(Input::Sampled { now_ms: 900, counts: 900 }), Action::Wait);
    assert_eq!(
        ctl.step(Input::Dwelt { now_ms: 1_150 }),
        Action::Drive(Drive {
            dir: Direction::Reverse,
            duty_permille: 0,
            reset_ticker: true,
            row: None,
        })
    );
    // A dwell nobody asked for is ignored too.
    assert_eq!(ctl.step(Input::Dwelt { now_ms: 1_155 }), Action::Wait);
    // The soft start runs from the end of the dwell.
    assert_eq!(
        ctl.step(Input::Sampled { now_ms: 1_160, counts: 900 }),
        Action::Drive(Drive {
            dir: Direction::Reverse,
            duty_permille: 20,
            reset_ticker: false,
            row: None,
        })
    );
}

#[test]
fn every_tenth_tick_is_logged() {
    let mut ctl = Controller::new(Config::default(), 0);
    let mut logged = Vec::new();
    for i in 1..=100u32 {
        match ctl.step(Input::Sampled { now_ms: 10 * i, counts: 250 }) {
            Action::Drive(drive) => {
                if let Some(row) = drive.row {
                    logged.push((i, row));
                }
            }
            other => panic!("unexpected {:?}", other),
        }
    }
    let when: Vec<u32> = logged.iter().map(|l| l.0).collect();
    assert_eq!(when, vec![10, 20, 30, 40, 50, 60, 70, 80, 90, 100]);
    assert_eq!(
        logged[0].1,
        Row {
            sample: 250,
            baseline: 0,
            threshold: 44,
            confirm: 0,
            dir: Direction::Forward,
            duty_permille: 200,
        }
    );
    assert_eq!(
        logged[9].1,
        Row {
            sample: 250,
            baseline: 250,
            threshold: 280,
            confirm: 0,
            dir: Direction::Forward,
            duty_permille: 1000,
        }
    );
}

#[test]
fn a_turn_on_a_logged_tick_logs_after_the_dwell() {
    let mut ctl = Controller::new(Config { confirm_samples: 1, ..Config::default() }, 0);
    for i in 0..9 {
        ctl.step(Input::Sampled { now_ms: 800 + 10 * i, counts: 250 });
    }
    let turn = ctl.step(Input::Sampled { now_ms: 890, counts: 300 });
    assert!(matches!(turn, Action::Turn(_)));
    assert_eq!(
        ctl.step(Input::Dwelt { now_ms: 1_190 }),
        Action::Drive(Drive {
            dir: Direction::Reverse,
            duty_permille: 0,
            reset_ticker: true,
            row: Some(Row {
                sample: 300,
                baseline: 250,
                threshold: 280,
                confirm: 0,
                dir: Direction::Reverse,
                duty_permille: 0,
            }),
        })
    );
}

#[test]
fn opposite_drives_have_a_turn_between() {
    let mut ctl = Controller::new(Config { max_traverse_ms: 1_000, ..Config::default() }, 0);
    let mut now_ms = 0;
    let mut driven: Option<Direction> = None;
    let mut turned = false;
    let mut turns = 0;
    let mut input = Input::Sampled { now_ms, counts: 250 };
    for _ in 0..1_000 {
        match ctl.step(input) {
            Action::Turn(reversal) => {
                assert_eq!(reversal.reason, Reason::Timeout);
                turned = true;
                turns += 1;
                now_ms += DWELL_MS;
                input = Input::Dwelt { now_ms };
            }
            Action::Drive(drive) => {
                if let Some(dir) = driven {
                    assert_eq!(dir != drive.dir, turned);
                }
                assert!(drive.duty_permille <= 1000);
                driven = Some(drive.dir);
                turned = false;
                now_ms += TICK_MS;
                input = Input::Sampled { now_ms, counts: 250 };
            }
            Action::Wait => panic!("nothing was out of order"),
        }
    }
    assert_eq!(turns, 9);
}
