//! Channel A of the TB6612FNG H-bridge: direction pins and PWM.

use vstd::prelude::*;

use crate::config::FULL_DUTY_PERMILLE;
use crate::direction::Direction;

verus! {

/// Motor PWM frequency. Above audibility, below anything the driver minds.
pub const PWM_HZ: u32 = 25_000;

/// A direction pin of the driver.
#[derive(Debug, Clone, Copy, PartialEq, Eq, Structural)]
pub enum Pin {
    Ain1,
    Ain2,
}

/// One pin set to one level.
#[derive(Debug, Clone, Copy, PartialEq, Eq, Structural)]
pub struct PinWrite {
    pub pin: Pin,
    pub high: bool,
}

/// The levels of both direction pins.
#[derive(Debug, Clone, Copy, PartialEq, Eq, Structural)]
pub struct Levels {
    pub ain1: bool,
    pub ain2: bool,
}

impl Levels {
    /// Both low: the H-bridge floats and the motor freewheels.
    pub open spec fn coasting(self) -> bool {
        !self.ain1 && !self.ain2
    }

    /// Both high: the driver shorts the motor.
    pub open spec fn braking(self) -> bool {
        self.ain1 && self.ain2
    }

    /// One high and one low: `AIN1` is forward, `AIN2` reverse.
    pub open spec fn driving(self, dir: Direction) -> bool {
        match dir {
            Direction::Forward => self.ain1 && !self.ain2,
            Direction::Reverse => !self.ain1 && self.ain2,
        }
    }

    /// The levels once a pin has been set.
    pub open spec fn once(self, write: PinWrite) -> Levels {
        match write.pin {
            Pin::Ain1 => Levels { ain1: write.high, ..self },
            Pin::Ain2 => Levels { ain2: write.high, ..self },
        }
    }
}

/// How to drive the motor one way: the pin that has to be low first, the pin that
/// has to be high second.
pub open spec fn drive_sequence(dir: Direction) -> (PinWrite, PinWrite) {
    match dir {
        Direction::Forward => (
            PinWrite { pin: Pin::Ain2, high: false },
            PinWrite { pin: Pin::Ain1, high: true },
        ),
        Direction::Reverse => (
            PinWrite { pin: Pin::Ain1, high: false },
            PinWrite { pin: Pin::Ain2, high: true },
        ),
    }
}

/// How to let the motor coast: both pins low.
pub open spec fn coast_sequence() -> (PinWrite, PinWrite) {
    (PinWrite { pin: Pin::Ain1, high: false }, PinWrite { pin: Pin::Ain2, high: false })
}

/// The pin writes that drive the motor one way, in order.
pub fn drive_writes(dir: Direction) -> (r: (PinWrite, PinWrite))
    ensures
        r == drive_sequence(dir),
{
    match dir {
        Direction::Forward => (
            PinWrite { pin: Pin::Ain2, high: false },
            PinWrite { pin: Pin::Ain1, high: true },
        ),
        Direction::Reverse => (
            PinWrite { pin: Pin::Ain1, high: false },
            PinWrite { pin: Pin::Ain2, high: true },
        ),
    }
}

/// The pin writes that let the motor coast, in order.
pub fn coast_writes() -> (r: (PinWrite, PinWrite))
    ensures
        r == coast_sequence(),
{
    (PinWrite { pin: Pin::Ain1, high: false }, PinWrite { pin: Pin::Ain2, high: false })
}

/// The duty to hand to the PWM, in permille of full duty: never over 1000, since
/// the PWM takes no fraction over one.
pub fn pwm_permille(duty_permille: u16) -> (r: u16)
    ensures
        r == if duty_permille <= FULL_DUTY_PERMILLE { duty_permille } else { FULL_DUTY_PERMILLE },
        r <= 1000 && r <= duty_permille,
        r == 1000 || r == duty_permille,
{
    if duty_permille <= FULL_DUTY_PERMILLE {
        duty_permille
    } else {
        FULL_DUTY_PERMILLE
    }
}

/// The counter value at which the PWM wraps, for a system clock of `clk_hz` and a
/// divider of 1. The period is `(top + 1) / clk_hz`. The counter has 16 bits, and
/// a clock too fast for it loses the bits above.
pub fn pwm_top(clk_hz: u32) -> (r: u16)
    ensures
        r == if clk_hz < PWM_HZ { 0 } else { (clk_hz / PWM_HZ - 1) % 0x1_0000 },
        25_000 <= clk_hz < 25_000 * 0x1_0000 ==> (r + 1) * 25_000 <= clk_hz < (r + 2) * 25_000,
{
    let top: u32 = (clk_hz / PWM_HZ).saturating_sub(1);
    assert(top as u16 == top % 0x1_0000) by (bit_vector);
    #[verifier::truncate]
    let r: u16 = top as u16;
    r
}

/// The PWM runs at the frequency asked for, rounded up to the next whole divisor
/// of the clock, for every clock between the PWM frequency and 65536 times it.
pub proof fn law_pwm_period(clk_hz: u32, top: u16)
    requires
        PWM_HZ <= clk_hz < PWM_HZ * 0x1_0000,
        top == (clk_hz / PWM_HZ - 1) % 0x1_0000,
    ensures
        (top + 1) * PWM_HZ <= clk_hz < (top + 2) * PWM_HZ,
{
}

/// Driving ends with the motor driven the way that was asked for and coasting with
/// the bridge afloat, whatever the levels were before. The bridge is never braked:
/// not then, and not between one pin write and the next.
pub proof fn law_the_bridge_never_brakes(from: Levels, dir: Direction)
    ensures
        ({
            let (low, high) = drive_sequence(dir);
            &&& !from.once(low).braking()
            &&& !from.once(low).once(high).braking()
            &&& from.once(low).once(high).driving(dir)
        }),
        ({
            let (first, second) = coast_sequence();
            &&& !from.once(first).braking()
            &&& !from.once(first).once(second).braking()
            &&& from.once(first).once(second).coasting()
        }),
{
}

/// Driving sets each direction pin once, the one to be low before the one to be
/// high: `AIN1` ends high for forward, `AIN2` for reverse. Coasting sets each of
/// them low. A write changes its own pin and no other.
pub proof fn law_the_pins_follow_the_truth_table(from: Levels, dir: Direction, write: PinWrite)
    ensures
        ({
            let (first, second) = drive_sequence(dir);
            let driven = from.once(first).once(second);
            &&& !first.high && second.high
            &&& first.pin != second.pin
            &&& second.pin == Pin::Ain1 <==> dir == Direction::Forward
            &&& driven.ain1 <==> dir == Direction::Forward
            &&& driven.ain2 <==> dir == Direction::Reverse
        }),
        ({
            let (first, second) = coast_sequence();
            &&& !first.high && !second.high
            &&& first.pin != second.pin
        }),
        write.pin == Pin::Ain1 ==> from.once(write).ain1 == write.high && from.once(write).ain2
            == from.ain2,
        write.pin == Pin::Ain2 ==> from.once(write).ain2 == write.high && from.once(write).ain1
            == from.ain1,
{
}

} // verus!
