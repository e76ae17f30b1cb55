//! Stall detection and direction sequencing for a rope-traversing prop carriage.
//!
//! The carriage runs a brushed DC motor along a rope and reverses when it hits a
//! physical stopper. A stopper shows up electrically as a stall: the motor stops
//! turning, back-EMF collapses, and current through the sense resistor jumps.
//!
//! This crate is pure logic: timestamps and ADC readings in, motor state out. It
//! has no hardware dependencies, does not allocate and does not panic.

pub mod arith;
pub mod bridge;
pub mod clock;
pub mod config;
pub mod controller;
pub mod cycle;
pub mod detector;
pub mod direction;
pub mod history;
pub mod laws;
pub mod model;
pub mod replay;
pub mod sense;
pub mod telemetry;

pub use config::Config;
pub use controller::{Action, Controller, Drive, Input};
pub use detector::Detector;
pub use direction::{Direction, Reason};
pub use model::Tick;
pub use replay::Replay;
pub use sense::SenseInput;
pub use telemetry::{Reversal, Row};
