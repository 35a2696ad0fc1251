//! Signal conditioning and calibration for a weighing rig with two load
//! cells.
//!
//! The library computes in exact integer arithmetic: readings are raw sensor
//! units, masses are milligrams, and a scale factor counts raw units per
//! kilogram. It never reads a sensor or a clock itself. The `Averager` and
//! the `Calibrator` name the next thing to do and take in what came of it;
//! the `Buffer` smooths the weights that are shown.

pub mod arith;
pub mod averager;
pub mod buffer;
pub mod calibrator;
pub mod clock;
pub mod factor;
pub mod reading;

pub use averager::{Averager, Sampling};
pub use buffer::Buffer;
pub use calibrator::{Action, Calibrator, Event, Mode, Outcome, Phase};
pub use factor::ScaleFactor;
pub use reading::Reading;
