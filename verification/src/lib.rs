//! Analog-keyboard input pipeline: device catalog and matching, HID report
//! parsing, the per-key press/velocity state machine, batch gap synthesis,
//! tracked-device registry logic, passthrough-node selection, and the
//! synthesized-output event planner.
//!
//! Analog values are held in fixed-point units of 1/1275 of full key travel,
//! timestamps in microseconds on a monotonic clock; the surrounding process
//! converts at the hardware boundary.

pub mod batch;
pub mod catalog;
pub mod output;
pub mod pipeline;
pub mod registry;
pub mod report;
pub mod session;
pub mod topology;
pub mod watcher;
