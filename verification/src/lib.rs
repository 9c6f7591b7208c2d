//! Core of a host telemetry monitor: GPU sampling backends, delta
//! accounting for cumulative counters, fixed-capacity metric history,
//! and the selection logic that reconciles the backends each tick.

pub mod counter;
pub mod delta;
pub mod engine;
pub mod fmt;
pub mod gpu;
pub mod history;
pub mod stats;
pub mod sysfs;
pub mod text;
pub mod ui;

pub use history::HistoryBuffer;
