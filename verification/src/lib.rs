//! Status-line modules for a bar that reads one JSON object per line.
//!
//! The heart of the crate is the device-presence pipeline: a debouncer that
//! coalesces bursts of raw kernel events into single update notifications, a
//! stateless presence checker, and a formatter that turns the presence result
//! into a display record.  Around it stand the shared pieces the other status
//! modules use: the output record with its JSON rendering, percentages, a
//! bounded value history, and parsers for the fixed-format system files the
//! polling modules read.
//!
//! Everything here is pure computation over plain values.  Reading files,
//! waiting on sockets, timers, signals and channels is left to the binaries
//! that drive these types; they hand the observed values in and write the
//! produced records out.

pub mod checker;
pub mod cpufreq;
pub mod debounce;
pub mod formatter;
pub mod json;
pub mod meminfo;
pub mod monitor;
pub mod output;
pub mod percentage;
pub mod pipeline;
pub mod snapshot;
pub mod swaync;
pub mod text;
pub mod value;

pub use output::Output;
pub use percentage::Percentage;
pub use value::History;
