//! A verified line / word / byte / character counting library.
//!
//! The library is the computational core of a classic counting tool: a
//! single pass over the bytes of one input yields a tally of bytes, lines,
//! words and Unicode scalar values, per-input tallies are formatted into
//! aligned report lines, and a totals line summarises a multi-input run.
//! Reading the inputs and printing the report is left to a thin binary
//! around the library.

pub mod config;
pub mod counter;
pub mod format;
pub mod run;

pub use config::Cli;
pub use config::Config;
pub use counter::CountError;
pub use counter::FileInfo;
pub use run::run;
pub use run::RunError;
