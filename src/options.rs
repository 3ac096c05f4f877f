//! Command-line options.

pub mod opts;
