//! Battery charge-threshold logic: discovering batteries in a power-supply
//! listing, reading and parsing the kernel's threshold files, and building
//! the shell commands that write new thresholds.

pub mod decimal;
pub mod listing;
pub mod battery;
pub mod update;
