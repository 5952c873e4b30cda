//! Backlight brightness as a percentage: conversions between the raw units of
//! a backlight driver and percentages, the decimal text of the driver's
//! files, and the command line that selects an operation.

pub mod error;
pub mod percent;
pub mod text;
pub mod config;
pub mod backlight;
