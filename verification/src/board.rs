//! Board constants for ZecTrix Note4.
//!
//! Hardware-only values of the board; drivers
//! live in separate modules.
pub mod audio;
pub mod battery;
pub mod epd;
pub mod i2c;
pub mod pins;
