//! Core logic of the ZecTrix Note4 e-paper firmware.
pub mod battery;
pub mod board;
pub mod frame;
pub mod epd;
pub mod slint_ui;
pub mod wifi;
pub mod text;
pub mod ui;
