//! The CSPS power-supply controller firmware: its serial command protocol,
//! status loop and LED/button logic.
pub mod led_state;
pub mod parse;
pub mod serial;
pub mod line_handler;
pub mod status;
pub mod button;
