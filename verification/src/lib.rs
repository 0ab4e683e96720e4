//! Verified core of a CH32V003 utility library and its firmware: number
//! formatting and parsing, the serial command protocol, the power-switch
//! state machines, and the arithmetic behind the watchdog and auto-wakeup
//! timers.
use vstd::prelude::*;

pub mod awu;
pub mod digits;
pub mod sdi_write;
pub mod serial;
pub mod csps;
pub mod iwdg;
pub mod tx;
pub mod line_buf;
pub mod text;
pub mod tokens;
pub mod ufmt;
pub mod stack_info;
pub mod switch;
pub mod wait;

verus! {

} // verus!
