//! The two-button power switch firmware: LED states and what the LED task
//! does in each. (Its button logic is `csps::button`.)
use vstd::prelude::*;
use crate::csps::button::{button_next, ButtonEvent, ButtonPhase, PowerLed};
use crate::csps::status::PinAction;

verus! {

/// What the status LED shows.
#[derive(Clone, Copy, PartialEq, Eq, Structural)]
pub enum LedState {
    Off,
    On,
    SlowFlash,
    FastFlash,
}

/// The state a stored byte stands for; other bytes are returned as errors.
pub open spec fn led_state_from(v: u8) -> Result<LedState, u8> {
    if v == 0 {
        Ok(LedState::Off)
    } else if v == 1 {
        Ok(LedState::On)
    } else if v == 2 {
        Ok(LedState::SlowFlash)
    } else if v == 3 {
        Ok(LedState::FastFlash)
    } else {
        Err(v)
    }
}

impl TryFrom<u8> for LedState {
    type Error = u8;

    fn try_from(v: u8) -> (r: Result<LedState, u8>) {
        if v == 0 {
            Ok(LedState::Off)
        } else if v == 1 {
            Ok(LedState::On)
        } else if v == 2 {
            Ok(LedState::SlowFlash)
        } else if v == 3 {
            Ok(LedState::FastFlash)
        } else {
            Err(v)
        }
    }
}

impl vstd::std_specs::convert::TryFromSpecImpl<u8> for LedState {
    open spec fn obeys_try_from_spec() -> bool {
        true
    }

    open spec fn try_from_spec(v: u8) -> Result<LedState, u8> {
        led_state_from(v)
    }
}

impl LedState {
    /// The byte this state is stored as.
    pub fn code(self) -> (r: u8)
        ensures
            led_state_from(r) == Ok::<LedState, u8>(self),
    {
        match self {
            LedState::Off => 0,
            LedState::On => 1,
            LedState::SlowFlash => 2,
            LedState::FastFlash => 3,
        }
    }
}

/// What the LED task does in a state: the pin action and how long to wait
/// before looking again, in ms.
pub open spec fn led_task_spec(s: LedState) -> (PinAction, u32) {
    match s {
        LedState::Off => (PinAction::Low, 200),
        LedState::On => (PinAction::High, 200),
        LedState::SlowFlash => (PinAction::Toggle, 500),
        LedState::FastFlash => (PinAction::Toggle, 100),
    }
}

/// One round of the LED task for the stored state byte `code`; a byte that
/// names no state is returned as the error.
pub fn led_task_step(code: u8) -> (r: Result<(PinAction, u32), u8>)
    ensures
        r == (match led_state_from(code) {
            Ok(s) => Ok::<(PinAction, u32), u8>(led_task_spec(s)),
            Err(e) => Err(e),
        }),
{
    match LedState::try_from(code) {
        Ok(LedState::Off) => Ok((PinAction::Low, 200)),
        Ok(LedState::On) => Ok((PinAction::High, 200)),
        Ok(LedState::SlowFlash) => Ok((PinAction::Toggle, 500)),
        Ok(LedState::FastFlash) => Ok((PinAction::Toggle, 100)),
        Err(e) => Err(e),
    }
}

/// The button never stores an LED byte that names no state: starting from a
/// valid byte (and, mid-press, a valid byte to restore), every step of the
/// button logic leaves a valid one, so the LED task always finds a state.
pub proof fn lemma_button_keeps_led_valid(phase: ButtonPhase, ev: ButtonEvent, s: PowerLed)
    requires
        led_state_from(s.led) is Ok,
        phase matches ButtonPhase::LongHold { prev } ==> led_state_from(prev) is Ok,
    ensures
        ({
            let (p, n, _, _) = button_next(phase, ev, s);
            &&& led_state_from(n.led) is Ok
            &&& p matches ButtonPhase::LongHold { prev } ==> led_state_from(prev) is Ok
        }),
{
}

} // verus!
