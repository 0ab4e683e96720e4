//! What the status LED shows, as stored in the shared LED state byte.
use vstd::prelude::*;
use crate::csps::status::PinAction;

verus! {

/// What the status LED shows.
#[derive(Clone, Copy, PartialEq, Eq, Structural)]
pub enum LedState {
    Off,
    On,
    SlowFlash,
    FastFlash,
    /// A stored byte that names no state.
    Unknown,
}

/// The state a stored byte stands for.
pub open spec fn led_state_of(v: u8) -> LedState {
    if v == 0 {
        LedState::Off
    } else if v == 1 {
        LedState::On
    } else if v == 2 {
        LedState::SlowFlash
    } else if v == 3 {
        LedState::FastFlash
    } else {
        LedState::Unknown
    }
}

/// The byte a state is stored as (`Unknown` as 4).
pub open spec fn led_code(s: LedState) -> u8 {
    match s {
        LedState::Off => 0,
        LedState::On => 1,
        LedState::SlowFlash => 2,
        LedState::FastFlash => 3,
        LedState::Unknown => 4,
    }
}

impl LedState {
    /// The byte this state is stored as.
    pub fn code(self) -> (r: u8)
        ensures
            r == led_code(self),
    {
        match self {
            LedState::Off => 0,
            LedState::On => 1,
            LedState::SlowFlash => 2,
            LedState::FastFlash => 3,
            LedState::Unknown => 4,
        }
    }
}

impl From<u8> for LedState {
    fn from(v: u8) -> (r: LedState) {
        if v == 0 {
            LedState::Off
        } else if v == 1 {
            LedState::On
        } else if v == 2 {
            LedState::SlowFlash
        } else if v == 3 {
            LedState::FastFlash
        } else {
            LedState::Unknown
        }
    }
}

impl vstd::std_specs::convert::FromSpecImpl<u8> for LedState {
    open spec fn obeys_from_spec() -> bool {
        true
    }

    open spec fn from_spec(v: u8) -> LedState {
        led_state_of(v)
    }
}

/// What the LED task does in a state: the pin action and how long to wait
/// before looking again, in ms.
pub open spec fn led_task_spec(s: LedState) -> (PinAction, u32) {
    match s {
        LedState::Off => (PinAction::Low, 200),
        LedState::On => (PinAction::High, 200),
        LedState::SlowFlash => (PinAction::Toggle, 500),
        LedState::FastFlash => (PinAction::Toggle, 100),
        LedState::Unknown => (PinAction::Keep, 200),
    }
}

/// One round of the LED task for the stored state byte `code`.
pub fn led_task_step(code: u8) -> (r: (PinAction, u32))
    ensures
        r == led_task_spec(led_state_of(code)),
{
    match LedState::from(code) {
        LedState::Off => (PinAction::Low, 200),
        LedState::On => (PinAction::High, 200),
        LedState::SlowFlash => (PinAction::Toggle, 500),
        LedState::FastFlash => (PinAction::Toggle, 100),
        LedState::Unknown => (PinAction::Keep, 200),
    }
}

/// Reading back a stored state gives the state.
pub proof fn lemma_led_code_roundtrip(s: LedState)
    ensures
        led_state_of(led_code(s)) == s,
{
}

} // verus!
