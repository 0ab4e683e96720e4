//! The power button: a press released within half a second switches the
//! supply on; holding it flashes the LED, and holding on for two more
//! seconds switches the supply off. The button task waits for edges and
//! timeouts; this decides what each one means.
use vstd::prelude::*;
use crate::csps::led_state::{led_code, LedState};
use crate::csps::status::PinAction;

verus! {

/// Debounce time after a falling edge, in ms.
pub const DEBOUNCE_MS: u32 = 20;

/// How long a press may last and still be a short press, in ms.
pub const FLASH_MS: u32 = 500;

/// How much longer the button must be held for a long press, in ms.
pub const LONG_PRESS_MS: u32 = 2000;

/// Where the button task is in a press.
#[derive(Clone, Copy, PartialEq, Eq, Structural)]
pub enum ButtonPhase {
    /// Waiting for a press.
    Idle,
    /// Pressed; waiting for the contacts to settle.
    Debounce,
    /// Held; released within `FLASH_MS` it is a short press.
    Held,
    /// Held past `FLASH_MS` with the LED flashing; `prev` is the LED state to
    /// restore.
    LongHold { prev: u8 },
}

/// What the button task saw.
#[derive(Clone, Copy, PartialEq, Eq, Structural)]
pub enum ButtonEvent {
    /// A falling edge (a press).
    Falling,
    /// The debounce time is over; `low` says whether the button is still down.
    Settled { low: bool },
    /// A rising edge (a release) before the timeout.
    Released,
    /// The timeout passed without a release.
    Timeout,
}

/// What the button task waits for next.
#[derive(Clone, Copy, PartialEq, Eq, Structural)]
pub enum ButtonWait {
    /// A falling edge.
    Press,
    /// A fixed time, in ms.
    Delay(u32),
    /// A rising edge, for at most this many ms.
    Release(u32),
}

/// The state of the supply as the button sees it.
#[derive(Clone, Copy, PartialEq, Eq, Structural)]
pub struct PowerLed {
    /// The supply is on.
    pub power: bool,
    /// The LED state byte.
    pub led: u8,
}

/// One step of the button logic: the next phase, the new supply state,
/// what to do with the supply-enable output, and what to wait for next.
/// An event that cannot happen in a phase changes nothing.
pub open spec fn button_next(phase: ButtonPhase, ev: ButtonEvent, s: PowerLed) -> (
    ButtonPhase,
    PowerLed,
    PinAction,
    ButtonWait,
) {
    match (phase, ev) {
        (ButtonPhase::Idle, ButtonEvent::Falling) => (
            ButtonPhase::Debounce,
            s,
            PinAction::Keep,
            ButtonWait::Delay(DEBOUNCE_MS),
        ),
        (ButtonPhase::Debounce, ButtonEvent::Settled { low }) => if low {
            (ButtonPhase::Held, s, PinAction::Keep, ButtonWait::Release(FLASH_MS))
        } else {
            (ButtonPhase::Idle, s, PinAction::Keep, ButtonWait::Press)
        },
        (ButtonPhase::Held, ButtonEvent::Released) => if !s.power {
            (
                ButtonPhase::Idle,
                PowerLed { power: true, led: led_code(LedState::On) },
                PinAction::High,
                ButtonWait::Press,
            )
        } else {
            (ButtonPhase::Idle, s, PinAction::Keep, ButtonWait::Press)
        },
        (ButtonPhase::Held, ButtonEvent::Timeout) => (
            ButtonPhase::LongHold { prev: s.led },
            PowerLed { led: led_code(LedState::FastFlash), ..s },
            PinAction::Keep,
            ButtonWait::Release(LONG_PRESS_MS),
        ),
        (ButtonPhase::LongHold { prev }, ButtonEvent::Released) => (
            ButtonPhase::Idle,
            PowerLed { led: prev, ..s },
            PinAction::Keep,
            ButtonWait::Press,
        ),
        (ButtonPhase::LongHold { prev }, ButtonEvent::Timeout) => if s.power {
            (
                ButtonPhase::Idle,
                PowerLed { power: false, led: led_code(LedState::Off) },
                PinAction::Low,
                ButtonWait::Press,
            )
        } else {
            (ButtonPhase::Idle, PowerLed { led: prev, ..s }, PinAction::Keep, ButtonWait::Press)
        },
        _ => (phase, s, PinAction::Keep, button_wait_of(phase)),
    }
}

/// What a phase waits for.
pub open spec fn button_wait_of(phase: ButtonPhase) -> ButtonWait {
    match phase {
        ButtonPhase::Idle => ButtonWait::Press,
        ButtonPhase::Debounce => ButtonWait::Delay(DEBOUNCE_MS),
        ButtonPhase::Held => ButtonWait::Release(FLASH_MS),
        ButtonPhase::LongHold { .. } => ButtonWait::Release(LONG_PRESS_MS),
    }
}

/// What a phase waits for (see `button_wait_of`).
pub fn button_wait(phase: ButtonPhase) -> (w: ButtonWait)
    ensures
        w == button_wait_of(phase),
{
    match phase {
        ButtonPhase::Idle => ButtonWait::Press,
        ButtonPhase::Debounce => ButtonWait::Delay(DEBOUNCE_MS),
        ButtonPhase::Held => ButtonWait::Release(FLASH_MS),
        ButtonPhase::LongHold { .. } => ButtonWait::Release(LONG_PRESS_MS),
    }
}

/// One step of the button logic (see `button_next`): updates the supply
/// state and returns the next phase, the action on the supply-enable output
/// and what to wait for next.
pub fn button_step(phase: ButtonPhase, ev: ButtonEvent, s: &mut PowerLed) -> (r: (
    ButtonPhase,
    PinAction,
    ButtonWait,
))
    ensures
        ({
            let (p, n, a, w) = button_next(phase, ev, *old(s));
            r == (p, a, w) && *final(s) == n
        }),
{
    match (phase, ev) {
        (ButtonPhase::Idle, ButtonEvent::Falling) => (
            ButtonPhase::Debounce,
            PinAction::Keep,
            ButtonWait::Delay(DEBOUNCE_MS),
        ),
        (ButtonPhase::Debounce, ButtonEvent::Settled { low }) => {
            if low {
                (ButtonPhase::Held, PinAction::Keep, ButtonWait::Release(FLASH_MS))
            } else {
                (ButtonPhase::Idle, PinAction::Keep, ButtonWait::Press)
            }
        },
        (ButtonPhase::Held, ButtonEvent::Released) => {
            if !s.power {
                s.power = true;
                s.led = LedState::On.code();
                (ButtonPhase::Idle, PinAction::High, ButtonWait::Press)
            } else {
                (ButtonPhase::Idle, PinAction::Keep, ButtonWait::Press)
            }
        },
        (ButtonPhase::Held, ButtonEvent::Timeout) => {
            let prev = s.led;
            s.led = LedState::FastFlash.code();
            (ButtonPhase::LongHold { prev }, PinAction::Keep, ButtonWait::Release(LONG_PRESS_MS))
        },
        (ButtonPhase::LongHold { prev }, ButtonEvent::Released) => {
            s.led = prev;
            (ButtonPhase::Idle, PinAction::Keep, ButtonWait::Press)
        },
        (ButtonPhase::LongHold { prev }, ButtonEvent::Timeout) => {
            if s.power {
                s.power = false;
                s.led = LedState::Off.code();
                (ButtonPhase::Idle, PinAction::Low, ButtonWait::Press)
            } else {
                s.led = prev;
                (ButtonPhase::Idle, PinAction::Keep, ButtonWait::Press)
            }
        },
        _ => (phase, PinAction::Keep, button_wait(phase)),
    }
}

/// The phase and supply state after a run of events from `phase`.
pub open spec fn button_run(phase: ButtonPhase, evs: Seq<ButtonEvent>, s: PowerLed) -> (
    ButtonPhase,
    PowerLed,
)
    decreases evs.len(),
{
    if evs.len() == 0 {
        (phase, s)
    } else {
        let (p, n, _, _) = button_next(phase, evs[0], s);
        button_run(p, evs.skip(1), n)
    }
}

/// A short press (pressed, still down after the debounce, released within
/// half a second) switches an off supply on with the LED on, and leaves an
/// on supply as it is.
pub proof fn lemma_short_press(s: PowerLed)
    ensures
        button_run(
            ButtonPhase::Idle,
            seq![ButtonEvent::Falling, ButtonEvent::Settled { low: true }, ButtonEvent::Released],
            s,
        ) == (ButtonPhase::Idle, if s.power {
            s
        } else {
            PowerLed { power: true, led: led_code(LedState::On) }
        }),
{
    reveal_with_fuel(button_run, 5);
    let evs = seq![ButtonEvent::Falling, ButtonEvent::Settled { low: true }, ButtonEvent::Released];
    assert(evs.skip(1) =~= seq![ButtonEvent::Settled { low: true }, ButtonEvent::Released]);
    assert(evs.skip(1).skip(1) =~= seq![ButtonEvent::Released]);
    assert(evs.skip(1).skip(1).skip(1) =~= Seq::<ButtonEvent>::empty());
}

/// A long press (held through the half second and the two seconds after)
/// switches an on supply off with the LED off; on an off supply it only
/// restores the LED.
pub proof fn lemma_long_press(s: PowerLed)
    ensures
        button_run(
            ButtonPhase::Idle,
            seq![
                ButtonEvent::Falling,
                ButtonEvent::Settled { low: true },
                ButtonEvent::Timeout,
                ButtonEvent::Timeout,
            ],
            s,
        ) == (ButtonPhase::Idle, if s.power {
            PowerLed { power: false, led: led_code(LedState::Off) }
        } else {
            s
        }),
{
    reveal_with_fuel(button_run, 5);
    let evs = seq![
        ButtonEvent::Falling,
        ButtonEvent::Settled { low: true },
        ButtonEvent::Timeout,
        ButtonEvent::Timeout,
    ];
    assert(evs.skip(1) =~= seq![
        ButtonEvent::Settled { low: true },
        ButtonEvent::Timeout,
        ButtonEvent::Timeout,
    ]);
    assert(evs.skip(1).skip(1) =~= seq![ButtonEvent::Timeout, ButtonEvent::Timeout]);
    assert(evs.skip(1).skip(1).skip(1) =~= seq![ButtonEvent::Timeout]);
    assert(evs.skip(1).skip(1).skip(1).skip(1) =~= Seq::<ButtonEvent>::empty());
}

/// Releasing the button while the LED flashes (between half a second and
/// two and a half seconds) changes nothing: the LED shows what it showed
/// before.
pub proof fn lemma_released_while_flashing(s: PowerLed)
    ensures
        button_run(
            ButtonPhase::Idle,
            seq![
                ButtonEvent::Falling,
                ButtonEvent::Settled { low: true },
                ButtonEvent::Timeout,
                ButtonEvent::Released,
            ],
            s,
        ) == (ButtonPhase::Idle, s),
{
    reveal_with_fuel(button_run, 5);
    let evs = seq![
        ButtonEvent::Falling,
        ButtonEvent::Settled { low: true },
        ButtonEvent::Timeout,
        ButtonEvent::Released,
    ];
    assert(evs.skip(1) =~= seq![
        ButtonEvent::Settled { low: true },
        ButtonEvent::Timeout,
        ButtonEvent::Released,
    ]);
    assert(evs.skip(1).skip(1) =~= seq![ButtonEvent::Timeout, ButtonEvent::Released]);
    assert(evs.skip(1).skip(1).skip(1) =~= seq![ButtonEvent::Released]);
    assert(evs.skip(1).skip(1).skip(1).skip(1) =~= Seq::<ButtonEvent>::empty());
}

/// A bounce (the button is up again when the debounce time is over) changes
/// nothing.
pub proof fn lemma_bounce_ignored(s: PowerLed)
    ensures
        button_run(
            ButtonPhase::Idle,
            seq![ButtonEvent::Falling, ButtonEvent::Settled { low: false }],
            s,
        ) == (ButtonPhase::Idle, s),
{
    reveal_with_fuel(button_run, 5);
    let evs = seq![ButtonEvent::Falling, ButtonEvent::Settled { low: false }];
    assert(evs.skip(1) =~= seq![ButtonEvent::Settled { low: false }]);
    assert(evs.skip(1).skip(1) =~= Seq::<ButtonEvent>::empty());
}

} // verus!
