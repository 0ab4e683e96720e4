use ch32_util::csps::button::{
    button_step, button_wait, ButtonEvent, ButtonPhase, ButtonWait, PowerLed, DEBOUNCE_MS,
    FLASH_MS, LONG_PRESS_MS,
};
use ch32_util::csps::led_state::{led_task_step, LedState};
use ch32_util::csps::status::PinAction;
use ch32_util::switch::led_task_step as switch_led_step;

fn press(s: &mut PowerLed, evs: &[ButtonEvent]) -> (ButtonPhase, Vec<PinAction>) {
    let mut phase = ButtonPhase::Idle;
    let mut acts = Vec::new();
    for &ev in evs {
        let (p, a, w) = button_step(phase, ev, s);
        assert!(w == button_wait(p));
        phase = p;
        acts.push(a);
    }
    (phase, acts)
}

#[test]
fn waits_of_each_phase() {
    assert!(button_wait(ButtonPhase::Idle) == ButtonWait::Press);
    assert!(button_wait(ButtonPhase::Debounce) == ButtonWait::Delay(DEBOUNCE_MS));
    assert!(button_wait(ButtonPhase::Held) == ButtonWait::Release(FLASH_MS));
    assert!(button_wait(ButtonPhase::LongHold { prev: 0 }) == ButtonWait::Release(LONG_PRESS_MS));
}

#[test]
fn button_short_press_switches_on() {
    let mut s = PowerLed { power: false, led: 0 };
    let (phase, acts) = press(
        &mut s,
        &[ButtonEvent::Falling, ButtonEvent::Settled { low: true }, ButtonEvent::Released],
    );
    assert!(phase == ButtonPhase::Idle);
    assert!(s.power);
    assert_eq!(s.led, 1);
    assert!(acts[2] == PinAction::High);
}

#[test]
fn short_press_when_on_changes_nothing() {
    let mut s = PowerLed { power: true, led: 1 };
    let (_, acts) = press(
        &mut s,
        &[ButtonEvent::Falling, ButtonEvent::Settled { low: true }, ButtonEvent::Released],
    );
    assert!(s == PowerLed { power: true, led: 1 });
    assert!(acts.iter().all(|a| *a == PinAction::Keep));
}

#[test]
fn long_press_switches_off() {
    let mut s = PowerLed { power: true, led: 1 };
    let (phase, acts) = press(
        &mut s,
        &[
            ButtonEvent::Falling,
            ButtonEvent::Settled { low: true },
            ButtonEvent::Timeout,
        ],
    );
    assert!(phase == ButtonPhase::LongHold { prev: 1 });
    assert_eq!(s.led, 3);
    assert!(acts[2] == PinAction::Keep);
    let (p, a, w) = button_step(phase, ButtonEvent::Timeout, &mut s);
    assert!(p == ButtonPhase::Idle);
    assert!(a == PinAction::Low);
    assert!(w == ButtonWait::Press);
    assert!(s == PowerLed { power: false, led: 0 });
}

#[test]
fn release_while_flashing_restores_led() {
    let mut s = PowerLed { power: true, led: 2 };
    press(
        &mut s,
        &[
            ButtonEvent::Falling,
            ButtonEvent::Settled { low: true },
            ButtonEvent::Timeout,
            ButtonEvent::Released,
        ],
    );
    assert!(s == PowerLed { power: true, led: 2 });
}

#[test]
fn long_press_when_off_restores_led() {
    let mut s = PowerLed { power: false, led: 0 };
    press(
        &mut s,
        &[
            ButtonEvent::Falling,
            ButtonEvent::Settled { low: true },
            ButtonEvent::Timeout,
            ButtonEvent::Timeout,
        ],
    );
    assert!(s == PowerLed { power: false, led: 0 });
}

#[test]
fn bounce_is_ignored() {
    let mut s = PowerLed { power: false, led: 0 };
    let (phase, _) = press(&mut s, &[ButtonEvent::Falling, ButtonEvent::Settled { low: false }]);
    assert!(phase == ButtonPhase::Idle);
    assert!(s == PowerLed { power: false, led: 0 });
}

#[test]
fn impossible_events_change_nothing() {
    let mut s = PowerLed { power: false, led: 0 };
    let (p, a, w) = button_step(ButtonPhase::Idle, ButtonEvent::Timeout, &mut s);
    assert!(p == ButtonPhase::Idle && a == PinAction::Keep && w == ButtonWait::Press);
    let (p, _, w) = button_step(ButtonPhase::Held, ButtonEvent::Falling, &mut s);
    assert!(p == ButtonPhase::Held && w == ButtonWait::Release(FLASH_MS));
    assert!(s == PowerLed { power: false, led: 0 });
}

#[test]
fn led_states_from_bytes() {
    assert!(LedState::from(0u8) == LedState::Off);
    assert!(LedState::from(1u8) == LedState::On);
    assert!(LedState::from(2u8) == LedState::SlowFlash);
    assert!(LedState::from(3u8) == LedState::FastFlash);
    assert!(LedState::from(4u8) == LedState::Unknown);
    assert!(LedState::from(200u8) == LedState::Unknown);
    for s in [LedState::Off, LedState::On, LedState::SlowFlash, LedState::FastFlash] {
        assert!(LedState::from(s.code()) == s);
    }
}

#[test]
fn led_task_rounds() {
    assert!(led_task_step(0) == (PinAction::Low, 200));
    assert!(led_task_step(1) == (PinAction::High, 200));
    assert!(led_task_step(2) == (PinAction::Toggle, 500));
    assert!(led_task_step(3) == (PinAction::Toggle, 100));
    assert!(led_task_step(9) == (PinAction::Keep, 200));
}

#[test]
fn switch_led_byte_stays_valid() {
    let mut s = PowerLed { power: false, led: 0 };
    let mut phase = ButtonPhase::Idle;
    let evs = [
        ButtonEvent::Falling,
        ButtonEvent::Settled { low: true },
        ButtonEvent::Released,
        ButtonEvent::Falling,
        ButtonEvent::Settled { low: true },
        ButtonEvent::Timeout,
        ButtonEvent::Released,
        ButtonEvent::Falling,
        ButtonEvent::Settled { low: true },
        ButtonEvent::Timeout,
        ButtonEvent::Timeout,
    ];
    for ev in evs {
        let (p, _, _) = button_step(phase, ev, &mut s);
        phase = p;
        assert!(switch_led_step(s.led).is_ok());
    }
    assert!(s == PowerLed { power: false, led: 0 });
}
