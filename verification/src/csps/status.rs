//! The CSPS status loop: every 50 ms it advances the uptime clock, watches
//! the button, runs the switch-on and switch-off timers, and decides what the
//! supply-enable output and the status LED do.
use vstd::prelude::*;
use vstd::string::StringSliceAdditionalSpecFns;
use crate::csps::led_state::{led_code, led_state_of, LedState};
use crate::csps::line_handler::Controls;
use crate::text::{append, to_vec};

verus! {

/// Period of the status loop in milliseconds.
pub const STATUS_TICK_MS: u32 = 50;

/// What to do with an output pin.
#[derive(Clone, Copy, PartialEq, Eq, Structural)]
pub enum PinAction {
    Low,
    High,
    Toggle,
    Keep,
}

/// The status loop's own state.
#[derive(Clone, Copy)]
pub struct StatusLoop {
    /// Ticks so far (wrapping).
    pub count: u32,
    /// How long the button has been held, in ms (saturating).
    pub button_ms: u32,
    /// The power-off warning has been given.
    pub off_warning: bool,
    /// Millisecond clock at the previous tick.
    pub last_ms: u32,
    /// Milliseconds not yet counted as a whole second.
    pub frac_ms: u32,
    /// Seconds since start (wrapping).
    pub now_s: u32,
}

/// What one tick reads from the hardware.
#[derive(Clone, Copy)]
pub struct TickInputs {
    /// The millisecond clock (wrapping).
    pub ms: u32,
    /// The button is pressed (its input is low).
    pub button_low: bool,
    pub ps_ok: bool,
    pub ps_alarm: bool,
    pub vref: u16,
    pub imon: u16,
}

/// What one tick does to the outside world.
pub struct TickOutputs {
    /// Text for the serial port.
    pub message: Vec<u8>,
    /// Drive the supply enable high (done first).
    pub switch_on: bool,
    /// Drive the supply enable low (done second).
    pub switch_off: bool,
    /// What the status LED does.
    pub led: PinAction,
}

impl StatusLoop {
    /// The state at start, with the millisecond clock at `ms`.
    pub fn new(ms: u32) -> (r: StatusLoop)
        ensures
            r == (StatusLoop {
                count: 0,
                button_ms: 0,
                off_warning: false,
                last_ms: ms,
                frac_ms: 0,
                now_s: 0,
            }),
    {
        StatusLoop { count: 0, button_ms: 0, off_warning: false, last_ms: ms, frac_ms: 0, now_s: 0 }
    }
}

/// Milliseconds elapsed on a wrapping clock.
pub open spec fn elapsed(last: u32, now: u32) -> nat {
    if now >= last {
        (now - last) as nat
    } else {
        (now + 0x1_0000_0000 - last) as nat
    }
}

/// A button hold this long is a short press (acted on every tick).
pub open spec fn is_short_press(ms: u32) -> bool {
    100 <= ms && ms <= 500
}

/// A button hold this long is a long press (acted on every tick).
pub open spec fn is_long_press(ms: u32) -> bool {
    2000 <= ms && ms <= 5000
}

/// The uptime in seconds after a tick (wrapping).
pub open spec fn tick_now(st: StatusLoop, inp: TickInputs) -> u32 {
    ((st.now_s + (st.frac_ms + elapsed(st.last_ms, inp.ms)) / 1000) % 0x1_0000_0000) as u32
}

/// How long the button has been held after a tick.
pub open spec fn tick_held(st: StatusLoop, inp: TickInputs) -> u32 {
    if inp.button_low {
        if st.button_ms + STATUS_TICK_MS > u32::MAX {
            u32::MAX
        } else {
            (st.button_ms + STATUS_TICK_MS) as u32
        }
    } else {
        0
    }
}

/// When a tick can run without its arithmetic overflowing: the pending
/// milliseconds fit, and a long press with the supply on can schedule a
/// switch-off.
pub open spec fn tick_allowed(st: StatusLoop, ctl: Controls, inp: TickInputs) -> bool {
    &&& st.frac_ms + elapsed(st.last_ms, inp.ms) <= u32::MAX
    &&& is_long_press(tick_held(st, inp)) && ctl.power_state ==> tick_now(st, inp)
        + ctl.power_off_delay <= u32::MAX
}

/// Uptime from which the switch-off warning is given: the switch-off time
/// less the warning delay, wrapping below zero (so a delay longer than the
/// time left puts the warning far in the future).
pub open spec fn warn_from(off_timer: u32, delay: u32) -> u32 {
    if off_timer >= delay {
        (off_timer - delay) as u32
    } else {
        (off_timer - delay + 0x1_0000_0000) as u32
    }
}

/// The outcome of one tick, apart from the serial text.
pub struct TickView {
    pub st: StatusLoop,
    pub ctl: Controls,
    pub warn: bool,
    pub switch_on: bool,
    pub switch_off: bool,
    pub led: PinAction,
}

/// One tick of the status loop.
pub open spec fn tick_spec(st: StatusLoop, ctl: Controls, inp: TickInputs) -> TickView {
    // the clock
    let total = st.frac_ms + elapsed(st.last_ms, inp.ms);
    let now = tick_now(st, inp);
    // the switch-off warning
    let warning = ctl.off_timer > 0 && now >= warn_from(ctl.off_timer, ctl.power_off_delay);
    // the button
    let held = tick_held(st, inp);
    let on1 = if is_short_press(held) && !ctl.power_state {
        now
    } else {
        ctl.on_timer
    };
    let off1 = if is_short_press(held) && warning {
        0
    } else if is_long_press(held) && ctl.power_state {
        (now + ctl.power_off_delay) as u32
    } else {
        ctl.off_timer
    };
    // the timers
    let fire_on = on1 > 0 && now >= on1;
    let fire_off = off1 > 0 && now >= off1;
    let power = if fire_off {
        false
    } else if fire_on {
        true
    } else {
        ctl.power_state
    };
    // the LED
    let led = if 500 <= held && held <= 2000 {
        LedState::FastFlash
    } else if warning {
        LedState::SlowFlash
    } else if power {
        LedState::On
    } else {
        LedState::Off
    };
    let action = match led {
        LedState::Off => PinAction::Low,
        LedState::On => PinAction::High,
        LedState::SlowFlash => if st.count % 8 == 0 {
            PinAction::Toggle
        } else {
            PinAction::Keep
        },
        LedState::FastFlash => if st.count % 2 == 0 {
            PinAction::Toggle
        } else {
            PinAction::Keep
        },
        LedState::Unknown => PinAction::Keep,
    };
    TickView {
        st: StatusLoop {
            count: ((st.count + 1) % 0x1_0000_0000) as u32,
            button_ms: held,
            off_warning: warning,
            last_ms: inp.ms,
            frac_ms: (total % 1000) as u32,
            now_s: now,
        },
        ctl: Controls {
            uptime: now,
            on_timer: if fire_on {
                0
            } else {
                on1
            },
            off_timer: if fire_off {
                0
            } else {
                off1
            },
            power_state: power,
            led_state: led_code(led),
            ps_ok: inp.ps_ok,
            ps_alarm: inp.ps_alarm,
            vref: inp.vref,
            imon: inp.imon,
            ..ctl
        },
        warn: warning && !st.off_warning,
        switch_on: fire_on,
        switch_off: fire_off,
        led: action,
    }
}

/// The serial text of a tick: the warning once when it starts, then the
/// switch-on and switch-off notices.
pub open spec fn tick_message(v: TickView) -> Seq<u8> {
    (if v.warn {
        "!! POWERING DOWN !!\r\n".spec_bytes()
    } else {
        seq![]
    }) + (if v.switch_on {
        "!! POWER ON !!\r\n".spec_bytes()
    } else {
        seq![]
    }) + (if v.switch_off {
        "!! POWER OFF !!\r\n".spec_bytes()
    } else {
        seq![]
    })
}

/// One tick of the status loop (see `tick_spec`): updates the loop state
/// and the shared controls, and says what to do with the outputs.
pub fn status_tick(st: &mut StatusLoop, ctl: &mut Controls, inp: TickInputs) -> (out: TickOutputs)
    requires
        tick_allowed(*old(st), *old(ctl), inp),
    ensures
        ({
            let v = tick_spec(*old(st), *old(ctl), inp);
            &&& *final(st) == v.st
            &&& *final(ctl) == v.ctl
            &&& out.switch_on == v.switch_on
            &&& out.switch_off == v.switch_off
            &&& out.led == v.led
            &&& out.message@ == tick_message(v)
        }),
{
    let ghost st0 = *st;
    let ghost ctl0 = *ctl;
    // Uptime in whole seconds from the millisecond clock.
    let delta = inp.ms.wrapping_sub(st.last_ms);
    let mut frac = st.frac_ms + delta;
    let mut now_s = st.now_s;
    let ghost total = frac as int;
    let ghost mut secs: int = 0;
    while frac >= 1000
        invariant
            total == frac + 1000 * secs,
            secs >= 0,
            now_s == (st0.now_s + secs) % 0x1_0000_0000,
        decreases frac,
    {
        frac = frac - 1000;
        now_s = now_s.wrapping_add(1);
        proof {
            secs = secs + 1;
        }
    }
    proof {
        vstd::arithmetic::div_mod::lemma_fundamental_div_mod_converse(
            total,
            1000,
            secs,
            frac as int,
        );
    }
    st.frac_ms = frac;
    st.now_s = now_s;
    st.last_ms = inp.ms;
    let now = st.now_s;
    ctl.uptime = now;
    ctl.ps_ok = inp.ps_ok;
    ctl.ps_alarm = inp.ps_alarm;
    ctl.vref = inp.vref;
    ctl.imon = inp.imon;
    let mut message: Vec<u8> = Vec::new();
    // Switch-off warning.
    let from = if ctl.off_timer >= ctl.power_off_delay {
        ctl.off_timer - ctl.power_off_delay
    } else {
        u32::MAX - (ctl.power_off_delay - ctl.off_timer - 1)
    };
    let warning = ctl.off_timer > 0 && now >= from;
    if warning && !st.off_warning {
        append(&mut message, "!! POWERING DOWN !!\r\n".as_bytes());
    }
    st.off_warning = warning;
    // Button hold time.
    if inp.button_low {
        st.button_ms = st.button_ms.saturating_add(STATUS_TICK_MS);
    } else {
        st.button_ms = 0;
    }
    let held = st.button_ms;
    if 100 <= held && held <= 500 {
        // short press
        if !ctl.power_state {
            ctl.on_timer = now;
        }
        if warning {
            ctl.off_timer = 0;
        }
    } else if 2000 <= held && held <= 5000 {
        // long press
        if ctl.power_state {
            ctl.off_timer = now + ctl.power_off_delay;
        }
    }
    // Switch-on timer.
    let fire_on = ctl.on_timer > 0 && now >= ctl.on_timer;
    if fire_on {
        ctl.power_state = true;
        append(&mut message, "!! POWER ON !!\r\n".as_bytes());
        ctl.on_timer = 0;
    }
    // Switch-off timer.
    let fire_off = ctl.off_timer > 0 && now >= ctl.off_timer;
    if fire_off {
        ctl.power_state = false;
        append(&mut message, "!! POWER OFF !!\r\n".as_bytes());
        ctl.off_timer = 0;
    }
    // LED state.
    let led = if held >= 500 && held <= 2000 {
        LedState::FastFlash
    } else if warning {
        LedState::SlowFlash
    } else if ctl.power_state {
        LedState::On
    } else {
        LedState::Off
    };
    ctl.led_state = led.code();
    let action = match LedState::from(ctl.led_state) {
        LedState::Off => PinAction::Low,
        LedState::On => PinAction::High,
        LedState::SlowFlash => if st.count % 8 == 0 {
            PinAction::Toggle
        } else {
            PinAction::Keep
        },
        LedState::FastFlash => if st.count % 2 == 0 {
            PinAction::Toggle
        } else {
            PinAction::Keep
        },
        LedState::Unknown => PinAction::Keep,
    };
    st.count = st.count.wrapping_add(1);
    proof {
        let v = tick_spec(st0, ctl0, inp);
        assert(message@ =~= tick_message(v));
    }
    TickOutputs { message, switch_on: fire_on, switch_off: fire_off, led: action }
}

/// The uptime clock keeps every millisecond: after a tick the pending
/// milliseconds are below a second, and seconds times 1000 plus the pending
/// milliseconds grew by exactly the time elapsed on the millisecond clock
/// (modulo the wrap of the seconds counter).
pub proof fn lemma_tick_clock(st: StatusLoop, ctl: Controls, inp: TickInputs)
    requires
        st.frac_ms < 1000,
    ensures
        tick_spec(st, ctl, inp).st.frac_ms < 1000,
        tick_spec(st, ctl, inp).st.now_s as int * 1000 + tick_spec(st, ctl, inp).st.frac_ms == (
        st.now_s as int * 1000 + st.frac_ms + elapsed(st.last_ms, inp.ms)) % (0x1_0000_0000int
            * 1000),
        tick_spec(st, ctl, inp).st.last_ms == inp.ms,
{
    let total = st.frac_ms + elapsed(st.last_ms, inp.ms);
    let q = total / 1000;
    let r = total % 1000;
    let m = 0x1_0000_0000int;
    let n = st.now_s as int;
    assert(total == q * 1000 + r && 0 <= r < 1000) by (nonlinear_arith)
        requires
            q == total / 1000,
            r == total % 1000,
            total >= 0,
    ;
    let w = (n + q) % m;
    assert(w * 1000 + r == (n * 1000 + total) % (m * 1000)) by (nonlinear_arith)
        requires
            w == (n + q) % m,
            total == q * 1000 + r,
            0 <= r < 1000,
            m > 0,
            n >= 0,
            q >= 0,
    {
        let k = (n + q) / m;
        assert(n + q == k * m + w && 0 <= w < m);
        assert(n * 1000 + total == k * (m * 1000) + (w * 1000 + r));
        assert(0 <= w * 1000 + r < m * 1000);
        vstd::arithmetic::div_mod::lemma_fundamental_div_mod_converse(
            n * 1000 + total,
            m * 1000,
            k,
            w * 1000 + r,
        );
    }
}

/// No expired timer survives a tick: afterwards each timer is either off
/// (zero) or still in the future.
pub proof fn lemma_tick_timers_pending(st: StatusLoop, ctl: Controls, inp: TickInputs)
    ensures
        ({
            let v = tick_spec(st, ctl, inp);
            &&& v.ctl.on_timer == 0 || v.ctl.on_timer > v.ctl.uptime
            &&& v.ctl.off_timer == 0 || v.ctl.off_timer > v.ctl.uptime
        }),
{
}

/// A tick that fires the switch-off timer leaves the supply off, even when
/// the switch-on timer fires in the same tick; one that fires only the
/// switch-on timer leaves it on.
pub proof fn lemma_tick_switch(st: StatusLoop, ctl: Controls, inp: TickInputs)
    ensures
        ({
            let v = tick_spec(st, ctl, inp);
            &&& v.switch_off ==> !v.ctl.power_state
            &&& v.switch_on && !v.switch_off ==> v.ctl.power_state
            &&& !v.switch_on && !v.switch_off ==> v.ctl.power_state == ctl.power_state
        }),
{
}

/// The "POWERING DOWN" warning is sent once: a tick that follows a tick in
/// which the warning was active does not send it again.
pub proof fn lemma_warning_once(st: StatusLoop, ctl: Controls, i1: TickInputs, i2: TickInputs)
    ensures
        ({
            let v1 = tick_spec(st, ctl, i1);
            let v2 = tick_spec(v1.st, v1.ctl, i2);
            v1.st.off_warning ==> !v2.warn
        }),
{
}

/// The LED flashes fast exactly while the button has been held from half a
/// second to two seconds.
pub proof fn lemma_tick_fast_flash(st: StatusLoop, ctl: Controls, inp: TickInputs)
    ensures
        ({
            let v = tick_spec(st, ctl, inp);
            (500 <= v.st.button_ms && v.st.button_ms <= 2000) <==> v.ctl.led_state == led_code(
                LedState::FastFlash,
            )
        }),
{
}

/// A short press while the supply is off, with no switch-off pending,
/// switches it on in the same tick, once the uptime has reached one second
/// (a switch-on timer of zero means none).
pub proof fn lemma_short_press_switches_on(st: StatusLoop, ctl: Controls, inp: TickInputs)
    requires
        is_short_press(tick_held(st, inp)),
        !ctl.power_state,
        ctl.off_timer == 0,
        tick_now(st, inp) > 0,
    ensures
        tick_spec(st, ctl, inp).switch_on,
        tick_spec(st, ctl, inp).ctl.power_state,
        tick_spec(st, ctl, inp).ctl.on_timer == 0,
{
}

/// A long press while the supply is on schedules the switch-off for the
/// power-off delay from now; with a nonzero delay the supply stays on for
/// that tick.
pub proof fn lemma_long_press_schedules_off(st: StatusLoop, ctl: Controls, inp: TickInputs)
    requires
        is_long_press(tick_held(st, inp)),
        ctl.power_state,
        ctl.power_off_delay > 0,
        tick_now(st, inp) + ctl.power_off_delay <= u32::MAX,
    ensures
        tick_spec(st, ctl, inp).ctl.off_timer == tick_now(st, inp) + ctl.power_off_delay,
        tick_spec(st, ctl, inp).ctl.power_state,
        !tick_spec(st, ctl, inp).switch_off,
{
}

/// The status loop never changes the power-off delay or the echo setting.
pub proof fn lemma_tick_keeps_settings(st: StatusLoop, ctl: Controls, inp: TickInputs)
    ensures
        tick_spec(st, ctl, inp).ctl.power_off_delay == ctl.power_off_delay,
        tick_spec(st, ctl, inp).ctl.echo == ctl.echo,
{
}

/// The LED state byte a tick stores always names a state.
pub proof fn lemma_tick_led_valid(st: StatusLoop, ctl: Controls, inp: TickInputs)
    ensures
        led_state_of(tick_spec(st, ctl, inp).ctl.led_state) != LedState::Unknown,
{
}

/// What the LED pin does follows the LED state the tick stores: 0 (off)
/// drives it low, 1 (on) high; 2 (slow flash) toggles it exactly on the
/// ticks whose count is a multiple of 8 and 3 (fast flash) exactly on even
/// counts, leaving it as it is on the other ticks.
pub proof fn lemma_tick_led_action(st: StatusLoop, ctl: Controls, inp: TickInputs)
    ensures
        ({
            let v = tick_spec(st, ctl, inp);
            &&& v.ctl.led_state == 0 ==> v.led == PinAction::Low
            &&& v.ctl.led_state == 1 ==> v.led == PinAction::High
            &&& v.ctl.led_state == 2 ==> (v.led == PinAction::Toggle <==> st.count % 8 == 0)
                && (v.led == PinAction::Toggle || v.led == PinAction::Keep)
            &&& v.ctl.led_state == 3 ==> (v.led == PinAction::Toggle <==> st.count % 2 == 0)
                && (v.led == PinAction::Toggle || v.led == PinAction::Keep)
            &&& v.st.count == (st.count + 1) % 0x1_0000_0000
        }),
{
}

/// During a slow flash the LED toggles at least once in any 8 consecutive
/// ticks: among 8 consecutive tick counts (wrapping) one is a multiple of 8.
pub proof fn lemma_slow_flash_period(count: u32)
    ensures
        exists|k: int| 0 <= k < 8 && #[trigger] ((count + k) % 0x1_0000_0000) % 8 == 0,
{
    let k = (8 - count % 8) % 8;
    assert(0 <= k < 8);
    assert(((count + k) % 0x1_0000_0000) % 8 == 0);
}

} // verus!
