use ch32_util::csps::line_handler::Controls;
use ch32_util::csps::status::{status_tick, PinAction, StatusLoop, TickInputs, STATUS_TICK_MS};

fn controls() -> Controls {
    Controls {
        uptime: 0,
        on_timer: 0,
        off_timer: 0,
        power_off_delay: 5,
        power_state: false,
        led_state: 0,
        ps_ok: false,
        ps_alarm: false,
        vref: 0,
        imon: 0,
        echo: false,
    }
}

fn inputs(ms: u32, button_low: bool) -> TickInputs {
    TickInputs { ms, button_low, ps_ok: true, ps_alarm: false, vref: 500, imon: 20 }
}

#[test]
fn new_loop_starts_at_zero() {
    let st = StatusLoop::new(1234);
    assert_eq!(st.count, 0);
    assert_eq!(st.button_ms, 0);
    assert!(!st.off_warning);
    assert_eq!(st.last_ms, 1234);
    assert_eq!(st.frac_ms, 0);
    assert_eq!(st.now_s, 0);
}

#[test]
fn uptime_counts_seconds() {
    let mut st = StatusLoop::new(0);
    let mut ctl = controls();
    let out = status_tick(&mut st, &mut ctl, inputs(999, false));
    assert_eq!(st.now_s, 0);
    assert_eq!(st.frac_ms, 999);
    assert!(out.message.is_empty());
    status_tick(&mut st, &mut ctl, inputs(1001, false));
    assert_eq!(st.now_s, 1);
    assert_eq!(st.frac_ms, 1);
    assert_eq!(ctl.uptime, 1);
    status_tick(&mut st, &mut ctl, inputs(4001, false));
    assert_eq!(st.now_s, 4);
    assert_eq!(st.frac_ms, 1);
    assert!(ctl.ps_ok);
    assert_eq!(ctl.vref, 500);
    assert_eq!(ctl.imon, 20);
    assert_eq!(st.count, 3);
}

#[test]
fn uptime_survives_clock_wrap() {
    let mut st = StatusLoop::new(u32::MAX - 499);
    let mut ctl = controls();
    status_tick(&mut st, &mut ctl, inputs(500, false));
    // 500 ms before the wrap and 500 after
    assert_eq!(st.now_s, 1);
    assert_eq!(st.frac_ms, 0);
}

#[test]
fn on_timer_fires() {
    let mut st = StatusLoop::new(0);
    let mut ctl = controls();
    ctl.on_timer = 2;
    let out = status_tick(&mut st, &mut ctl, inputs(1000, false));
    assert!(!out.switch_on);
    let out = status_tick(&mut st, &mut ctl, inputs(2000, false));
    assert!(out.switch_on);
    assert!(!out.switch_off);
    assert!(ctl.power_state);
    assert_eq!(ctl.on_timer, 0);
    assert_eq!(out.message, b"!! POWER ON !!\r\n".to_vec());
    assert!(out.led == PinAction::High);
    assert_eq!(ctl.led_state, 1);
}

#[test]
fn off_warning_is_sent_once() {
    let mut st = StatusLoop::new(0);
    let mut ctl = controls();
    ctl.power_state = true;
    ctl.off_timer = 10;
    // warning from uptime 5 on
    let out = status_tick(&mut st, &mut ctl, inputs(4000, false));
    assert!(out.message.is_empty());
    let out = status_tick(&mut st, &mut ctl, inputs(5000, false));
    assert_eq!(out.message, b"!! POWERING DOWN !!\r\n".to_vec());
    assert!(st.off_warning);
    assert_eq!(ctl.led_state, 2);
    let out = status_tick(&mut st, &mut ctl, inputs(6000, false));
    assert!(out.message.is_empty());
    let out = status_tick(&mut st, &mut ctl, inputs(10000, false));
    assert!(out.switch_off);
    assert!(!ctl.power_state);
    assert_eq!(ctl.off_timer, 0);
    assert_eq!(out.message, b"!! POWER OFF !!\r\n".to_vec());
    let out = status_tick(&mut st, &mut ctl, inputs(11000, false));
    assert!(out.message.is_empty());
    assert!(!st.off_warning);
    assert_eq!(ctl.led_state, 0);
    assert!(out.led == PinAction::Low);
}

#[test]
fn short_press_switches_on() {
    let mut st = StatusLoop::new(0);
    let mut ctl = controls();
    status_tick(&mut st, &mut ctl, inputs(2000, false));
    let out = status_tick(&mut st, &mut ctl, inputs(2050, true));
    assert_eq!(st.button_ms, STATUS_TICK_MS);
    assert!(!out.switch_on);
    let out = status_tick(&mut st, &mut ctl, inputs(2100, true));
    assert_eq!(st.button_ms, 100);
    assert!(out.switch_on);
    assert!(ctl.power_state);
    assert_eq!(out.message, b"!! POWER ON !!\r\n".to_vec());
    status_tick(&mut st, &mut ctl, inputs(2150, false));
    assert_eq!(st.button_ms, 0);
}

#[test]
fn short_press_in_first_second_does_nothing() {
    let mut st = StatusLoop::new(0);
    let mut ctl = controls();
    status_tick(&mut st, &mut ctl, inputs(50, true));
    let out = status_tick(&mut st, &mut ctl, inputs(100, true));
    // the switch-on timer is set to the uptime, 0, which means "none"
    assert!(!out.switch_on);
    assert!(!ctl.power_state);
}

#[test]
fn short_press_cancels_pending_off() {
    let mut st = StatusLoop::new(0);
    let mut ctl = controls();
    ctl.power_state = true;
    ctl.off_timer = 12;
    status_tick(&mut st, &mut ctl, inputs(8000, false));
    assert!(st.off_warning);
    status_tick(&mut st, &mut ctl, inputs(8050, true));
    status_tick(&mut st, &mut ctl, inputs(8100, true));
    assert_eq!(ctl.off_timer, 0);
    assert!(ctl.power_state);
}

#[test]
fn long_press_schedules_off_and_flashes() {
    let mut st = StatusLoop::new(0);
    let mut ctl = controls();
    ctl.power_state = true;
    let mut ms = 10_000;
    status_tick(&mut st, &mut ctl, inputs(ms, false));
    let mut fast = false;
    while st.button_ms < 2000 {
        ms += 50;
        let out = status_tick(&mut st, &mut ctl, inputs(ms, true));
        if st.button_ms >= 500 && st.button_ms <= 2000 {
            assert_eq!(ctl.led_state, 3);
            fast = true;
            let _ = out;
        }
    }
    assert!(fast);
    assert_eq!(st.button_ms, 2000);
    assert_eq!(ctl.off_timer, ctl.uptime + 5);
    assert!(ctl.power_state);
}

#[test]
fn fast_flash_toggles_every_other_tick() {
    let mut st = StatusLoop::new(0);
    let mut ctl = controls();
    st.button_ms = 500;
    st.count = 4;
    let out = status_tick(&mut st, &mut ctl, inputs(50, true));
    assert!(out.led == PinAction::Toggle);
    let out = status_tick(&mut st, &mut ctl, inputs(100, true));
    assert!(out.led == PinAction::Keep);
}

#[test]
fn switch_off_wins_over_switch_on() {
    let mut st = StatusLoop::new(0);
    let mut ctl = controls();
    ctl.on_timer = 3;
    ctl.off_timer = 8;
    // both are due at uptime 8
    let out = status_tick(&mut st, &mut ctl, inputs(8000, false));
    assert!(out.switch_on && out.switch_off);
    assert!(!ctl.power_state);
    assert_eq!(ctl.on_timer, 0);
    assert_eq!(ctl.off_timer, 0);
    assert_eq!(
        out.message,
        b"!! POWERING DOWN !!\r\n!! POWER ON !!\r\n!! POWER OFF !!\r\n".to_vec()
    );
    assert_eq!(ctl.power_off_delay, 5);
    assert!(!ctl.echo);
}

#[test]
fn delay_longer_than_time_left_suppresses_warning() {
    let mut st = StatusLoop::new(0);
    let mut ctl = controls();
    ctl.power_state = true;
    ctl.off_timer = 10;
    ctl.power_off_delay = 600;
    // 10 - 600 wraps far into the future: no warning before the switch-off
    let out = status_tick(&mut st, &mut ctl, inputs(9000, false));
    assert!(out.message.is_empty());
    assert!(!st.off_warning);
    let out = status_tick(&mut st, &mut ctl, inputs(10000, false));
    assert!(out.switch_off);
    assert_eq!(out.message, b"!! POWER OFF !!\r\n".to_vec());
}
