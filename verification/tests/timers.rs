use ch32_util::awu::{
    actual_ms, awu_window, clear_bits, pwr_check, restart_window, set_bits, sleep_sctlr,
    standby_sctlr, Error as AwuError, Prescaler as AwuPrescaler,
};
use ch32_util::iwdg::{Error as WdgError, Prescaler as WdgPrescaler, Watchdog};
use ch32_util::wait::{poll_busy, Poll};

#[test]
fn awu_prescaler_codes_and_dividers() {
    assert_eq!(AwuPrescaler::Div1.code(), 0b0001);
    assert_eq!(AwuPrescaler::Div4.code(), 0b0011);
    assert_eq!(AwuPrescaler::Div10240.code(), 0b1110);
    assert_eq!(AwuPrescaler::Div61440.code(), 0b1111);
    assert_eq!(AwuPrescaler::Div4096.divider(), 4096);
    assert_eq!(AwuPrescaler::Div10240.divider(), 10240);
    assert_eq!(AwuPrescaler::Div61440.divider(), 61440);
}

#[test]
fn awu_ranges_from_docs() {
    // the longest window of each prescaler
    assert_eq!(actual_ms(AwuPrescaler::Div2, 63), 1);
    assert_eq!(actual_ms(AwuPrescaler::Div256, 63), 128);
    assert_eq!(actual_ms(AwuPrescaler::Div2048, 63), 1024);
    assert_eq!(actual_ms(AwuPrescaler::Div10240, 63), 5120);
    assert_eq!(actual_ms(AwuPrescaler::Div61440, 63), 30720);
    assert_eq!(actual_ms(AwuPrescaler::Div61440, 255), 122880);
}

#[test]
fn awu_window_values() {
    assert!(awu_window(AwuPrescaler::Div1024, 500) == Ok(61));
    assert_eq!(actual_ms(AwuPrescaler::Div1024, 61), 496);
    assert!(awu_window(AwuPrescaler::Div61440, 30000) == Ok(61));
    assert!(awu_window(AwuPrescaler::Div2048, 1024) == Ok(63));
    assert!(awu_window(AwuPrescaler::Div2048, 1040) == Err(AwuError::TooLong));
    assert!(awu_window(AwuPrescaler::Div1024, 7) == Err(AwuError::TooShort));
    assert!(awu_window(AwuPrescaler::Div1024, 8) == Ok(0));
    assert!(awu_window(AwuPrescaler::Div1, u32::MAX / 128 + 1) == Err(AwuError::TooLong));
    assert!(awu_window(AwuPrescaler::Div1, 0) == Err(AwuError::TooShort));
}

#[test]
fn awu_register_helpers() {
    assert!(pwr_check(0x3f) == Ok(()));
    assert!(pwr_check(0x01) == Ok(()));
    assert!(pwr_check(0x40) == Err(AwuError::PwrNotClocked));
    assert!(pwr_check(0) == Err(AwuError::PwrNotClocked));
    assert_eq!(set_bits(0x1, 0x1000_0000), 0x1000_0001);
    assert_eq!(clear_bits(0xff, 0x2), 0xfd);
    assert_eq!(sleep_sctlr(0x4), 0x8);
    assert_eq!(sleep_sctlr(0x31), 0x39);
    assert_eq!(standby_sctlr(0x10), 0xc);
    assert_eq!(standby_sctlr(0x21), 0x2d);
    assert_eq!(restart_window(0xff), 0x3f);
    assert_eq!(restart_window(0x12), 0x12);
}

#[test]
fn watchdog_prescalers() {
    assert_eq!(WdgPrescaler::Div4.pr(), 0);
    assert_eq!(WdgPrescaler::Div256.pr(), 6);
    assert_eq!(WdgPrescaler::Div4.divider(), 4);
    assert_eq!(WdgPrescaler::Div64.divider(), 64);
    assert_eq!(WdgPrescaler::Div256.divider(), 256);
}

#[test]
fn watchdog_reload_values() {
    // the firmware's 4 s watchdog at /256
    assert!(Watchdog::reload_for(WdgPrescaler::Div256, 4000) == Ok(1999));
    assert_eq!(Watchdog::actual_ms(WdgPrescaler::Div256, 1999), 4000);
    assert!(Watchdog::reload_for(WdgPrescaler::Div256, 8192) == Ok(4095));
    assert!(Watchdog::reload_for(WdgPrescaler::Div256, 8194) == Err(WdgError::TooLong));
    assert!(Watchdog::reload_for(WdgPrescaler::Div4, 200) == Err(WdgError::TooLong));
    assert!(Watchdog::reload_for(WdgPrescaler::Div256, 1) == Err(WdgError::TooShort));
    assert!(Watchdog::reload_for(WdgPrescaler::Div128, 1) == Ok(0));
    assert!(Watchdog::reload_for(WdgPrescaler::Div4, u32::MAX) == Err(WdgError::TooLong));
    assert_eq!(Watchdog::actual_ms(WdgPrescaler::Div4, 4095), 128);
    assert_eq!(Watchdog::actual_ms(WdgPrescaler::Div4, 0), 0);
}

#[test]
fn busy_polling_gives_up() {
    assert!(poll_busy(0, false, 10) == Poll::Ready);
    assert!(poll_busy(3, true, 10) == Poll::Again(4));
    assert!(poll_busy(9, true, 10) == Poll::Again(10));
    assert!(poll_busy(10, true, 10) == Poll::TimedOut);
    assert!(poll_busy(10, false, 10) == Poll::Ready);
    let mut spins = 0;
    let mut readings = 0;
    loop {
        readings += 1;
        match poll_busy(spins, true, 100) {
            Poll::Again(n) => spins = n,
            Poll::TimedOut => break,
            Poll::Ready => unreachable!(),
        }
    }
    assert_eq!(readings, 101);
}
