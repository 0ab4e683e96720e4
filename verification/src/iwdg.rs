//! The CH32V003 independent watchdog (IWDG): prescaler encoding and the
//! reload arithmetic for a requested period. The register accesses are done
//! by the firmware.
//!
//! The IWDG runs from the LSI RC oscillator, nominally 128 kHz but untrimmed;
//! all periods are nominal. Once started it cannot be stopped.
use vstd::prelude::*;

verus! {

/// Key written to IWDG_CTLR to unlock PSCR and RLDR.
pub const KEY_UNLOCK: u16 = 0x5555;

/// Key written to IWDG_CTLR to reload the counter.
pub const KEY_FEED: u16 = 0xAAAA;

/// Key written to IWDG_CTLR to start the watchdog.
pub const KEY_START: u16 = 0xCCCC;

/// IWDG_STATR: prescaler update in progress.
pub const PVU: u16 = 1;

/// IWDG_STATR: reload update in progress.
pub const RVU: u16 = 2;

/// LSI ticks per millisecond.
pub const TICKS_PER_MS: u32 = 128;

/// Bound on the STATR busy-wait.
pub const STATR_SPIN_LIMIT: u32 = 100_000;

/// LSI prescaler. The PR field encodes an exponent: divider = 4 << PR.
///
/// The counter is 12 bits, so each prescaler reaches a period of
/// `divider / 128` ms (one count) up to `4096 * divider / 128` ms.
#[derive(Clone, Copy, PartialEq, Eq, Structural)]
pub enum Prescaler {
    /// /4 — 0.03 ms to 128 ms
    Div4,
    /// /8 — 0.06 ms to 256 ms
    Div8,
    /// /16 — 0.125 ms to 512 ms
    Div16,
    /// /32 — 0.25 ms to 1024 ms
    Div32,
    /// /64 — 0.5 ms to 2048 ms
    Div64,
    /// /128 — 1 ms to 4096 ms
    Div128,
    /// /256 — 2 ms to 8192 ms
    Div256,
}

/// The PR field value of a prescaler.
pub open spec fn pr_of(p: Prescaler) -> u16 {
    match p {
        Prescaler::Div4 => 0,
        Prescaler::Div8 => 1,
        Prescaler::Div16 => 2,
        Prescaler::Div32 => 3,
        Prescaler::Div64 => 4,
        Prescaler::Div128 => 5,
        Prescaler::Div256 => 6,
    }
}

/// LSI ticks per watchdog count: 4 << PR.
pub open spec fn divider_of(p: Prescaler) -> u32 {
    match p {
        Prescaler::Div4 => 4,
        Prescaler::Div8 => 8,
        Prescaler::Div16 => 16,
        Prescaler::Div32 => 32,
        Prescaler::Div64 => 64,
        Prescaler::Div128 => 128,
        Prescaler::Div256 => 256,
    }
}

impl Prescaler {
    /// The value written to IWDG_PSCR.
    pub fn pr(self) -> (r: u16)
        ensures
            r == pr_of(self),
            r <= 6,
    {
        match self {
            Prescaler::Div4 => 0,
            Prescaler::Div8 => 1,
            Prescaler::Div16 => 2,
            Prescaler::Div32 => 3,
            Prescaler::Div64 => 4,
            Prescaler::Div128 => 5,
            Prescaler::Div256 => 6,
        }
    }

    /// LSI ticks per watchdog count.
    pub fn divider(self) -> (r: u32)
        ensures
            r == divider_of(self),
    {
        let pr = self.pr();
        assert(4u32 << 0u32 == 4 && 4u32 << 1u32 == 8 && 4u32 << 2u32 == 16 && 4u32 << 3u32 == 32
            && 4u32 << 4u32 == 64 && 4u32 << 5u32 == 128 && 4u32 << 6u32 == 256) by (bit_vector);
        4u32 << (pr as u32)
    }
}

/// Why the watchdog could not be started.
///
/// Deliberately has no `Debug` impl. Match on this rather than unwrapping.
#[derive(Clone, Copy, PartialEq, Eq, Structural)]
pub enum Error {
    /// Period is shorter than one count at this prescaler.
    TooShort,
    /// Period needs more than 4096 counts at this prescaler.
    TooLong,
    /// PSCR/RLDR stayed busy — the LSI is probably not running.
    LsiTimeout,
}

/// A started watchdog; only `feed` remains to be done with it.
pub struct Watchdog;

/// Nominal period in ms for a prescaler and reload value.
pub open spec fn actual_ms_spec(psc: Prescaler, reload: u16) -> int {
    ((reload + 1) * divider_of(psc)) / 128int
}

/// Whole watchdog counts in `period_ms` at this prescaler.
pub open spec fn counts_of(psc: Prescaler, period_ms: u32) -> int {
    (period_ms * 128) / (divider_of(psc) as int)
}

/// The reload value for a period, or why there is none: too long when the
/// tick count overflows or needs more than 4096 counts, too short when it
/// is under one count.
pub open spec fn reload_spec(psc: Prescaler, period_ms: u32) -> Result<u16, Error> {
    if period_ms > u32::MAX / 128 {
        Err(Error::TooLong)
    } else if counts_of(psc, period_ms) == 0 {
        Err(Error::TooShort)
    } else if counts_of(psc, period_ms) > 0x1000 {
        Err(Error::TooLong)
    } else {
        Ok((counts_of(psc, period_ms) - 1) as u16)
    }
}

impl Watchdog {
    /// Nominal period actually achieved for a prescaler and reload value,
    /// in milliseconds. Rounding means this may differ from what was asked
    /// for — though LSI tolerance swamps the difference in practice.
    pub fn actual_ms(psc: Prescaler, reload: u16) -> (r: u32)
        ensures
            r == actual_ms_spec(psc, reload),
    {
        ((reload as u32 + 1) * psc.divider()) / TICKS_PER_MS
    }

    /// The IWDG_RLDR value for a period: the counter reloads with it and
    /// counts down through zero, so the period is (reload + 1) counts.
    pub fn reload_for(psc: Prescaler, period_ms: u32) -> (r: Result<u16, Error>)
        ensures
            r == reload_spec(psc, period_ms),
            r matches Ok(v) ==> v <= 0x0FFF,
    {
        if period_ms > u32::MAX / TICKS_PER_MS {
            return Err(Error::TooLong);
        }
        let counts = (period_ms * TICKS_PER_MS) / psc.divider();
        if counts == 0 {
            return Err(Error::TooShort);
        }
        if counts > 0x1000 {
            return Err(Error::TooLong);
        }
        Ok((counts - 1) as u16)
    }
}

/// An accepted period is met from below, to within one count.
pub proof fn lemma_reload_accuracy(psc: Prescaler, period_ms: u32)
    requires
        reload_spec(psc, period_ms) is Ok,
    ensures
        ({
            let r = reload_spec(psc, period_ms)->Ok_0;
            let a = actual_ms_spec(psc, r);
            &&& r <= 0x0FFF
            &&& a <= period_ms
            &&& period_ms * 128 < (a + 1) * 128 + divider_of(psc)
        }),
{
    let d = divider_of(psc) as int;
    let c = counts_of(psc, period_ms);
    let i = period_ms as int;
    vstd::arithmetic::div_mod::lemma_fundamental_div_mod(i * 128, d);
    vstd::arithmetic::div_mod::lemma_fundamental_div_mod(c * d, 128);
    assert(c * d <= i * 128) by (nonlinear_arith)
        requires
            i * 128 == d * c + (i * 128) % d,
            0 <= (i * 128) % d,
    ;
    assert(i * 128 < c * d + d) by (nonlinear_arith)
        requires
            i * 128 == d * c + (i * 128) % d,
            (i * 128) % d < d,
    ;
    let a = (c * d) / 128;
    assert(a <= i) by (nonlinear_arith)
        requires
            c * d == 128 * a + (c * d) % 128,
            0 <= (c * d) % 128,
            c * d <= i * 128,
    ;
    assert(i * 128 < (a + 1) * 128 + d) by (nonlinear_arith)
        requires
            c * d == 128 * a + (c * d) % 128,
            (c * d) % 128 < 128,
            i * 128 < c * d + d,
    ;
}

/// Which periods a prescaler accepts: from one count (`divider / 128` ms)
/// up to, but not including, 4097 counts.
pub proof fn lemma_reload_range(psc: Prescaler, period_ms: u32)
    requires
        period_ms <= u32::MAX / 128,
    ensures
        reload_spec(psc, period_ms) is Ok <==> divider_of(psc) <= period_ms * 128 && period_ms * 128 < (0x1000 + 1)
            * divider_of(psc),
{
    let d = divider_of(psc) as int;
    let x = period_ms * 128;
    let c = counts_of(psc, period_ms);
    vstd::arithmetic::div_mod::lemma_fundamental_div_mod(x, d);
    assert(c >= 1 <==> d <= x) by (nonlinear_arith)
        requires
            x == d * c + x % d,
            0 <= x % d < d,
            d > 0,
    ;
    assert(c <= 0x1000 <==> x < (0x1000 + 1) * d) by (nonlinear_arith)
        requires
            x == d * c + x % d,
            0 <= x % d < d,
            d > 0,
    ;
}

/// The PR value written to IWDG_PSCR encodes, as the hardware reads it
/// (divider = 4 << PR), exactly the divider the reload was computed with,
/// and no two prescalers share a PR value.
pub proof fn lemma_pr_encodes_divider(p: Prescaler, q: Prescaler)
    ensures
        pr_of(p) <= 6,
        divider_of(p) == 4 * vstd::arithmetic::power2::pow2(pr_of(p) as nat),
        pr_of(p) == pr_of(q) ==> p == q,
{
    vstd::arithmetic::power2::lemma2_to64();
}

} // verus!
