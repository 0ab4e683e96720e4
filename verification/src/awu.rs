//! The CH32V003 power controller and auto-wakeup (AWU) timer: prescaler
//! encoding, wake-interval arithmetic, and the register values written when
//! configuring the wake path and entering sleep or standby. The register
//! reads and writes themselves are done by the firmware.
//!
//! The AWU counter is clocked by the LSI (nominally 128 kHz), an untrimmed RC
//! oscillator with wide tolerance. Treat all periods as approximate.
use vstd::prelude::*;

verus! {

/// Nominal LSI frequency.
pub const LSI_HZ: u32 = 128_000;

/// LSI ticks per millisecond.
pub const TICKS_PER_MS: u32 = 128;

/// Busy-wait bound for LSIRDY.
pub const LSI_SPIN_LIMIT: u32 = 100_000;

/// PWR_CTLR: power-down deep sleep (1 = standby, 0 = sleep).
pub const CTLR_PDDS: u32 = 0x2;

/// PWR_AWUCSR: AWU enable.
pub const AWUCSR_AWUEN: u32 = 0x2;

/// RCC_APB1PCENR: PWR interface clock enable.
pub const APB1_PWREN: u32 = 0x1000_0000;

/// RCC_RSTSCKR: LSI enable.
pub const RSTSCKR_LSION: u32 = 0x1;

/// RCC_RSTSCKR: LSI ready.
pub const RSTSCKR_LSIRDY: u32 = 0x2;

/// EXTI line 9, to which the AWU is routed.
pub const EXTI_AWU: u32 = 0x200;

/// PFIC_SCTLR: deep sleep.
pub const SCTLR_SLEEPDEEP: u32 = 0x4;

/// PFIC_SCTLR: `wfi` behaves as `wfe`.
pub const SCTLR_WFITOWFE: u32 = 0x8;

/// PFIC_SCTLR: a pending interrupt latches an event.
pub const SCTLR_SEVONPEND: u32 = 0x10;

/// PFIC_SCTLR: set the event latch.
pub const SCTLR_SETEVENT: u32 = 0x20;

/// The window field of PWR_AWUWR.
pub const AWUWR_MASK: u32 = 0x3F;

/// AWU counter prescaler. The encoding is irregular — not a power-of-two
/// exponent, and the top two values jump to /10240 and /61440.
#[derive(Clone, Copy, PartialEq, Eq, Structural)]
pub enum Prescaler {
    /// /1 — up to 0.5 ms
    Div1,
    /// /2 — up to 1 ms
    Div2,
    /// /4 — up to 2 ms
    Div4,
    /// /8 — up to 4 ms
    Div8,
    /// /16 — up to 8 ms
    Div16,
    /// /32 — up to 16 ms
    Div32,
    /// /64 — up to 32 ms
    Div64,
    /// /128 — up to 64 ms
    Div128,
    /// /256 — up to 128 ms
    Div256,
    /// /512 — up to 256 ms
    Div512,
    /// /1024 — up to 512 ms
    Div1024,
    /// /2048 — up to 1.02 s
    Div2048,
    /// /4096 — up to 2.05 s
    Div4096,
    /// /10240 — up to 5.12 s
    Div10240,
    /// /61440 — up to 30.7 s
    Div61440,
}

/// How many LSI ticks one AWU count takes.
pub open spec fn divider_of(p: Prescaler) -> u32 {
    match p {
        Prescaler::Div1 => 1,
        Prescaler::Div2 => 2,
        Prescaler::Div4 => 4,
        Prescaler::Div8 => 8,
        Prescaler::Div16 => 16,
        Prescaler::Div32 => 32,
        Prescaler::Div64 => 64,
        Prescaler::Div128 => 128,
        Prescaler::Div256 => 256,
        Prescaler::Div512 => 512,
        Prescaler::Div1024 => 1024,
        Prescaler::Div2048 => 2048,
        Prescaler::Div4096 => 4096,
        Prescaler::Div10240 => 10240,
        Prescaler::Div61440 => 61440,
    }
}

/// The PWR_AWUPSC field value for a prescaler: 1 for /1 up to 15 for /61440.
pub open spec fn psc_code(p: Prescaler) -> u32 {
    match p {
        Prescaler::Div1 => 1,
        Prescaler::Div2 => 2,
        Prescaler::Div4 => 3,
        Prescaler::Div8 => 4,
        Prescaler::Div16 => 5,
        Prescaler::Div32 => 6,
        Prescaler::Div64 => 7,
        Prescaler::Div128 => 8,
        Prescaler::Div256 => 9,
        Prescaler::Div512 => 10,
        Prescaler::Div1024 => 11,
        Prescaler::Div2048 => 12,
        Prescaler::Div4096 => 13,
        Prescaler::Div10240 => 14,
        Prescaler::Div61440 => 15,
    }
}

impl Prescaler {
    /// How many LSI ticks one AWU count takes.
    pub fn divider(self) -> (r: u32)
        ensures
            r == divider_of(self),
    {
        match self {
            Prescaler::Div1 => 1,
            Prescaler::Div2 => 2,
            Prescaler::Div4 => 4,
            Prescaler::Div8 => 8,
            Prescaler::Div16 => 16,
            Prescaler::Div32 => 32,
            Prescaler::Div64 => 64,
            Prescaler::Div128 => 128,
            Prescaler::Div256 => 256,
            Prescaler::Div512 => 512,
            Prescaler::Div1024 => 1024,
            Prescaler::Div2048 => 2048,
            Prescaler::Div4096 => 4096,
            Prescaler::Div10240 => 10240,
            Prescaler::Div61440 => 61440,
        }
    }

    /// The value written to PWR_AWUPSC.
    pub fn code(self) -> (r: u32)
        ensures
            r == psc_code(self),
    {
        match self {
            Prescaler::Div1 => 1,
            Prescaler::Div2 => 2,
            Prescaler::Div4 => 3,
            Prescaler::Div8 => 4,
            Prescaler::Div16 => 5,
            Prescaler::Div32 => 6,
            Prescaler::Div64 => 7,
            Prescaler::Div128 => 8,
            Prescaler::Div256 => 9,
            Prescaler::Div512 => 10,
            Prescaler::Div1024 => 11,
            Prescaler::Div2048 => 12,
            Prescaler::Div4096 => 13,
            Prescaler::Div10240 => 14,
            Prescaler::Div61440 => 15,
        }
    }
}

/// Deliberately has no `Debug` impl. Match on this rather than unwrapping.
#[derive(Clone, Copy, PartialEq, Eq, Structural)]
pub enum Error {
    /// Interval is shorter than one count at this prescaler.
    TooShort,
    /// Interval needs more than 64 counts at this prescaler.
    TooLong,
    /// LSIRDY never came up.
    LsiTimeout,
    /// PWR registers did not accept writes — check the APB1 clock enable.
    PwrNotClocked,
}

/// Nominal interval in ms for a prescaler and window value.
pub open spec fn actual_ms_spec(psc: Prescaler, window: u8) -> int {
    ((window + 1) * divider_of(psc)) / 128int
}

/// Nominal interval for a prescaler and window value, in milliseconds.
pub fn actual_ms(psc: Prescaler, window: u8) -> (r: u32)
    ensures
        r == actual_ms_spec(psc, window),
{
    ((window as u32 + 1) * psc.divider()) / (LSI_HZ / 1000)
}

/// Whole AWU counts in `interval_ms` at this prescaler.
pub open spec fn awu_counts(psc: Prescaler, interval_ms: u32) -> int {
    (interval_ms * 128) / (divider_of(psc) as int)
}

/// The window value for an interval, or why there is none: too long when the
/// tick count overflows or needs more than 64 counts, too short when it is
/// under one count.
pub open spec fn awu_window_spec(psc: Prescaler, interval_ms: u32) -> Result<u32, Error> {
    if interval_ms > u32::MAX / 128 {
        Err(Error::TooLong)
    } else if awu_counts(psc, interval_ms) == 0 {
        Err(Error::TooShort)
    } else if awu_counts(psc, interval_ms) > 64 {
        Err(Error::TooLong)
    } else {
        Ok((awu_counts(psc, interval_ms) - 1) as u32)
    }
}

/// The PWR_AWUWR window value that makes the AWU wake after
/// `interval_ms` (rounded down to whole counts); the counter matches after
/// window + 1 counts. The prescaler goes to PWR_AWUPSC (`Prescaler::code`).
pub fn awu_window(psc: Prescaler, interval_ms: u32) -> (r: Result<u32, Error>)
    ensures
        r == awu_window_spec(psc, interval_ms),
        r matches Ok(w) ==> w <= AWUWR_MASK,
{
    let ticks_per_ms = LSI_HZ / 1000;
    if interval_ms > u32::MAX / ticks_per_ms {
        return Err(Error::TooLong);
    }
    let counts = (interval_ms * ticks_per_ms) / psc.divider();
    if counts == 0 {
        return Err(Error::TooShort);
    }
    if counts > 64 {
        return Err(Error::TooLong);
    }
    let w = counts - 1;
    assert(w & 0x3Fu32 == w) by (bit_vector)
        requires
            w <= 63,
    ;
    Ok(w & AWUWR_MASK)
}

/// A window value that is accepted wakes no later than asked, and less than
/// one count earlier.
pub proof fn lemma_awu_window_accuracy(psc: Prescaler, interval_ms: u32)
    requires
        awu_window_spec(psc, interval_ms) is Ok,
    ensures
        ({
            let w = awu_window_spec(psc, interval_ms)->Ok_0;
            let a = actual_ms_spec(psc, w as u8);
            &&& w <= 63
            &&& a <= interval_ms
            &&& interval_ms * 128 < (a + 1) * 128 + divider_of(psc)
        }),
{
    let d = divider_of(psc) as int;
    let c = awu_counts(psc, interval_ms);
    let i = interval_ms as int;
    assert(d >= 1);
    vstd::arithmetic::div_mod::lemma_fundamental_div_mod(i * 128, d);
    vstd::arithmetic::div_mod::lemma_fundamental_div_mod(c * d, 128);
    assert(c * d <= i * 128) by (nonlinear_arith)
        requires
            i * 128 == d * c + (i * 128) % d,
            0 <= (i * 128) % d,
    ;
    assert(i * 128 < c * d + d) by (nonlinear_arith)
        requires
            i * 128 == d * c + (i * 128) % d,
            (i * 128) % d < d,
    ;
    let a = (c * d) / 128;
    assert(a <= i) by (nonlinear_arith)
        requires
            c * d == 128 * a + (c * d) % 128,
            0 <= (c * d) % 128,
            c * d <= i * 128,
    ;
    assert(i * 128 < (a + 1) * 128 + d) by (nonlinear_arith)
        requires
            c * d == 128 * a + (c * d) % 128,
            (c * d) % 128 < 128,
            i * 128 < c * d + d,
    ;
}

/// What the firmware concludes from PWR_AWUWR after enabling the PWR clock:
/// it resets to 0x3F, so an empty window field means the block is still
/// unclocked.
pub fn pwr_check(awuwr: u32) -> (r: Result<(), Error>)
    ensures
        r == (if awuwr & 0x3F == 0 {
            Err::<(), Error>(Error::PwrNotClocked)
        } else {
            Ok(())
        }),
{
    if awuwr & AWUWR_MASK == 0 {
        Err(Error::PwrNotClocked)
    } else {
        Ok(())
    }
}

/// `v` with the bits of `mask` set.
pub fn set_bits(v: u32, mask: u32) -> (r: u32)
    ensures
        r & mask == mask,
        r & !mask == v & !mask,
{
    assert((v | mask) & mask == mask && (v | mask) & !mask == v & !mask) by (bit_vector);
    v | mask
}

/// `v` with the bits of `mask` cleared.
pub fn clear_bits(v: u32, mask: u32) -> (r: u32)
    ensures
        r & mask == 0,
        r & !mask == v & !mask,
{
    assert((v & !mask) & mask == 0 && (v & !mask) & !mask == v & !mask) by (bit_vector);
    v & !mask
}

/// PFIC_SCTLR for sleep: deep sleep off, `wfi` as `wfe`, every other bit as
/// it was.
pub fn sleep_sctlr(v: u32) -> (r: u32)
    ensures
        r & SCTLR_SLEEPDEEP == 0,
        r & SCTLR_WFITOWFE == SCTLR_WFITOWFE,
        r & !(SCTLR_SLEEPDEEP | SCTLR_WFITOWFE) == v & !(SCTLR_SLEEPDEEP | SCTLR_WFITOWFE),
{
    let r = (v & !SCTLR_SLEEPDEEP) | SCTLR_WFITOWFE;
    assert(((v & !4u32) | 8u32) & 4u32 == 0 && ((v & !4u32) | 8u32) & 8u32 == 8u32 && ((v
        & !4u32) | 8u32) & !(4u32 | 8u32) == v & !(4u32 | 8u32)) by (bit_vector);
    r
}

/// PFIC_SCTLR for standby: deep sleep on, `wfi` as `wfe`, no event on
/// pending interrupts, every other bit as saved.
pub fn standby_sctlr(saved: u32) -> (r: u32)
    ensures
        r & SCTLR_SLEEPDEEP == SCTLR_SLEEPDEEP,
        r & SCTLR_WFITOWFE == SCTLR_WFITOWFE,
        r & SCTLR_SEVONPEND == 0,
        r & !(SCTLR_SLEEPDEEP | SCTLR_WFITOWFE | SCTLR_SEVONPEND) == saved & !(SCTLR_SLEEPDEEP
            | SCTLR_WFITOWFE | SCTLR_SEVONPEND),
{
    let r = (saved | SCTLR_SLEEPDEEP | SCTLR_WFITOWFE) & !SCTLR_SEVONPEND;
    assert(((saved | 4u32 | 8u32) & !16u32) & 4u32 == 4u32 && ((saved | 4u32 | 8u32) & !16u32)
        & 8u32 == 8u32 && ((saved | 4u32 | 8u32) & !16u32) & 16u32 == 0 && ((saved | 4u32 | 8u32)
        & !16u32) & !(4u32 | 8u32 | 16u32) == saved & !(4u32 | 8u32 | 16u32)) by (bit_vector);
    r
}

/// The window value kept when the AWU is restarted: the window field of
/// PWR_AWUWR.
pub fn restart_window(awuwr: u32) -> (r: u32)
    ensures
        r == awuwr & 0x3F,
        r <= 0x3F,
{
    assert(awuwr & 0x3Fu32 <= 0x3Fu32) by (bit_vector);
    awuwr & AWUWR_MASK
}

/// Snapshot of every register involved in the AWU wake path.
///
/// No `Debug` impl by design — print the fields with your own hex formatter.
#[derive(Clone, Copy)]
pub struct Regs {
    pub pwr_ctlr: u32,
    pub pwr_csr: u32,
    pub awucsr: u32,
    pub awuwr: u32,
    pub awupsc: u32,
    pub rcc_apb1pcenr: u32,
    pub rcc_rstsckr: u32,
    pub exti_intenr: u32,
    pub exti_evenr: u32,
    pub exti_rtenr: u32,
    pub exti_ftenr: u32,
    pub exti_intfr: u32,
    pub pfic_sctlr: u32,
}

/// Which periods a prescaler accepts: from one count (`divider / 128` ms)
/// up to, but not including, 65 counts.
pub proof fn lemma_window_range(psc: Prescaler, interval_ms: u32)
    requires
        interval_ms <= u32::MAX / 128,
    ensures
        awu_window_spec(psc, interval_ms) is Ok <==> divider_of(psc) <= interval_ms * 128 && interval_ms * 128 < (64 + 1)
            * divider_of(psc),
{
    let d = divider_of(psc) as int;
    let x = interval_ms * 128;
    let c = awu_counts(psc, interval_ms);
    vstd::arithmetic::div_mod::lemma_fundamental_div_mod(x, d);
    assert(c >= 1 <==> d <= x) by (nonlinear_arith)
        requires
            x == d * c + x % d,
            0 <= x % d < d,
            d > 0,
    ;
    assert(c <= 64 <==> x < (64 + 1) * d) by (nonlinear_arith)
        requires
            x == d * c + x % d,
            0 <= x % d < d,
            d > 0,
    ;
}

/// The divider the AWU hardware applies for a PWR_AWUPSC code: codes 1 to 13
/// select 2^(code - 1), 14 selects 10240 and 15 selects 61440 (0 stops the
/// counter clock).
pub open spec fn awupsc_divider(code: u32) -> int {
    if 1 <= code && code <= 13 {
        vstd::arithmetic::power2::pow2((code - 1) as nat) as int
    } else if code == 14 {
        10240
    } else if code == 15 {
        61440
    } else {
        0
    }
}

/// The code written to PWR_AWUPSC selects, in hardware, exactly the divider
/// the window was computed with, and no two prescalers share a code.
pub proof fn lemma_psc_code_selects_divider(p: Prescaler, q: Prescaler)
    ensures
        1 <= psc_code(p) <= 15,
        awupsc_divider(psc_code(p)) == divider_of(p),
        psc_code(p) == psc_code(q) ==> p == q,
{
    vstd::arithmetic::power2::lemma2_to64();
}

} // verus!
