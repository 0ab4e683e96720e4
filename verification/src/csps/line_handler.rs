//! The CSPS serial command protocol: how a received line is read as a
//! command, and the replies and state changes of the commands that need no
//! bus traffic. Commands that talk to the I2C bus are carried out by the
//! firmware, which formats their replies with the functions here.
use vstd::prelude::*;
use vstd::string::StringSliceAdditionalSpecFns;
use vstd::arithmetic::power2::pow2;
use crate::csps::parse::{hex_byte_at, is_hex_string, parse_hex_bytes, parse_u32_bytes, parse_u32_spec};
use crate::text::{append, bytes_eq, to_vec};
use crate::digits::{dec_digits, digit_char, digit_value, is_hex_char, lemma_digit_char, low_digits};
use crate::csps::serial::{fixed_text, format_fixed_fraction, format_hex_byte, format_u32};
use crate::tokens::{lemma_token_span, token, token_span, token_spans};

verus! {

/// First position at or after `i` where `table` holds `t`.
pub open spec fn first_index(table: Seq<Seq<u8>>, t: Seq<u8>, i: int) -> Option<usize>
    decreases table.len() - i,
{
    if i < 0 || i >= table.len() {
        None
    } else if table[i] == t {
        Some(i as usize)
    } else {
        first_index(table, t, i + 1)
    }
}

/// Position of word `k` of the line in `table`, if the word exists and is
/// listed there.
pub open spec fn word_index(s: Seq<u8>, k: nat, table: Seq<Seq<u8>>) -> Option<usize> {
    match token(s, k) {
        Some(t) => first_index(table, t, 0),
        None => None,
    }
}

/// The commands.
pub open spec fn cmd_names() -> Seq<Seq<u8>> {
    seq![
        "STATUS".spec_bytes(),
        "I2C".spec_bytes(),
        "ECHO".spec_bytes(),
        "POWER".spec_bytes(),
        "CANCEL".spec_bytes(),
        "DELAY".spec_bytes(),
        "DPS".spec_bytes(),
        "STACK".spec_bytes(),
    ]
}

/// The `I2C` subcommands.
pub open spec fn i2c_names() -> Seq<Seq<u8>> {
    seq!["SCAN".spec_bytes(), "READ".spec_bytes(), "WRITE".spec_bytes(), "READ-REG".spec_bytes()]
}

/// The `DPS` subcommands.
pub open spec fn dps_names() -> Seq<Seq<u8>> {
    seq!["READ".spec_bytes(), "STATUS".spec_bytes()]
}

/// `ON` / `OFF`.
pub open spec fn on_off_names() -> Seq<Seq<u8>> {
    seq!["ON".spec_bytes(), "OFF".spec_bytes()]
}

/// Word `k` read as a number, when present and at most `max`.
pub open spec fn arg_at_most(s: Seq<u8>, k: nat, max: u32) -> Option<u32> {
    match token(s, k) {
        Some(t) => if parse_u32_spec(t) <= max {
            Some(parse_u32_spec(t))
        } else {
            None
        },
        None => None,
    }
}

/// Word `k` read as a number, zero when absent.
pub open spec fn arg_or_zero(s: Seq<u8>, k: nat) -> u32 {
    match token(s, k) {
        Some(t) => parse_u32_spec(t),
        None => 0,
    }
}

/// The bytes a hex word stands for.
pub open spec fn hex_bytes(t: Seq<u8>) -> Seq<u8> {
    Seq::new(t.len() / 2, |i: int| hex_byte_at(t, i))
}

/// A received line read as a command (the abstract form of `Command`).
pub enum CommandView {
    /// Nothing but whitespace: ignored without a reply.
    Empty,
    Status,
    I2cScan,
    I2cRead { addr: u8, len: u8 },
    I2cWrite { addr: u8, data: Seq<u8> },
    I2cReadReg { addr: u8, reg: u8, len: u8 },
    /// `I2C` without a known subcommand: ignored without a reply.
    I2cUnknown,
    Echo(Option<bool>),
    PowerOn(u32),
    PowerOff(u32),
    CancelOn,
    CancelOff,
    Delay(u32),
    DpsRead { cmd: u8, scale: u8 },
    DpsStatus,
    Stack,
    Invalid,
}

/// A received line read as a command.
pub enum Command {
    /// Nothing but whitespace: ignored without a reply.
    Empty,
    /// `STATUS`: report the controller state.
    Status,
    /// `I2C SCAN`: probe every 7-bit address.
    I2cScan,
    /// `I2C READ <ADDR> <LEN>`: read `len` (at most 16) bytes.
    I2cRead { addr: u8, len: u8 },
    /// `I2C WRITE <ADDR> <HEX>`: write the bytes the hex word stands for.
    I2cWrite { addr: u8, data: Vec<u8> },
    /// `I2C READ-REG <ADDR> <REG> <LEN>`: write the register number, read
    /// `len` (at most 16) bytes.
    I2cReadReg { addr: u8, reg: u8, len: u8 },
    /// `I2C` without a known subcommand: ignored without a reply.
    I2cUnknown,
    /// `ECHO [ON|OFF]`: set echo (left as it is without a known argument)
    /// and report it.
    Echo(Option<bool>),
    /// `POWER ON [SECS]`: switch on after `SECS` seconds (at most a day).
    PowerOn(u32),
    /// `POWER OFF [SECS]`: switch off after `SECS` seconds, never sooner than
    /// the power-off delay and never later than a day.
    PowerOff(u32),
    /// `CANCEL ON`: drop a pending switch-on.
    CancelOn,
    /// `CANCEL OFF`: drop a pending switch-off.
    CancelOff,
    /// `DELAY <SECS>`: set the power-off warning delay (at most ten minutes).
    Delay(u32),
    /// `DPS READ <CMD> [SCALE]`: read one supply register.
    DpsRead { cmd: u8, scale: u8 },
    /// `DPS STATUS`: read every listed supply register.
    DpsStatus,
    /// `STACK`: report stack use.
    Stack,
    /// Anything else: answered with an error.
    Invalid,
}

impl View for Command {
    type V = CommandView;

    open spec fn view(&self) -> CommandView {
        match self {
            Command::Empty => CommandView::Empty,
            Command::Status => CommandView::Status,
            Command::I2cScan => CommandView::I2cScan,
            Command::I2cRead { addr, len } => CommandView::I2cRead { addr: *addr, len: *len },
            Command::I2cWrite { addr, data } => CommandView::I2cWrite { addr: *addr, data: data@ },
            Command::I2cReadReg { addr, reg, len } => CommandView::I2cReadReg {
                addr: *addr,
                reg: *reg,
                len: *len,
            },
            Command::I2cUnknown => CommandView::I2cUnknown,
            Command::Echo(o) => CommandView::Echo(*o),
            Command::PowerOn(s) => CommandView::PowerOn(*s),
            Command::PowerOff(s) => CommandView::PowerOff(*s),
            Command::CancelOn => CommandView::CancelOn,
            Command::CancelOff => CommandView::CancelOff,
            Command::Delay(s) => CommandView::Delay(*s),
            Command::DpsRead { cmd, scale } => CommandView::DpsRead { cmd: *cmd, scale: *scale },
            Command::DpsStatus => CommandView::DpsStatus,
            Command::Stack => CommandView::Stack,
            Command::Invalid => CommandView::Invalid,
        }
    }
}

/// The command a line stands for.
pub open spec fn command_of(s: Seq<u8>) -> CommandView {
    if token(s, 0) is None {
        CommandView::Empty
    } else {
        match word_index(s, 0, cmd_names()) {
            Some(0) => CommandView::Status,
            Some(1) => match word_index(s, 1, i2c_names()) {
                Some(0) => CommandView::I2cScan,
                Some(1) => match (arg_at_most(s, 2, 127), arg_at_most(s, 3, 16)) {
                    (Some(addr), Some(len)) => CommandView::I2cRead { addr: addr as u8, len: len as u8 },
                    _ => CommandView::Invalid,
                },
                Some(2) => match (arg_at_most(s, 2, 127), token(s, 3)) {
                    (Some(addr), Some(t)) => if is_hex_string(t) {
                        CommandView::I2cWrite { addr: addr as u8, data: hex_bytes(t) }
                    } else {
                        CommandView::Invalid
                    },
                    _ => CommandView::Invalid,
                },
                Some(3) => match (
                    arg_at_most(s, 2, 127),
                    arg_at_most(s, 3, 255),
                    arg_at_most(s, 4, 16),
                ) {
                    (Some(addr), Some(reg), Some(len)) => CommandView::I2cReadReg {
                        addr: addr as u8,
                        reg: reg as u8,
                        len: len as u8,
                    },
                    _ => CommandView::Invalid,
                },
                _ => CommandView::I2cUnknown,
            },
            Some(2) => CommandView::Echo(
                match word_index(s, 1, on_off_names()) {
                    Some(0) => Some(true),
                    Some(1) => Some(false),
                    _ => None,
                },
            ),
            Some(3) => match word_index(s, 1, on_off_names()) {
                Some(0) => CommandView::PowerOn(
                    if arg_or_zero(s, 2) > 86_400 {
                        86_400
                    } else {
                        arg_or_zero(s, 2)
                    },
                ),
                Some(1) => CommandView::PowerOff(arg_or_zero(s, 2)),
                _ => CommandView::Invalid,
            },
            Some(4) => match word_index(s, 1, on_off_names()) {
                Some(0) => CommandView::CancelOn,
                Some(1) => CommandView::CancelOff,
                _ => CommandView::Invalid,
            },
            Some(5) => match token(s, 1) {
                Some(t) => CommandView::Delay(parse_u32_spec(t)),
                None => CommandView::Invalid,
            },
            Some(6) => match word_index(s, 1, dps_names()) {
                Some(0) => match arg_at_most(s, 2, 127) {
                    Some(cmd) => CommandView::DpsRead { cmd: cmd as u8, scale: arg_or_zero(s, 3) as u8 },
                    None => CommandView::Invalid,
                },
                Some(1) => CommandView::DpsStatus,
                _ => CommandView::Invalid,
            },
            Some(7) => CommandView::Stack,
            _ => CommandView::Invalid,
        }
    }
}

/// Position of `s` in `table` (the first, should it occur twice).
pub fn lookup(s: &[u8], table: &[&[u8]]) -> (r: Option<usize>)
    ensures
        r == first_index(table@.map_values(|t: &[u8]| t@), s@, 0),
{
    let ghost names = table@.map_values(|t: &[u8]| t@);
    let mut i: usize = 0;
    while i < table.len()
        invariant
            i <= table@.len(),
            names == table@.map_values(|t: &[u8]| t@),
            first_index(names, s@, 0) == first_index(names, s@, i as int),
        decreases table@.len() - i,
    {
        if bytes_eq(s, table[i]) {
            return Some(i);
        }
        i = i + 1;
    }
    None
}

/// Word `k` of the line, given the spans of its first words.
fn word<'a>(b: &'a [u8], spans: &Vec<(usize, usize)>, k: usize) -> (r: Option<&'a [u8]>)
    requires
        forall|j: int|
            0 <= j < spans@.len() ==> token_span(b@, j as nat) == Some(
                ((#[trigger] spans@[j]).0 as int, spans@[j].1 as int),
            ),
        k < 5,
        spans@.len() < 5 ==> token_span(b@, spans@.len()) is None,
        spans@.len() <= 5,
    ensures
        r is Some <==> token(b@, k as nat) is Some,
        r matches Some(t) ==> token(b@, k as nat) == Some(t@),
{
    if k < spans.len() {
        let (a, e) = spans[k];
        proof {
            lemma_token_span(b@, k as nat);
        }
        Some(vstd::slice::slice_subrange(b, a, e))
    } else {
        proof {
            lemma_none_after(b@, spans@.len(), k as nat);
        }
        None
    }
}

/// Past the last word there are no more.
proof fn lemma_none_after(s: Seq<u8>, j: nat, k: nat)
    requires
        token_span(s, j) is None,
        j <= k,
    ensures
        token_span(s, k) is None,
    decreases k - j,
{
    if k > j {
        lemma_none_after(s, j, (k - 1) as nat);
        crate::tokens::lemma_skip_ws_end(s);
    }
}

/// Index of a word in a table, as the spec reads it.
fn index_of_word(w: Option<&[u8]>, table: &[&[u8]], Ghost(names): Ghost<Seq<Seq<u8>>>) -> (r: Option<usize>)
    requires
        names == table@.map_values(|t: &[u8]| t@),
    ensures
        r == (match w {
            Some(t) => first_index(names, t@, 0),
            None => None::<usize>,
        }),
{
    match w {
        Some(t) => lookup(t, table),
        None => None,
    }
}

/// A number word that is at most `max`.
fn number_at_most(w: Option<&[u8]>, max: u32) -> (r: Option<u32>)
    ensures
        r == (match w {
            Some(t) => if parse_u32_spec(t@) <= max {
                Some(parse_u32_spec(t@))
            } else {
                None::<u32>
            },
            None => None::<u32>,
        }),
{
    match w {
        Some(t) => {
            let v = parse_u32_bytes(t);
            if v <= max {
                Some(v)
            } else {
                None
            }
        },
        None => None,
    }
}

/// A number word, zero when absent.
fn number_or_zero(w: Option<&[u8]>) -> (r: u32)
    ensures
        r == (match w {
            Some(t) => parse_u32_spec(t@),
            None => 0u32,
        }),
{
    match w {
        Some(t) => parse_u32_bytes(t),
        None => 0,
    }
}

/// Reads a received line as a command (see `command_of`).
pub fn parse_command(line: &str) -> (c: Command)
    ensures
        c@ == command_of(line.spec_bytes()),
{
    let b = line.as_bytes();
    let spans = token_spans(b, 5);
    if spans.len() == 0 {
        proof {
            reveal_with_fuel(crate::tokens::token_span, 1);
        }
        return Command::Empty;
    }
    assert(token_span(b@, 0) == Some((spans@[0].0 as int, spans@[0].1 as int)));
    let w0 = word(b, &spans, 0);
    let w1 = word(b, &spans, 1);
    let w2 = word(b, &spans, 2);
    let w3 = word(b, &spans, 3);
    let w4 = word(b, &spans, 4);
    let cmds: [&[u8]; 8] = [
        "STATUS".as_bytes(),
        "I2C".as_bytes(),
        "ECHO".as_bytes(),
        "POWER".as_bytes(),
        "CANCEL".as_bytes(),
        "DELAY".as_bytes(),
        "DPS".as_bytes(),
        "STACK".as_bytes(),
    ];
    let cmds_i2c: [&[u8]; 4] = [
        "SCAN".as_bytes(),
        "READ".as_bytes(),
        "WRITE".as_bytes(),
        "READ-REG".as_bytes(),
    ];
    let cmds_dps: [&[u8]; 2] = ["READ".as_bytes(), "STATUS".as_bytes()];
    let cmds_on_off: [&[u8]; 2] = ["ON".as_bytes(), "OFF".as_bytes()];
    proof {
        assert(cmds@.map_values(|t: &[u8]| t@) =~= cmd_names());
        assert(cmds_i2c@.map_values(|t: &[u8]| t@) =~= i2c_names());
        assert(cmds_dps@.map_values(|t: &[u8]| t@) =~= dps_names());
        assert(cmds_on_off@.map_values(|t: &[u8]| t@) =~= on_off_names());
    }
    let ghost s = b@;
    match index_of_word(w0, &cmds, Ghost(cmd_names())) {
        Some(0) => Command::Status,
        Some(1) => match index_of_word(w1, &cmds_i2c, Ghost(i2c_names())) {
            Some(0) => Command::I2cScan,
            Some(1) => match (number_at_most(w2, 127), number_at_most(w3, 16)) {
                (Some(addr), Some(len)) => Command::I2cRead { addr: addr as u8, len: len as u8 },
                _ => Command::Invalid,
            },
            Some(2) => {
                let addr = number_at_most(w2, 127);
                let data = match w3 {
                    Some(t) => parse_hex_bytes(t),
                    None => None,
                };
                match (addr, data) {
                    (Some(addr), Some((buf, len))) => {
                        let mut bytes: Vec<u8> = Vec::new();
                        let mut i: usize = 0;
                        while i < len
                            invariant
                                i <= len,
                                len <= 16,
                                bytes@ =~= buf@.take(i as int),
                            decreases len - i,
                        {
                            bytes.push(buf[i]);
                            i = i + 1;
                        }
                        proof {
                            let t = token(s, 3).unwrap();
                            assert(bytes@ =~= hex_bytes(t));
                        }
                        Command::I2cWrite { addr: addr as u8, data: bytes }
                    },
                    _ => Command::Invalid,
                }
            },
            Some(3) => match (number_at_most(w2, 127), number_at_most(w3, 255), number_at_most(w4, 16)) {
                (Some(addr), Some(reg), Some(len)) => Command::I2cReadReg {
                    addr: addr as u8,
                    reg: reg as u8,
                    len: len as u8,
                },
                _ => Command::Invalid,
            },
            _ => Command::I2cUnknown,
        },
        Some(2) => Command::Echo(
            match index_of_word(w1, &cmds_on_off, Ghost(on_off_names())) {
                Some(0) => Some(true),
                Some(1) => Some(false),
                _ => None,
            },
        ),
        Some(3) => match index_of_word(w1, &cmds_on_off, Ghost(on_off_names())) {
            Some(0) => {
                let secs = number_or_zero(w2);
                Command::PowerOn(
                    if secs > 86_400 {
                        86_400
                    } else {
                        secs
                    },
                )
            },
            Some(1) => Command::PowerOff(number_or_zero(w2)),
            _ => Command::Invalid,
        },
        Some(4) => match index_of_word(w1, &cmds_on_off, Ghost(on_off_names())) {
            Some(0) => Command::CancelOn,
            Some(1) => Command::CancelOff,
            _ => Command::Invalid,
        },
        Some(5) => match w1 {
            Some(t) => Command::Delay(parse_u32_bytes(t)),
            None => Command::Invalid,
        },
        Some(6) => match index_of_word(w1, &cmds_dps, Ghost(dps_names())) {
            Some(0) => match number_at_most(w2, 127) {
                Some(cmd) => Command::DpsRead { cmd: cmd as u8, scale: number_or_zero(w3) as u8 },
                None => Command::Invalid,
            },
            Some(1) => Command::DpsStatus,
            _ => Command::Invalid,
        },
        Some(7) => Command::Stack,
        _ => Command::Invalid,
    }
}

/// What the command handler can see and change of the controller state.
#[derive(Clone, Copy)]
pub struct Controls {
    /// Seconds since start.
    pub uptime: u32,
    /// Uptime at which to switch on; 0 for none.
    pub on_timer: u32,
    /// Uptime at which to switch off; 0 for none.
    pub off_timer: u32,
    /// Seconds of warning before a switch-off, and the shortest `POWER OFF`.
    pub power_off_delay: u32,
    /// The supply is switched on.
    pub power_state: bool,
    /// LED state code (see `LedState`).
    pub led_state: u8,
    /// The supply's power-good input.
    pub ps_ok: bool,
    /// The supply's alarm input.
    pub ps_alarm: bool,
    /// Last ADC reading of the internal reference.
    pub vref: u16,
    /// Last ADC reading of the current monitor.
    pub imon: u16,
    /// Characters are echoed and a prompt follows each reply.
    pub echo: bool,
}

/// Why a command failed.
#[derive(Clone, Copy)]
pub enum CmdError {
    /// Not a command, or bad arguments.
    Invalid,
    /// The bus transfer failed.
    I2c,
    /// The supply's reply failed its checksum.
    Crc,
}

/// Longest delay a `POWER` command accepts, in seconds (a day).
pub const MAX_POWER_SECS: u32 = 86_400;

/// Longest power-off warning delay, in seconds.
pub const MAX_OFF_DELAY_SECS: u32 = 600;

/// One line of the status report.
pub open spec fn status_line_text(label: Seq<u8>, v: u32) -> Seq<u8> {
    ">> ".spec_bytes() + label + dec_digits(v as nat) + "\r\n".spec_bytes()
}

/// The `STATUS` report.
pub open spec fn status_report_text(c: Controls) -> Seq<u8> {
    status_line_text("UPTIME: ".spec_bytes(), c.uptime) + status_line_text(
        "ON_TIMER: ".spec_bytes(),
        c.on_timer,
    ) + status_line_text("OFF_TIMER: ".spec_bytes(), c.off_timer) + status_line_text(
        "POWER_OFF_DELAY: ".spec_bytes(),
        c.power_off_delay,
    ) + status_line_text("POWER_STATE: ".spec_bytes(), if c.power_state {
        1
    } else {
        0
    }) + status_line_text("LED_STATE: ".spec_bytes(), c.led_state as u32) + status_line_text(
        "PS_OK: ".spec_bytes(),
        if c.ps_ok {
            1
        } else {
            0
        },
    ) + status_line_text("PS_ALARM: ".spec_bytes(), if c.ps_alarm {
        1
    } else {
        0
    }) + status_line_text("VREF: ".spec_bytes(), c.vref as u32) + status_line_text(
        "IMON: ".spec_bytes(),
        c.imon as u32,
    )
}

/// The reply to an error.
pub open spec fn error_text(e: CmdError) -> Seq<u8> {
    match e {
        CmdError::Invalid => "!! ERR-CMD\r\n".spec_bytes(),
        CmdError::I2c => "!! ERR-I2C\r\n".spec_bytes(),
        CmdError::Crc => "!! ERR-CRCC\r\n".spec_bytes(),
    }
}

/// Seconds a `POWER OFF` waits for an argument of `arg`: at least the
/// power-off delay, at most a day.
pub open spec fn power_off_secs(arg: u32, delay: u32) -> u32 {
    let s = if arg > delay {
        arg
    } else {
        delay
    };
    if s > MAX_POWER_SECS {
        MAX_POWER_SECS
    } else {
        s
    }
}

/// When a command can be carried out without the timer arithmetic
/// overflowing.
pub open spec fn run_allowed(c: CommandView, ctl: Controls) -> bool {
    match c {
        CommandView::PowerOn(secs) => ctl.uptime + secs <= u32::MAX,
        CommandView::PowerOff(arg) => ctl.uptime + power_off_secs(arg, ctl.power_off_delay)
            <= u32::MAX,
        _ => true,
    }
}

/// The state after a command that needs no bus traffic, and its reply.
/// Bus commands, `STACK`, blank lines and `I2C` without a known subcommand
/// leave the state alone and have no reply here.
pub open spec fn run_spec(c: CommandView, ctl: Controls) -> (Controls, Seq<u8>) {
    match c {
        CommandView::Status => (ctl, status_report_text(ctl)),
        CommandView::Echo(o) => {
            let e = match o {
                Some(x) => x,
                None => ctl.echo,
            };
            (
                Controls { echo: e, ..ctl },
                ">> ECHO ".spec_bytes() + if e {
                    "ON\r\n".spec_bytes()
                } else {
                    "OFF\r\n".spec_bytes()
                },
            )
        },
        CommandView::PowerOn(secs) => {
            let t = (ctl.uptime + secs) as u32;
            (
                Controls { on_timer: t, ..ctl },
                ">> POWER ON: ".spec_bytes() + dec_digits(t as nat) + "\r\n".spec_bytes(),
            )
        },
        CommandView::PowerOff(arg) => {
            let t = (ctl.uptime + power_off_secs(arg, ctl.power_off_delay)) as u32;
            (
                Controls { off_timer: t, ..ctl },
                ">> POWER OFF: ".spec_bytes() + dec_digits(t as nat) + "\r\n".spec_bytes(),
            )
        },
        CommandView::CancelOn => (Controls { on_timer: 0, ..ctl }, ">> OK\r\n".spec_bytes()),
        CommandView::CancelOff => (Controls { off_timer: 0, ..ctl }, ">> OK\r\n".spec_bytes()),
        CommandView::Delay(secs) => (
            Controls {
                power_off_delay: if secs > MAX_OFF_DELAY_SECS {
                    MAX_OFF_DELAY_SECS
                } else {
                    secs
                },
                ..ctl
            },
            seq![],
        ),
        CommandView::Invalid => (ctl, error_text(CmdError::Invalid)),
        _ => (ctl, seq![]),
    }
}

/// `>> LABEL: value\r\n`.
fn status_line(out: &mut Vec<u8>, label: &str, v: u32)
    ensures
        final(out)@ == old(out)@ + status_line_text(label.spec_bytes(), v),
{
    append(out, ">> ".as_bytes());
    append(out, label.as_bytes());
    let t = format_u32(v);
    append(out, t.as_slice());
    append(out, "\r\n".as_bytes());
}

/// The `STATUS` report.
pub fn status_report(ctl: &Controls) -> (r: Vec<u8>)
    ensures
        r@ == status_report_text(*ctl),
{
    let mut out: Vec<u8> = Vec::new();
    status_line(&mut out, "UPTIME: ", ctl.uptime);
    status_line(&mut out, "ON_TIMER: ", ctl.on_timer);
    status_line(&mut out, "OFF_TIMER: ", ctl.off_timer);
    status_line(&mut out, "POWER_OFF_DELAY: ", ctl.power_off_delay);
    status_line(&mut out, "POWER_STATE: ", if ctl.power_state {
        1
    } else {
        0
    });
    status_line(&mut out, "LED_STATE: ", ctl.led_state as u32);
    status_line(&mut out, "PS_OK: ", if ctl.ps_ok {
        1
    } else {
        0
    });
    status_line(&mut out, "PS_ALARM: ", if ctl.ps_alarm {
        1
    } else {
        0
    });
    status_line(&mut out, "VREF: ", ctl.vref as u32);
    status_line(&mut out, "IMON: ", ctl.imon as u32);
    proof {
        assert(out@ =~= status_report_text(*ctl));
    }
    out
}

/// The reply to an error.
pub fn write_error(e: CmdError) -> (r: Vec<u8>)
    ensures
        r@ == error_text(e),
{
    match e {
        CmdError::Invalid => to_vec("!! ERR-CMD\r\n".as_bytes()),
        CmdError::I2c => to_vec("!! ERR-I2C\r\n".as_bytes()),
        CmdError::Crc => to_vec("!! ERR-CRCC\r\n".as_bytes()),
    }
}

/// Carries out a command that needs no bus traffic (see `run_spec`),
/// updating `ctl`, and returns the reply.
pub fn run_command(c: &Command, ctl: &mut Controls) -> (r: Vec<u8>)
    requires
        run_allowed(c@, *old(ctl)),
    ensures
        (*final(ctl), r@) == run_spec(c@, *old(ctl)),
{
    match c {
        Command::Status => status_report(ctl),
        Command::Echo(o) => {
            let e = match o {
                Some(x) => *x,
                None => ctl.echo,
            };
            ctl.echo = e;
            let mut out = to_vec(">> ECHO ".as_bytes());
            if e {
                append(&mut out, "ON\r\n".as_bytes());
            } else {
                append(&mut out, "OFF\r\n".as_bytes());
            }
            out
        },
        Command::PowerOn(secs) => {
            let t = ctl.uptime + *secs;
            ctl.on_timer = t;
            let mut out = to_vec(">> POWER ON: ".as_bytes());
            let d = format_u32(t);
            append(&mut out, d.as_slice());
            append(&mut out, "\r\n".as_bytes());
            out
        },
        Command::PowerOff(arg) => {
            let lo = if *arg > ctl.power_off_delay {
                *arg
            } else {
                ctl.power_off_delay
            };
            let secs = if lo > MAX_POWER_SECS {
                MAX_POWER_SECS
            } else {
                lo
            };
            let t = ctl.uptime + secs;
            ctl.off_timer = t;
            let mut out = to_vec(">> POWER OFF: ".as_bytes());
            let d = format_u32(t);
            append(&mut out, d.as_slice());
            append(&mut out, "\r\n".as_bytes());
            out
        },
        Command::CancelOn => {
            ctl.on_timer = 0;
            to_vec(">> OK\r\n".as_bytes())
        },
        Command::CancelOff => {
            ctl.off_timer = 0;
            to_vec(">> OK\r\n".as_bytes())
        },
        Command::Delay(secs) => {
            ctl.power_off_delay = if *secs > MAX_OFF_DELAY_SECS {
                MAX_OFF_DELAY_SECS
            } else {
                *secs
            };
            Vec::new()
        },
        Command::Invalid => write_error(CmdError::Invalid),
        _ => Vec::new(),
    }
}

/// The prompt that follows each reply when echo is on.
pub fn prompt(echo: bool) -> (r: Vec<u8>)
    ensures
        r@ == (if echo {
            "## ".spec_bytes()
        } else {
            seq![]
        }),
{
    if echo {
        to_vec("## ".as_bytes())
    } else {
        Vec::new()
    }
}

/// Bytes as pairs of hex digits.
pub open spec fn hex_text(data: Seq<u8>) -> Seq<u8>
    decreases data.len(),
{
    if data.len() == 0 {
        seq![]
    } else {
        hex_text(data.drop_last()) + low_digits(data.last() as nat, 2, 16)
    }
}

/// The reply to a successful bus read: `>> ` and the bytes in hex.
pub fn hex_reply(data: &[u8]) -> (r: Vec<u8>)
    ensures
        r@ == ">> ".spec_bytes() + hex_text(data@) + "\r\n".spec_bytes(),
{
    let mut out = to_vec(">> ".as_bytes());
    let mut i: usize = 0;
    while i < data.len()
        invariant
            i <= data@.len(),
            out@ == ">> ".spec_bytes() + hex_text(data@.take(i as int)),
        decreases data@.len() - i,
    {
        let h = format_hex_byte(data[i]);
        append(&mut out, &h);
        proof {
            assert(data@.take(i + 1).drop_last() =~= data@.take(i as int));
        }
        i = i + 1;
    }
    append(&mut out, "\r\n".as_bytes());
    proof {
        assert(data@.take(data@.len() as int) =~= data@);
    }
    out
}

/// The line `I2C SCAN` prints for an address that answered.
pub fn i2c_device_line(addr: u8) -> (r: Vec<u8>)
    ensures
        r@ == ">> I2C DEVICE: 0x".spec_bytes() + low_digits(addr as nat, 2, 16) + "\r\n".spec_bytes(),
{
    let mut out = to_vec(">> I2C DEVICE: 0x".as_bytes());
    let h = format_hex_byte(addr);
    append(&mut out, &h);
    append(&mut out, "\r\n".as_bytes());
    out
}

/// The reply to a successful `I2C WRITE`.
pub fn write_ok() -> (r: Vec<u8>)
    ensures
        r@ == ">> WRITE OK\r\n".spec_bytes(),
{
    to_vec(">> WRITE OK\r\n".as_bytes())
}

/// The reply to a bus command once its transfer is done: `done` holds the
/// bytes read (empty for a write) on success and is `None` on failure. A
/// failed `I2C READ` is answered `ERR-CMD`, a failed `I2C WRITE` or
/// `I2C READ-REG` `ERR-I2C`; other commands get no reply here.
pub open spec fn bus_reply_text(c: CommandView, done: Option<Seq<u8>>) -> Seq<u8> {
    match c {
        CommandView::I2cRead { .. } => match done {
            Some(d) => ">> ".spec_bytes() + hex_text(d) + "\r\n".spec_bytes(),
            None => error_text(CmdError::Invalid),
        },
        CommandView::I2cWrite { .. } => match done {
            Some(_) => ">> WRITE OK\r\n".spec_bytes(),
            None => error_text(CmdError::I2c),
        },
        CommandView::I2cReadReg { .. } => match done {
            Some(d) => ">> ".spec_bytes() + hex_text(d) + "\r\n".spec_bytes(),
            None => error_text(CmdError::I2c),
        },
        _ => seq![],
    }
}

/// The reply to a bus command once its transfer is done (see
/// `bus_reply_text`).
pub fn bus_reply(c: &Command, done: Option<&[u8]>) -> (r: Vec<u8>)
    ensures
        r@ == bus_reply_text(
            c@,
            match done {
                Some(d) => Some(d@),
                None => None,
            },
        ),
{
    match c {
        Command::I2cRead { .. } => match done {
            Some(d) => hex_reply(d),
            None => write_error(CmdError::Invalid),
        },
        Command::I2cWrite { .. } => match done {
            Some(_) => write_ok(),
            None => write_error(CmdError::I2c),
        },
        Command::I2cReadReg { .. } => match done {
            Some(d) => hex_reply(d),
            None => write_error(CmdError::I2c),
        },
        _ => Vec::new(),
    }
}

/// 7-bit bus address of the supply's controller.
pub const DPS_ADDR: u8 = 0x5f;

/// The request for supply register `cmd`: the register, then a checksum
/// that makes the address byte, register and checksum sum to zero.
pub fn dps_request(cmd: u8) -> (r: [u8; 2])
    ensures
        r@[0] == cmd,
        (2 * DPS_ADDR + cmd + r@[1]) % 256 == 0,
{
    assert((0x5fu8 << 1u8) == 190u8) by (bit_vector);
    let a = cmd.wrapping_add(DPS_ADDR << 1u8);
    let n = !a;
    let cs = n.wrapping_add(1);
    assert((190 + cmd + cs) % 256 == 0) by (bit_vector)
        requires
            a == (if cmd + 190 > 255 {
                cmd + 190 - 256
            } else {
                cmd + 190
            }),
            n == !a,
            cs == (if n + 1 > 255 {
                n + 1 - 256
            } else {
                n + 1
            }),
    ;
    [cmd, cs]
}

/// Sum of bytes modulo 256.
pub open spec fn byte_sum(b: Seq<u8>) -> int
    decreases b.len(),
{
    if b.len() == 0 {
        0
    } else {
        (byte_sum(b.drop_last()) + b.last()) % 256
    }
}

/// Checks a supply reply (two data bytes, low first, and a checksum that
/// makes the three sum to zero) and returns the value.
pub fn dps_decode(buf: [u8; 3]) -> (r: Result<u16, CmdError>)
    ensures
        byte_sum(buf@) == 0 ==> r == Ok::<u16, CmdError>((buf@[0] + 256 * buf@[1]) as u16),
        byte_sum(buf@) != 0 ==> r matches Err(CmdError::Crc),
{
    let s0 = 0u8.wrapping_add(buf[0]);
    let s1 = s0.wrapping_add(buf[1]);
    let s2 = s1.wrapping_add(buf[2]);
    proof {
        let b = buf@;
        assert(b.take(1).drop_last() =~= b.take(0));
        assert(b.take(2).drop_last() =~= b.take(1));
        assert(b.drop_last() =~= b.take(2));
        assert(byte_sum(b.take(0)) == 0);
        assert(byte_sum(b.take(1)) == s0);
        assert(byte_sum(b.take(2)) == s1);
        assert(byte_sum(b) == s2);
    }
    if s2 != 0 {
        return Err(CmdError::Crc);
    }
    Ok(buf[0] as u16 + 256 * buf[1] as u16)
}

/// How a supply value is shown: decimal when `scale` is 0, else as a
/// fixed-point number with `scale` fraction bits and three decimals.
pub open spec fn dps_value_text(v: u16, scale: u8) -> Seq<u8> {
    if scale == 0 {
        dec_digits(v as nat)
    } else {
        fixed_text(v, scale, 3)
    }
}

/// The value part of a supply reading (see `dps_value_text`).
pub fn dps_value(v: u16, scale: u8) -> (r: Vec<u8>)
    requires
        scale < 16,
    ensures
        r@ == dps_value_text(v, scale),
{
    proof {
        vstd::bits::lemma_u16_shr_is_div(v, scale as u16);
        vstd::arithmetic::power2::lemma2_to64();
    }
    let mut out = format_u32((v >> scale) as u32);
    assert(out@ == dec_digits((v as nat) / pow2(scale as nat)));
    if scale != 0 {
        let f = format_fixed_fraction(v, scale, 3);
        append(&mut out, f.as_slice());
        assert(out@ =~= fixed_text(v, scale, 3));
    } else {
        assert((v as nat) / pow2(0) == v as nat);
    }
    out
}

/// The reply to `DPS READ`: the value, or the error.
pub fn dps_read_reply(r: Result<u16, CmdError>, scale: u8) -> (out: Vec<u8>)
    requires
        r is Ok ==> scale < 16,
    ensures
        out@ == (match r {
            Ok(v) => ">> ".spec_bytes() + dps_value_text(v, scale) + "\r\n".spec_bytes(),
            Err(e) => error_text(e),
        }),
{
    match r {
        Ok(v) => {
            let mut out = to_vec(">> ".as_bytes());
            let t = dps_value(v, scale);
            append(&mut out, t.as_slice());
            append(&mut out, "\r\n".as_bytes());
            out
        },
        Err(e) => write_error(e),
    }
}

/// Number of supply registers `DPS STATUS` reads.
pub const DPS_STATUS_COUNT: usize = 10;

/// Register, fraction bits, label and unit of status entry `i`.
pub open spec fn dps_entry(i: int) -> (u8, u8, Seq<u8>, Seq<u8>) {
    if i == 0 {
        (0x30, 1, "On: ".spec_bytes(), "s".spec_bytes())
    } else if i == 1 {
        (0x08, 5, "Vin: ".spec_bytes(), "V".spec_bytes())
    } else if i == 2 {
        (0x0a, 7, "Iin: ".spec_bytes(), "A".spec_bytes())
    } else if i == 3 {
        (0x0c, 1, "Pin: ".spec_bytes(), "W".spec_bytes())
    } else if i == 4 {
        (0x0e, 8, "Vout: ".spec_bytes(), "V".spec_bytes())
    } else if i == 5 {
        (0x10, 7, "Iout: ".spec_bytes(), "A".spec_bytes())
    } else if i == 6 {
        (0x12, 1, "Pout: ".spec_bytes(), "W".spec_bytes())
    } else if i == 7 {
        (0x1a, 6, "Text: ".spec_bytes(), "C".spec_bytes())
    } else if i == 8 {
        (0x1c, 6, "Tint: ".spec_bytes(), "C".spec_bytes())
    } else {
        (0x1e, 0, "Fan: ".spec_bytes(), "rpm".spec_bytes())
    }
}

/// Label and unit of status entry `i`.
fn dps_entry_text(i: usize) -> (r: (&'static str, &'static str))
    requires
        i < DPS_STATUS_COUNT,
    ensures
        r.0.spec_bytes() == dps_entry(i as int).2,
        r.1.spec_bytes() == dps_entry(i as int).3,
{
    if i == 0 {
        ("On: ", "s")
    } else if i == 1 {
        ("Vin: ", "V")
    } else if i == 2 {
        ("Iin: ", "A")
    } else if i == 3 {
        ("Pin: ", "W")
    } else if i == 4 {
        ("Vout: ", "V")
    } else if i == 5 {
        ("Iout: ", "A")
    } else if i == 6 {
        ("Pout: ", "W")
    } else if i == 7 {
        ("Text: ", "C")
    } else if i == 8 {
        ("Tint: ", "C")
    } else {
        ("Fan: ", "rpm")
    }
}

/// Register and fraction bits of status entry `i`.
pub fn dps_status_entry(i: usize) -> (r: (u8, u8))
    requires
        i < DPS_STATUS_COUNT,
    ensures
        r.0 == dps_entry(i as int).0,
        r.1 == dps_entry(i as int).1,
        r.1 < 16,
{
    if i == 0 {
        (0x30, 1)
    } else if i == 1 {
        (0x08, 5)
    } else if i == 2 {
        (0x0a, 7)
    } else if i == 3 {
        (0x0c, 1)
    } else if i == 4 {
        (0x0e, 8)
    } else if i == 5 {
        (0x10, 7)
    } else if i == 6 {
        (0x12, 1)
    } else if i == 7 {
        (0x1a, 6)
    } else if i == 8 {
        (0x1c, 6)
    } else {
        (0x1e, 0)
    }
}

/// The `DPS STATUS` line for entry `i` read as `v`.
pub open spec fn dps_status_text(i: int, v: u16) -> Seq<u8> {
    let (_, scale, label, unit) = dps_entry(i);
    ">> ".spec_bytes() + label + dps_value_text(v, scale) + unit + " [".spec_bytes() + low_digits(
        (v / 256) as nat,
        2,
        16,
    ) + low_digits((v % 256) as nat, 2, 16) + "]".spec_bytes() + "\r\n".spec_bytes()
}

/// The `DPS STATUS` line for entry `i` read as `v`: label, value, unit and
/// the raw value in hex.
pub fn dps_status_line(i: usize, v: u16) -> (r: Vec<u8>)
    requires
        i < DPS_STATUS_COUNT,
    ensures
        r@ == dps_status_text(i as int, v),
{
    let (_, scale) = dps_status_entry(i);
    let (label, unit) = dps_entry_text(i);
    let mut out = to_vec(">> ".as_bytes());
    append(&mut out, label.as_bytes());
    let t = dps_value(v, scale);
    append(&mut out, t.as_slice());
    append(&mut out, unit.as_bytes());
    append(&mut out, " [".as_bytes());
    assert((v >> 8u16) as u8 == v / 256 && v as u8 == v % 256) by (bit_vector);
    let hi = format_hex_byte((v >> 8u16) as u8);
    append(&mut out, &hi);
    let lo = format_hex_byte(v as u8);
    append(&mut out, &lo);
    append(&mut out, "]".as_bytes());
    append(&mut out, "\r\n".as_bytes());
    out
}

/// `POWER OFF` never schedules the switch-off sooner than the power-off
/// delay, nor sooner than asked, nor more than a day ahead (with a delay of
/// at most a day, as `DELAY` keeps it).
pub proof fn lemma_power_off_window(arg: u32, ctl: Controls)
    requires
        ctl.power_off_delay <= MAX_POWER_SECS,
        run_allowed(CommandView::PowerOff(arg), ctl),
    ensures
        ({
            let t = run_spec(CommandView::PowerOff(arg), ctl).0.off_timer;
            &&& ctl.uptime + ctl.power_off_delay <= t
            &&& t <= ctl.uptime + MAX_POWER_SECS
            &&& arg <= MAX_POWER_SECS ==> ctl.uptime + arg <= t
        }),
{
}

/// `POWER ON` never schedules the switch-on more than a day ahead.
pub proof fn lemma_power_on_window(line: Seq<u8>, ctl: Controls)
    requires
        command_of(line) is PowerOn,
        run_allowed(command_of(line), ctl),
    ensures
        ({
            let t = run_spec(command_of(line), ctl).0.on_timer;
            ctl.uptime <= t <= ctl.uptime + MAX_POWER_SECS
        }),
{
}

/// Commands only set timers and settings: none switches the supply, moves
/// the uptime or touches the LED and measurement fields; the switch-on timer
/// changes only by `POWER ON` and `CANCEL ON`, the switch-off timer only by
/// `POWER OFF` and `CANCEL OFF`, the delay only by `DELAY` (to at most ten
/// minutes) and echo only by `ECHO`.
pub proof fn lemma_command_frame(c: CommandView, ctl: Controls)
    ensures
        ({
            let n = run_spec(c, ctl).0;
            &&& n.uptime == ctl.uptime
            &&& n.power_state == ctl.power_state
            &&& n.led_state == ctl.led_state
            &&& n.ps_ok == ctl.ps_ok
            &&& n.ps_alarm == ctl.ps_alarm
            &&& n.vref == ctl.vref
            &&& n.imon == ctl.imon
            &&& (n.on_timer != ctl.on_timer ==> c is PowerOn || c is CancelOn)
            &&& (n.off_timer != ctl.off_timer ==> c is PowerOff || c is CancelOff)
            &&& (n.power_off_delay != ctl.power_off_delay ==> c is Delay)
            &&& (c is Delay ==> n.power_off_delay <= MAX_OFF_DELAY_SECS)
            &&& (n.echo != ctl.echo ==> c is Echo)
        }),
{
}

/// Two hex digits of a byte.
proof fn lemma_byte_hex(x: u8)
    ensures
        low_digits(x as nat, 2, 16) == seq![digit_char(x as nat / 16), digit_char(x as nat % 16)],
        is_hex_char(digit_char(x as nat / 16)),
        is_hex_char(digit_char(x as nat % 16)),
        digit_value(digit_char(x as nat / 16)) * 16 + digit_value(digit_char(x as nat % 16)) == x,
{
    let v = x as nat;
    assert(low_digits(v / 16 / 16, 0, 16) =~= Seq::<u8>::empty());
    assert((v / 16) % 16 == v / 16);
    assert(low_digits(v / 16, 1, 16) =~= seq![digit_char(v / 16)]);
    assert(low_digits(v, 2, 16) =~= seq![digit_char(v / 16), digit_char(v % 16)]);
    lemma_digit_char(v / 16);
    lemma_digit_char(v % 16);
}

/// `hex_text` writes two digits per byte, high digit first.
proof fn lemma_hex_text(data: Seq<u8>)
    ensures
        hex_text(data).len() == 2 * data.len(),
        forall|i: int|
            0 <= i < data.len() ==> hex_text(data)[2 * i] == digit_char(
                (#[trigger] data[i]) as nat / 16,
            ) && hex_text(data)[2 * i + 1] == digit_char(data[i] as nat % 16),
    decreases data.len(),
{
    if data.len() > 0 {
        let d = data.drop_last();
        lemma_hex_text(d);
        lemma_byte_hex(data.last());
        assert forall|i: int| 0 <= i < data.len() implies hex_text(data)[2 * i] == digit_char(
            (#[trigger] data[i]) as nat / 16,
        ) && hex_text(data)[2 * i + 1] == digit_char(data[i] as nat % 16) by {
            if i < d.len() {
                assert(data[i] == d[i]);
            }
        }
    }
}

/// What a bus read prints (`hex_reply`), `I2C WRITE` accepts as its data
/// word and reads back as the same bytes, for the at most 16 bytes either
/// handles.
pub proof fn lemma_hex_round_trip(data: Seq<u8>)
    requires
        data.len() <= 16,
    ensures
        is_hex_string(hex_text(data)),
        hex_bytes(hex_text(data)) == data,
{
    let t = hex_text(data);
    lemma_hex_text(data);
    assert forall|i: int| 0 <= i < t.len() implies is_hex_char(#[trigger] t[i]) by {
        let j = i / 2;
        assert(i == 2 * j || i == 2 * j + 1);
        lemma_byte_hex(data[j]);
    }
    assert forall|i: int| 0 <= i < data.len() implies #[trigger] hex_bytes(t)[i] == data[i] by {
        lemma_byte_hex(data[i]);
    }
    assert(hex_bytes(t) =~= data);
}

/// A supply reply with a correct checksum decodes to its two data bytes,
/// low byte first; the request's checksum is the same rule applied to the
/// address byte and the register.
pub proof fn lemma_dps_checksum(lo: u8, hi: u8, cs: u8)
    requires
        (lo + hi + cs) % 256 == 0,
    ensures
        byte_sum(seq![lo, hi, cs]) == 0,
{
    let b = seq![lo, hi, cs];
    assert(b.drop_last() =~= seq![lo, hi]);
    assert(seq![lo, hi].drop_last() =~= seq![lo]);
    assert(seq![lo].drop_last() =~= Seq::<u8>::empty());
    assert(byte_sum(Seq::<u8>::empty()) == 0);
    assert(byte_sum(seq![lo]) == lo);
    assert(byte_sum(seq![lo, hi]) == (lo + hi) % 256);
    let a = lo + hi;
    assert(((a % 256) + cs) % 256 == (a + cs) % 256) by (nonlinear_arith)
        requires
            a >= 0,
            cs >= 0,
    {
        vstd::arithmetic::div_mod::lemma_add_mod_noop(a, cs as int, 256);
        vstd::arithmetic::div_mod::lemma_mod_twice(cs as int, 256);
    }
}

/// The bytes of the command words, for the proofs below.
proof fn lemma_command_words()
    ensures
        "STATUS".spec_bytes().len() == 6,
        "I2C".spec_bytes().len() == 3,
        "SCAN".spec_bytes().len() == 4,
        "READ".spec_bytes().len() == 4,
        "WRITE".spec_bytes().len() == 5,
        "READ-REG".spec_bytes().len() == 8,
        "READ".spec_bytes() != "SCAN".spec_bytes(),
{
    reveal_strlit("STATUS");
    reveal_strlit("I2C");
    reveal_strlit("SCAN");
    reveal_strlit("READ");
    reveal_strlit("WRITE");
    reveal_strlit("READ-REG");
    broadcast use vstd::string::is_ascii_spec_bytes;
    assert(vstd::string::is_ascii("STATUS"));
    assert(vstd::string::is_ascii("I2C"));
    assert(vstd::string::is_ascii("SCAN"));
    assert(vstd::string::is_ascii("READ"));
    assert(vstd::string::is_ascii("WRITE"));
    assert(vstd::string::is_ascii("READ-REG"));
    assert("READ".spec_bytes()[0] != "SCAN".spec_bytes()[0]);
}

/// Every bus command read from a line stays within what the transfers
/// handle: a 7-bit address, at most 16 bytes read or written and a register
/// number that fits a byte; a supply register number is 7-bit, and a
/// switch-on delay at most a day. An `I2C READ` or `I2C READ-REG` whose
/// length word reads above 16 is an invalid command.
pub proof fn lemma_command_bounds(s: Seq<u8>)
    ensures
        command_of(s) matches CommandView::I2cRead { addr, len } ==> addr <= 127 && len <= 16,
        command_of(s) matches CommandView::I2cReadReg { addr, reg, len } ==> addr <= 127 && len
            <= 16,
        command_of(s) matches CommandView::I2cWrite { addr, data } ==> addr <= 127 && data.len()
            <= 16,
        command_of(s) matches CommandView::DpsRead { cmd, scale } ==> cmd <= 127,
        command_of(s) matches CommandView::PowerOn(secs) ==> secs <= MAX_POWER_SECS,
        token(s, 0) == Some("I2C".spec_bytes()) && token(s, 1) == Some("READ".spec_bytes())
            && token(s, 3) is Some && parse_u32_spec(token(s, 3)->Some_0) > 16 ==> command_of(s)
            == CommandView::Invalid,
        token(s, 0) == Some("I2C".spec_bytes()) && token(s, 1) == Some("READ-REG".spec_bytes())
            && token(s, 4) is Some && parse_u32_spec(token(s, 4)->Some_0) > 16 ==> command_of(s)
            == CommandView::Invalid,
{
    lemma_command_words();
    if token(s, 0) == Some("I2C".spec_bytes()) {
        let t0 = "I2C".spec_bytes();
        assert(cmd_names()[0] != t0);
        assert(first_index(cmd_names(), t0, 1) == Some(1usize));
        assert(word_index(s, 0, cmd_names()) == Some(1usize));
        if token(s, 1) == Some("READ".spec_bytes()) {
            let t1 = "READ".spec_bytes();
            assert(i2c_names()[0] != t1);
            assert(first_index(i2c_names(), t1, 1) == Some(1usize));
            assert(word_index(s, 1, i2c_names()) == Some(1usize));
        }
        if token(s, 1) == Some("READ-REG".spec_bytes()) {
            let t1 = "READ-REG".spec_bytes();
            assert(i2c_names()[0] != t1);
            assert(i2c_names()[1] != t1);
            assert(i2c_names()[2] != t1);
            assert(first_index(i2c_names(), t1, 3) == Some(3usize));
            assert(first_index(i2c_names(), t1, 2) == Some(3usize));
            assert(first_index(i2c_names(), t1, 1) == Some(3usize));
            assert(word_index(s, 1, i2c_names()) == Some(3usize));
        }
    }
    match command_of(s) {
        CommandView::I2cWrite { addr, data } => {
            let t = token(s, 3)->Some_0;
            assert(data.len() == t.len() / 2);
        },
        _ => {},
    }
}

/// The bytes of the `DPS STATUS` labels that tell them apart.
proof fn lemma_dps_labels()
    ensures
        "On: ".spec_bytes().len() == 4,
        "On: ".spec_bytes()[0] == 79u8,
        "On: ".spec_bytes()[1] == 110u8,
        "Vin: ".spec_bytes().len() == 5,
        "Vin: ".spec_bytes()[0] == 86u8,
        "Vin: ".spec_bytes()[1] == 105u8,
        "Iin: ".spec_bytes().len() == 5,
        "Iin: ".spec_bytes()[0] == 73u8,
        "Iin: ".spec_bytes()[1] == 105u8,
        "Pin: ".spec_bytes().len() == 5,
        "Pin: ".spec_bytes()[0] == 80u8,
        "Pin: ".spec_bytes()[1] == 105u8,
        "Vout: ".spec_bytes().len() == 6,
        "Vout: ".spec_bytes()[0] == 86u8,
        "Vout: ".spec_bytes()[1] == 111u8,
        "Iout: ".spec_bytes().len() == 6,
        "Iout: ".spec_bytes()[0] == 73u8,
        "Iout: ".spec_bytes()[1] == 111u8,
        "Pout: ".spec_bytes().len() == 6,
        "Pout: ".spec_bytes()[0] == 80u8,
        "Pout: ".spec_bytes()[1] == 111u8,
        "Text: ".spec_bytes().len() == 6,
        "Text: ".spec_bytes()[0] == 84u8,
        "Text: ".spec_bytes()[1] == 101u8,
        "Tint: ".spec_bytes().len() == 6,
        "Tint: ".spec_bytes()[0] == 84u8,
        "Tint: ".spec_bytes()[1] == 105u8,
        "Fan: ".spec_bytes().len() == 5,
        "Fan: ".spec_bytes()[0] == 70u8,
        "Fan: ".spec_bytes()[1] == 97u8,
{
    reveal_strlit("On: ");
    reveal_strlit("Vin: ");
    reveal_strlit("Iin: ");
    reveal_strlit("Pin: ");
    reveal_strlit("Vout: ");
    reveal_strlit("Iout: ");
    reveal_strlit("Pout: ");
    reveal_strlit("Text: ");
    reveal_strlit("Tint: ");
    reveal_strlit("Fan: ");
    broadcast use vstd::string::is_ascii_spec_bytes;
    assert(vstd::string::is_ascii("On: "));
    assert(vstd::string::is_ascii("Vin: "));
    assert(vstd::string::is_ascii("Iin: "));
    assert(vstd::string::is_ascii("Pin: "));
    assert(vstd::string::is_ascii("Vout: "));
    assert(vstd::string::is_ascii("Iout: "));
    assert(vstd::string::is_ascii("Pout: "));
    assert(vstd::string::is_ascii("Text: "));
    assert(vstd::string::is_ascii("Tint: "));
    assert(vstd::string::is_ascii("Fan: "));
}

/// The `DPS STATUS` table: the entries read pairwise distinct registers
/// under pairwise distinct labels, each label with the register of what it
/// names (On 0x30, Vin 0x08, Iin 0x0a, Pin 0x0c, Vout 0x0e, Iout 0x10,
/// Pout 0x12, Text 0x1a, Tint 0x1c, Fan 0x1e), and every scale fits the
/// fixed-point rendering.
pub proof fn lemma_dps_status_table(i: int, j: int)
    requires
        0 <= i < DPS_STATUS_COUNT,
        0 <= j < DPS_STATUS_COUNT,
    ensures
        i != j ==> dps_entry(i).0 != dps_entry(j).0 && dps_entry(i).2 != dps_entry(j).2,
        dps_entry(i).1 < 16,
        dps_entry(i).2 == "On: ".spec_bytes() ==> dps_entry(i).0 == 0x30,
        dps_entry(i).2 == "Vin: ".spec_bytes() ==> dps_entry(i).0 == 0x08,
        dps_entry(i).2 == "Iin: ".spec_bytes() ==> dps_entry(i).0 == 0x0a,
        dps_entry(i).2 == "Pin: ".spec_bytes() ==> dps_entry(i).0 == 0x0c,
        dps_entry(i).2 == "Vout: ".spec_bytes() ==> dps_entry(i).0 == 0x0e,
        dps_entry(i).2 == "Iout: ".spec_bytes() ==> dps_entry(i).0 == 0x10,
        dps_entry(i).2 == "Pout: ".spec_bytes() ==> dps_entry(i).0 == 0x12,
        dps_entry(i).2 == "Text: ".spec_bytes() ==> dps_entry(i).0 == 0x1a,
        dps_entry(i).2 == "Tint: ".spec_bytes() ==> dps_entry(i).0 == 0x1c,
        dps_entry(i).2 == "Fan: ".spec_bytes() ==> dps_entry(i).0 == 0x1e,
{
    lemma_dps_labels();
}

} // verus!
