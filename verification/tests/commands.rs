use ch32_util::csps::line_handler::{
    bus_reply,
    dps_decode, dps_read_reply, dps_request, dps_status_entry, dps_status_line, hex_reply,
    i2c_device_line, lookup, parse_command, prompt, run_command, status_report, write_error,
    write_ok, CmdError, Command, Controls, DPS_ADDR, DPS_STATUS_COUNT, MAX_OFF_DELAY_SECS,
    MAX_POWER_SECS,
};
use ch32_util::csps::parse::parse_hex;

fn controls() -> Controls {
    Controls {
        uptime: 100,
        on_timer: 0,
        off_timer: 0,
        power_off_delay: 5,
        power_state: false,
        led_state: 0,
        ps_ok: false,
        ps_alarm: false,
        vref: 0,
        imon: 0,
        echo: false,
    }
}

fn run(line: &str, ctl: &mut Controls) -> Vec<u8> {
    let c = parse_command(line);
    run_command(&c, ctl)
}

#[test]
fn lookup_finds_first() {
    let table: [&[u8]; 3] = [b"ON", b"OFF", b"ON"];
    assert_eq!(lookup(b"ON", &table), Some(0));
    assert_eq!(lookup(b"OFF", &table), Some(1));
    assert_eq!(lookup(b"on", &table), None);
    assert_eq!(lookup(b"", &table), None);
}

#[test]
fn blank_lines_are_empty() {
    assert!(matches!(parse_command(""), Command::Empty));
    assert!(matches!(parse_command("  \t "), Command::Empty));
}

#[test]
fn unknown_and_lower_case_are_invalid() {
    assert!(matches!(parse_command("FOO"), Command::Invalid));
    assert!(matches!(parse_command("status"), Command::Invalid));
    assert!(matches!(parse_command("POWER"), Command::Invalid));
    assert!(matches!(parse_command("POWER UP"), Command::Invalid));
    assert!(matches!(parse_command("CANCEL"), Command::Invalid));
    assert!(matches!(parse_command("DELAY"), Command::Invalid));
    assert!(matches!(parse_command("DPS"), Command::Invalid));
}

#[test]
fn status_ignores_extra_words() {
    assert!(matches!(parse_command("STATUS"), Command::Status));
    assert!(matches!(parse_command("  STATUS now "), Command::Status));
    assert!(matches!(parse_command("STACK"), Command::Stack));
}

#[test]
fn i2c_commands() {
    assert!(matches!(parse_command("I2C SCAN"), Command::I2cScan));
    assert!(matches!(parse_command("I2C READ 0x50 4"), Command::I2cRead { addr: 0x50, len: 4 }));
    assert!(matches!(parse_command("I2C READ 127 16"), Command::I2cRead { addr: 127, len: 16 }));
    assert!(matches!(parse_command("I2C READ 128 4"), Command::Invalid));
    assert!(matches!(parse_command("I2C READ 80 17"), Command::Invalid));
    assert!(matches!(parse_command("I2C READ 80"), Command::Invalid));
    assert!(matches!(
        parse_command("I2C READ-REG 80 255 16"),
        Command::I2cReadReg { addr: 80, reg: 255, len: 16 }
    ));
    assert!(matches!(parse_command("I2C READ-REG 80 256 16"), Command::Invalid));
    assert!(matches!(parse_command("I2C FOO"), Command::I2cUnknown));
    assert!(matches!(parse_command("I2C"), Command::I2cUnknown));
}

#[test]
fn i2c_write_data() {
    match parse_command("I2C WRITE 80 0aff10") {
        Command::I2cWrite { addr, data } => {
            assert_eq!(addr, 80);
            assert_eq!(data, vec![0x0a, 0xff, 0x10]);
        }
        _ => panic!("not a write"),
    }
    assert!(matches!(parse_command("I2C WRITE 80 abc"), Command::Invalid));
    assert!(matches!(parse_command("I2C WRITE 80"), Command::Invalid));
    assert!(matches!(parse_command("I2C WRITE 200 00"), Command::Invalid));
}

#[test]
fn read_reply_round_trips_through_write() {
    let data = [0x00u8, 0x7f, 0x80, 0xff, 0x12];
    let reply = hex_reply(&data);
    assert_eq!(reply, b">> 007f80ff12\r\n".to_vec());
    let hex = std::str::from_utf8(&reply[3..reply.len() - 2]).unwrap();
    let (buf, n) = parse_hex(hex).unwrap();
    assert_eq!(&buf[..n], &data);
}

#[test]
fn echo_commands() {
    let mut ctl = controls();
    assert_eq!(run("ECHO ON", &mut ctl), b">> ECHO ON\r\n".to_vec());
    assert!(ctl.echo);
    assert_eq!(run("ECHO", &mut ctl), b">> ECHO ON\r\n".to_vec());
    assert!(ctl.echo);
    assert_eq!(run("ECHO MAYBE", &mut ctl), b">> ECHO ON\r\n".to_vec());
    assert_eq!(run("ECHO OFF", &mut ctl), b">> ECHO OFF\r\n".to_vec());
    assert!(!ctl.echo);
}

#[test]
fn power_on_schedules() {
    let mut ctl = controls();
    assert_eq!(run("POWER ON", &mut ctl), b">> POWER ON: 100\r\n".to_vec());
    assert_eq!(ctl.on_timer, 100);
    assert_eq!(run("  POWER   ON  30 ", &mut ctl), b">> POWER ON: 130\r\n".to_vec());
    assert_eq!(ctl.on_timer, 130);
    assert_eq!(run("POWER ON 999999", &mut ctl), b">> POWER ON: 86500\r\n".to_vec());
    assert_eq!(ctl.on_timer, 100 + MAX_POWER_SECS);
    assert!(!ctl.power_state);
}

#[test]
fn power_off_never_sooner_than_delay() {
    let mut ctl = controls();
    assert_eq!(run("POWER OFF", &mut ctl), b">> POWER OFF: 105\r\n".to_vec());
    assert_eq!(run("POWER OFF 1", &mut ctl), b">> POWER OFF: 105\r\n".to_vec());
    assert_eq!(run("POWER OFF 60", &mut ctl), b">> POWER OFF: 160\r\n".to_vec());
    assert_eq!(ctl.off_timer, 160);
    assert_eq!(run("POWER OFF 100000", &mut ctl), b">> POWER OFF: 86500\r\n".to_vec());
    assert_eq!(ctl.off_timer, 86_500);
}

#[test]
fn cancel_clears_timers() {
    let mut ctl = controls();
    ctl.on_timer = 7;
    ctl.off_timer = 9;
    assert_eq!(run("CANCEL ON", &mut ctl), b">> OK\r\n".to_vec());
    assert_eq!(ctl.on_timer, 0);
    assert_eq!(ctl.off_timer, 9);
    assert_eq!(run("CANCEL OFF", &mut ctl), b">> OK\r\n".to_vec());
    assert_eq!(ctl.off_timer, 0);
    assert_eq!(run("CANCEL ALL", &mut ctl), b"!! ERR-CMD\r\n".to_vec());
}

#[test]
fn delay_is_capped_and_silent() {
    let mut ctl = controls();
    assert_eq!(run("DELAY 30", &mut ctl), Vec::<u8>::new());
    assert_eq!(ctl.power_off_delay, 30);
    assert_eq!(run("DELAY 1000", &mut ctl), Vec::<u8>::new());
    assert_eq!(ctl.power_off_delay, MAX_OFF_DELAY_SECS);
    assert_eq!(run("DELAY x", &mut ctl), Vec::<u8>::new());
    assert_eq!(ctl.power_off_delay, 0);
}

#[test]
fn invalid_reply() {
    let mut ctl = controls();
    assert_eq!(run("HELLO", &mut ctl), b"!! ERR-CMD\r\n".to_vec());
    assert_eq!(run("", &mut ctl), Vec::<u8>::new());
    assert_eq!(run("STACK", &mut ctl), Vec::<u8>::new());
}

#[test]
fn status_report_lines() {
    let mut ctl = controls();
    ctl.power_state = true;
    ctl.led_state = 1;
    ctl.ps_ok = true;
    ctl.vref = 512;
    ctl.imon = 33;
    let expected = b">> UPTIME: 100\r\n>> ON_TIMER: 0\r\n>> OFF_TIMER: 0\r\n>> POWER_OFF_DELAY: 5\r\n>> POWER_STATE: 1\r\n>> LED_STATE: 1\r\n>> PS_OK: 1\r\n>> PS_ALARM: 0\r\n>> VREF: 512\r\n>> IMON: 33\r\n".to_vec();
    assert_eq!(status_report(&ctl), expected);
    assert_eq!(run("STATUS", &mut ctl), expected);
}

#[test]
fn error_texts() {
    assert_eq!(write_error(CmdError::Invalid), b"!! ERR-CMD\r\n".to_vec());
    assert_eq!(write_error(CmdError::I2c), b"!! ERR-I2C\r\n".to_vec());
    assert_eq!(write_error(CmdError::Crc), b"!! ERR-CRCC\r\n".to_vec());
}

#[test]
fn prompt_and_fixed_replies() {
    assert_eq!(prompt(true), b"## ".to_vec());
    assert_eq!(prompt(false), Vec::<u8>::new());
    assert_eq!(write_ok(), b">> WRITE OK\r\n".to_vec());
    assert_eq!(i2c_device_line(0x5f), b">> I2C DEVICE: 0x5f\r\n".to_vec());
    assert_eq!(hex_reply(&[]), b">> \r\n".to_vec());
}

#[test]
fn dps_commands() {
    assert!(matches!(parse_command("DPS READ 0x08 5"), Command::DpsRead { cmd: 8, scale: 5 }));
    assert!(matches!(parse_command("DPS READ 30"), Command::DpsRead { cmd: 30, scale: 0 }));
    assert!(matches!(parse_command("DPS READ 200"), Command::Invalid));
    assert!(matches!(parse_command("DPS STATUS"), Command::DpsStatus));
}

#[test]
fn dps_request_checksum() {
    let r = dps_request(0x08);
    assert_eq!(r, [0x08, 0x3a]);
    for cmd in 0u8..=255 {
        let [c, cs] = dps_request(cmd);
        assert_eq!(c, cmd);
        assert_eq!((DPS_ADDR << 1).wrapping_add(c).wrapping_add(cs), 0);
    }
}

#[test]
fn dps_decode_checks_sum() {
    let lo = 0x4cu8;
    let hi = 0x0cu8;
    let cs = 0u8.wrapping_sub(lo.wrapping_add(hi));
    assert!(matches!(dps_decode([lo, hi, cs]), Ok(0x0C4C)));
    assert!(matches!(dps_decode([lo, hi, cs.wrapping_add(1)]), Err(CmdError::Crc)));
    assert!(matches!(dps_decode([0, 0, 0]), Ok(0)));
}

#[test]
fn dps_replies() {
    assert_eq!(dps_read_reply(Ok(0x0C4C), 8), b">> 12.296\r\n".to_vec());
    assert_eq!(dps_read_reply(Ok(1234), 0), b">> 1234\r\n".to_vec());
    assert_eq!(dps_read_reply(Err(CmdError::I2c), 8), b"!! ERR-I2C\r\n".to_vec());
    assert_eq!(dps_read_reply(Err(CmdError::Crc), 200), b"!! ERR-CRCC\r\n".to_vec());
}

#[test]
fn dps_status_table() {
    assert_eq!(DPS_STATUS_COUNT, 10);
    assert_eq!(dps_status_entry(0), (0x30, 1));
    assert_eq!(dps_status_entry(4), (0x0e, 8));
    assert_eq!(dps_status_entry(9), (0x1e, 0));
    assert_eq!(dps_status_line(4, 0x0C4C), b">> Vout: 12.296V [0c4c]\r\n".to_vec());
    assert_eq!(dps_status_line(9, 1234), b">> Fan: 1234rpm [04d2]\r\n".to_vec());
    assert_eq!(dps_status_line(0, 7), b">> On: 3.500s [0007]\r\n".to_vec());
}

#[test]
fn bus_replies() {
    let read = parse_command("I2C READ 80 2");
    assert_eq!(bus_reply(&read, Some(&[0x12, 0xab])), b">> 12ab\r\n".to_vec());
    assert_eq!(bus_reply(&read, None), b"!! ERR-CMD\r\n".to_vec());
    let write = parse_command("I2C WRITE 80 00");
    assert_eq!(bus_reply(&write, Some(&[])), b">> WRITE OK\r\n".to_vec());
    assert_eq!(bus_reply(&write, None), b"!! ERR-I2C\r\n".to_vec());
    let reg = parse_command("I2C READ-REG 80 1 1");
    assert_eq!(bus_reply(&reg, Some(&[7])), b">> 07\r\n".to_vec());
    assert_eq!(bus_reply(&reg, None), b"!! ERR-I2C\r\n".to_vec());
    assert_eq!(bus_reply(&parse_command("STATUS"), None), Vec::<u8>::new());
}
