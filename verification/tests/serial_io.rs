use ch32_util::csps::serial::{
    rx_byte, rx_process, serial_write, serial_write_fixed, serial_write_hex, serial_write_u32,
    RxState,
};
use ch32_util::line_buf::{ChannelRef, LineBuf, LineChannel};
use ch32_util::serial::TxSink;
use ch32_util::tx::{push, PipeRef, TxPipe};
use embassy_sync::blocking_mutex::raw::CriticalSectionRawMutex;
use embassy_sync::channel::Channel;
use embassy_sync::pipe::Pipe;

fn drain<const N: usize>(p: &Pipe<CriticalSectionRawMutex, N>) -> Vec<u8> {
    let mut out = Vec::new();
    let mut buf = [0u8; 16];
    while let Ok(n) = p.try_read(&mut buf) {
        out.extend_from_slice(&buf[..n]);
    }
    out
}

#[test]
fn serial_write_fixed_example() {
    let pipe: Pipe<CriticalSectionRawMutex, 64> = Pipe::new();
    let mut tx = TxPipe::new(PipeRef { pipe: &pipe });
    serial_write_fixed(&mut tx, 0x0C4C, 8, 3);
    assert_eq!(drain(&pipe), b"12.296".to_vec());
    serial_write_fixed(&mut tx, 0x0C4C, 0, 3);
    assert_eq!(drain(&pipe), b"3148".to_vec());
}

#[test]
fn serial_writes_queue_text() {
    let pipe: Pipe<CriticalSectionRawMutex, 64> = Pipe::new();
    let mut tx = TxPipe::new(PipeRef { pipe: &pipe });
    serial_write(&mut tx, b">> ");
    serial_write_u32(&mut tx, 4096);
    serial_write_hex(&mut tx, 0xa5);
    serial_write(&mut tx, b"\r\n");
    assert_eq!(drain(&pipe), b">> 4096a5\r\n".to_vec());
}

#[test]
fn push_drops_what_does_not_fit() {
    let pipe: Pipe<CriticalSectionRawMutex, 4> = Pipe::new();
    let mut tx = TxPipe::new(PipeRef { pipe: &pipe });
    assert!(push(&mut tx, b"ab").is_ok());
    assert!(push(&mut tx, b"cdef").is_err());
    assert_eq!(drain(&pipe), b"abcd".to_vec());
    assert!(push(&mut tx, b"").is_ok());
}

fn feed(state: &mut RxState, bytes: &[u8], echo: bool, ucase: bool) -> (Vec<u8>, Vec<Vec<u8>>) {
    let mut echoed = Vec::new();
    let mut lines = Vec::new();
    for &b in bytes {
        let (e, l) = rx_byte(state, b, echo, ucase);
        echoed.extend_from_slice(&e);
        if let Some(l) = l {
            lines.push(l.as_bytes().to_vec());
        }
    }
    (echoed, lines)
}

#[test]
fn rx_assembles_lines() {
    let mut st = RxState::new();
    let (echoed, lines) = feed(&mut st, b"status\r\npower on\n", true, true);
    assert_eq!(lines, vec![b"STATUS".to_vec(), b"POWER ON".to_vec()]);
    assert_eq!(echoed, b"STATUS\r\nPOWER ON\r\n".to_vec());
}

#[test]
fn rx_crlf_counts_once() {
    let mut st = RxState::new();
    let (_, lines) = feed(&mut st, b"A\r\n\r\nB\n\r", false, false);
    assert_eq!(lines, vec![b"A".to_vec(), b"B".to_vec()]);
    // a line end after printable text counts again, even an empty one after ESC
    let (_, lines) = feed(&mut st, b"x\x1b\r", false, false);
    assert_eq!(lines, vec![Vec::<u8>::new()]);
}

#[test]
fn rx_escape_and_control_bytes() {
    let mut st = RxState::new();
    let (echoed, lines) = feed(&mut st, b"ab\x1bcd\x07\xff\n", true, false);
    assert_eq!(lines, vec![b"cd".to_vec()]);
    assert_eq!(echoed, b"ab\r\n## cd\r\n".to_vec());
}

#[test]
fn rx_keeps_case_without_ucase() {
    let mut st = RxState::new();
    let (echoed, lines) = feed(&mut st, b"Echo on\r", false, false);
    assert_eq!(lines, vec![b"Echo on".to_vec()]);
    assert!(echoed.is_empty());
}

#[test]
fn rx_overlong_line_is_dropped() {
    let mut st = RxState::new();
    let long = vec![b'A'; 64];
    let (_, lines) = feed(&mut st, &long, true, false);
    assert!(lines.is_empty());
    let (echoed, lines) = feed(&mut st, b"B", true, false);
    assert!(lines.is_empty());
    assert_eq!(echoed, b"B\r\n!! ERR-LINE\r\n## ".to_vec());
    let (_, lines) = feed(&mut st, b"C\n", false, false);
    assert_eq!(lines, vec![b"C".to_vec()]);
}

#[test]
fn rx_line_of_64_is_kept() {
    let mut st = RxState::new();
    let mut bytes = vec![b'Z'; 64];
    bytes.push(b'\n');
    let (_, lines) = feed(&mut st, &bytes, false, false);
    assert_eq!(lines, vec![vec![b'Z'; 64]]);
}

#[test]
fn rx_process_sends_lines_and_echo() {
    let pipe: Pipe<CriticalSectionRawMutex, 64> = Pipe::new();
    let mut tx = TxPipe::new(PipeRef { pipe: &pipe });
    let chan: Channel<CriticalSectionRawMutex, heapless::String<64>, 1> = Channel::new();
    let mut lines = LineChannel::new(ChannelRef { channel: &chan });
    let mut st = RxState::new();
    rx_process(&mut st, b"stat", true, true, &mut tx, &mut lines);
    assert!(chan.try_receive().is_err());
    rx_process(&mut st, b"us\r\nECHO\r\n", true, true, &mut tx, &mut lines);
    // the one-slot channel holds the first line; the second is dropped
    let got = chan.try_receive().unwrap();
    assert_eq!(got.as_str(), "STATUS");
    assert!(chan.try_receive().is_err());
    assert_eq!(drain(&pipe), b"STATUS\r\nECHO\r\n".to_vec());
}

#[test]
fn line_buf_operations() {
    let mut b = LineBuf::new();
    assert_eq!(b.as_bytes(), b"");
    assert!(b.push_str("hello").is_ok());
    assert!(b.push_ascii(b'!').is_ok());
    assert_eq!(b.as_bytes(), b"hello!");
    let c = b.copy();
    b.drain_front(2);
    assert_eq!(b.as_bytes(), b"llo!");
    assert_eq!(c.as_bytes(), b"hello!");
    assert!(b.push_str(&"x".repeat(61)).is_err());
    assert_eq!(b.as_bytes(), b"llo!");
    assert!(b.push_str(&"x".repeat(60)).is_ok());
    assert!(b.push_ascii(b'y').is_err());
    b.clear();
    assert_eq!(b.as_bytes(), b"");
}

#[test]
fn serial_write_fixed_cases() {
    let pipe: Pipe<CriticalSectionRawMutex, 64> = Pipe::new();
    let mut tx = TxPipe::new(PipeRef { pipe: &pipe });
    serial_write_fixed(&mut tx, 0x0180, 8, 0);
    assert_eq!(drain(&pipe), b"1".to_vec());
    serial_write_fixed(&mut tx, 300, 0, 3);
    assert_eq!(drain(&pipe), b"300".to_vec());
    serial_write_fixed(&mut tx, 0x0080, 8, 6);
    assert_eq!(drain(&pipe), b"0.5000".to_vec());
    serial_write_hex(&mut tx, 0x0f);
    serial_write_hex(&mut tx, 0);
    assert_eq!(drain(&pipe), b"0f00".to_vec());
}

#[test]
fn serial_write_drops_what_does_not_fit() {
    let pipe: Pipe<CriticalSectionRawMutex, 8> = Pipe::new();
    let mut tx = TxPipe::new(PipeRef { pipe: &pipe });
    serial_write(&mut tx, b"12345");
    serial_write_u32(&mut tx, 4294967295);
    assert_eq!(drain(&pipe), b"12345429".to_vec());
}

#[test]
fn tx_sink_sends_crlf() {
    let pipe: Pipe<CriticalSectionRawMutex, 16> = Pipe::new();
    let mut tx = TxPipe::new(PipeRef { pipe: &pipe });
    assert!(TxSink.write_str(&mut tx, "a\nb\r\n").is_ok());
    assert_eq!(drain(&pipe), b"a\r\nb\r\n".to_vec());
    assert!(TxSink.write_str(&mut tx, &"x\n".repeat(8)).is_err());
    assert_eq!(drain(&pipe), b"x\r\nx\r\nx\r\nx\r\nx\r\nx".to_vec());
}

#[test]
fn rx_process_reads_one_line_from_crlf() {
    let pipe: Pipe<CriticalSectionRawMutex, 64> = Pipe::new();
    let mut tx = TxPipe::new(PipeRef { pipe: &pipe });
    let chan: Channel<CriticalSectionRawMutex, heapless::String<64>, 1> = Channel::new();
    let mut lines = LineChannel::new(ChannelRef { channel: &chan });
    let mut st = RxState::new();
    rx_process(&mut st, b"ab\r\n", false, true, &mut tx, &mut lines);
    assert_eq!(chan.try_receive().unwrap().as_str(), "AB");
    assert!(chan.try_receive().is_err());
    assert!(drain(&pipe).is_empty());
}
