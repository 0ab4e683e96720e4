use ch32_util::csps::parse::parse_u32;
use ch32_util::sdi_write::{sdi_packet, sdi_packets, PACKET_PAYLOAD};
use ch32_util::stack_info::{
    align_down4, align_up4, paint_range, stack_info_text, untouched_bytes, PAINT,
};
use ch32_util::switch::{led_task_step, LedState};
use ch32_util::csps::status::PinAction;
use ch32_util::text::{append, bytes_eq, to_vec};
use ch32_util::tokens::token_spans;
use ch32_util::ufmt::crlf_translate;

fn words(chunk: &[u8]) -> (u32, u32) {
    let mut pkt = [0u8; 8];
    pkt[0] = chunk.len() as u8;
    pkt[1..1 + chunk.len()].copy_from_slice(chunk);
    (
        u32::from_le_bytes([pkt[0], pkt[1], pkt[2], pkt[3]]),
        u32::from_le_bytes([pkt[4], pkt[5], pkt[6], pkt[7]]),
    )
}

fn unpack(packets: &[(u32, u32)]) -> Vec<u8> {
    let mut out = Vec::new();
    for &(w0, w1) in packets {
        let b0 = w0.to_le_bytes();
        let b1 = w1.to_le_bytes();
        let all = [b0[1], b0[2], b0[3], b1[0], b1[1], b1[2], b1[3]];
        out.extend_from_slice(&all[..b0[0] as usize]);
    }
    out
}

#[test]
fn sdi_packet_layout() {
    assert_eq!(PACKET_PAYLOAD, 7);
    assert_eq!(sdi_packet(b"hello w"), words(b"hello w"));
    assert_eq!(sdi_packet(b"hi"), (0x0069_6802, 0));
    assert_eq!(sdi_packet(b""), (0, 0));
}

#[test]
fn sdi_packets_cover_the_buffer() {
    let msg = b"hello world!";
    let p = sdi_packets(msg);
    assert_eq!(p, vec![words(b"hello w"), words(b"orld!")]);
    assert_eq!(unpack(&p), msg.to_vec());
    assert!(sdi_packets(b"").is_empty());
    let exact = [7u8; 14];
    let p = sdi_packets(&exact);
    assert_eq!(p.len(), 2);
    assert_eq!(unpack(&p), exact.to_vec());
}

#[test]
fn stack_alignment() {
    assert_eq!(align_up4(0x2000_0101), 0x2000_0104);
    assert_eq!(align_up4(0x2000_0100), 0x2000_0100);
    assert_eq!(align_down4(0x2000_07fe), 0x2000_07fc);
    assert_eq!(paint_range(0x2000_0101, 0x2000_0700), (0x2000_0104, 0x2000_06c0));
    assert_eq!(paint_range(0x2000_0100, 0x2000_0743), (0x2000_0100, 0x2000_0700));
}

#[test]
fn untouched_stack() {
    assert_eq!(untouched_bytes(&[PAINT, PAINT, 0, PAINT]), 8);
    assert_eq!(untouched_bytes(&[]), 0);
    assert_eq!(untouched_bytes(&[1]), 0);
    assert_eq!(untouched_bytes(&[PAINT; 5]), 20);
}

#[test]
fn stack_report_line() {
    let t = stack_info_text(b"INIT", 0x2000_0700, 0x100);
    assert_eq!(t, b"STACK: INIT 0x20000700 0x00000100 \n".to_vec());
    let s = std::str::from_utf8(&t).unwrap();
    let fields: Vec<&str> = s.split_whitespace().collect();
    assert_eq!(parse_u32(fields[2]), 0x2000_0700);
    assert_eq!(parse_u32(fields[3]), 0x100);
}

#[test]
fn switch_led_states() {
    assert!(LedState::try_from(0u8) == Ok(LedState::Off));
    assert!(LedState::try_from(3u8) == Ok(LedState::FastFlash));
    assert!(LedState::try_from(4u8) == Err(4));
    assert_eq!(LedState::SlowFlash.code(), 2);
    assert!(led_task_step(0) == Ok((PinAction::Low, 200)));
    assert!(led_task_step(1) == Ok((PinAction::High, 200)));
    assert!(led_task_step(2) == Ok((PinAction::Toggle, 500)));
    assert!(led_task_step(3) == Ok((PinAction::Toggle, 100)));
    assert!(led_task_step(7) == Err(7));
}

#[test]
fn crlf_translation() {
    assert_eq!(crlf_translate(b"a\nb\r\nc\n"), b"a\r\nb\r\nc\r\n".to_vec());
    assert_eq!(crlf_translate(b"\n\n"), b"\r\n\r\n".to_vec());
    assert_eq!(crlf_translate(b"no end"), b"no end".to_vec());
    let once = crlf_translate(b"x\ny\r\n");
    assert_eq!(crlf_translate(&once), once);
}

#[test]
fn word_spans() {
    assert_eq!(token_spans(b"  a bc ", 5), vec![(2, 3), (4, 6)]);
    assert_eq!(token_spans(b"a b c d e f", 3), vec![(0, 1), (2, 3), (4, 5)]);
    assert_eq!(token_spans(b" \t\r\n", 5), Vec::<(usize, usize)>::new());
    assert_eq!(token_spans(b"x\ty", 5), vec![(0, 1), (2, 3)]);
}

#[test]
fn byte_helpers() {
    let mut v = to_vec(b"ab");
    append(&mut v, b"cd");
    assert_eq!(v, b"abcd".to_vec());
    assert!(bytes_eq(b"abc", b"abc"));
    assert!(!bytes_eq(b"abc", b"abd"));
    assert!(!bytes_eq(b"abc", b"ab"));
}
