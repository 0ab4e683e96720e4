use ch32_util::csps::parse::{hex_val, parse_hex, parse_u32};

#[test]
fn parse_u32_decimal() {
    assert_eq!(parse_u32("1234"), 1234);
}

#[test]
fn parse_hex_pairs() {
    let (buf, n) = parse_hex("0aFF").unwrap();
    assert_eq!(n, 2);
    assert_eq!(&buf[..2], &[0x0a, 0xff]);
}

#[test]
fn parse_u32_hex_prefix_either_case() {
    assert_eq!(parse_u32("0x1A"), 26);
    assert_eq!(parse_u32("0X1a"), 26);
    assert_eq!(parse_u32("0xdeadBEEF"), 0xdead_beef);
}

#[test]
fn parse_u32_stops_at_first_non_digit() {
    assert_eq!(parse_u32("12z5"), 12);
    assert_eq!(parse_u32("z"), 0);
    assert_eq!(parse_u32(""), 0);
    assert_eq!(parse_u32("0x"), 0);
    assert_eq!(parse_u32("0xg1"), 0);
}

#[test]
fn parse_u32_decimal_stops_at_hex_letters() {
    // without the prefix only 0-9 are digits
    assert_eq!(parse_u32("12ab"), 12);
    assert_eq!(parse_u32("12a"), 12);
    assert_eq!(parse_u32("1f"), 1);
    assert_eq!(parse_u32("ff"), 0);
    assert_eq!(parse_u32("0x1f"), 31);
}

#[test]
fn parse_u32_saturates() {
    assert_eq!(parse_u32("4294967295"), u32::MAX);
    assert_eq!(parse_u32("4294967296"), u32::MAX);
    assert_eq!(parse_u32("99999999999999999999"), u32::MAX);
    assert_eq!(parse_u32("0x123456789"), u32::MAX);
    assert_eq!(parse_u32("0xffffffff"), u32::MAX);
}

#[test]
fn parse_hex_rejects() {
    assert!(parse_hex("abc").is_none());
    assert!(parse_hex("zz").is_none());
    assert!(parse_hex("0x12").is_none());
    assert!(parse_hex(&"00".repeat(17)).is_none());
}

#[test]
fn parse_hex_limits() {
    let (buf, n) = parse_hex("").unwrap();
    assert_eq!(n, 0);
    assert_eq!(buf, [0u8; 16]);
    let s = "0123456789abcdefFEDCBA9876543210";
    let (buf, n) = parse_hex(s).unwrap();
    assert_eq!(n, 16);
    assert_eq!(
        buf,
        [
            0x01, 0x23, 0x45, 0x67, 0x89, 0xab, 0xcd, 0xef, 0xfe, 0xdc, 0xba, 0x98, 0x76, 0x54,
            0x32, 0x10
        ]
    );
}

#[test]
fn parse_hex_pads_with_zeros() {
    let (buf, n) = parse_hex("ff").unwrap();
    assert_eq!(n, 1);
    assert_eq!(buf[0], 0xff);
    assert!(buf[1..].iter().all(|&b| b == 0));
}

#[test]
fn hex_val_digits() {
    assert_eq!(hex_val(b'0'), Some(0));
    assert_eq!(hex_val(b'9'), Some(9));
    assert_eq!(hex_val(b'a'), Some(10));
    assert_eq!(hex_val(b'F'), Some(15));
    assert_eq!(hex_val(b'g'), None);
    assert_eq!(hex_val(b'x'), None);
}
