use ch32_util::csps::serial::{format_fixed_fraction, format_hex_byte, format_u32};
use ch32_util::csps::line_handler::dps_value;
use ch32_util::csps::parse::parse_u32;
use ch32_util::sdi_write::{FormatDec, FormatHex};

#[test]
fn format_u32_no_leading_zeros() {
    assert_eq!(format_u32(0), b"0".to_vec());
    assert_eq!(format_u32(7), b"7".to_vec());
    assert_eq!(format_u32(1000), b"1000".to_vec());
    assert_eq!(format_u32(u32::MAX), b"4294967295".to_vec());
}

#[test]
fn format_hex_byte_lower_case() {
    assert_eq!(format_hex_byte(0x00), *b"00");
    assert_eq!(format_hex_byte(0xab), *b"ab");
    assert_eq!(format_hex_byte(0x5f), *b"5f");
}

#[test]
fn fmt_hex_is_fixed_width() {
    assert_eq!(&0xdead_beefu32.fmt_hex(), b"0xdeadbeef");
    assert_eq!(&0u32.fmt_hex(), b"0x00000000");
    assert_eq!(&0x2000_0700u32.fmt_hex(), b"0x20000700");
}

#[test]
fn fmt_dec_is_zero_padded() {
    assert_eq!(&42u32.fmt_dec(), b"0000000042");
    assert_eq!(&0u32.fmt_dec(), b"0000000000");
    assert_eq!(&u32::MAX.fmt_dec(), b"4294967295");
}

#[test]
fn formats_parse_back() {
    for v in [0u32, 1, 9, 10, 12345, 0x8000_0000, u32::MAX] {
        let d = format_u32(v);
        assert_eq!(parse_u32(std::str::from_utf8(&d).unwrap()), v);
        let z = v.fmt_dec();
        assert_eq!(parse_u32(std::str::from_utf8(&z).unwrap()), v);
        let h = v.fmt_hex();
        assert_eq!(parse_u32(std::str::from_utf8(&h).unwrap()), v);
    }
}

#[test]
fn fixed_point_example() {
    // 0x0C4C with 8 fraction bits is 12 + 76/256 = 12.296875
    assert_eq!(dps_value(0x0C4C, 8), b"12.296".to_vec());
    assert_eq!(format_fixed_fraction(0x0C4C, 8, 3), b".296".to_vec());
}

#[test]
fn fixed_point_digit_counts() {
    assert_eq!(format_fixed_fraction(0x0C4C, 8, 0), Vec::<u8>::new());
    assert_eq!(format_fixed_fraction(0x0C4C, 0, 3), Vec::<u8>::new());
    assert_eq!(format_fixed_fraction(0x0C4C, 8, 1), b".2".to_vec());
    assert_eq!(format_fixed_fraction(0x0C4C, 8, 4), b".2968".to_vec());
    // at most four digits
    assert_eq!(format_fixed_fraction(0x0C4C, 8, 9), b".2968".to_vec());
}

#[test]
fn fixed_point_other_scales() {
    // 1 fraction bit: 0x0003 is 1.5
    assert_eq!(dps_value(3, 1), b"1.500".to_vec());
    // 15 fraction bits: 0xFFFF is 1.99996...
    assert_eq!(dps_value(0xFFFF, 15), b"1.999".to_vec());
    // scale 0 prints the integer
    assert_eq!(dps_value(1234, 0), b"1234".to_vec());
}
