use ch32_util::line_buf::LineBuf;
use ch32_util::serial::{find_line_end, handle_cmd, serial_read_chunk};

#[test]
fn lines_are_split_on_cr_or_lf() {
    let mut buf = LineBuf::new();
    let lines = serial_read_chunk(&mut buf, "hello bob\r\nfoo");
    assert_eq!(lines, vec![b"hello bob".to_vec(), Vec::<u8>::new()]);
    assert_eq!(buf.as_bytes(), b"foo");
    let lines = serial_read_chunk(&mut buf, "d\n");
    assert_eq!(lines, vec![b"food".to_vec()]);
    assert_eq!(buf.as_bytes(), b"");
}

#[test]
fn a_chunk_that_does_not_fit_flushes_the_buffer() {
    let mut buf = LineBuf::new();
    let lines = serial_read_chunk(&mut buf, &"a".repeat(60));
    assert!(lines.is_empty());
    let lines = serial_read_chunk(&mut buf, "bbbbbbbbbb\n");
    assert_eq!(lines, vec!["a".repeat(60).into_bytes()]);
    assert_eq!(buf.as_bytes(), b"");
}

#[test]
fn replies() {
    assert_eq!(handle_cmd(b""), Vec::<u8>::new());
    assert_eq!(handle_cmd(b"   "), Vec::<u8>::new());
    assert_eq!(handle_cmd(b"hello bob"), b"-- Hello >>bob<<\n".to_vec());
    assert_eq!(handle_cmd(b" hello "), b"-- Hello >>There<<\n".to_vec());
    assert_eq!(handle_cmd(b"  xyz 1 2"), b"-- CMD: xyz\n".to_vec());
    assert_eq!(handle_cmd(b"Hello"), b"-- CMD: Hello\n".to_vec());
}

#[test]
fn line_end_search() {
    assert_eq!(find_line_end(b"abc"), None);
    assert_eq!(find_line_end(b"ab\rc\n"), Some(2));
    assert_eq!(find_line_end(b"\n"), Some(0));
    assert_eq!(find_line_end(b""), None);
}
