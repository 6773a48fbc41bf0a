use modcon2::hexdump::{hex_dump_buffer, is_printable_ascii, print_text, LINELEN};
use modcon2::text::{digit_count, lossy_string, push_digits, push_padded};

#[test]
fn padded_numbers() {
    let mut s = String::new();
    push_padded(&mut s, 7, 10, 3);
    s.push('|');
    push_padded(&mut s, 1234, 10, 3);
    s.push('|');
    push_padded(&mut s, 0xab, 16, 4);
    s.push('|');
    push_padded(&mut s, 0, 10, 2);
    assert_eq!(s, "007|1234|00ab|00");
}

#[test]
fn digits_and_counts() {
    let mut s = String::new();
    push_digits(&mut s, 4095, 10);
    assert_eq!(s, "4095");
    assert_eq!(digit_count(0, 10), 1);
    assert_eq!(digit_count(99, 10), 2);
    assert_eq!(digit_count(100, 10), 3);
    assert_eq!(digit_count(0xfff, 16), 3);
    assert_eq!(digit_count(u64::MAX, 10), 20);
}

#[test]
fn lossy_string_of_valid_and_invalid_bytes() {
    assert_eq!(lossy_string(b"hello"), "hello");
    assert_eq!(lossy_string(&[0x41, 0xff, 0x42]), "A\u{fffd}B");
}

#[test]
fn printable_ascii_bounds() {
    assert!(!is_printable_ascii(31));
    assert!(is_printable_ascii(32));
    assert!(is_printable_ascii(b'a'));
    assert!(is_printable_ascii(126));
    assert!(!is_printable_ascii(127));
    assert!(!is_printable_ascii(0));
}

#[test]
fn print_text_line_clears() {
    let mut text = vec![b'a', 0, b'~', 200];
    let mut c = 4usize;
    let line = print_text(&mut text, &mut c);
    assert_eq!(line, "  a.~.\n");
    assert!(text.is_empty());
    assert_eq!(c, 0);
}

#[test]
fn hex_dump_short_chunk() {
    let mut text = Vec::new();
    let mut c = 0usize;
    let out = hex_dump_buffer(&vec![0x41, 0x0a], &mut text, &mut c);
    assert_eq!(out, "0x41 0x0a ");
    assert_eq!(text, vec![0x41, 0x0a]);
    assert_eq!(c, 2);
}

#[test]
fn hex_dump_gives_a_line_after_seventeen_bytes() {
    let chunk: Vec<u8> = (0x40..0x52).collect();
    let mut text = Vec::new();
    let mut c = 0usize;
    let out = hex_dump_buffer(&chunk, &mut text, &mut c);
    let mut expected = String::new();
    for b in 0x40..0x51u8 {
        expected.push_str(&format!("0x{:02x} ", b));
    }
    expected.push_str("  @ABCDEFGHIJKLMNOP\n");
    expected.push_str("0x51 ");
    assert_eq!(out, expected);
    assert_eq!(text, vec![0x51]);
    assert_eq!(c, 1);
}

#[test]
fn law_pending_bytes_stay_below_line_length() {
    let chunk: Vec<u8> = (0..100u8).collect();
    let mut text = Vec::new();
    let mut c = 0usize;
    for _ in 0..3 {
        hex_dump_buffer(&chunk, &mut text, &mut c);
        assert!(c <= LINELEN);
        assert_eq!(text.len(), c);
    }
}
