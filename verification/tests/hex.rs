use hextui::hex::{address_text, ascii_glyph, byte_text, hex_digit, push_hex};

#[test]
fn address_of_255() {
    assert_eq!(address_text(255), "000000FF");
}

#[test]
fn address_of_zero() {
    assert_eq!(address_text(0), "00000000");
}

#[test]
fn address_is_upper_case() {
    assert_eq!(address_text(0xdead_beef), "DEADBEEF");
    assert_eq!(address_text(0x0abc_def0), "0ABCDEF0");
}

#[test]
fn address_of_row_starts() {
    assert_eq!(address_text(16), "00000010");
    assert_eq!(address_text(32), "00000020");
    assert_eq!(address_text(4096), "00001000");
}

#[test]
fn address_widest_in_eight_digits() {
    assert_eq!(address_text(0xffff_ffff), "FFFFFFFF");
}

#[test]
fn address_wider_than_eight_digits() {
    assert_eq!(address_text(0x1_0000_0000), "100000000");
    assert_eq!(address_text(u64::MAX), "FFFFFFFFFFFFFFFF");
}

#[test]
fn byte_in_two_digits() {
    assert_eq!(byte_text(0x00), "00");
    assert_eq!(byte_text(0x0a), "0A");
    assert_eq!(byte_text(0x41), "41");
    assert_eq!(byte_text(0x7f), "7F");
    assert_eq!(byte_text(0xff), "FF");
}

#[test]
fn byte_text_every_byte() {
    let digits = [
        '0', '1', '2', '3', '4', '5', '6', '7', '8', '9', 'A', 'B', 'C', 'D', 'E', 'F',
    ];
    for byte in 0..=255u8 {
        let text: Vec<char> = byte_text(byte).chars().collect();
        assert_eq!(text, vec![digits[(byte / 16) as usize], digits[(byte % 16) as usize]]);
    }
}

#[test]
fn hex_digits() {
    let digits = [
        '0', '1', '2', '3', '4', '5', '6', '7', '8', '9', 'A', 'B', 'C', 'D', 'E', 'F',
    ];
    for value in 0..16u8 {
        assert_eq!(hex_digit(value), digits[value as usize]);
    }
}

#[test]
fn push_hex_appends() {
    let mut text = String::from("x");
    push_hex(&mut text, 0xab, 4);
    assert_eq!(text, "x00AB");
    push_hex(&mut text, 0, 1);
    assert_eq!(text, "x00AB0");
}

#[test]
fn push_hex_without_padding() {
    let mut text = String::new();
    push_hex(&mut text, 0x123, 0);
    assert_eq!(text, "123");
    let mut zero = String::new();
    push_hex(&mut zero, 0, 0);
    assert_eq!(zero, "0");
}

#[test]
fn push_hex_never_cuts_digits() {
    let mut text = String::new();
    push_hex(&mut text, 0xabcdef, 2);
    assert_eq!(text, "ABCDEF");
}

#[test]
fn glyph_of_letter() {
    assert_eq!(ascii_glyph(0x41), 'A');
}

#[test]
fn glyph_of_nul_is_dot() {
    assert_eq!(ascii_glyph(0x00), '.');
}

#[test]
fn glyph_of_space_is_space() {
    assert_eq!(ascii_glyph(0x20), ' ');
}

#[test]
fn glyph_edges_of_printable_range() {
    assert_eq!(ascii_glyph(0x1f), '.');
    assert_eq!(ascii_glyph(0x21), '!');
    assert_eq!(ascii_glyph(0x7e), '~');
    assert_eq!(ascii_glyph(0x7f), '.');
    assert_eq!(ascii_glyph(0x80), '.');
    assert_eq!(ascii_glyph(0xff), '.');
}

#[test]
fn glyph_of_dot_is_dot() {
    assert_eq!(ascii_glyph(0x2e), '.');
}

#[test]
fn glyph_every_byte() {
    for byte in 0..=255u8 {
        let expected = if byte.is_ascii_graphic() || byte == b' ' { byte as char } else { '.' };
        assert_eq!(ascii_glyph(byte), expected);
    }
}
