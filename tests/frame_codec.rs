use matrix_manager::frame::Command;

fn round_trip(c: Command) {
    let bytes = c.encode();
    assert_eq!(bytes.len(), 10);
    assert_eq!(Command::decode(&bytes), Some(c));
}

#[test]
fn every_opcode_round_trips() {
    round_trip(Command::Brightness { percent: 0 });
    round_trip(Command::Brightness { percent: 255 });
    round_trip(Command::Clear);
    round_trip(Command::Colour { r: 15, g: 10, b: 0 });
    round_trip(Command::Line { x1: 0, y1: 99, x2: 42, y2: 7 });
    round_trip(Command::Pixel { x: 63, y: 31 });
    round_trip(Command::ColouredPixel { x: 1, y: 2, r: 3, g: 14, b: 15 });
    round_trip(Command::Font { name: b"7x14B".to_vec() });
    round_trip(Command::Font { name: b"123456789".to_vec() });
    round_trip(Command::Font { name: Vec::new() });
    round_trip(Command::Glyph { x: 4, y: 9, ch: b'=' });
    round_trip(Command::Special { x: 10, y: 20, selector: b'1' });
    round_trip(Command::Image { x: 2, y: 3, key: b"ab+/=".to_vec() });
    round_trip(Command::EndOfBoard);
    round_trip(Command::Unknown { op: b'z' });
}

#[test]
fn brightness_is_three_zero_padded_digits() {
    assert_eq!(Command::Brightness { percent: 80 }.encode(), b"b080======".to_vec());
}

#[test]
fn colour_is_upper_case_hex() {
    assert_eq!(Command::Colour { r: 15, g: 15, b: 15 }.encode(), b"cFFF======".to_vec());
    assert_eq!(Command::Colour { r: 13, g: 9, b: 1 }.encode(), b"cD91======".to_vec());
}

#[test]
fn font_name_is_padded_with_filler() {
    assert_eq!(Command::Font { name: b"7x14B".to_vec() }.encode(), b"f7x14B====".to_vec());
}

#[test]
fn positional_frames_have_two_digit_fields() {
    assert_eq!(Command::Line { x1: 1, y1: 2, x2: 30, y2: 40 }.encode(), b"l01023040=".to_vec());
    assert_eq!(Command::Pixel { x: 5, y: 6 }.encode(), b"p0506=====".to_vec());
    assert_eq!(Command::ColouredPixel { x: 5, y: 6, r: 15, g: 0, b: 10 }.encode(), b"q0506F0A==".to_vec());
    assert_eq!(Command::Glyph { x: 4, y: 9, ch: b'A' }.encode(), b"t0409A====".to_vec());
    assert_eq!(Command::Special { x: 4, y: 9, selector: b'1' }.encode(), b"j04091====".to_vec());
    assert_eq!(Command::Image { x: 0, y: 12, key: b"^i1==".to_vec() }.encode(), b"i0012^i1==".to_vec());
    assert_eq!(Command::Clear.encode(), b"x=========".to_vec());
    assert_eq!(Command::EndOfBoard.encode(), b"s=========".to_vec());
}

#[test]
fn non_numeric_field_is_dropped() {
    assert_eq!(Command::decode(b"pa1b2====="), None);
    assert_eq!(Command::decode(b"l0102x340="), None);
    assert_eq!(Command::decode(b"cG00======"), None);
    assert_eq!(Command::decode(b"b3x0======"), None);
}

#[test]
fn brightness_above_a_byte_is_dropped() {
    assert_eq!(Command::decode(b"b300======"), None);
    assert_eq!(Command::decode(b"b255======"), Some(Command::Brightness { percent: 255 }));
}

#[test]
fn lower_case_hex_decodes() {
    assert_eq!(Command::decode(b"cfa0======"), Some(Command::Colour { r: 15, g: 10, b: 0 }));
}

#[test]
fn font_name_ends_at_first_filler() {
    assert_eq!(Command::decode(b"f5x8======"), Some(Command::Font { name: b"5x8".to_vec() }));
}

#[test]
fn unknown_opcode_is_kept() {
    assert_eq!(Command::decode(b"z123456789"), Some(Command::Unknown { op: b'z' }));
}
