use sot_reader::decode::{decode_narrow, decode_string_buffer, decode_wide};

#[test]
fn narrow_text_stops_at_the_first_zero_byte() {
    assert_eq!(decode_narrow(b"Crate\0junk").unwrap(), "Crate");
    assert_eq!(decode_narrow(b"\0Crate").unwrap(), "");
}

#[test]
fn a_buffer_without_a_zero_byte_is_not_narrow_text() {
    // no single-byte terminator: the narrow decode is taken to have failed
    assert!(decode_narrow(b"Crate").is_none());
}

#[test]
fn ill_formed_narrow_text_is_rejected() {
    // a lone continuation byte before the first zero
    assert!(decode_narrow(&[0xA9, 0x03, 0x00]).is_none());
}

#[test]
fn wide_text_stops_at_three_consecutive_zero_bytes() {
    let b = [0xA9, 0x03, 0xA3, 0x03, 0x00, 0x00, 0x00, 0x00];
    assert_eq!(decode_wide(&b).unwrap(), "\u{3A9}\u{3A3}");
}

#[test]
fn wide_text_without_a_terminator_is_rejected() {
    assert!(decode_wide(&[0xA9, 0x03, 0xA3, 0x03]).is_none());
    assert!(decode_wide(&[0xFF; 64]).is_none());
}

#[test]
fn the_policy_tries_narrow_first_then_wide() {
    // plain seven-bit text takes the narrow path
    assert_eq!(decode_string_buffer(b"Player\0\0\0\0").unwrap(), "Player");
    // text whose narrow prefix is ill formed falls through to the wide path
    let wide = [0xA9, 0x03, 0xA3, 0x03, 0x00, 0x00, 0x00, 0x00];
    assert_eq!(decode_string_buffer(&wide).unwrap(), "\u{3A9}\u{3A3}");
    // neither shape fits
    assert!(decode_string_buffer(&[0xFF, 0xFE]).is_none());
    // zero-free text is not narrow, and without a 16-bit terminator not wide either
    assert!(decode_string_buffer(b"Crate").is_none());
}

#[test]
fn an_unpaired_surrogate_is_rejected_by_the_wide_decoder() {
    // 0xD800 is a lone high surrogate
    let b = [0x00, 0xD8, 0x00, 0x00, 0x00, 0x00];
    assert!(decode_wide(&b).is_none());
}
