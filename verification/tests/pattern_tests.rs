use sot_reader::pattern::{find_pattern, parse_signature};

#[test]
fn parse_signature_literals_and_wildcards() {
    let sig = parse_signature("48 8B 05 ? ?? 0F a3").unwrap();
    assert_eq!(
        sig,
        vec![
            Some(0x48),
            Some(0x8B),
            Some(0x05),
            None,
            None,
            Some(0x0F),
            Some(0xA3)
        ]
    );
}

#[test]
fn parse_signature_single_digit_token() {
    let sig = parse_signature("5 A").unwrap();
    assert_eq!(sig, vec![Some(0x05), Some(0x0A)]);
}

#[test]
fn parse_signature_rejects_malformed() {
    assert!(parse_signature("48 GG").is_none());
    assert!(parse_signature("484").is_none());
    assert!(parse_signature("48  8B").is_none());
    assert!(parse_signature("???").is_none());
}

#[test]
fn find_pattern_present_reports_first_position() {
    let img = vec![0x00u8, 0x11, 0x48, 0x8B, 0x99, 0x48, 0x8B, 0x05];
    let sig = parse_signature("48 8B").unwrap();
    assert_eq!(find_pattern(&img, &sig), Some(2));
}

#[test]
fn find_pattern_absent_reports_not_found() {
    let img = vec![0x00u8, 0x11, 0x22, 0x33];
    let sig = parse_signature("48 8B").unwrap();
    assert_eq!(find_pattern(&img, &sig), None);
}

#[test]
fn find_pattern_wildcard_matches_any_byte_value() {
    let sig = parse_signature("48 ? 05").unwrap();
    for b in [0x00u8, 0x7F, 0xFF] {
        let img = vec![0x10u8, 0x48, b, 0x05, 0x20];
        assert_eq!(find_pattern(&img, &sig), Some(1));
    }
}

#[test]
fn find_pattern_longer_than_image_is_not_found() {
    let img = vec![0x48u8];
    let sig = parse_signature("48 8B 05").unwrap();
    assert_eq!(find_pattern(&img, &sig), None);
}
