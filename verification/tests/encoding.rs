use baam_3ds::encoding::{cp866_encoder, position, win1251_encoder, CP866_DATA, WIN1251_DATA};

#[test]
fn smoke() {
    let enc = &win1251_encoder();

    assert_eq!(enc.encode_char('a'), Some(b'a'));
    assert_eq!(enc.encode_char('b'), Some(b'b'));
    assert_eq!(enc.encode_char('c'), Some(b'c'));
    assert_eq!(enc.encode_char('d'), Some(b'd'));

    assert_eq!(enc.encode_char('а'), Some(0xE0));
    assert_eq!(enc.encode_char('б'), Some(0xE1));
    assert_eq!(enc.encode_char('в'), Some(0xE2));
    assert_eq!(enc.encode_char('г'), Some(0xE3));
    assert_eq!(enc.encode_char('Ё'), Some(0xA8));
}

#[test]
fn win1251_tail_and_quadrants() {
    let enc = win1251_encoder();
    // first quadrant (0x80..0xA0)
    assert_eq!(enc.encode_char('Ђ'), Some(0x80));
    assert_eq!(enc.encode_char('€'), Some(0x88));
    // second quadrant
    assert_eq!(enc.encode_char('\u{00A0}'), Some(0xA0));
    // third quadrant
    assert_eq!(enc.encode_char('°'), Some(0xB0));
    // the run: capital Cyrillic letters
    assert_eq!(enc.encode_char('А'), Some(0xC0));
    assert_eq!(enc.encode_char('я'), Some(0xFF));
}

#[test]
fn encoders_reject_unmapped_and_astral() {
    let enc = win1251_encoder();
    assert_eq!(enc.encode_char('日'), None);
    assert_eq!(enc.encode_char('😀'), None);
    assert_eq!(enc.encode_char('\u{0080}'), None);
    let cp = cp866_encoder();
    assert_eq!(cp.encode_char('€'), None);
}

#[test]
fn cp866_examples() {
    let cp = cp866_encoder();
    assert_eq!(cp.encode_char(' '), Some(0x20));
    assert_eq!(cp.encode_char('А'), Some(0x80));
    assert_eq!(cp.encode_char('р'), Some(0xE0));
    assert_eq!(cp.encode_char('я'), Some(0xEF));
    assert_eq!(cp.encode_char('░'), Some(0xB0));
    assert_eq!(cp.encode_char('Ё'), Some(0xF0));
    assert_eq!(cp.encode_char('\u{00A0}'), Some(0xFF));
    assert_eq!(cp.encode_char('а'), Some(0xA0));
}

#[test]
fn every_byte_roundtrips_through_its_code_point() {
    let enc = win1251_encoder();
    let cp = cp866_encoder();
    for b in 0u8..128 {
        assert_eq!(enc.encode_char(b as char), Some(b));
        assert_eq!(cp.encode_char(b as char), Some(b));
    }
    for k in 0..128usize {
        let c = char::from_u32(WIN1251_DATA[k] as u32).unwrap();
        assert_eq!(enc.encode_char(c), Some(128 + k as u8));
        let c = char::from_u32(CP866_DATA[k] as u32).unwrap();
        assert_eq!(cp.encode_char(c), Some(128 + k as u8));
    }
}

#[test]
fn position_finds_first_match() {
    assert_eq!(position(&[3, 5, 7, 5], 5), Some(1));
    assert_eq!(position(&[3, 5, 7, 5], 9), None);
    assert_eq!(position(&[], 1), None);
}
