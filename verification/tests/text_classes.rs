use tune::text::{char_is_control, char_is_whitespace};

#[test]
fn character_classes_agree_with_std() {
    for code in 0u32..0x3100 {
        if let Some(c) = char::from_u32(code) {
            assert_eq!(char_is_whitespace(c), c.is_whitespace(), "{code:#x}");
            assert_eq!(char_is_control(c), c.is_control(), "{code:#x}");
        }
    }
    for c in ['\u{feff}', '\u{10ffff}', '\u{e000}', 'a'] {
        assert_eq!(char_is_whitespace(c), c.is_whitespace());
        assert_eq!(char_is_control(c), c.is_control());
    }
}

#[test]
fn utf8_validation_agrees_with_std() {
    let samples: Vec<Vec<u8>> = vec![
        b"plain".to_vec(),
        "h\u{e9}llo \u{4e16}\u{754c} \u{1f3b5}".as_bytes().to_vec(),
        vec![0xc0, 0x80],
        vec![0xe0, 0x80, 0x80],
        vec![0xed, 0xa0, 0x80],
        vec![0xf4, 0x90, 0x80, 0x80],
        vec![0xf0, 0x9f, 0x8e],
        vec![0x80],
        vec![0xff],
        vec![],
        vec![0xc3, 0xa9, 0x41],
    ];
    for bytes in samples {
        assert_eq!(tune::id3::is_valid_utf8(&bytes), std::str::from_utf8(&bytes).is_ok(), "{bytes:?}");
    }
    for a in 0u8..=255 {
        for b in [0x00u8, 0x7f, 0x80, 0x9f, 0xa0, 0xbf, 0xc0] {
            let bytes = [a, b, 0x80, 0x80];
            assert_eq!(tune::id3::is_valid_utf8(&bytes), std::str::from_utf8(&bytes).is_ok(), "{bytes:?}");
        }
    }
}
