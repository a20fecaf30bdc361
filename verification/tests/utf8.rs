use remote_hub::utf8_check::{is_valid_utf8, scalar_len_at};

fn std_says(bytes: &[u8]) -> bool {
    std::str::from_utf8(bytes).is_ok()
}

#[test]
fn accepts_text_of_every_width() {
    assert!(is_valid_utf8(b""));
    assert!(is_valid_utf8(b"LEND"));
    assert!(is_valid_utf8("\u{e9}".as_bytes()));
    assert!(is_valid_utf8("\u{20ac}".as_bytes()));
    assert!(is_valid_utf8("\u{1f600}".as_bytes()));
    assert!(is_valid_utf8("a\u{e9}\u{20ac}\u{1f600}z".as_bytes()));
    assert!(is_valid_utf8(&[0xf4, 0x8f, 0xbf, 0xbf]));
    assert!(is_valid_utf8(&[0xed, 0x9f, 0xbf]));
    assert!(is_valid_utf8(&[0xee, 0x80, 0x80]));
}

#[test]
fn rejects_malformed_text() {
    assert!(!is_valid_utf8(&[0x80]));
    assert!(!is_valid_utf8(&[0xbf]));
    assert!(!is_valid_utf8(&[0xc0, 0x80]));
    assert!(!is_valid_utf8(&[0xc1, 0xbf]));
    assert!(!is_valid_utf8(&[0xc3]));
    assert!(!is_valid_utf8(&[0xc3, 0x28]));
    assert!(!is_valid_utf8(&[0xe0, 0x80, 0x80]));
    assert!(!is_valid_utf8(&[0xe0, 0x9f, 0xbf]));
    assert!(!is_valid_utf8(&[0xe2, 0x82]));
    assert!(!is_valid_utf8(&[0xed, 0xa0, 0x80]));
    assert!(!is_valid_utf8(&[0xed, 0xbf, 0xbf]));
    assert!(!is_valid_utf8(&[0xf0, 0x80, 0x80, 0x80]));
    assert!(!is_valid_utf8(&[0xf0, 0x8f, 0xbf, 0xbf]));
    assert!(!is_valid_utf8(&[0xf4, 0x90, 0x80, 0x80]));
    assert!(!is_valid_utf8(&[0xf5, 0x80, 0x80, 0x80]));
    assert!(!is_valid_utf8(&[0xf8, 0x88, 0x80, 0x80, 0x80]));
    assert!(!is_valid_utf8(&[0xff]));
    assert!(!is_valid_utf8(&[b'o', b'k', 0xff]));
    assert!(!is_valid_utf8(&[0xf0, 0x9f, 0x98]));
}

#[test]
fn scalar_length_follows_the_leading_byte() {
    let text = "a\u{e9}\u{20ac}\u{1f600}".as_bytes();
    assert_eq!(scalar_len_at(text, 0), 1);
    assert_eq!(scalar_len_at(text, 1), 2);
    assert_eq!(scalar_len_at(text, 3), 3);
    assert_eq!(scalar_len_at(text, 6), 4);
    // A continuation byte begins no scalar.
    assert_eq!(scalar_len_at(text, 2), 0);
    // A scalar that runs past the end is none.
    assert_eq!(scalar_len_at(&text[..9], 6), 0);
}

#[test]
fn agrees_with_std_on_all_short_strings() {
    for a in 0..=255u8 {
        assert_eq!(is_valid_utf8(&[a]), std_says(&[a]), "{:02x}", a);
        for b in 0..=255u8 {
            assert_eq!(is_valid_utf8(&[a, b]), std_says(&[a, b]), "{:02x} {:02x}", a, b);
        }
    }
}

#[test]
fn agrees_with_std_on_three_byte_strings() {
    for a in 0xc0..=255u8 {
        for b in 0..=255u8 {
            for c in [0x00u8, 0x7f, 0x80, 0x9f, 0xa0, 0xbf, 0xc0, 0xff] {
                let s = [a, b, c];
                assert_eq!(is_valid_utf8(&s), std_says(&s), "{:02x?}", s);
            }
        }
    }
}

#[test]
fn agrees_with_std_on_four_byte_strings() {
    for a in 0xe0..=255u8 {
        for b in [0x00u8, 0x7f, 0x80, 0x8f, 0x90, 0x9f, 0xa0, 0xbf, 0xc0, 0xff] {
            for c in [0x00u8, 0x7f, 0x80, 0xbf, 0xc0, 0xff] {
                for d in [0x00u8, 0x41, 0x7f, 0x80, 0xbf, 0xc0, 0xff] {
                    let s = [a, b, c, d];
                    assert_eq!(is_valid_utf8(&s), std_says(&s), "{:02x?}", s);
                }
            }
        }
    }
}
