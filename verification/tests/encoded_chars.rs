//! The fixed-capacity encoded codepoint types.

use encode_unicode::CharExt;
use encode_unicode::Utf16Char;
use encode_unicode::Utf8Char;
use encode_unicode::error::FromStrError;
use encode_unicode::error::InvalidUtf8;
use encode_unicode::error::InvalidUtf8Array;
use encode_unicode::error::InvalidUtf8Slice;

#[test]
fn utf8char_from_str_one_codepoint() {
    let uc = Utf8Char::from_str("\u{E9}").unwrap();
    assert_eq!(uc.len(), 2);
    assert_eq!(uc.to_char(), '\u{E9}');
    assert_eq!(uc.to_array(), ([0xC3, 0xA9, 0, 0], 2));
}

#[test]
fn utf8char_from_str_empty() {
    assert_eq!(Utf8Char::from_str(""), Err(FromStrError::Empty));
}

#[test]
fn utf8char_parse() {
    assert_eq!("A".parse::<Utf8Char>(), Ok(Utf8Char::from_char('A')));
    assert_eq!("xy".parse::<Utf8Char>(), Err(FromStrError::SeveralCodePoints));
}

#[test]
fn utf8char_from_str_several_codepoints() {
    assert_eq!(Utf8Char::from_str("ab"), Err(FromStrError::SeveralCodePoints));
    assert_eq!(
        Utf8Char::from_str("\u{E9}\u{E9}"),
        Err(FromStrError::SeveralCodePoints)
    );
}

#[test]
fn utf8char_from_str_all_lengths() {
    assert_eq!(Utf8Char::from_str("A").unwrap().len(), 1);
    assert_eq!(Utf8Char::from_str("\u{E9}").unwrap().len(), 2);
    assert_eq!(Utf8Char::from_str("\u{20AC}").unwrap().len(), 3);
    let uc = Utf8Char::from_str("\u{1F600}").unwrap();
    assert_eq!(uc.len(), 4);
    assert_eq!(uc.to_char(), '\u{1F600}');
}

#[test]
fn utf8char_from_slice_start() {
    let (uc, len) = Utf8Char::from_slice_start(&[0x41, 0x42, 0x43]).unwrap();
    assert_eq!(len, 1);
    assert_eq!(uc.to_char(), 'A');

    let (uc, len) = Utf8Char::from_slice_start(&[0xF0, 0x9F, 0x98, 0x80, 0x41]).unwrap();
    assert_eq!(len, 4);
    assert_eq!(uc.to_char(), '\u{1F600}');

    assert_eq!(
        Utf8Char::from_slice_start(&[]),
        Err(InvalidUtf8Slice::TooShort(1))
    );
    assert_eq!(
        Utf8Char::from_slice_start(&[0xC0, 0x80]),
        Err(InvalidUtf8Slice::Utf8(InvalidUtf8::OverLong))
    );
}

#[test]
fn utf8char_from_array_ignores_trailing_bytes() {
    let uc = Utf8Char::from_array([0x41, 0xFF, 0xFF, 0xFF]).unwrap();
    assert_eq!(uc.to_array(), ([0x41, 0, 0, 0], 1));
    assert_eq!(uc, Utf8Char::from_char('A'));

    let uc = Utf8Char::from_array([0xC3, 0xA9, 0x41, 0x42]).unwrap();
    assert_eq!(uc.to_array(), ([0xC3, 0xA9, 0, 0], 2));

    assert_eq!(
        Utf8Char::from_array([0xC0, 0x80, 0, 0]),
        Err(InvalidUtf8Array::Utf8(InvalidUtf8::OverLong))
    );
}

#[test]
fn utf8char_to_slice_buffers() {
    let uc = Utf8Char::from_char('\u{E9}');
    let mut buf = [9u8; 1];
    assert_eq!(uc.to_slice(&mut buf), None);
    assert_eq!(buf, [9]);
    let mut buf = [9u8; 2];
    assert_eq!(uc.to_slice(&mut buf), Some(2));
    assert_eq!(buf, [0xC3, 0xA9]);
    let mut buf = [9u8; 6];
    assert_eq!(uc.to_slice(&mut buf), Some(2));
    // A buffer of at least four bytes also receives the zero padding.
    assert_eq!(buf, [0xC3, 0xA9, 0, 0, 9, 9]);
}

#[test]
fn utf8char_equality_follows_the_codepoint() {
    assert_eq!(Utf8Char::from_char('a'), Utf8Char::from_char('a'));
    assert_ne!(Utf8Char::from_char('a'), Utf8Char::from_char('b'));
    assert_eq!(
        Utf8Char::from_str("\u{E9}").unwrap(),
        Utf8Char::from_char('\u{E9}')
    );
    assert_eq!(Utf8Char::default(), Utf8Char::from_char('\0'));
}

#[test]
fn utf8char_ordering_follows_the_codepoint() {
    let chars = ['\0', 'A', '\u{7F}', '\u{80}', '\u{7FF}', '\u{800}', '\u{D7FF}', '\u{E000}',
        '\u{FFFF}', '\u{10000}', '\u{10FFFF}'];
    for &a in chars.iter() {
        for &b in chars.iter() {
            let (ua, ub) = (Utf8Char::from_char(a), Utf8Char::from_char(b));
            assert_eq!(ua.cmp(&ub), a.cmp(&b));
            assert_eq!(ua < ub, a < b);
        }
    }
}

#[test]
fn utf16char_equality_follows_the_codepoint() {
    assert_eq!(Utf16Char::from_char('a'), Utf16Char::from_char('a'));
    assert_ne!(Utf16Char::from_char('a'), Utf16Char::from_char('b'));
    assert_eq!(
        Utf16Char::from_char('\u{1F600}'),
        Utf16Char::from_char('\u{1F600}')
    );
    assert_ne!(
        Utf16Char::from_char('\u{1F600}'),
        Utf16Char::from_char('\u{1F601}')
    );
}

#[test]
fn utf8char_via_charext() {
    for &c in ['\0', 'A', '\u{E9}', '\u{800}', '\u{1F600}', '\u{10FFFF}'].iter() {
        let uc = c.to_utf8();
        assert_eq!(uc.to_char(), c);
        assert_eq!(uc.len(), c.len_utf8());
        let (array, len) = c.to_utf8_array();
        assert_eq!(uc.to_array(), (array, len));
    }
}

#[test]
fn utf16char_stores_the_units() {
    let tc = Utf16Char::from_char('A');
    assert_eq!(tc.len(), 1);
    assert_eq!(tc.to_tuple(), (0x41, None));
    assert_eq!(tc.to_char(), 'A');

    let tc = Utf16Char::from_char('\u{1F600}');
    assert_eq!(tc.len(), 2);
    assert_eq!(tc.to_tuple(), (0xD83D, Some(0xDE00)));
    assert_eq!(tc.to_char(), '\u{1F600}');

    assert_eq!(Utf16Char::default().to_tuple(), (0, None));
}

#[test]
fn utf16char_to_slice_buffers() {
    let tc = Utf16Char::from_char('\u{1F600}');
    let mut buf = [9u16; 1];
    assert_eq!(tc.to_slice(&mut buf), None);
    assert_eq!(buf, [9]);
    let mut buf = [9u16; 3];
    assert_eq!(tc.to_slice(&mut buf), Some(2));
    assert_eq!(buf, [0xD83D, 0xDE00, 9]);

    let tc = Utf16Char::from_char('A');
    let mut buf = [0u16; 0];
    assert_eq!(tc.to_slice(&mut buf), None);
    let mut buf = [9u16; 2];
    assert_eq!(tc.to_slice(&mut buf), Some(1));
    assert_eq!(buf, [0x41, 9]);
}

#[test]
fn utf16char_via_charext() {
    for &c in ['\0', 'A', '\u{D7FF}', '\u{FFFF}', '\u{10000}', '\u{10FFFF}'].iter() {
        let tc = c.to_utf16();
        assert_eq!(tc.to_char(), c);
        assert_eq!(tc.len(), c.len_utf16());
        assert_eq!(tc.to_tuple(), c.to_utf16_tuple());
    }
}
