use ptodd::url::{hex_char_to_byte, pct_decode, pct_encode, Error};

#[test]
fn hex_byte() {
    let test_chars: [(u8, char); 22] = [
        (0, '0'),
        (1, '1'),
        (2, '2'),
        (3, '3'),
        (4, '4'),
        (5, '5'),
        (6, '6'),
        (7, '7'),
        (8, '8'),
        (9, '9'),
        (10, 'a'),
        (11, 'b'),
        (12, 'c'),
        (13, 'd'),
        (14, 'e'),
        (15, 'f'),
        (10, 'A'),
        (11, 'B'),
        (12, 'C'),
        (13, 'D'),
        (14, 'E'),
        (15, 'F'),
    ];
    for (value, ch) in test_chars {
        assert_eq!(value, hex_char_to_byte(ch).unwrap());
    }
}

#[test]
fn encode() {
    assert_eq!("%65", pct_encode('\u{0065}')); // 1-byte UTF-8 glyph 'e'
    assert_eq!("%C3%A9", pct_encode('\u{00E9}')); // 2-byte UTF-8 glyph 'é'
    assert_eq!("%E2%82%AC", pct_encode('\u{20AC}')); // 3-byte UTF-8 glyph '€'
    assert_eq!("%F0%90%8D%88", pct_encode('\u{10348}')); // 4-byte UTF-8 glyph '𐍈'
}

#[test]
fn decode() {
    assert_eq!('\u{0065}', pct_decode(pct_encode('\u{0065}').as_str()).unwrap()); // 1-byte UTF-8 glyph 'e'
    assert_eq!('\u{00E9}', pct_decode(pct_encode('\u{00E9}').as_str()).unwrap()); // 2-byte UTF-8 glyph 'é'
    assert_eq!('\u{20AC}', pct_decode(pct_encode('\u{20AC}').as_str()).unwrap()); // 3-byte UTF-8 glyph '€'
    assert_eq!('\u{10348}', pct_decode(pct_encode('\u{10348}').as_str()).unwrap()); // 4-byte UTF-8 glyph '𐍈'
}

#[test]
fn hex_rejects_other_characters() {
    assert_eq!(hex_char_to_byte('g'), Err(Error::NotHex('g')));
    assert_eq!(hex_char_to_byte(' '), Err(Error::NotHex(' ')));
}

#[test]
fn decode_names_each_complaint() {
    assert_eq!(pct_decode("65"), Err(Error::MissingPercent));
    assert_eq!(pct_decode("%6"), Err(Error::Truncated));
    assert_eq!(pct_decode("%"), Err(Error::Truncated));
    assert_eq!(pct_decode("%6g"), Err(Error::NotHex('g')));
    assert_eq!(pct_decode(""), Err(Error::Empty));
    // A lone continuation byte is not valid UTF-8.
    assert_eq!(pct_decode("%80"), Err(Error::InvalidUtf8));
    // An overlong encoding of the slash is rejected.
    assert_eq!(pct_decode("%C0%AF"), Err(Error::InvalidUtf8));
    // A surrogate codepoint is rejected.
    assert_eq!(pct_decode("%ED%A0%80"), Err(Error::InvalidUtf8));
}

#[test]
fn decode_takes_the_first_character() {
    assert_eq!(pct_decode("%68%69"), Ok('h'));
}
