//! A basic URL building block: percent-encoding of Unicode characters
//! (RFC 3986, section 2.1).

use vstd::prelude::*;
use vstd::string::*;
use vstd::utf8::*;

verus! {

/// A parsed URL. Request targets are carried, not yet interpreted, so the
/// type holds no parts yet.
#[derive(Debug, Clone, Copy, PartialEq, Eq, Structural)]
pub struct Url {}

impl Default for Url {
    /// The empty URL.
    fn default() -> (u: Url)
        ensures
            u == (Url {  }),
    {
        Url {  }
    }
}

/// Errors of percent-decoding.
#[derive(Debug, Clone, Copy, PartialEq, Eq)]
pub enum Error {
    /// A character outside `0-9a-fA-F` stood where a hexadecimal digit was
    /// expected.
    NotHex(char),
    /// A group did not start with `%`.
    MissingPercent,
    /// The input ended inside a percent group.
    Truncated,
    /// The decoded bytes are not a valid UTF-8 encoding.
    InvalidUtf8,
    /// There was nothing to decode.
    Empty,
}

/// Whether `c` is an ASCII hexadecimal digit, either case.
pub open spec fn is_hex_digit(c: char) -> bool {
    ('0' as u32) <= (c as u32) <= ('9' as u32) || ('a' as u32) <= (c as u32) <= ('f' as u32)
        || ('A' as u32) <= (c as u32) <= ('F' as u32)
}

/// The value of the hexadecimal digit `c`.
pub open spec fn hex_val(c: char) -> int
    recommends
        is_hex_digit(c),
{
    let u = c as u32;
    if ('0' as u32) <= u <= ('9' as u32) {
        u - ('0' as u32)
    } else if ('a' as u32) <= u <= ('f' as u32) {
        u - ('a' as u32) + 10
    } else {
        u - ('A' as u32) + 10
    }
}

/// Converts a character to its value as a hexadecimal digit, or reports
/// the character when it is not one of `0-9a-fA-F`.
pub fn hex_char_to_byte(c: char) -> (r: Result<u8, Error>)
    ensures
        is_hex_digit(c) ==> (r matches Ok(v) && v == hex_val(c) && v < 16),
        !is_hex_digit(c) ==> r == Err::<u8, Error>(Error::NotHex(c)),
{
    let u = c as u32;
    if 0x30 <= u && u <= 0x39 {
        Ok((u - 0x30) as u8)
    } else if 0x61 <= u && u <= 0x66 {
        Ok((u - 0x61 + 10) as u8)
    } else if 0x41 <= u && u <= 0x46 {
        Ok((u - 0x41 + 10) as u8)
    } else {
        Err(Error::NotHex(c))
    }
}

/// The uppercase hexadecimal digit for a value below 16.
pub open spec fn hex_digit_char(n: int) -> char
    recommends
        0 <= n < 16,
{
    if n == 0 {
        '0'
    } else if n == 1 {
        '1'
    } else if n == 2 {
        '2'
    } else if n == 3 {
        '3'
    } else if n == 4 {
        '4'
    } else if n == 5 {
        '5'
    } else if n == 6 {
        '6'
    } else if n == 7 {
        '7'
    } else if n == 8 {
        '8'
    } else if n == 9 {
        '9'
    } else if n == 10 {
        'A'
    } else if n == 11 {
        'B'
    } else if n == 12 {
        'C'
    } else if n == 13 {
        'D'
    } else if n == 14 {
        'E'
    } else {
        'F'
    }
}

/// The one-character string holding the uppercase hexadecimal digit for a
/// value below 16.
pub fn hex_digit_str(n: u8) -> (r: &'static str)
    requires
        n < 16,
    ensures
        r@ == seq![hex_digit_char(n as int)],
{
    proof {
        reveal_strlit("0");
        reveal_strlit("1");
        reveal_strlit("2");
        reveal_strlit("3");
        reveal_strlit("4");
        reveal_strlit("5");
        reveal_strlit("6");
        reveal_strlit("7");
        reveal_strlit("8");
        reveal_strlit("9");
        reveal_strlit("A");
        reveal_strlit("B");
        reveal_strlit("C");
        reveal_strlit("D");
        reveal_strlit("E");
        reveal_strlit("F");
    }
    let r = match n {
        0 => "0",
        1 => "1",
        2 => "2",
        3 => "3",
        4 => "4",
        5 => "5",
        6 => "6",
        7 => "7",
        8 => "8",
        9 => "9",
        10 => "A",
        11 => "B",
        12 => "C",
        13 => "D",
        14 => "E",
        _ => "F",
    };
    proof {
        assert(r@ =~= seq![hex_digit_char(n as int)]);
    }
    r
}

/// The percent-encoding of a byte sequence: each byte becomes `%` and two
/// uppercase hexadecimal digits.
pub open spec fn pct_of_bytes(bs: Seq<u8>) -> Seq<char>
    decreases bs.len(),
{
    if bs.len() == 0 {
        seq![]
    } else {
        seq!['%', hex_digit_char(bs[0] as int / 16), hex_digit_char(bs[0] as int % 16)]
            + pct_of_bytes(bs.drop_first())
    }
}

/// The percent-encoding of a character: its UTF-8 bytes, each as a
/// percent group.
pub open spec fn spec_pct_encode(c: char) -> Seq<char> {
    pct_of_bytes(encode_scalar(c as u32))
}

/// Appending one byte to the sequence appends one percent group to the
/// encoding.
proof fn lemma_pct_of_bytes_push(bs: Seq<u8>, b: u8)
    ensures
        pct_of_bytes(bs.push(b)) == pct_of_bytes(bs) + seq![
            '%',
            hex_digit_char(b as int / 16),
            hex_digit_char(b as int % 16),
        ],
    decreases bs.len(),
{
    if bs.len() == 0 {
        assert(bs.push(b).drop_first() =~= bs);
        assert(pct_of_bytes(bs.push(b)) =~= pct_of_bytes(bs) + seq![
            '%',
            hex_digit_char(b as int / 16),
            hex_digit_char(b as int % 16),
        ]);
    } else {
        lemma_pct_of_bytes_push(bs.drop_first(), b);
        assert(bs.push(b).drop_first() =~= bs.drop_first().push(b));
        assert(pct_of_bytes(bs.push(b)) =~= pct_of_bytes(bs) + seq![
            '%',
            hex_digit_char(b as int / 16),
            hex_digit_char(b as int % 16),
        ]);
    }
}

/// The UTF-8 bytes of one character.
fn utf8_encode_char(c: char) -> (bytes: Vec<u8>)
    ensures
        bytes@ == encode_scalar(c as u32),
{
    proof {
        char_is_scalar(c);
    }
    let u = c as u32;
    let mut bytes: Vec<u8> = Vec::new();
    if u <= 0x7F {
        bytes.push((u & 0x7F) as u8);
        proof {
            assert(bytes@ =~= encode_scalar(u));
        }
    } else if u <= 0x7FF {
        bytes.push(0xC0u8 | ((u >> 6) & 0x1F) as u8);
        bytes.push(0x80u8 | (u & 0x3F) as u8);
        proof {
            assert(bytes@ =~= encode_scalar(u));
        }
    } else if u <= 0xFFFF {
        bytes.push(0xE0u8 | ((u >> 12) & 0x0F) as u8);
        bytes.push(0x80u8 | ((u >> 6) & 0x3F) as u8);
        bytes.push(0x80u8 | (u & 0x3F) as u8);
        proof {
            assert(bytes@ =~= encode_scalar(u));
        }
    } else {
        bytes.push(0xF0u8 | ((u >> 18) & 0x7) as u8);
        bytes.push(0x80u8 | ((u >> 12) & 0x3F) as u8);
        bytes.push(0x80u8 | ((u >> 6) & 0x3F) as u8);
        bytes.push(0x80u8 | (u & 0x3F) as u8);
        proof {
            assert(bytes@ =~= encode_scalar(u));
        }
    }
    bytes
}

/// Encodes a UTF-8 Unicode character as an RFC 3986 percent-encoding:
/// each of its UTF-8 bytes as `%` and two uppercase hexadecimal digits.
pub fn pct_encode(uni_char: char) -> (r: String)
    ensures
        r@ == spec_pct_encode(uni_char),
{
    let bytes = utf8_encode_char(uni_char);
    let mut encoded = String::new();
    let mut i: usize = 0;
    while i < bytes.len()
        invariant
            i <= bytes@.len(),
            bytes@ == encode_scalar(uni_char as u32),
            encoded@ == pct_of_bytes(bytes@.subrange(0, i as int)),
        decreases bytes@.len() - i,
    {
        let b = bytes[i];
        encoded.append("%");
        encoded.append(hex_digit_str(b / 16));
        encoded.append(hex_digit_str(b % 16));
        proof {
            reveal_strlit("%");
            lemma_pct_of_bytes_push(bytes@.subrange(0, i as int), b);
            assert(bytes@.subrange(0, i as int).push(b) =~= bytes@.subrange(0, i + 1 as int));
            assert(encoded@ =~= pct_of_bytes(bytes@.subrange(0, i + 1 as int)));
        }
        i = i + 1;
    }
    proof {
        assert(bytes@.subrange(0, bytes@.len() as int) =~= bytes@);
    }
    encoded
}

/// Relies on `char::from_u32`: `Some` exactly for Unicode scalar values
/// (at most 0x10FFFF and not a surrogate), and the character it returns
/// casts back to the given value.
#[verifier::external_body]
fn char_from_u32(v: u32) -> (r: Option<char>)
    ensures
        r is Some <==> is_scalar(v),
        r matches Some(c) ==> c as u32 == v,
{
    char::from_u32(v)
}

/// The byte with the two given hexadecimal digits.
pub open spec fn hex_byte(h: char, l: char) -> u8
    recommends
        is_hex_digit(h),
        is_hex_digit(l),
{
    (hex_val(h) * 16 + hex_val(l)) as u8
}

/// Reads a sequence of `%`-and-two-hexadecimal-digit groups as bytes, or
/// the first complaint on the way: a group not opened by `%`, a digit
/// that is not hexadecimal, or an input ending inside a group.
pub open spec fn pct_bytes(s: Seq<char>) -> Result<Seq<u8>, Error>
    decreases s.len(),
{
    if s.len() == 0 {
        Ok(seq![])
    } else if s[0] != '%' {
        Err(Error::MissingPercent)
    } else if s.len() == 1 {
        Err(Error::Truncated)
    } else if !is_hex_digit(s[1]) {
        Err(Error::NotHex(s[1]))
    } else if s.len() == 2 {
        Err(Error::Truncated)
    } else if !is_hex_digit(s[2]) {
        Err(Error::NotHex(s[2]))
    } else {
        match pct_bytes(s.subrange(3, s.len() as int)) {
            Ok(rest) => Ok(seq![hex_byte(s[1], s[2])] + rest),
            Err(e) => Err(e),
        }
    }
}

/// What decoding a percent-encoded string must come to: the bytes of its
/// groups read as UTF-8, whose first character is the result; anything
/// else is the precise complaint.
pub open spec fn pct_decoded(s: Seq<char>) -> Result<char, Error> {
    match pct_bytes(s) {
        Err(e) => Err(e),
        Ok(bytes) => if bytes.len() == 0 {
            Err(Error::Empty)
        } else if !valid_utf8(bytes) {
            Err(Error::InvalidUtf8)
        } else {
            Ok(decode_utf8(bytes)[0])
        },
    }
}

/// The first character of a valid UTF-8 byte sequence, checking the whole
/// sequence on the way.
fn utf8_first_char(bytes: &Vec<u8>) -> (r: Result<char, Error>)
    ensures
        bytes@.len() == 0 ==> r == Err::<char, Error>(Error::Empty),
        bytes@.len() > 0 && !valid_utf8(bytes@) ==> r == Err::<char, Error>(Error::InvalidUtf8),
        bytes@.len() > 0 && valid_utf8(bytes@) ==> (r matches Ok(c) && c == decode_utf8(
            bytes@,
        )[0]),
    {
    let n = bytes.len();
    if n == 0 {
        return Err(Error::Empty);
    }
    let mut i: usize = 0;
    let mut first: char = '\0';
    proof {
        assert(bytes@.subrange(0, n as int) =~= bytes@);
    }
    while i < n
        invariant
            i <= n,
            n == bytes@.len(),
            valid_utf8(bytes@) <==> valid_utf8(bytes@.subrange(i as int, n as int)),
            i > 0 && valid_utf8(bytes@) ==> decode_utf8(bytes@)[0] == first,
        decreases n - i,
    {
        let ghost suffix = bytes@.subrange(i as int, n as int);
        let b0 = bytes[i];
        let width: usize;
        let cp: u32;
        if b0 <= 0x7F {
            width = 1;
            cp = b0 as u32;
            proof {
                assert(cp == codepoint_width_1(b0)) by (bit_vector)
                    requires
                        b0 <= 0x7F,
                        cp == b0 as u32,
                ;
                assert(valid_first_scalar(suffix));
            }
        } else if 0xC0 <= b0 && b0 <= 0xDF {
            if n - i < 2 {
                proof {
                    assert(!valid_first_scalar(suffix));
                }
                return Err(Error::InvalidUtf8);
            }
            let b1 = bytes[i + 1];
            if !(0x80 <= b1 && b1 <= 0xBF) {
                proof {
                    assert(!valid_first_scalar(suffix));
                }
                return Err(Error::InvalidUtf8);
            }
            width = 2;
            cp = (((b0 & 0x1F) as u32) << 6) | ((b1 & 0x3F) as u32);
            if cp < 0x80 {
                proof {
                    assert(!valid_first_scalar(suffix));
                }
                return Err(Error::InvalidUtf8);
            }
            proof {
                assert(cp <= 0x7FF) by (bit_vector)
                    requires
                        cp == (((b0 & 0x1F) as u32) << 6) | ((b1 & 0x3F) as u32),
                ;
                assert(valid_first_scalar(suffix));
            }
        } else if 0xE0 <= b0 && b0 <= 0xEF {
            if n - i < 3 {
                proof {
                    assert(!valid_first_scalar(suffix));
                }
                return Err(Error::InvalidUtf8);
            }
            let b1 = bytes[i + 1];
            let b2 = bytes[i + 2];
            if !(0x80 <= b1 && b1 <= 0xBF) || !(0x80 <= b2 && b2 <= 0xBF) {
                proof {
                    assert(!valid_first_scalar(suffix));
                }
                return Err(Error::InvalidUtf8);
            }
            width = 3;
            cp = (((b0 & 0x0F) as u32) << 12) | (((b1 & 0x3F) as u32) << 6) | ((b2
                & 0x3F) as u32);
            if cp < 0x800 || (0xD800 <= cp && cp <= 0xDFFF) {
                proof {
                    assert(!valid_first_scalar(suffix));
                }
                return Err(Error::InvalidUtf8);
            }
            proof {
                assert(cp <= 0xFFFF) by (bit_vector)
                    requires
                        cp == (((b0 & 0x0F) as u32) << 12) | (((b1 & 0x3F) as u32) << 6) | ((b2
                            & 0x3F) as u32),
                ;
                assert(valid_first_scalar(suffix));
            }
        } else if 0xF0 <= b0 && b0 <= 0xF7 {
            if n - i < 4 {
                proof {
                    assert(!valid_first_scalar(suffix));
                }
                return Err(Error::InvalidUtf8);
            }
            let b1 = bytes[i + 1];
            let b2 = bytes[i + 2];
            let b3 = bytes[i + 3];
            if !(0x80 <= b1 && b1 <= 0xBF) || !(0x80 <= b2 && b2 <= 0xBF) || !(0x80 <= b3 && b3
                <= 0xBF) {
                proof {
                    assert(!valid_first_scalar(suffix));
                }
                return Err(Error::InvalidUtf8);
            }
            width = 4;
            cp = (((b0 & 0x07) as u32) << 18) | (((b1 & 0x3F) as u32) << 12) | (((b2
                & 0x3F) as u32) << 6) | ((b3 & 0x3F) as u32);
            if cp < 0x10000 || cp > 0x10FFFF {
                proof {
                    assert(!valid_first_scalar(suffix));
                }
                return Err(Error::InvalidUtf8);
            }
            proof {
                assert(valid_first_scalar(suffix));
            }
        } else {
            proof {
                assert(!valid_first_scalar(suffix));
            }
            return Err(Error::InvalidUtf8);
        }
        proof {
            assert(cp == decode_first_codepoint(suffix));
            assert(width == length_of_first_scalar(suffix));
            assert(pop_first_scalar(suffix) =~= bytes@.subrange(i + width, n as int));
        }
        if i == 0 {
            match char_from_u32(cp) {
                Some(c) => {
                    first = c;
                    proof {
                        char_u32_cast(first, cp);
                    }
                },
                None => {
                    proof {
                        assert(false);
                    }
                },
            }
        }
        i = i + width;
    }
    proof {
        assert(bytes@.subrange(n as int, n as int) =~= Seq::<u8>::empty());
        assert(valid_utf8(bytes@));
    }
    Ok(first)
}

/// Decodes an RFC 3986 percent-encoding of a valid UTF-8 Unicode
/// character, returning that character, or says precisely what was wrong
/// with the input.
pub fn pct_decode(pct_encoded: &str) -> (r: Result<char, Error>)
    ensures
        r == pct_decoded(pct_encoded@),
{
    let n = pct_encoded.unicode_len();
    let mut bytes: Vec<u8> = Vec::new();
    let mut i: usize = 0;
    proof {
        assert(pct_encoded@.subrange(0, n as int) =~= pct_encoded@);
        let whole = pct_bytes(pct_encoded@);
        if whole is Ok {
            assert(bytes@ + whole->Ok_0 =~= whole->Ok_0);
        }
    }
    while i < n
        invariant
            i <= n,
            n == pct_encoded@.len(),
            (pct_bytes(pct_encoded@.subrange(i as int, n as int)) matches Ok(rest) ==> pct_bytes(
                pct_encoded@,
            ) == Ok::<Seq<u8>, Error>(bytes@ + rest)),
            (pct_bytes(pct_encoded@.subrange(i as int, n as int)) matches Err(e) ==> pct_bytes(
                pct_encoded@,
            ) == Err::<Seq<u8>, Error>(e)),
        decreases n - i,
    {
        let ghost suffix = pct_encoded@.subrange(i as int, n as int);
        let c = pct_encoded.get_char(i);
        if c != '%' {
            proof {
                reveal_strlit("%");
            }
            return Err(Error::MissingPercent);
        }
        proof {
            reveal_strlit("%");
        }
        if i + 1 >= n {
            return Err(Error::Truncated);
        }
        let h = pct_encoded.get_char(i + 1);
        let hv = match hex_char_to_byte(h) {
            Ok(v) => v,
            Err(e) => {
                return Err(e);
            },
        };
        if i + 2 >= n {
            return Err(Error::Truncated);
        }
        let l = pct_encoded.get_char(i + 2);
        let lv = match hex_char_to_byte(l) {
            Ok(v) => v,
            Err(e) => {
                return Err(e);
            },
        };
        let ghost bytes_pre = bytes@;
        bytes.push(hv * 16 + lv);
        proof {
            assert(suffix.subrange(3, suffix.len() as int) =~= pct_encoded@.subrange(
                i + 3,
                n as int,
            ));
            let parsed_rest = pct_bytes(pct_encoded@.subrange(i + 3, n as int));
            if parsed_rest is Ok {
                let rest = parsed_rest->Ok_0;
                assert(pct_bytes(suffix) == Ok::<Seq<u8>, Error>(seq![hex_byte(h, l)] + rest));
                assert(bytes@ + rest =~= bytes_pre + (seq![hex_byte(h, l)] + rest));
            }
        }
        i = i + 3;
    }
    proof {
        assert(pct_encoded@.subrange(n as int, n as int) =~= Seq::<char>::empty());
        assert(bytes@ + Seq::<u8>::empty() =~= bytes@);
    }
    utf8_first_char(&bytes)
}

/// The hexadecimal digit characters decode back to their values.
proof fn lemma_hex_digit_char_val(n: int)
    requires
        0 <= n < 16,
    ensures
        is_hex_digit(hex_digit_char(n)),
        hex_val(hex_digit_char(n)) == n,
{
}

/// Reading a percent-encoding back gives exactly the bytes it encodes.
proof fn lemma_pct_bytes_of_encoding(bs: Seq<u8>)
    ensures
        pct_bytes(pct_of_bytes(bs)) == Ok::<Seq<u8>, Error>(bs),
    decreases bs.len(),
{
    if bs.len() == 0 {
        assert(bs =~= Seq::<u8>::empty());
    } else {
        let b = bs[0];
        let s = pct_of_bytes(bs);
        lemma_hex_digit_char_val(b as int / 16);
        lemma_hex_digit_char_val(b as int % 16);
        assert(s[0] == '%' && s[1] == hex_digit_char(b as int / 16) && s[2] == hex_digit_char(
            b as int % 16,
        ));
        assert(s[0] == '%');
        assert(hex_byte(s[1], s[2]) == b);
        assert(s.subrange(3, s.len() as int) =~= pct_of_bytes(bs.drop_first()));
        lemma_pct_bytes_of_encoding(bs.drop_first());
        assert(seq![b] + bs.drop_first() =~= bs);
    }
}

/// Decoding an encoding always gives back the encoded character: for
/// every character, `pct_decode` applied to the text that `pct_encode`
/// produces yields exactly that character.
pub proof fn lemma_pct_round_trip(c: char)
    ensures
        pct_decoded(spec_pct_encode(c)) == Ok::<char, Error>(c),
{
    char_is_scalar(c);
    let bytes = encode_scalar(c as u32);
    assert(seq![c].len() == 1 && seq![c][0] == c);
    assert(seq![c].drop_first() =~= Seq::<char>::empty());
    assert(encode_utf8(seq![c].drop_first()) =~= Seq::<u8>::empty());
    assert(encode_utf8(seq![c]) =~= encode_scalar(c as u32) + encode_utf8(seq![c].drop_first()));
    assert(bytes =~= encode_utf8(seq![c]));
    lemma_pct_bytes_of_encoding(bytes);
    encode_utf8_valid_utf8(seq![c]);
    encode_utf8_decode_utf8(seq![c]);
    assert(bytes.len() > 0);
    assert(decode_utf8(bytes)[0] == c);
}

} // verus!
