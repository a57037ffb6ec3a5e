//! Colours and their hexadecimal notation.

use vstd::prelude::*;
use vstd::string::StringExecFns;
use vstd::string::StringSliceAdditionalSpecFns;

verus! {

/// An opaque colour of three 8-bit channels.
#[derive(Clone, Copy, Debug, PartialEq, Eq, Structural)]
pub struct Rgb {
    pub r: u8,
    pub g: u8,
    pub b: u8,
}

/// The upper-case character that stands for the hexadecimal digit `d`.
pub open spec fn hex_digit(d: nat) -> char
    recommends
        d < 16,
{
    if d < 10 {
        (48 + d) as char
    } else {
        (55 + d) as char
    }
}

/// The two upper-case hexadecimal digits of a byte.
pub open spec fn hex_byte(b: u8) -> Seq<char> {
    seq![hex_digit(b as nat / 16), hex_digit(b as nat % 16)]
}

/// The notation `#RRGGBB` of a colour, in upper case.
pub open spec fn hex_color(c: Rgb) -> Seq<char> {
    seq!['#'] + hex_byte(c.r) + hex_byte(c.g) + hex_byte(c.b)
}

/// Appends one hexadecimal digit to `out`.
fn push_hex_digit(out: &mut String, d: u8)
    requires
        d < 16,
    ensures
        final(out)@ == old(out)@.push(hex_digit(d as nat)),
{
    let c: char = if d < 10 {
        (48u8 + d) as char
    } else {
        (55u8 + d) as char
    };
    out.push(c);
}

/// Appends the two hexadecimal digits of `b` to `out`.
fn push_hex_byte(out: &mut String, b: u8)
    ensures
        final(out)@ == old(out)@ + hex_byte(b),
{
    push_hex_digit(out, b / 16);
    push_hex_digit(out, b % 16);
    assert(final(out)@ == old(out)@ + hex_byte(b));
}

/// Appends the notation `#RRGGBB` of `c` to `out`.
pub fn push_hex_color(out: &mut String, c: Rgb)
    ensures
        final(out)@ == old(out)@ + hex_color(c),
{
    out.push('#');
    push_hex_byte(out, c.r);
    push_hex_byte(out, c.g);
    push_hex_byte(out, c.b);
    assert(final(out)@ == old(out)@ + hex_color(c));
}

impl Rgb {
    /// The notation `#RRGGBB` of this colour.
    pub fn to_hex(&self) -> (out: String)
        ensures
            out@ == hex_color(*self),
    {
        let mut out = String::new();
        push_hex_color(&mut out, *self);
        assert(out@ == hex_color(*self));
        out
    }
}

/// `char::from_u32`: the character of a code point, and nothing for a number that is no
/// code point of a character, which is one above `0x10FFFF` or a surrogate.
pub assume_specification[ char::from_u32 ](i: u32) -> (c: Option<char>)
    ensures
        c == if i <= 0xD7FF || 0xE000 <= i <= 0x10FFFF {
            Some(i as char)
        } else {
            None
        },
;

/// A colour of three 8-bit channels and an 8-bit alpha channel.
#[derive(Clone, Copy, Debug, PartialEq, Eq, Structural)]
pub struct Rgba8 {
    pub r: u8,
    pub g: u8,
    pub b: u8,
    pub a: u8,
}

/// The number that the ASCII character `b` stands for as a hexadecimal digit, in either
/// case.
pub open spec fn hex_value(b: u8) -> Option<u8> {
    if 48 <= b <= 57 {
        Some((b - 48) as u8)
    } else if 65 <= b <= 70 {
        Some((b - 55) as u8)
    } else if 97 <= b <= 102 {
        Some((b - 87) as u8)
    } else {
        None
    }
}

/// The byte that two bytes of text spell in base 16: two hexadecimal digits, or a plus sign
/// and one hexadecimal digit.
pub open spec fn pair_value(hi: u8, lo: u8) -> Option<u8> {
    match hex_value(lo) {
        None => None,
        Some(low) => if hi == 43 {
            Some(low)
        } else {
            match hex_value(hi) {
                None => None,
                Some(high) => Some((16 * high + low) as u8),
            }
        },
    }
}

/// Are the two bytes whole characters: two ASCII characters, or the two bytes of one
/// character?
pub open spec fn pair_is_text(hi: u8, lo: u8) -> bool {
    (hi < 128 && lo < 128) || (0xC2 <= hi <= 0xDF && 0x80 <= lo <= 0xBF)
}

/// The characters that two bytes of text are.
pub open spec fn pair_text(hi: u8, lo: u8) -> Seq<char>
    recommends
        pair_is_text(hi, lo),
{
    if hi < 128 {
        seq![hi as char, lo as char]
    } else {
        seq![((hi - 0xC0) * 64 + (lo - 0x80)) as char]
    }
}

/// The bytes without one leading `#`.
pub open spec fn without_hash(bytes: Seq<u8>) -> Seq<u8> {
    if bytes.len() > 0 && bytes[0] == 35 {
        bytes.drop_first()
    } else {
        bytes
    }
}

/// The byte that pair number `k` of the digits spells.
pub open spec fn pair_at(digits: Seq<u8>, k: int) -> Option<u8> {
    pair_value(digits[2 * k], digits[2 * k + 1])
}

/// The number of the first pair of the digits that spells no byte.
pub open spec fn first_bad_pair(digits: Seq<u8>) -> Option<int> {
    if pair_at(digits, 0) is None {
        Some(0)
    } else if pair_at(digits, 1) is None {
        Some(1)
    } else if pair_at(digits, 2) is None {
        Some(2)
    } else if digits.len() == 8 && pair_at(digits, 3) is None {
        Some(3)
    } else {
        None
    }
}

/// What is said of two bytes that spell no byte.
pub open spec fn bad_pair_message(hi: u8, lo: u8) -> Seq<char> {
    seq!['`'] + pair_text(hi, lo) + "` is not valid hex"@
}

/// The colour that the bytes of a text spell: after an optional `#`, three pairs for red,
/// green and blue with full alpha, or four pairs with the alpha last. Any other length is
/// refused, and so is the first pair that spells no byte.
pub open spec fn parse_rgba8_spec(bytes: Seq<u8>) -> Result<Rgba8, Seq<char>> {
    let digits = without_hash(bytes);
    if digits.len() == 6 || digits.len() == 8 {
        match first_bad_pair(digits) {
            Some(k) => Err(bad_pair_message(digits[2 * k], digits[2 * k + 1])),
            None => Ok(
                Rgba8 {
                    r: pair_at(digits, 0).unwrap(),
                    g: pair_at(digits, 1).unwrap(),
                    b: pair_at(digits, 2).unwrap(),
                    a: if digits.len() == 8 {
                        pair_at(digits, 3).unwrap()
                    } else {
                        255
                    },
                },
            ),
        }
    } else {
        Err("hex color must be 6 or 8 digits"@)
    }
}

/// Can the first pair that spells no byte be named in a message: does it not cut a
/// character in two?
pub open spec fn hex_pairs_are_text(bytes: Seq<u8>) -> bool {
    let digits = without_hash(bytes);
    (digits.len() == 6 || digits.len() == 8) ==> match first_bad_pair(digits) {
        Some(k) => pair_is_text(digits[2 * k], digits[2 * k + 1]),
        None => true,
    }
}

/// The two hexadecimal digits of a byte spell the byte.
proof fn lemma_hex_byte_reads_back(b: u8)
    ensures
        hex_byte(b).len() == 2,
        '\0' <= hex_byte(b)[0] <= '\u{7f}',
        '\0' <= hex_byte(b)[1] <= '\u{7f}',
        pair_value(hex_byte(b)[0] as u8, hex_byte(b)[1] as u8) == Some(b),
{
    let high = b as nat / 16;
    let low = b as nat % 16;
    assert(high < 16 && low < 16 && 16 * high + low == b);
    assert(hex_value(hex_digit(high) as u8) == Some(high as u8));
    assert(hex_value(hex_digit(low) as u8) == Some(low as u8));
    assert(hex_digit(high) as u8 != 43);
}

/// The notation of a colour reads back: what [`Rgb::to_hex`] writes, [`parse_rgba8`] takes
/// and reads as that colour with full alpha.
pub proof fn lemma_hex_color_reads_back(c: Rgb)
    ensures
        hex_pairs_are_text(vstd::utf8::encode_utf8(hex_color(c))),
        parse_rgba8_spec(vstd::utf8::encode_utf8(hex_color(c))) == Ok::<Rgba8, Seq<char>>(
            Rgba8 { r: c.r, g: c.g, b: c.b, a: 255 },
        ),
{
    let text = hex_color(c);
    let bytes = vstd::utf8::encode_utf8(text);
    lemma_hex_byte_reads_back(c.r);
    lemma_hex_byte_reads_back(c.g);
    lemma_hex_byte_reads_back(c.b);
    assert(text.len() == 7);
    assert(text[0] == '#');
    assert(text[1] == hex_byte(c.r)[0] && text[2] == hex_byte(c.r)[1]);
    assert(text[3] == hex_byte(c.g)[0] && text[4] == hex_byte(c.g)[1]);
    assert(text[5] == hex_byte(c.b)[0] && text[6] == hex_byte(c.b)[1]);
    assert(vstd::utf8::is_ascii_chars(text));
    vstd::utf8::is_ascii_chars_encode_utf8(text);
    assert(bytes.len() == 7);
    assert(bytes[0] == text[0] as u8);
    assert(bytes[1] == text[1] as u8 && bytes[2] == text[2] as u8);
    assert(bytes[3] == text[3] as u8 && bytes[4] == text[4] as u8);
    assert(bytes[5] == text[5] as u8 && bytes[6] == text[6] as u8);
    let digits = without_hash(bytes);
    assert(digits.len() == 6);
    assert(digits[0] == bytes[1] && digits[1] == bytes[2]);
    assert(digits[2] == bytes[3] && digits[3] == bytes[4]);
    assert(digits[4] == bytes[5] && digits[5] == bytes[6]);
    assert(pair_at(digits, 0) == Some(c.r));
    assert(pair_at(digits, 1) == Some(c.g));
    assert(pair_at(digits, 2) == Some(c.b));
}

/// The number that `b` stands for as a hexadecimal digit.
fn hex_digit_value(b: u8) -> (out: Option<u8>)
    ensures
        out == hex_value(b),
{
    if 48 <= b && b <= 57 {
        Some(b - 48)
    } else if 65 <= b && b <= 70 {
        Some(b - 55)
    } else if 97 <= b && b <= 102 {
        Some(b - 87)
    } else {
        None
    }
}

/// Reads two bytes of text in base 16. Where they spell no byte, what is said of them comes
/// back, and nothing where they are not whole characters and so cannot be named.
fn hex_pair(hi: u8, lo: u8) -> (out: Option<Result<u8, String>>)
    ensures
        match out {
            Some(Ok(v)) => pair_value(hi, lo) == Some(v),
            Some(Err(m)) => pair_value(hi, lo) is None && pair_is_text(hi, lo) && m@
                == bad_pair_message(hi, lo),
            None => pair_value(hi, lo) is None && !pair_is_text(hi, lo),
        },
{
    match hex_digit_value(lo) {
        Some(low) => {
            if hi == 43 {
                return Some(Ok(low));
            }
            match hex_digit_value(hi) {
                Some(high) => {
                    return Some(Ok(16 * high + low));
                },
                None => {},
            }
        },
        None => {},
    }
    let mut message = String::from_str("`");
    proof {
        reveal_strlit("`");
        assert("`"@ == seq!['`']);
    }
    if hi < 128 && lo < 128 {
        message.push(hi as char);
        message.push(lo as char);
        assert(message@ == seq!['`'] + pair_text(hi, lo));
    } else if 0xC2 <= hi && hi <= 0xDF && 0x80 <= lo && lo <= 0xBF {
        let code: u32 = (hi as u32 - 0xC0) * 64 + (lo as u32 - 0x80);
        match char::from_u32(code) {
            Some(c) => {
                message.push(c);
            },
            None => {},
        }
        assert(message@ == seq!['`'] + pair_text(hi, lo));
    } else {
        return None;
    }
    message.append("` is not valid hex");
    Some(Err(message))
}

/// Reads a colour in the notation `RRGGBB` or `RRGGBBAA`, with or without a `#` before it.
/// Without the last pair the alpha is full. Each pair is read the way a number in base 16 is
/// read from text: either case of the digits is taken, and so is a plus sign in place of the
/// first digit. The first pair that spells no byte is named in the message.
///
/// Nothing comes back where that pair cannot be named, because it cuts a character in two.
pub fn try_parse_rgba8(s: &str) -> (out: Option<Result<Rgba8, String>>)
    ensures
        out is Some <==> hex_pairs_are_text(s.spec_bytes()),
        match out {
            Some(Ok(color)) => parse_rgba8_spec(s.spec_bytes()) == Ok::<Rgba8, Seq<char>>(color),
            Some(Err(message)) => parse_rgba8_spec(s.spec_bytes()) == Err::<Rgba8, Seq<char>>(
                message@,
            ),
            None => true,
        },
{
    let bytes = s.as_bytes();
    let start: usize = if bytes.len() > 0 && bytes[0] == 35 {
        1
    } else {
        0
    };
    let ghost digits = without_hash(bytes@);
    assert(digits == bytes@.skip(start as int));
    let count = bytes.len() - start;
    if count != 6 && count != 8 {
        return Some(Err(String::from_str("hex color must be 6 or 8 digits")));
    }
    assert(forall|i: int| 0 <= i < count ==> digits[i] == bytes@[start + i]);
    let r = match hex_pair(bytes[start], bytes[start + 1]) {
        Some(Ok(v)) => v,
        Some(Err(m)) => {
            return Some(Err(m));
        },
        None => {
            return None;
        },
    };
    let g = match hex_pair(bytes[start + 2], bytes[start + 3]) {
        Some(Ok(v)) => v,
        Some(Err(m)) => {
            return Some(Err(m));
        },
        None => {
            return None;
        },
    };
    let b = match hex_pair(bytes[start + 4], bytes[start + 5]) {
        Some(Ok(v)) => v,
        Some(Err(m)) => {
            return Some(Err(m));
        },
        None => {
            return None;
        },
    };
    if count == 6 {
        return Some(Ok(Rgba8 { r, g, b, a: 255 }));
    }
    let a = match hex_pair(bytes[start + 6], bytes[start + 7]) {
        Some(Ok(v)) => v,
        Some(Err(m)) => {
            return Some(Err(m));
        },
        None => {
            return None;
        },
    };
    Some(Ok(Rgba8 { r, g, b, a }))
}

/// Reads a colour in the notation `RRGGBB` or `RRGGBBAA`, as [`try_parse_rgba8`] does, of a
/// text whose first pair that spells no byte, if it has one, is whole characters.
pub fn parse_rgba8(s: &str) -> (out: Result<Rgba8, String>)
    requires
        hex_pairs_are_text(s.spec_bytes()),
    ensures
        match out {
            Ok(color) => parse_rgba8_spec(s.spec_bytes()) == Ok::<Rgba8, Seq<char>>(color),
            Err(message) => parse_rgba8_spec(s.spec_bytes()) == Err::<Rgba8, Seq<char>>(message@),
        },
{
    match try_parse_rgba8(s) {
        Some(out) => out,
        None => vstd::pervasive::unreached(),
    }
}

} // verus!
