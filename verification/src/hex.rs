//! Lower-case hexadecimal text for byte strings, and its inverse.

use vstd::prelude::*;

verus! {

/// The hexadecimal digit (lower case) of a value below 16.
pub open spec fn hex_digit(n: int) -> char {
    if n < 10 {
        (48 + n) as char
    } else {
        (87 + n) as char
    }
}

/// Lower-case hexadecimal text of `bytes`: two digits per byte, high nibble first.
pub open spec fn hex_text(bytes: Seq<u8>) -> Seq<char> {
    Seq::new(
        2 * bytes.len(),
        |i: int|
            if i % 2 == 0 {
                hex_digit(bytes[i / 2] as int / 16)
            } else {
                hex_digit(bytes[i / 2] as int % 16)
            },
    )
}

/// The value of a hexadecimal digit in either case, or `None` for another character.
pub open spec fn hex_value(c: char) -> Option<int> {
    if '0' <= c && c <= '9' {
        Some(c as int - 48)
    } else if 'a' <= c && c <= 'f' {
        Some(c as int - 87)
    } else if 'A' <= c && c <= 'F' {
        Some(c as int - 55)
    } else {
        None
    }
}

/// Whether `text` is an even number of hexadecimal digits.
pub open spec fn is_hex_text(text: Seq<char>) -> bool {
    &&& text.len() % 2 == 0
    &&& forall|i: int| 0 <= i < text.len() ==> (#[trigger] hex_value(text[i])) is Some
}

/// The bytes that a valid hexadecimal text stands for.
pub open spec fn hex_bytes(text: Seq<char>) -> Seq<u8> {
    Seq::new(
        text.len() / 2,
        |i: int| (hex_value(text[2 * i])->0 * 16 + hex_value(text[2 * i + 1])->0) as u8,
    )
}

/// Why a text is not hexadecimal.
#[derive(Clone, Copy, Debug, PartialEq, Eq, Structural)]
pub enum HexError {
    /// The text has an odd number of characters.
    OddLength,
    /// The character at this position is not a hexadecimal digit.
    InvalidHexCharacter(usize),
}

fn digit_char(n: u8) -> (c: char)
    requires
        n < 16,
    ensures
        c == hex_digit(n as int),
{
    if n < 10 {
        (48 + n) as char
    } else {
        (87 + n) as char
    }
}

fn digit_value(c: char) -> (r: Option<u8>)
    ensures
        r matches Some(v) ==> hex_value(c) == Some(v as int) && v < 16,
        r is None ==> hex_value(c) is None,
{
    if '0' <= c && c <= '9' {
        Some(((c as u32) - 48) as u8)
    } else if 'a' <= c && c <= 'f' {
        Some(((c as u32) - 87) as u8)
    } else if 'A' <= c && c <= 'F' {
        Some(((c as u32) - 55) as u8)
    } else {
        None
    }
}

/// Lower-case hexadecimal digits of `bytes`.
pub fn encode_chars(bytes: &[u8]) -> (out: Vec<char>)
    requires
        2 * bytes@.len() <= usize::MAX,
    ensures
        out@ == hex_text(bytes@),
{
    let mut out: Vec<char> = Vec::new();
    let mut i: usize = 0;
    while i < bytes.len()
        invariant
            i <= bytes@.len(),
            2 * bytes@.len() <= usize::MAX,
            out@ == hex_text(bytes@.take(i as int)),
        decreases bytes@.len() - i,
    {
        let b = bytes[i];
        let ghost prev = out@;
        out.push(digit_char(b / 16));
        out.push(digit_char(b % 16));
        assert(out@ =~= hex_text(bytes@.take(i + 1)));
        i = i + 1;
    }
    assert(bytes@.take(bytes@.len() as int) =~= bytes@);
    out
}

/// Lower-case hexadecimal text of `bytes` (what `hex::encode` gives).
pub fn encode(bytes: &[u8]) -> (s: String)
    requires
        2 * bytes@.len() <= usize::MAX,
    ensures
        s@ == hex_text(bytes@),
{
    let cs = encode_chars(bytes);
    crate::text::chars_to_string(cs.as_slice())
}

/// The bytes that `text` spells in hexadecimal (what `hex::decode` gives).
pub fn decode(text: &str) -> (r: Result<Vec<u8>, HexError>)
    ensures
        r matches Ok(v) ==> is_hex_text(text@) && v@ == hex_bytes(text@),
        r is Err <==> !is_hex_text(text@),
        r == Err::<Vec<u8>, HexError>(HexError::OddLength) <==> text@.len() % 2 == 1,
{
    let cs = crate::text::str_chars(text);
    let n = cs.len();
    if n % 2 == 1 {
        return Err(HexError::OddLength);
    }
    let mut out: Vec<u8> = Vec::new();
    let mut i: usize = 0;
    while i < n / 2
        invariant
            n == cs@.len(),
            cs@ == text@,
            n % 2 == 0,
            i <= n / 2,
            forall|k: int| 0 <= k < 2 * i ==> (#[trigger] hex_value(cs@[k])) is Some,
            out@ =~= hex_bytes(cs@).take(i as int),
        decreases n / 2 - i,
    {
        let hi = digit_value(cs[2 * i]);
        let lo = digit_value(cs[2 * i + 1]);
        match (hi, lo) {
            (Some(h), Some(l)) => {
                out.push(h * 16 + l);
                assert(out@ =~= hex_bytes(cs@).take(i + 1));
                i = i + 1;
            },
            (None, _) => {
                return Err(HexError::InvalidHexCharacter(2 * i));
            },
            (_, None) => {
                return Err(HexError::InvalidHexCharacter(2 * i + 1));
            },
        }
    }
    assert(hex_bytes(cs@).take((n / 2) as int) =~= hex_bytes(cs@));
    Ok(out)
}

/// Every hexadecimal text that `encode` produces is valid, and decoding it gives the
/// bytes back.
pub proof fn lemma_decode_encode(bytes: Seq<u8>)
    ensures
        is_hex_text(hex_text(bytes)),
        hex_bytes(hex_text(bytes)) == bytes,
{
    let t = hex_text(bytes);
    assert forall|i: int| 0 <= i < t.len() implies (#[trigger] hex_value(t[i])) is Some by {
        let b = bytes[i / 2] as int;
        assert(0 <= b / 16 < 16 && 0 <= b % 16 < 16);
    }
    assert forall|i: int| 0 <= i < bytes.len() implies #[trigger] hex_bytes(t)[i] == bytes[i] by {
        let b = bytes[i] as int;
        assert((2 * i) / 2 == i && (2 * i) % 2 == 0);
        assert((2 * i + 1) / 2 == i && (2 * i + 1) % 2 == 1);
        assert(b / 16 * 16 + b % 16 == b);
    }
    assert(hex_bytes(t) =~= bytes);
}

} // verus!
