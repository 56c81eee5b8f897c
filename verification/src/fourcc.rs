//! Four-character codes: the names of SMC keys and of their data types.
use crate::error::SmcError;
use vstd::prelude::*;
use vstd::string::*;
use vstd::utf8::*;

verus! {

/// The letters that the names of fan keys are made of, as bytes.
pub const UPPER_A: u8 = 0x41;

pub const UPPER_F: u8 = 0x46;

pub const UPPER_M: u8 = 0x4d;

pub const UPPER_T: u8 = 0x54;

pub const LOWER_C: u8 = 0x63;

pub const LOWER_D: u8 = 0x64;

pub const LOWER_G: u8 = 0x67;

pub const LOWER_M: u8 = 0x6d;

pub const LOWER_N: u8 = 0x6e;

pub const LOWER_X: u8 = 0x78;

/// The digit zero, as a byte.
pub const DIGIT_ZERO: u8 = 0x30;

/// Four bytes as one number, the first byte most significant.
pub open spec fn big_endian(b: Seq<u8>) -> int {
    b[0] * 0x100_0000 + b[1] * 0x1_0000 + b[2] * 0x100 + b[3]
}

/// Packs four bytes into a code, the first byte most significant.
pub fn fourcc(s: &[u8; 4]) -> (r: u32)
    ensures
        r == big_endian(s@),
{
    s[0] as u32 * 0x100_0000 + s[1] as u32 * 0x1_0000 + s[2] as u32 * 0x100 + s[3] as u32
}

/// The four bytes of a code, the most significant first.
pub open spec fn code_bytes(t: u32) -> Seq<u8> {
    seq![
        (t / 0x100_0000) as u8,
        (t / 0x1_0000 % 0x100) as u8,
        (t / 0x100 % 0x100) as u8,
        (t % 0x100) as u8,
    ]
}

/// A code is the number that its four bytes spell.
pub proof fn lemma_code_bytes(t: u32)
    ensures
        big_endian(code_bytes(t)) == t,
{
}

/// The four bytes of a code, the most significant first.
pub fn code_to_bytes(t: u32) -> (r: [u8; 4])
    ensures
        r@ == code_bytes(t),
{
    let r: [u8; 4] = [
        (t / 0x100_0000) as u8,
        (t / 0x1_0000 % 0x100) as u8,
        (t / 0x100 % 0x100) as u8,
        (t % 0x100) as u8,
    ];
    assert(r@ =~= code_bytes(t));
    r
}

/// What std's lossy reading makes of bytes: their text, with U+FFFD in place of what is
/// not UTF-8.
pub uninterp spec fn utf8_lossy(bytes: Seq<u8>) -> Seq<char>;

/// `String::from_utf8_lossy` of std. Bytes that are UTF-8 are read as the text that
/// they encode; where the replacement characters go in other bytes is not stated
/// beyond the name.
#[verifier::external_body]
fn text_of_bytes(bytes: &[u8]) -> (r: String)
    ensures
        r@ == utf8_lossy(bytes@),
        valid_utf8(bytes@) ==> r@ == decode_utf8(bytes@),
{
    String::from_utf8_lossy(bytes).into_owned()
}

/// `std::str::from_utf8`: the text that the bytes encode, if they are UTF-8.
#[verifier::external_body]
pub(crate) fn text_of_utf8(bytes: &[u8]) -> (r: Option<String>)
    ensures
        r is Some <==> valid_utf8(bytes@),
        r matches Some(t) ==> t@ == decode_utf8(bytes@),
{
    std::str::from_utf8(bytes).ok().map(|t| t.to_owned())
}

/// The text of a code.
pub open spec fn code_text(t: u32) -> Seq<char> {
    utf8_lossy(code_bytes(t))
}

/// The text of a code, four characters long where its bytes are ASCII.
pub fn fourcc_to_string(t: u32) -> (r: String)
    ensures
        r@ == code_text(t),
        valid_utf8(code_bytes(t)) ==> r@ == decode_utf8(code_bytes(t)),
{
    let bytes: [u8; 4] = code_to_bytes(t);
    text_of_bytes(&bytes)
}

/// The code that a text names: it must be four bytes long.
pub open spec fn code_named(s: Seq<char>) -> Option<u32> {
    if encode_utf8(s).len() == 4 {
        Some(big_endian(encode_utf8(s)) as u32)
    } else {
        None
    }
}

/// The code that a text names.
pub fn fourcc_from_str(s: &str) -> (r: Result<u32, SmcError>)
    ensures
        match r {
            Ok(code) => code_named(s@) == Some(code),
            Err(e) => code_named(s@) is None && e@ == (crate::error::SmcErrorView::BadFourcc {
                text: s@,
            }),
        },
{
    let b = s.as_bytes();
    if b.len() != 4 {
        return Err(SmcError::BadFourcc { text: s.to_owned() });
    }
    let quad: [u8; 4] = [b[0], b[1], b[2], b[3]];
    assert(quad@ =~= b@);
    Ok(fourcc(&quad))
}

/// The wire name of a fan's key: the letter F, the index as one digit character, and a
/// two-letter suffix. Past index 9 the character after '9' and so on is used, and the
/// character wraps around after index 207.
pub open spec fn fan_key_bytes(index: u8, suffix: Seq<u8>) -> Seq<u8> {
    seq![UPPER_F, ((DIGIT_ZERO + index) % 0x100) as u8, suffix[0], suffix[1]]
}

/// The code of a fan's key.
pub open spec fn fan_code(index: u8, suffix: Seq<u8>) -> u32 {
    big_endian(fan_key_bytes(index, suffix)) as u32
}

/// The code of a fan's key with a two-letter suffix.
pub fn fan_key(index: u8, suffix: &[u8; 2]) -> (r: u32)
    ensures
        r == fan_code(index, suffix@),
{
    let bytes: [u8; 4] = [UPPER_F, DIGIT_ZERO.wrapping_add(index), suffix[0], suffix[1]];
    assert(bytes@ =~= fan_key_bytes(index, suffix@));
    fourcc(&bytes)
}

/// Four bytes can be read off the number that they spell.
pub proof fn lemma_big_endian_digits(b: Seq<u8>)
    requires
        b.len() == 4,
    ensures
        0 <= big_endian(b) < 0x1_0000_0000,
        code_bytes(big_endian(b) as u32) == b,
{
    let (b0, b1, b2, b3) = (b[0] as int, b[1] as int, b[2] as int, b[3] as int);
    let n = big_endian(b);
    assert(n / 0x100_0000 == b0);
    assert(n / 0x1_0000 == b0 * 0x100 + b1);
    assert(n / 0x100 == b0 * 0x1_0000 + b1 * 0x100 + b2);
    assert(code_bytes(n as u32) =~= b);
}

/// Different keys of different fans have different codes.
pub proof fn fan_codes_are_distinct(i: u8, s: Seq<u8>, j: u8, t: Seq<u8>)
    requires
        s.len() == 2,
        t.len() == 2,
        fan_code(i, s) == fan_code(j, t),
    ensures
        i == j,
        s == t,
{
    let (a, b) = (fan_key_bytes(i, s), fan_key_bytes(j, t));
    lemma_big_endian_digits(a);
    lemma_big_endian_digits(b);
    assert(a[1] == b[1] && a[2] == b[2] && a[3] == b[3]);
    assert(s =~= t);
}

/// Reading a code's text gives back the code, wherever its bytes are UTF-8.
pub proof fn code_text_round_trip(t: u32, text: Seq<char>)
    requires
        valid_utf8(code_bytes(t)),
        text == decode_utf8(code_bytes(t)),
    ensures
        code_named(text) == Some(t),
{
    decode_utf8_encode_utf8(code_bytes(t));
    lemma_code_bytes(t);
}

} // verus!
