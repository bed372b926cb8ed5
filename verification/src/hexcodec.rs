//! Hex transport of binary state: the editors send bytes as lowercase hex text,
//! and the server decodes the text back to bytes.
use vstd::prelude::*;

verus! {

broadcast use vstd::string::group_string_axioms;

/// The lowercase hex digit of a value below sixteen.
pub open spec fn hex_digit(v: nat) -> char {
    if v < 10 {
        (48 + v) as char
    } else {
        (87 + v) as char
    }
}

/// Lowercase hex rendering of a byte sequence: two digits per byte, the high
/// nibble first.
pub open spec fn hex_text(bytes: Seq<u8>) -> Seq<char>
    decreases bytes.len(),
{
    if bytes.len() == 0 {
        Seq::empty()
    } else {
        seq![hex_digit((bytes[0] / 16) as nat), hex_digit((bytes[0] % 16) as nat)] + hex_text(
            bytes.drop_first(),
        )
    }
}

/// The value of one hex digit byte, in either case; `None` for other bytes.
pub open spec fn hex_value(c: u8) -> Option<u8> {
    if 48 <= c <= 57 {
        Some((c - 48) as u8)
    } else if 97 <= c <= 102 {
        Some((c - 87) as u8)
    } else if 65 <= c <= 70 {
        Some((c - 55) as u8)
    } else {
        None
    }
}

/// Every byte is a hex digit.
pub open spec fn all_hex(data: Seq<u8>) -> bool {
    forall|i: int| 0 <= i < data.len() ==> (#[trigger] hex_value(data[i])) is Some
}

/// The bytes that a valid hex text (even length, hex digits only) stands for.
pub open spec fn hex_bytes(data: Seq<u8>) -> Seq<u8> {
    Seq::new(
        data.len() / 2,
        |i: int| (hex_value(data[2 * i])->0 * 16 + hex_value(data[2 * i + 1])->0) as u8,
    )
}

/// The bytes that a hex text stands for: its UTF-8 bytes must be hex digits
/// of an even count; `None` otherwise.
pub open spec fn hex_decoded(text: Seq<char>) -> Option<Seq<u8>> {
    let t = vstd::utf8::encode_utf8(text);
    if t.len() % 2 == 0 && all_hex(t) {
        Some(hex_bytes(t))
    } else {
        None
    }
}

/// Shape of a hex rendering: two digits per byte, in order.
proof fn lemma_hex_text_shape(bytes: Seq<u8>)
    ensures
        hex_text(bytes).len() == 2 * bytes.len(),
        forall|i: int|
            0 <= i < bytes.len() ==> {
                &&& #[trigger] hex_text(bytes)[2 * i] == hex_digit((bytes[i] / 16) as nat)
                &&& hex_text(bytes)[2 * i + 1] == hex_digit((bytes[i] % 16) as nat)
            },
    decreases bytes.len(),
{
    if bytes.len() > 0 {
        let rest = bytes.drop_first();
        lemma_hex_text_shape(rest);
        assert forall|i: int| 0 <= i < bytes.len() implies {
            &&& #[trigger] hex_text(bytes)[2 * i] == hex_digit((bytes[i] / 16) as nat)
            &&& hex_text(bytes)[2 * i + 1] == hex_digit((bytes[i] % 16) as nat)
        } by {
            if i > 0 {
                assert(rest[i - 1] == bytes[i]);
                assert(hex_text(rest)[2 * (i - 1)] == hex_digit((rest[i - 1] / 16) as nat));
                assert(hex_text(bytes)[2 * i] == hex_text(rest)[2 * (i - 1)]);
                assert(hex_text(bytes)[2 * i + 1] == hex_text(rest)[2 * (i - 1) + 1]);
            }
        }
    }
}

/// A hex digit is ASCII and reads back as its value.
proof fn lemma_hex_digit_value(v: nat)
    requires
        v < 16,
    ensures
        hex_digit(v) as u8 == hex_digit(v) as int,
        '\0' <= hex_digit(v) <= '\u{7f}',
        hex_value(hex_digit(v) as u8) == Some(v as u8),
{
}

/// Hex text rendered from any bytes is valid hex (even length, digits only)
/// and decodes back to exactly those bytes.
pub proof fn law_hex_round_trip(bytes: Seq<u8>)
    ensures
        hex_decoded(hex_text(bytes)) == Some(bytes),
{
    lemma_hex_text_shape(bytes);
    let s = hex_text(bytes);
    assert forall|k: int| 0 <= k < s.len() implies '\0' <= #[trigger] s[k] <= '\u{7f}' && hex_value(s[k] as u8) is Some && s[k] as u8 == s[k] as int by {
        let i = k / 2;
        assert(0 <= i < bytes.len());
        if k % 2 == 0 {
            assert(k == 2 * i);
            assert(hex_text(bytes)[2 * i] == hex_digit((bytes[i] / 16) as nat));
            lemma_hex_digit_value((bytes[i] / 16) as nat);
        } else {
            assert(k == 2 * i + 1);
            assert(hex_text(bytes)[2 * i] == hex_digit((bytes[i] / 16) as nat));
            assert(hex_text(bytes)[2 * i + 1] == hex_digit((bytes[i] % 16) as nat));
            lemma_hex_digit_value((bytes[i] % 16) as nat);
        }
    }
    assert(vstd::utf8::is_ascii_chars(s));
    vstd::utf8::is_ascii_chars_encode_utf8(s);
    let t = vstd::utf8::encode_utf8(s);
    assert forall|k: int| 0 <= k < t.len() implies #[trigger] t[k] == s[k] as u8 by {}
    assert forall|i: int| 0 <= i < bytes.len() implies #[trigger] hex_bytes(t)[i] == bytes[i] by {
        lemma_hex_digit_value((bytes[i] / 16) as nat);
        lemma_hex_digit_value((bytes[i] % 16) as nat);
        assert(s[2 * i] == hex_digit((bytes[i] / 16) as nat));
        assert(t[2 * i] == s[2 * i] as u8);
        assert(t[2 * i + 1] == s[2 * i + 1] as u8);
    }
    assert(hex_bytes(t) =~= bytes);
}

/// Why a text is not valid hex.
#[derive(Clone, Copy, Debug, PartialEq, Eq)]
pub enum HexError {
    /// A byte that is not a hex digit, and its position.
    InvalidHexCharacter { c: char, index: usize },
    /// The text has an odd number of bytes.
    OddLength,
    /// The text does not fit the fixed size it was decoded into.
    InvalidStringLength,
}

/// The error type of the `hex` crate.
#[verifier::external_type_specification]
#[verifier::external_body]
pub struct ExFromHexError(hex::FromHexError);

/// `hex::encode`: each byte becomes two lowercase hex digits, high nibble
/// first (the crate's table is `0123456789abcdef`).
#[verifier::external_body]
fn hex_encode(data: &[u8]) -> (s: String)
    ensures
        s@ == hex_text(data@),
{
    hex::encode(data)
}

/// `hex::decode` on raw bytes: fails with `OddLength` on an odd length, else
/// with `InvalidHexCharacter` at the first byte that is not a hex digit (either
/// case accepted), else gives one byte per pair of digits, high nibble first.
#[verifier::external_body]
fn hex_decode(data: &[u8]) -> (r: Result<Vec<u8>, HexError>)
    ensures
        r matches Ok(v) ==> data@.len() % 2 == 0 && all_hex(data@) && v@ == hex_bytes(data@),
        r matches Err(e) ==> match e {
            HexError::OddLength => data@.len() % 2 != 0,
            HexError::InvalidHexCharacter { c, index } => {
                &&& data@.len() % 2 == 0
                &&& index < data@.len()
                &&& hex_value(data@[index as int]) is None
                &&& c == data@[index as int] as char
                &&& forall|j: int| 0 <= j < index ==> (#[trigger] hex_value(data@[j])) is Some
            },
            HexError::InvalidStringLength => false,
        },
{
    match hex::decode(data) {
        Ok(v) => Ok(v),
        Err(hex::FromHexError::InvalidHexCharacter { c, index }) => Err(
            HexError::InvalidHexCharacter { c, index },
        ),
        Err(hex::FromHexError::OddLength) => Err(HexError::OddLength),
        Err(hex::FromHexError::InvalidStringLength) => Err(HexError::InvalidStringLength),
    }
}

/// Renders bytes as lowercase hex text (as the editors send them).
pub fn encode_hex(data: &[u8]) -> (s: String)
    ensures
        s@ == hex_text(data@),
{
    hex_encode(data)
}

/// Decodes hex text (either case) back into bytes; refuses an odd length
/// (`OddLength`) and other characters than hex digits.
pub fn decode_hex(text: &str) -> (r: Result<Vec<u8>, HexError>)
    ensures
        r is Ok <==> hex_decoded(text@) is Some,
        r matches Ok(v) ==> hex_decoded(text@) == Some(v@),
        r matches Err(e) ==> (e == HexError::OddLength <==> vstd::utf8::encode_utf8(text@).len() % 2 != 0),
{
    let r = hex_decode(text.as_bytes());
    proof {
        if r is Err {
            if let Err(HexError::InvalidHexCharacter { c, index }) = r {
                assert(hex_value(vstd::utf8::encode_utf8(text@)[index as int]) is None);
            }
        }
    }
    r
}

} // verus!
