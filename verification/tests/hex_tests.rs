use iron_nest::hexcodec::{decode_hex, encode_hex, HexError};

#[test]
fn encodes_lowercase_pairs() {
    assert_eq!(encode_hex(b"Hello world!"), "48656c6c6f20776f726c6421");
    assert_eq!(encode_hex(&[1, 2, 3, 15, 16]), "0102030f10");
    assert_eq!(encode_hex(&[]), "");
    assert_eq!(encode_hex(&[0xff, 0x00, 0xab]), "ff00ab");
}

#[test]
fn decodes_either_case() {
    assert_eq!(decode_hex("48656c6c6f20776f726c6421"), Ok(b"Hello world!".to_vec()));
    assert_eq!(decode_hex("f9b4ca"), Ok(vec![0xf9, 0xb4, 0xca]));
    assert_eq!(decode_hex("F9B4CA"), Ok(vec![0xf9, 0xb4, 0xca]));
    assert_eq!(decode_hex("f9B4Ca"), Ok(vec![0xf9, 0xb4, 0xca]));
    assert_eq!(decode_hex(""), Ok(vec![]));
}

#[test]
fn odd_length_is_refused() {
    assert_eq!(decode_hex("123"), Err(HexError::OddLength));
    assert_eq!(decode_hex("foo"), Err(HexError::OddLength));
}

#[test]
fn first_bad_character_is_reported() {
    assert_eq!(decode_hex("zz"), Err(HexError::InvalidHexCharacter { c: 'z', index: 0 }));
    assert_eq!(decode_hex("0z"), Err(HexError::InvalidHexCharacter { c: 'z', index: 1 }));
    assert_eq!(decode_hex("00g1x1"), Err(HexError::InvalidHexCharacter { c: 'g', index: 2 }));
}

#[test]
fn round_trip() {
    let bytes: Vec<u8> = (0..=255u8).collect();
    assert_eq!(decode_hex(&encode_hex(&bytes)), Ok(bytes));
    let text = "{\"fish_tank\":{\"light\":true}}";
    assert_eq!(decode_hex(&encode_hex(text.as_bytes())).unwrap(), text.as_bytes());
}
