use ykchalresp::codec::{from_hex, to_hex, to_modhex, CodecError};

#[test]
fn modhex_maps_hex_nibbles() {
    // deadbeef -> d e a d b e e f -> t u l t n u u v
    assert_eq!(to_modhex("deadbeef"), "tultnuuv");
}

#[test]
fn modhex_full_alphabet() {
    assert_eq!(to_modhex("0123456789abcdef"), "cbdefghijklnrtuv");
    assert_eq!(to_modhex("ABCDEF"), "lnrtuv");
}

#[test]
fn modhex_skips_other_characters() {
    assert_eq!(to_modhex("d-e a\nz"), "tul");
    assert_eq!(to_modhex(""), "");
}

#[test]
fn modhex_keeps_length_of_valid_hex() {
    let h = to_hex(&[0x00, 0x7f, 0xff, 0x12]);
    let m = to_modhex(&h);
    assert_eq!(m.len(), h.len());
    assert!(m.chars().all(|c| "cbdefghijklnrtuv".contains(c)));
}

#[test]
fn to_hex_exact_digits() {
    assert_eq!(to_hex(&[]), "");
    assert_eq!(to_hex(&[0x00, 0x0f, 0xa5, 0xff]), "000fa5ff");
}

#[test]
fn from_hex_decodes_either_case() {
    assert_eq!(from_hex("00ffA5c3"), Ok(vec![0x00, 0xff, 0xa5, 0xc3]));
    assert_eq!(from_hex(""), Ok(vec![]));
}

#[test]
fn from_hex_rejects_odd_length() {
    assert_eq!(from_hex("abc"), Err(CodecError::MalformedHex));
}

#[test]
fn from_hex_rejects_non_hex_digit() {
    assert_eq!(from_hex("zz"), Err(CodecError::MalformedHex));
    assert_eq!(from_hex("0g"), Err(CodecError::MalformedHex));
    assert_eq!(from_hex(" ab "), Err(CodecError::MalformedHex));
}

#[test]
fn hex_round_trip() {
    let bytes: Vec<u8> = (0..=255u8).collect();
    assert_eq!(from_hex(&to_hex(&bytes)), Ok(bytes));
}
