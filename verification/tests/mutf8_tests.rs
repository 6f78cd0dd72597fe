//! Tests of the modified-UTF-8 codec: decoding to text and to UTF-16,
//! the byte-level error taxonomy, and the encode round trip.

use rust_jvm::mutf8::{encode, DecodeError, ModifiedUtf8String};

fn decode_text(bytes: &[u8]) -> Result<String, DecodeError> {
    ModifiedUtf8String::new(bytes.to_vec()).to_string()
}

fn decode_units(bytes: &[u8]) -> Result<Vec<u16>, DecodeError> {
    ModifiedUtf8String::new(bytes.to_vec()).to_utf16()
}

#[test]
fn ascii_decodes_to_itself() {
    assert_eq!(decode_text(b"Hello, world"), Ok(String::from("Hello, world")));
}

#[test]
fn empty_decodes_to_empty() {
    assert_eq!(decode_text(b""), Ok(String::new()));
    assert_eq!(decode_units(b""), Ok(vec![]));
}

#[test]
fn null_uses_the_two_byte_form() {
    assert_eq!(decode_text(&[0xc0, 0x80]), Ok(String::from("\u{0}")));
    assert_eq!(decode_units(&[0xc0, 0x80]), Ok(vec![0]));
}

#[test]
fn two_byte_form_decodes() {
    // U+00E9, latin small letter e with acute
    assert_eq!(decode_text(&[0xc3, 0xa9]), Ok(String::from("\u{e9}")));
    assert_eq!(decode_units(&[0xc3, 0xa9]), Ok(vec![0xe9]));
}

#[test]
fn three_byte_form_decodes() {
    // U+4E2D
    assert_eq!(decode_text(&[0xe4, 0xb8, 0xad]), Ok(String::from("\u{4e2d}")));
    assert_eq!(decode_units(&[0xe4, 0xb8, 0xad]), Ok(vec![0x4e2d]));
}

#[test]
fn surrogate_pair_decodes_to_supplementary_character() {
    // U+10000 as two dependent three-byte surrogate sequences
    let bytes = [0xed, 0xa0, 0x80, 0xed, 0xb0, 0x80];
    assert_eq!(decode_text(&bytes), Ok(String::from("\u{10000}")));
    // the UTF-16 form keeps the high and low halves as they stand
    assert_eq!(decode_units(&bytes), Ok(vec![0xd800, 0xdc00]));
}

#[test]
fn surrogate_pair_u10400() {
    // U+10400: v = 0x400, high = D801, low = DC00
    let bytes = [0xed, 0xa0, 0x81, 0xed, 0xb0, 0x80];
    assert_eq!(decode_text(&bytes), Ok(String::from("\u{10400}")));
    assert_eq!(decode_units(&bytes), Ok(vec![0xd801, 0xdc00]));
}

#[test]
fn zero_byte_is_illegal() {
    assert_eq!(
        decode_text(&[0x00]),
        Err(DecodeError::IllegalByte { index: 0, byte: 0x00 })
    );
    assert_eq!(
        decode_units(&[0x00]),
        Err(DecodeError::IllegalByte { index: 0, byte: 0x00 })
    );
}

#[test]
fn high_bytes_are_illegal() {
    for b in 0xf0u16..=0xff {
        let b = b as u8;
        assert_eq!(
            decode_text(&[b]),
            Err(DecodeError::IllegalByte { index: 0, byte: b })
        );
        assert_eq!(
            decode_units(&[b]),
            Err(DecodeError::IllegalByte { index: 0, byte: b })
        );
    }
}

#[test]
fn illegal_byte_after_prefix_is_reported_at_its_index() {
    assert_eq!(
        decode_text(&[0x41, 0x42, 0xf4]),
        Err(DecodeError::IllegalByte { index: 2, byte: 0xf4 })
    );
}

#[test]
fn truncated_two_byte_form() {
    assert_eq!(
        decode_text(&[0xc3]),
        Err(DecodeError::Truncated { index: 0, expected: 2 })
    );
}

#[test]
fn truncated_three_byte_form() {
    assert_eq!(
        decode_text(&[0xe4, 0xb8]),
        Err(DecodeError::Truncated { index: 0, expected: 3 })
    );
}

#[test]
fn bad_continuation_byte() {
    assert_eq!(
        decode_text(&[0xc3, 0x41]),
        Err(DecodeError::BadContinuation { index: 1, byte: 0x41 })
    );
}

#[test]
fn stray_continuation_byte() {
    assert_eq!(
        decode_text(&[0x80]),
        Err(DecodeError::BadContinuation { index: 0, byte: 0x80 })
    );
}

#[test]
fn unpaired_high_surrogate_fails() {
    assert_eq!(
        decode_text(&[0xed, 0xa0, 0x80]),
        Err(DecodeError::UnmatchedSurrogate { index: 0 })
    );
}

#[test]
fn lone_low_surrogate_fails() {
    assert_eq!(
        decode_text(&[0xed, 0xb0, 0x80]),
        Err(DecodeError::UnmatchedSurrogate { index: 0 })
    );
}

#[test]
fn high_surrogate_followed_by_non_low_fails() {
    assert_eq!(
        decode_text(&[0xed, 0xa0, 0x80, 0x41, 0x42, 0x43]),
        Err(DecodeError::UnmatchedSurrogate { index: 0 })
    );
}

#[test]
fn overlong_two_byte_form_fails() {
    // 0xC0 0x81 would encode U+0001, which must use the one-byte form
    assert_eq!(decode_text(&[0xc0, 0x81]), Err(DecodeError::Overlong { index: 0 }));
}

#[test]
fn round_trip_single_and_multi_byte() {
    let originals: Vec<Vec<u8>> = vec![
        b"plain ascii".to_vec(),
        vec![0xc0, 0x80],
        vec![0x41, 0xc3, 0xa9, 0xe4, 0xb8, 0xad],
        vec![0xe0, 0xa0, 0x80],
    ];
    for bytes in originals {
        let text = decode_text(&bytes).unwrap();
        assert_eq!(encode(&text), bytes);
    }
}

#[test]
fn round_trip_supplementary_character() {
    let bytes = vec![0xed, 0xa0, 0x81, 0xed, 0xb0, 0x80];
    let text = decode_text(&bytes).unwrap();
    assert_eq!(encode(&text), bytes);
}

#[test]
fn encode_null_and_ascii() {
    assert_eq!(encode("A\u{0}B"), vec![0x41, 0xc0, 0x80, 0x42]);
}
