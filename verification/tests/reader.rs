use tibia_formats::helpers::{DecodeError, Reader};
use tibia_formats::opentibia::Position;

#[test]
fn read_byte_takes_bytes_in_order() {
    let bytes = [7u8, 9];
    let mut r = Reader::new(&bytes);
    assert_eq!(r.read_byte(), Ok(7));
    assert_eq!(r.read_byte(), Ok(9));
    assert!(r.is_empty());
    assert_eq!(r.read_byte(), Err(DecodeError::UnexpectedEnd));
}

#[test]
fn read_u16_is_little_endian() {
    let bytes = [0x34u8, 0x12, 0xFF];
    let mut r = Reader::new(&bytes);
    assert_eq!(r.read_u16(), Ok(0x1234));
    assert_eq!(r.remaining(), 1);
}

#[test]
fn read_u16_fails_on_short_input_and_stays() {
    let bytes = [0x34u8];
    let mut r = Reader::new(&bytes);
    assert_eq!(r.read_u16(), Err(DecodeError::UnexpectedEnd));
    assert_eq!(r.remaining(), 1);
    assert_eq!(r.read_byte(), Ok(0x34));
}

#[test]
fn read_i16_is_twos_complement() {
    let bytes = [0xFEu8, 0xFF, 0x00, 0x80, 0xFF, 0x7F];
    let mut r = Reader::new(&bytes);
    assert_eq!(r.read_i16(), Ok(-2));
    assert_eq!(r.read_i16(), Ok(i16::MIN));
    assert_eq!(r.read_i16(), Ok(i16::MAX));
}

#[test]
fn read_u32_is_little_endian() {
    let bytes = [0x78u8, 0x56, 0x34, 0x12, 0xFF, 0xFF, 0xFF, 0xFF];
    let mut r = Reader::new(&bytes);
    assert_eq!(r.read_u32(), Ok(0x1234_5678));
    assert_eq!(r.read_u32(), Ok(u32::MAX));
    assert_eq!(r.read_u32(), Err(DecodeError::UnexpectedEnd));
}

#[test]
fn read_u32_fails_on_three_bytes() {
    let bytes = [1u8, 2, 3];
    let mut r = Reader::new(&bytes);
    assert_eq!(r.read_u32(), Err(DecodeError::UnexpectedEnd));
    assert_eq!(r.remaining(), 3);
}

#[test]
fn read_i32_is_twos_complement() {
    let bytes = [0xFEu8, 0xFF, 0xFF, 0xFF, 0x00, 0x00, 0x00, 0x80, 0x01, 0x00, 0x00, 0x00];
    let mut r = Reader::new(&bytes);
    assert_eq!(r.read_i32(), Ok(-2));
    assert_eq!(r.read_i32(), Ok(i32::MIN));
    assert_eq!(r.read_i32(), Ok(1));
}

#[test]
fn read_string_takes_length_then_text() {
    let bytes = [2u8, 0, b'h', b'i', 0x55];
    let mut r = Reader::new(&bytes);
    assert_eq!(r.read_string(), Ok(String::from("hi")));
    assert_eq!(r.remaining(), 1);
}

#[test]
fn read_string_of_length_zero_is_empty() {
    let bytes = [0u8, 0];
    let mut r = Reader::new(&bytes);
    assert_eq!(r.read_string(), Ok(String::new()));
    assert!(r.is_empty());
}

#[test]
fn read_string_fails_when_text_is_cut_and_stays() {
    let bytes = [3u8, 0, b'h', b'i'];
    let mut r = Reader::new(&bytes);
    assert_eq!(r.read_string(), Err(DecodeError::UnexpectedEnd));
    assert_eq!(r.remaining(), 4);
}

#[test]
fn read_string_fails_when_length_is_cut() {
    let bytes = [3u8];
    let mut r = Reader::new(&bytes);
    assert_eq!(r.read_string(), Err(DecodeError::UnexpectedEnd));
}

#[test]
fn read_fixed_string_decodes_the_legacy_codepage() {
    // 0x80 is the euro sign and 0xE9 is e with acute in Windows-1252
    let bytes = [0x80u8, 0xE9, b'a'];
    let mut r = Reader::new(&bytes);
    assert_eq!(r.read_fixed_string(3), Ok(String::from("\u{20AC}\u{E9}a")));
    assert!(r.is_empty());
}

#[test]
fn read_fixed_string_keeps_null_characters() {
    let bytes = [b'a', 0, b'b'];
    let mut r = Reader::new(&bytes);
    assert_eq!(r.read_fixed_string(3), Ok(String::from("a\0b")));
}

#[test]
fn read_fixed_string_fails_on_short_input() {
    let bytes = [b'a', b'b'];
    let mut r = Reader::new(&bytes);
    assert_eq!(r.read_fixed_string(3), Err(DecodeError::UnexpectedEnd));
    assert_eq!(r.remaining(), 2);
}

#[test]
fn read_bytes_hands_out_a_slice() {
    let bytes = [1u8, 2, 3, 4];
    let mut r = Reader::new(&bytes);
    assert_eq!(r.read_bytes(3), Ok(&bytes[0..3]));
    assert_eq!(r.read_bytes(2), Err(DecodeError::UnexpectedEnd));
    assert_eq!(r.read_bytes(1), Ok(&bytes[3..4]));
}

#[test]
fn skip_passes_over_bytes() {
    let bytes = [1u8, 2, 3, 4];
    let mut r = Reader::new(&bytes);
    assert_eq!(r.skip(3), Ok(()));
    assert_eq!(r.skip(2), Err(DecodeError::UnexpectedEnd));
    assert_eq!(r.read_byte(), Ok(4));
    assert_eq!(r.skip(0), Ok(()));
}

#[test]
fn read_position_takes_five_bytes() {
    let bytes = [100u8, 0, 200, 0, 7, 9];
    let mut r = Reader::new(&bytes);
    assert_eq!(r.read_position(), Ok(Position { x: 100, y: 200, z: 7 }));
    assert_eq!(r.remaining(), 1);
}

#[test]
fn position_deserialize_reads_wide_coordinates() {
    let bytes = [0x34u8, 0x12, 0xFF, 0xFF, 15];
    let mut r = Reader::new(&bytes);
    assert_eq!(
        Position::deserialize(&mut r),
        Ok(Position { x: 0x1234, y: 0xFFFF, z: 15 })
    );
}

#[test]
fn position_deserialize_fails_on_four_bytes() {
    let bytes = [1u8, 0, 2, 0];
    let mut r = Reader::new(&bytes);
    assert_eq!(Position::deserialize(&mut r), Err(DecodeError::UnexpectedEnd));
    assert_eq!(r.remaining(), 4);
    assert_eq!(r.read_position(), Err(DecodeError::UnexpectedEnd));
    assert_eq!(r.read_u32(), Ok(0x0002_0001));
}

#[test]
fn every_byte_has_a_character_in_the_legacy_codepage() {
    for b in 0..=255u8 {
        let bytes = [b];
        let mut r = Reader::new(&bytes);
        let text = r.read_fixed_string(1).unwrap();
        assert_eq!(text.chars().count(), 1);
        if b < 0x80 {
            assert_eq!(text.chars().next(), Some(b as char));
        }
    }
    // the upper half is not Latin-1: the dagger sits where Latin-1 has a control character
    let bytes = [0x86u8];
    let mut r = Reader::new(&bytes);
    assert_eq!(r.read_fixed_string(1), Ok(String::from("\u{2020}")));
    let bytes = [1u8, 0, 0xFF];
    let mut r = Reader::new(&bytes);
    assert_eq!(r.read_string(), Ok(String::from("\u{FF}")));
}
