use png_chunk::{ChunkType, ChunkTypeError};

#[test]
pub fn is_valid() {
    let chunk_from_bytes = ChunkType::try_from([82, 117, 83, 116]);
    let chunk_from_string = ChunkType::from_str("RuSt");

    assert!(chunk_from_bytes.is_ok());
    assert!(chunk_from_string.is_ok());
    assert_eq!(chunk_from_bytes.unwrap(), chunk_from_string.unwrap());
}

#[test]
pub fn is_invalid_encoding() {
    let chunk = ChunkType::from_str("RËèØ");

    // Seven bytes in UTF-8: the length is rejected before the encoding is
    // looked at. Four non-ASCII bytes give `InvalidEncoding`.
    assert!(chunk.is_err());
    assert_eq!(
        chunk.err().unwrap(),
        ChunkTypeError::InvalidLength {
            found: "7".to_string()
        }
    );
    assert_eq!(
        ChunkType::from_str("RuË").err().unwrap(),
        ChunkTypeError::InvalidEncoding
    );
}

#[test]
pub fn is_invalid_size() {
    let chunk = ChunkType::from_str("RuStt");

    assert!(chunk.is_err());
    assert_eq!(
        chunk.err().unwrap(),
        ChunkTypeError::InvalidLength {
            found: "5".to_string()
        }
    );
}

#[test]
pub fn is_critical() {
    let chunk = ChunkType::from_str("RuSt").unwrap();
    assert!(chunk.is_critical());
}

#[test]
pub fn is_not_critical() {
    let chunk = ChunkType::from_str("ruSt").unwrap();
    assert!(!chunk.is_critical());
}

#[test]
pub fn is_public() {
    let chunk = ChunkType::from_str("RUSt").unwrap();
    assert!(chunk.is_public());
}

#[test]
pub fn is_not_public() {
    let chunk = ChunkType::from_str("RuSt").unwrap();
    assert!(!chunk.is_public());
}

#[test]
pub fn is_reserved_bit_valid() {
    let chunk = ChunkType::from_str("RuSt").unwrap();
    assert!(chunk.is_reserved_bit_valid());
}

#[test]
pub fn is_reserved_bit_invalid() {
    let chunk = ChunkType::from_str("Rust").unwrap();
    assert!(!chunk.is_reserved_bit_valid());
}

#[test]
pub fn is_safe_to_copy() {
    let chunk = ChunkType::from_str("RuSt").unwrap();
    assert!(chunk.is_safe_to_copy());
}

#[test]
pub fn is_unsafe_to_copy() {
    let chunk = ChunkType::from_str("RuST").unwrap();
    assert!(!chunk.is_safe_to_copy());
}

fn flags(t: &ChunkType) -> [bool; 4] {
    [
        t.is_critical(),
        t.is_public(),
        t.is_reserved_bit_valid(),
        t.is_safe_to_copy(),
    ]
}

#[test]
fn flipping_one_letter_toggles_only_its_flag() {
    let base = [82u8, 117, 83, 116];
    let before = flags(&ChunkType::try_from(base).unwrap());
    for i in 0..4 {
        let mut flipped = base;
        flipped[i] ^= 0x20;
        let after = flags(&ChunkType::try_from(flipped).unwrap());
        for j in 0..4 {
            if i == j {
                assert_ne!(before[j], after[j]);
            } else {
                assert_eq!(before[j], after[j]);
            }
        }
    }
}

#[test]
fn non_ascii_byte_rejected_at_every_position() {
    for i in 0..4 {
        for bad in [0x80u8, 0xC3, 0xFF] {
            let mut bytes = [82u8, 117, 83, 116];
            bytes[i] = bad;
            assert_eq!(
                ChunkType::try_from(bytes).err().unwrap(),
                ChunkTypeError::InvalidEncoding
            );
        }
    }
}

#[test]
fn ascii_control_bytes_accepted() {
    let t = ChunkType::try_from([0, 0x7F, 49, 32]).unwrap();
    assert_eq!(t.bytes(), [0, 0x7F, 49, 32]);
    assert!(!t.is_critical());
    assert!(!t.is_safe_to_copy());
}

#[test]
fn text_length_counts_bytes() {
    let cases: [(&str, &str); 4] = [("", "0"), ("Ru", "2"), ("RuStRuStRuSt", "12"), ("ÿ", "2")];
    for (text, found) in cases {
        assert_eq!(
            ChunkType::from_str(text).err().unwrap(),
            ChunkTypeError::InvalidLength {
                found: found.to_string()
            }
        );
    }
}

#[test]
fn four_bytes_of_two_characters_are_not_ascii() {
    assert_eq!(
        ChunkType::from_str("ÿÿ").err().unwrap(),
        ChunkTypeError::InvalidEncoding
    );
}

#[test]
fn tag_renders_as_its_characters() {
    let t = ChunkType::from_str("RuSt").unwrap();
    assert_eq!(t.to_string(), "RuSt");
    assert_eq!(t.bytes(), [82, 117, 83, 116]);
}

#[test]
fn standard_trait_from_str_agrees() {
    let t: ChunkType = "IHDR".parse().unwrap();
    assert_eq!(t.bytes(), *b"IHDR");
    assert!(t.is_critical() && t.is_public() && t.is_reserved_bit_valid());
    assert!(!t.is_safe_to_copy());
}
