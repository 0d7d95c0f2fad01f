use ethtool::{parse_bitset_bits_nlas, parse_bitset_bits_string_nlas, DecodeError, EthtoolBitSet};

// One bit record: INDEX, NAME and, when asserted, a VALUE marker.
fn bit_record(index: u32, name: &str, asserted: bool) -> Vec<u8> {
    let mut inner = Vec::new();
    // INDEX (kind 1), u32 value
    inner.extend_from_slice(&[0x08, 0x00, 0x01, 0x00]);
    inner.extend_from_slice(&index.to_le_bytes());
    // NAME (kind 2), NUL-terminated string, padded
    let name_len = name.len() + 1;
    inner.extend_from_slice(&((name_len + 4) as u16).to_le_bytes());
    inner.extend_from_slice(&[0x02, 0x00]);
    inner.extend_from_slice(name.as_bytes());
    inner.push(0);
    while inner.len() % 4 != 0 {
        inner.push(0);
    }
    if asserted {
        // VALUE (kind 3), empty payload
        inner.extend_from_slice(&[0x04, 0x00, 0x03, 0x00]);
    }
    let mut rec = Vec::new();
    rec.extend_from_slice(&((inner.len() + 4) as u16).to_le_bytes());
    rec.extend_from_slice(&[0x01, 0x80]); // BITS_BIT, nested
    rec.extend_from_slice(&inner);
    rec
}

// The BITS container around a list of bit records.
fn bits_container(bits: &[Vec<u8>]) -> Vec<u8> {
    let mut inner = Vec::new();
    for b in bits {
        inner.extend_from_slice(b);
    }
    let mut rec = Vec::new();
    rec.extend_from_slice(&((inner.len() + 4) as u16).to_le_bytes());
    rec.extend_from_slice(&[0x03, 0x80]); // BITS, nested
    rec.extend_from_slice(&inner);
    rec
}

#[test]
fn test_bitset_three_asserted_bits() {
    let raw = bits_container(&[
        bit_record(2, "a", true),
        bit_record(5, "b", true),
        bit_record(9, "c", true),
    ]);
    let bits = parse_bitset_bits_nlas(&raw).unwrap();
    assert_eq!(
        bits,
        vec![
            EthtoolBitSet { index: 2, name: "a".to_string(), value: true },
            EthtoolBitSet { index: 5, name: "b".to_string(), value: true },
            EthtoolBitSet { index: 9, name: "c".to_string(), value: true },
        ],
    );
}

#[test]
fn test_bitset_bit_without_value_marker() {
    let raw = bits_container(&[bit_record(7, "idle", false)]);
    let bits = parse_bitset_bits_nlas(&raw).unwrap();
    assert_eq!(bits.len(), 1);
    assert_eq!(bits[0].index, 7);
    assert_eq!(bits[0].name, "idle");
    assert!(!bits[0].value);
}

#[test]
fn test_bitset_asserted_names() {
    let raw = bits_container(&[
        bit_record(0, "on", true),
        bit_record(1, "off", false),
        bit_record(2, "also-on", true),
    ]);
    let names = parse_bitset_bits_string_nlas(&raw).unwrap();
    assert_eq!(names, vec!["on".to_string(), "also-on".to_string()]);
}

// A bit record without a NAME leaf is a decode error: the name is
// required for a meaningful decode.
#[test]
fn test_bitset_bit_without_name() {
    let mut bit = Vec::new();
    bit.extend_from_slice(&[0x08, 0x00, 0x01, 0x00, 7, 0, 0, 0]); // INDEX only
    let mut bits_bit = Vec::new();
    bits_bit.extend_from_slice(&(((bit.len() + 4) as u16).to_le_bytes()));
    bits_bit.extend_from_slice(&[0x01, 0x80]);
    bits_bit.extend_from_slice(&bit);
    let raw = bits_container(&[bits_bit]);
    // bits_container wraps records as given, so hand it the raw record
    assert_eq!(
        parse_bitset_bits_nlas(&raw),
        Err(DecodeError::InAttribute {
            kind: 0x8001,
            cause: Box::new(DecodeError::MissingBitsetBitName),
        }),
    );
}

#[test]
fn test_bitset_without_container() {
    // A well-formed record list that holds no BITS container.
    let raw: Vec<u8> = vec![0x04, 0x00, 0x07, 0x00];
    assert_eq!(parse_bitset_bits_nlas(&raw), Err(DecodeError::MissingBitsetBits));
    assert_eq!(parse_bitset_bits_nlas(&[]), Err(DecodeError::MissingBitsetBits));
}
