use crash_metrics::wire::{make_padded_region, read_padded, read_u32_le, read_u64_le};

fn round_trip(value: &[u8], size: usize) -> Vec<u8> {
    let region = make_padded_region(&value.to_vec(), size);
    assert_eq!(region.len(), size);
    read_padded(&region, 0, size)
}

#[test]
fn padded_value_of_exactly_region_minus_one_is_preserved() {
    let value = vec![b'x'; 7];
    assert_eq!(round_trip(&value, 8), value);
}

#[test]
fn padded_value_longer_than_region_is_truncated() {
    let value = vec![b'y'; 9];
    assert_eq!(round_trip(&value, 8), vec![b'y'; 7]);
    assert_eq!(round_trip(b"overlong", 4), b"ove");
}

#[test]
fn padded_value_shorter_than_region_is_preserved() {
    assert_eq!(round_trip(b"hi", 8), b"hi");
    assert_eq!(round_trip(b"", 8), b"");
}

#[test]
fn read_padded_stops_at_first_null_and_caps_the_value() {
    let buf = vec![b'a', b'b', 0, b'c', b'd', 0, b'e', b'f'];
    assert_eq!(read_padded(&buf, 0, 8), b"ab");
    assert_eq!(read_padded(&buf, 3, 3), b"cd");
    // A region with no terminator yields only its first size - 1 bytes: the
    // value always leaves room for a terminator and never reads past the
    // region.
    assert_eq!(read_padded(&buf, 3, 2), b"c");
    assert_eq!(read_padded(&buf, 6, 2), b"e");
}

#[test]
fn little_endian_reads() {
    let buf = vec![0x78, 0x56, 0x34, 0x12, 0xEF, 0xCD, 0xAB, 0x90, 0x00, 0x00, 0x00, 0x00];
    assert_eq!(read_u32_le(&buf, 0), 0x12345678);
    assert_eq!(read_u64_le(&buf, 0), 0x90ABCDEF_12345678);
    assert_eq!(read_u32_le(&buf, 4), 0x90ABCDEF);
}
