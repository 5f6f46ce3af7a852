use osmio::wire::{pack_sint64, read_varint, unpack_sint64, write_varint, zigzag_decode, zigzag_encode};

#[test]
fn zigzag_codes() {
    assert_eq!(zigzag_encode(0), 0);
    assert_eq!(zigzag_encode(-1), 1);
    assert_eq!(zigzag_encode(1), 2);
    assert_eq!(zigzag_encode(-2), 3);
    assert_eq!(zigzag_encode(i64::MAX), u64::MAX - 1);
    assert_eq!(zigzag_encode(i64::MIN), u64::MAX);
    assert_eq!(zigzag_decode(3), -2);
    assert_eq!(zigzag_decode(u64::MAX), i64::MIN);
}

#[test]
fn varint_bytes_and_reading() {
    let mut out = vec![9u8];
    write_varint(&mut out, 300);
    assert_eq!(out, vec![9, 0xAC, 0x02]);
    assert_eq!(read_varint(&out, 1), Some((300, 3)));
    let mut big = vec![];
    write_varint(&mut big, u64::MAX);
    assert_eq!(big.len(), 10);
    assert_eq!(read_varint(&big, 0), Some((u64::MAX, 10)));
    assert_eq!(read_varint(&vec![0x80, 0x80], 0), None);
    let too_big = vec![0xFF, 0xFF, 0xFF, 0xFF, 0xFF, 0xFF, 0xFF, 0xFF, 0xFF, 0x7F];
    assert_eq!(read_varint(&too_big, 0), None);
}

#[test]
fn packed_column_round_trip() {
    let col = vec![5, -2, 100, i64::MIN, i64::MAX, 0];
    let bytes = pack_sint64(&col);
    assert_eq!(&bytes[..3], &[10, 3, 200]);
    assert_eq!(unpack_sint64(&bytes), Some(col));
    assert_eq!(unpack_sint64(&vec![]), Some(vec![]));
    assert_eq!(unpack_sint64(&vec![10, 0x80]), None);
}
