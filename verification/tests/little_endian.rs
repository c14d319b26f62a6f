use nlattr::little_endian::{decode_le, read_le, write_le};
use nlattr::{Buffer, DeError};

#[test]
fn write_le_writes_the_low_bytes() {
    let mut mem = Buffer::new();
    write_le(0x1122_3344_5566_7788, 8, &mut mem);
    assert_eq!(mem.as_slice(), &[0x88, 0x77, 0x66, 0x55, 0x44, 0x33, 0x22, 0x11]);

    let mut mem = Buffer::new();
    write_le(0x1122_3344_5566_7788, 3, &mut mem);
    assert_eq!(mem.as_slice(), &[0x88, 0x77, 0x66]);

    let mut mem = Buffer::new();
    write_le(0x1234, 1, &mut mem);
    assert_eq!(mem.as_slice(), &[0x34]);
}

#[test]
fn write_le_of_width_zero_writes_nothing() {
    let mut mem = Buffer::from_slice(&[1]);
    write_le(0xffff, 0, &mut mem);
    assert_eq!(mem.as_slice(), &[1]);
}

#[test]
fn write_le_pads_wide_fields_with_zero_bytes() {
    let mut mem = Buffer::new();
    write_le(u64::MAX, 10, &mut mem);
    assert_eq!(
        mem.as_slice(),
        &[0xff, 0xff, 0xff, 0xff, 0xff, 0xff, 0xff, 0xff, 0, 0]
    );
}

#[test]
fn write_le_appends() {
    let mut mem = Buffer::from_slice(&[9]);
    write_le(0x0201, 2, &mut mem);
    write_le(0x03, 1, &mut mem);
    assert_eq!(mem.as_slice(), &[9, 1, 2, 3]);
}

#[test]
fn read_le_reads_what_the_bytes_spell() {
    assert_eq!(read_le(&[]), 0);
    assert_eq!(read_le(&[7]), 7);
    assert_eq!(read_le(&[1, 2]), 0x0201);
    assert_eq!(read_le(&[0, 0, 1]), 0x01_0000);
    assert_eq!(read_le(&[0xff; 8]), u64::MAX);
    assert_eq!(
        read_le(&[0x88, 0x77, 0x66, 0x55, 0x44, 0x33, 0x22, 0x11]),
        0x1122_3344_5566_7788
    );
}

#[test]
fn decode_le_asks_for_the_exact_width() {
    assert_eq!(decode_le(&[1, 2, 3, 4], 4), Ok(0x0403_0201));
    assert_eq!(decode_le(&[1, 2, 3], 4), Err(DeError::UnexpectedEOB));
    assert_eq!(decode_le(&[1, 2, 3, 4, 5], 4), Err(DeError::BufferNotParsed));
    assert_eq!(decode_le(&[], 0), Ok(0));
    assert_eq!(decode_le(&[], 1), Err(DeError::UnexpectedEOB));
    assert_eq!(decode_le(&[0], 0), Err(DeError::BufferNotParsed));
}
