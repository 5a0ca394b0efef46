use uki_manager::bytes::{
    append_bytes, push_le32, push_zeros, read_le16, read_le32, write_bytes, write_le16,
    write_le32,
};

#[test]
fn read_le16_takes_the_low_byte_first() {
    assert_eq!(read_le16(&[0x4D, 0x5A], 0), 0x5A4D);
    assert_eq!(read_le16(&[0, 0x34, 0x12, 0], 1), 0x1234);
    assert_eq!(read_le16(&[0xFF, 0xFF], 0), 0xFFFF);
}

#[test]
fn read_le32_takes_the_low_byte_first() {
    assert_eq!(read_le32(&[0x50, 0x45, 0, 0], 0), 0x4550);
    assert_eq!(read_le32(&[9, 0x78, 0x56, 0x34, 0x12], 1), 0x1234_5678);
    assert_eq!(read_le32(&[0xFF; 4], 0), 0xFFFF_FFFF);
}

#[test]
fn write_le16_changes_two_bytes() {
    let mut buf = vec![1u8, 2, 3, 4];
    write_le16(&mut buf, 1, 0xABCD);
    assert_eq!(buf, vec![1, 0xCD, 0xAB, 4]);
}

#[test]
fn write_le32_changes_four_bytes() {
    let mut buf = vec![1u8, 2, 3, 4, 5, 6];
    write_le32(&mut buf, 1, 0x1234_5678);
    assert_eq!(buf, vec![1, 0x78, 0x56, 0x34, 0x12, 6]);
    assert_eq!(read_le32(&buf, 1), 0x1234_5678);
}

#[test]
fn write_bytes_keeps_the_length() {
    let mut buf = vec![0u8; 6];
    write_bytes(&mut buf, 2, &[7, 8, 9]);
    assert_eq!(buf, vec![0, 0, 7, 8, 9, 0]);
    write_bytes(&mut buf, 6, &[]);
    assert_eq!(buf.len(), 6);
}

#[test]
fn pushing_grows_the_buffer() {
    let mut buf = vec![1u8];
    push_le32(&mut buf, 0x0403_0201);
    push_zeros(&mut buf, 2);
    append_bytes(&mut buf, &[9, 9]);
    push_zeros(&mut buf, 0);
    assert_eq!(buf, vec![1, 1, 2, 3, 4, 0, 0, 9, 9]);
}
