use netpipe::byte_buf::{fits_width, ByteBuf};
use netpipe::error::BufError;

#[test]
fn new_buffer_is_empty() {
    let buf = ByteBuf::new_with_capacity(16);
    assert_eq!(buf.readable_bytes(), 0);
    let zero = ByteBuf::new_with_capacity(0);
    assert_eq!(zero.readable_bytes(), 0);
}

#[test]
fn capacity_is_only_a_hint() {
    let mut buf = ByteBuf::new_with_capacity(2);
    assert_eq!(buf.write_bytes(&[1, 2, 3, 4, 5, 6, 7, 8, 9]), Ok(9));
    assert_eq!(buf.readable_bytes(), 9);
}

#[test]
fn u8_round_trip() {
    for v in [0u8, 1, 0x7f, 0x86, 0xff] {
        let mut buf = ByteBuf::new_with_capacity(4);
        assert_eq!(buf.write_u8_be(v), Ok(1));
        let before = buf.readable_bytes();
        assert_eq!(buf.read_u8_be(), Ok(v));
        assert_eq!(before - buf.readable_bytes(), 1);
    }
}

#[test]
fn u16_round_trip() {
    for v in [0u16, 1, 0x1234, 0xff00, u16::MAX] {
        let mut buf = ByteBuf::new_with_capacity(4);
        assert_eq!(buf.write_u16_be(v), Ok(2));
        let before = buf.readable_bytes();
        assert_eq!(buf.read_u16_be(), Ok(v));
        assert_eq!(before - buf.readable_bytes(), 2);
    }
}

#[test]
fn u32_round_trip() {
    for v in [0u32, 5, 0xdead_beef, 0x0100_0000, u32::MAX] {
        let mut buf = ByteBuf::new_with_capacity(4);
        assert_eq!(buf.write_u32_be(v), Ok(4));
        let before = buf.readable_bytes();
        assert_eq!(buf.read_u32_be(), Ok(v));
        assert_eq!(before - buf.readable_bytes(), 4);
    }
}

#[test]
fn u64_round_trip() {
    for v in [0u64, 1, 0x0102_0304_0506_0708, u64::MAX] {
        let mut buf = ByteBuf::new_with_capacity(4);
        assert_eq!(buf.write_u64_be(v), Ok(8));
        let before = buf.readable_bytes();
        assert_eq!(buf.read_u64_be(), Ok(v));
        assert_eq!(before - buf.readable_bytes(), 8);
    }
}

#[test]
fn u32_is_written_most_significant_first() {
    let mut buf = ByteBuf::new_with_capacity(4);
    buf.write_u32_be(0x0102_0304).unwrap();
    assert_eq!(buf.read_all(), vec![1u8, 2, 3, 4]);
    let mut five = ByteBuf::new_with_capacity(4);
    five.write_u32_be(5).unwrap();
    assert_eq!(five.read_all(), vec![0u8, 0, 0, 5]);
}

#[test]
fn u16_and_u64_byte_order() {
    let mut buf = ByteBuf::new_with_capacity(4);
    buf.write_u16_be(0xabcd).unwrap();
    buf.write_u64_be(0x0102_0304_0506_0708).unwrap();
    assert_eq!(buf.read_all(), vec![0xab, 0xcd, 1, 2, 3, 4, 5, 6, 7, 8]);
}

#[test]
fn uint_of_three_bytes() {
    let mut buf = ByteBuf::new_with_capacity(4);
    assert_eq!(buf.write_uint_be(0x01_02_03, 3), Ok(3));
    assert_eq!(buf.readable_bytes(), 3);
    assert_eq!(buf.peek_uint_be(0, 3), Ok(0x01_02_03));
    assert_eq!(buf.peek_uint_be(1, 2), Ok(0x02_03));
    assert_eq!(buf.readable_bytes(), 3);
    assert_eq!(buf.read_uint_be(3), Ok(0x01_02_03));
    assert_eq!(buf.readable_bytes(), 0);
}

#[test]
fn value_too_wide_is_refused() {
    let mut buf = ByteBuf::new_with_capacity(4);
    assert_eq!(buf.write_uint_be(256, 1), Err(BufError::WidthExceeded));
    assert_eq!(buf.write_uint_be(0x1_0000_0000, 4), Err(BufError::WidthExceeded));
    assert_eq!(buf.readable_bytes(), 0);
    assert_eq!(buf.write_uint_be(255, 1), Ok(1));
    assert_eq!(buf.write_uint_be(0xffff_ffff, 4), Ok(4));
    assert_eq!(buf.write_uint_be(u64::MAX, 8), Ok(8));
    assert_eq!(buf.readable_bytes(), 13);
}

#[test]
fn bad_width_is_refused() {
    let mut buf = ByteBuf::new_with_capacity(4);
    assert_eq!(buf.write_uint_be(1, 0), Err(BufError::BadWidth));
    assert_eq!(buf.write_uint_be(1, 9), Err(BufError::BadWidth));
    buf.write_bytes(&[0; 16]).unwrap();
    assert_eq!(buf.read_uint_be(0), Err(BufError::BadWidth));
    assert_eq!(buf.read_uint_be(9), Err(BufError::BadWidth));
    assert_eq!(buf.peek_uint_be(0, 0), Err(BufError::BadWidth));
    assert_eq!(buf.readable_bytes(), 16);
}

#[test]
fn fits_width_bounds() {
    assert!(fits_width(0, 0));
    assert!(!fits_width(1, 0));
    assert!(fits_width(255, 1));
    assert!(!fits_width(256, 1));
    assert!(fits_width(0xffff, 2));
    assert!(!fits_width(0x1_0000, 2));
    assert!(fits_width(u64::MAX, 8));
    assert!(fits_width(u64::MAX, 12));
    assert!(!fits_width(1 << 56, 7));
}

#[test]
fn underflow_leaves_the_cursor() {
    let mut buf = ByteBuf::new_with_capacity(4);
    buf.write_bytes(&[0, 0]).unwrap();
    assert_eq!(buf.read_u32_be(), Err(BufError::BufferUnderflow));
    assert_eq!(buf.readable_bytes(), 2);
    buf.write_bytes(&[0, 5]).unwrap();
    assert_eq!(buf.read_u32_be(), Ok(5));
    assert_eq!(buf.readable_bytes(), 0);
}

#[test]
fn read_from_empty_buffer_underflows() {
    let mut buf = ByteBuf::new_with_capacity(4);
    assert_eq!(buf.read_u8_be(), Err(BufError::BufferUnderflow));
    assert_eq!(buf.read_u16_be(), Err(BufError::BufferUnderflow));
    assert_eq!(buf.read_u64_be(), Err(BufError::BufferUnderflow));
    assert_eq!(buf.peek_uint_be(0, 1), Err(BufError::BufferUnderflow));
    assert_eq!(buf.peek_uint_be(usize::MAX, 8), Err(BufError::BufferUnderflow));
}

#[test]
fn read_bytes_fills_destination() {
    let mut buf = ByteBuf::new_with_capacity(4);
    buf.write_bytes(b"hello world").unwrap();
    let mut dest = vec![0u8; 5];
    assert_eq!(buf.read_bytes(&mut dest), Ok(5));
    assert_eq!(dest, b"hello".to_vec());
    assert_eq!(buf.readable_bytes(), 6);
    let mut rest = vec![0u8; 6];
    assert_eq!(buf.read_bytes(&mut rest), Ok(6));
    assert_eq!(rest, b" world".to_vec());
}

#[test]
fn read_bytes_underflow_changes_nothing() {
    let mut buf = ByteBuf::new_with_capacity(4);
    buf.write_bytes(&[1, 2, 3]).unwrap();
    let mut dest = vec![9u8; 4];
    assert_eq!(buf.read_bytes(&mut dest), Err(BufError::BufferUnderflow));
    assert_eq!(dest, vec![9u8; 4]);
    assert_eq!(buf.readable_bytes(), 3);
    buf.write_bytes(&[4]).unwrap();
    assert_eq!(buf.read_bytes(&mut dest), Ok(4));
    assert_eq!(dest, vec![1u8, 2, 3, 4]);
}

#[test]
fn read_bytes_of_nothing() {
    let mut buf = ByteBuf::new_with_capacity(4);
    let mut dest: Vec<u8> = Vec::new();
    assert_eq!(buf.read_bytes(&mut dest), Ok(0));
    assert_eq!(buf.write_bytes(&[]), Ok(0));
    assert_eq!(buf.readable_bytes(), 0);
}

#[test]
fn read_all_drains() {
    let mut buf = ByteBuf::new_with_capacity(4);
    buf.write_bytes(&[1, 2, 3]).unwrap();
    assert_eq!(buf.read_u8_be(), Ok(1));
    assert_eq!(buf.read_all(), vec![2u8, 3]);
    assert_eq!(buf.readable_bytes(), 0);
    assert_eq!(buf.read_all(), Vec::<u8>::new());
}

#[test]
fn writes_follow_earlier_content() {
    let mut buf = ByteBuf::new_with_capacity(4);
    buf.write_u8_be(7).unwrap();
    buf.write_u32_be(0xaabb_ccdd).unwrap();
    assert_eq!(buf.read_u8_be(), Ok(7));
    assert_eq!(buf.read_u32_be(), Ok(0xaabb_ccdd));
}

#[test]
fn compact_keeps_the_readable_bytes() {
    let mut buf = ByteBuf::new_with_capacity(4);
    buf.write_bytes(&[1, 2, 3, 4, 5]).unwrap();
    assert_eq!(buf.read_u16_be(), Ok(0x0102));
    buf.compact();
    assert_eq!(buf.readable_bytes(), 3);
    buf.write_u8_be(6).unwrap();
    assert_eq!(buf.read_u32_be(), Ok(0x0304_0506));
    buf.compact();
    assert_eq!(buf.readable_bytes(), 0);
    assert_eq!(buf.read_u8_be(), Err(BufError::BufferUnderflow));
}

#[test]
fn capacity_starts_as_asked() {
    assert_eq!(ByteBuf::new_with_capacity(16).reserved(), 16);
    assert_eq!(ByteBuf::new_with_capacity(0).reserved(), 0);
    assert_eq!(ByteBuf::new_with_capacity(1024).reserved(), 1024);
}

#[test]
fn capacity_grows_only_when_writes_need_it() {
    let mut buf = ByteBuf::new_with_capacity(4);
    buf.write_bytes(&[1, 2, 3]).unwrap();
    assert_eq!(buf.reserved(), 4);
    buf.write_u8_be(4).unwrap();
    assert_eq!(buf.reserved(), 4);
    buf.write_u32_be(5).unwrap();
    assert_eq!(buf.reserved(), 8);
    buf.write_bytes(&[0; 9]).unwrap();
    assert_eq!(buf.reserved(), 17);
    buf.write_uint_be(7, 3).unwrap();
    assert_eq!(buf.reserved(), 20);
}

#[test]
fn reads_and_refused_writes_keep_the_capacity() {
    let mut buf = ByteBuf::new_with_capacity(2);
    buf.write_bytes(&[1, 2, 3, 4, 5]).unwrap();
    assert_eq!(buf.reserved(), 5);
    assert_eq!(buf.read_u16_be(), Ok(0x0102));
    assert_eq!(buf.reserved(), 5);
    assert_eq!(buf.write_uint_be(256, 1), Err(BufError::WidthExceeded));
    assert_eq!(buf.read_u64_be(), Err(BufError::BufferUnderflow));
    assert_eq!(buf.reserved(), 5);
    buf.compact();
    assert_eq!(buf.reserved(), 5);
    assert_eq!(buf.readable_bytes(), 3);
    buf.write_bytes(&[6, 7]).unwrap();
    assert_eq!(buf.reserved(), 5);
    assert_eq!(buf.read_all(), vec![3u8, 4, 5, 6, 7]);
    assert_eq!(buf.reserved(), 5);
}
