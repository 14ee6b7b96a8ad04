use sb6::reader::{read_le_u32, BufferReader, ReadError};

#[test]
fn new_reader_stands_at_the_start() {
    let reader = BufferReader::new(vec![1, 2, 3]);
    assert_eq!(reader.len(), 3);
    assert_eq!(reader.bytes_read(), 0);
}

#[test]
fn empty_buffer_has_no_length() {
    let reader = BufferReader::new(Vec::new());
    assert_eq!(reader.len(), 0);
    assert_eq!(reader.bytes_read(), 0);
}

#[test]
fn into_inner_gives_the_buffer_back() {
    let mut reader = BufferReader::new(vec![9, 8, 7]);
    reader.skip_bytes(2).unwrap();
    assert_eq!(reader.into_inner(), vec![9, 8, 7]);
}

#[test]
fn skip_advances_by_the_bytes_skipped() {
    let mut reader = BufferReader::new(vec![0; 10]);
    assert_eq!(reader.skip_bytes(3), Ok(()));
    assert_eq!(reader.bytes_read(), 3);
    assert_eq!(reader.skip_bytes(0), Ok(()));
    assert_eq!(reader.bytes_read(), 3);
    assert_eq!(reader.skip_bytes(7), Ok(()));
    assert_eq!(reader.bytes_read(), 10);
    assert_eq!(reader.len(), 10);
}

#[test]
fn skip_past_the_end_fails_and_does_not_move() {
    let mut reader = BufferReader::new(vec![0; 10]);
    reader.skip_bytes(4).unwrap();
    assert_eq!(reader.skip_bytes(7), Err(ReadError::BufferOverrun));
    assert_eq!(reader.bytes_read(), 4);
    assert_eq!(reader.skip_bytes(6), Ok(()));
    assert_eq!(reader.skip_bytes(1), Err(ReadError::BufferOverrun));
    assert_eq!(reader.bytes_read(), 10);
}

#[test]
fn skip_of_a_huge_count_fails() {
    let mut reader = BufferReader::new(vec![0; 10]);
    reader.skip_bytes(1).unwrap();
    assert_eq!(reader.skip_bytes(usize::MAX), Err(ReadError::BufferOverrun));
    assert_eq!(reader.bytes_read(), 1);
}

#[test]
fn words_are_little_endian() {
    assert_eq!(read_le_u32(&[0x01, 0x02, 0x03, 0x04], 0), 0x0403_0201);
    assert_eq!(read_le_u32(&[0xff, 0x78, 0x56, 0x34, 0x12], 1), 0x1234_5678);
    assert_eq!(read_le_u32(&[0xff, 0xff, 0xff, 0xff], 0), u32::MAX);
    assert_eq!(read_le_u32(&[0, 0, 0, 0x80], 0), 0x8000_0000);
}

#[test]
fn pop_value_reads_one_record_and_advances() {
    let mut reader = BufferReader::new(vec![0x2a, 0x01, 0x02, 0x03, 0x04, 0x07]);
    assert_eq!(reader.pop_value::<u8>(), Ok(0x2a));
    assert_eq!(reader.bytes_read(), 1);
    assert_eq!(reader.pop_value::<u32>(), Ok(0x0403_0201));
    assert_eq!(reader.bytes_read(), 5);
    assert_eq!(reader.pop_value::<u8>(), Ok(7));
    assert_eq!(reader.bytes_read(), 6);
}

#[test]
fn pop_value_past_the_end_fails_and_does_not_move() {
    let mut reader = BufferReader::new(vec![1, 2, 3, 4, 5]);
    reader.skip_bytes(2).unwrap();
    assert_eq!(reader.pop_value::<u32>(), Err(ReadError::BufferOverrun));
    assert_eq!(reader.bytes_read(), 2);
    assert_eq!(reader.pop_value::<u8>(), Ok(3));
    let mut empty = BufferReader::new(Vec::new());
    assert_eq!(empty.pop_value::<u8>(), Err(ReadError::BufferOverrun));
}

#[test]
fn pop_slice_reads_consecutive_records() {
    let mut reader = BufferReader::new(vec![1, 0, 0, 0, 2, 0, 0, 0, 0, 1, 0, 0, 0xaa, 0xbb]);
    assert_eq!(reader.pop_slice::<u32>(3), Ok(vec![1, 2, 256]));
    assert_eq!(reader.bytes_read(), 12);
    assert_eq!(reader.pop_slice::<u8>(2), Ok(vec![0xaa, 0xbb]));
    assert_eq!(reader.bytes_read(), 14);
}

#[test]
fn pop_slice_of_nothing_reads_nothing() {
    let mut reader = BufferReader::new(vec![1, 2]);
    assert_eq!(reader.pop_slice::<u32>(0), Ok(Vec::new()));
    assert_eq!(reader.bytes_read(), 0);
    reader.skip_bytes(2).unwrap();
    assert_eq!(reader.pop_slice::<u8>(0), Ok(Vec::new()));
    assert_eq!(reader.bytes_read(), 2);
}

#[test]
fn pop_slice_past_the_end_fails_and_does_not_move() {
    let mut reader = BufferReader::new(vec![0; 11]);
    assert_eq!(reader.pop_slice::<u32>(3), Err(ReadError::BufferOverrun));
    assert_eq!(reader.bytes_read(), 0);
    assert_eq!(reader.pop_slice::<u32>(2), Ok(vec![0, 0]));
    assert_eq!(reader.pop_slice::<u8>(4), Err(ReadError::BufferOverrun));
    assert_eq!(reader.bytes_read(), 8);
}

#[test]
fn pop_slice_of_a_huge_count_fails() {
    let mut reader = BufferReader::new(vec![0; 16]);
    assert_eq!(reader.pop_slice::<u32>(usize::MAX), Err(ReadError::BufferOverrun));
    assert_eq!(reader.pop_slice::<u32>(usize::MAX / 4 + 1), Err(ReadError::BufferOverrun));
    assert_eq!(reader.pop_slice::<u8>(usize::MAX), Err(ReadError::BufferOverrun));
    assert_eq!(reader.bytes_read(), 0);
}

#[test]
fn peek_returns_the_range_and_does_not_move() {
    let mut reader = BufferReader::new(vec![10, 11, 12, 13, 14]);
    reader.skip_bytes(4).unwrap();
    assert_eq!(reader.peek_slice(1, 3), Ok(&[11u8, 12][..]));
    assert_eq!(reader.peek_slice(0, 5), Ok(&[10u8, 11, 12, 13, 14][..]));
    assert_eq!(reader.peek_slice(5, 5), Ok(&[][..]));
    assert_eq!(reader.peek_slice(2, 2), Ok(&[][..]));
    assert_eq!(reader.bytes_read(), 4);
}

#[test]
fn peek_outside_the_buffer_fails() {
    let reader = BufferReader::new(vec![10, 11, 12, 13, 14]);
    assert_eq!(reader.peek_slice(0, 6), Err(ReadError::BufferOverrun));
    assert_eq!(reader.peek_slice(6, 6), Err(ReadError::BufferOverrun));
    assert_eq!(reader.peek_slice(4, usize::MAX), Err(ReadError::BufferOverrun));
    assert_eq!(reader.bytes_read(), 0);
}

#[test]
fn peek_of_a_reversed_range_fails() {
    let reader = BufferReader::new(vec![10, 11, 12, 13, 14]);
    assert_eq!(reader.peek_slice(3, 2), Err(ReadError::BufferOverrun));
    assert_eq!(reader.peek_slice(5, 0), Err(ReadError::BufferOverrun));
}
