use sot_reader::memory::{MemorySource, SparseMemory};

#[test]
fn reads_return_exactly_what_was_written() {
    let mut mem = SparseMemory::new();
    mem.write_bytes(0x1000, &[10, 20, 30, 40]);
    assert_eq!(mem.read_bytes(0x1000, 4).unwrap(), vec![10, 20, 30, 40]);
    assert_eq!(mem.read_bytes(0x1001, 2).unwrap(), vec![20, 30]);
}

#[test]
fn a_later_write_wins() {
    let mut mem = SparseMemory::new();
    mem.write_byte(0x10, 1);
    mem.write_byte(0x10, 2);
    assert_eq!(mem.read_bytes(0x10, 1).unwrap(), vec![2]);
}

#[test]
fn an_unmapped_byte_fails_the_whole_read() {
    let mut mem = SparseMemory::new();
    mem.write_bytes(0x1000, &[1, 2, 3]);
    // byte 0x1003 is unmapped: no partial result comes back
    let f = mem.read_bytes(0x1000, 4).unwrap_err();
    assert_eq!(f.addr, 0x1000);
    assert_eq!(f.len, 4);
}

#[test]
fn a_wrapping_range_fails() {
    let mut mem = SparseMemory::new();
    mem.write_byte(u64::MAX, 7);
    assert_eq!(mem.read_bytes(u64::MAX, 1).unwrap(), vec![7]);
    assert!(mem.read_bytes(u64::MAX, 2).is_err());
}

#[test]
fn a_zero_length_read_succeeds_anywhere() {
    let mem = SparseMemory::new();
    assert_eq!(mem.read_bytes(0xDEAD_BEEF, 0).unwrap(), Vec::<u8>::new());
}

#[test]
fn typed_writes_store_little_endian() {
    let mut mem = SparseMemory::new();
    mem.write_u32(0x100, 0x1234_5678);
    assert_eq!(
        mem.read_bytes(0x100, 4).unwrap(),
        vec![0x78, 0x56, 0x34, 0x12]
    );
    mem.write_u64(0x200, 0x0102_0304_0506_0708);
    assert_eq!(
        mem.read_bytes(0x200, 8).unwrap(),
        vec![8, 7, 6, 5, 4, 3, 2, 1]
    );
}
