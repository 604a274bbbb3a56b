use sot_reader::memory::SparseMemory;
use sot_reader::reader::{MemoryReader, MemoryReaderError, SoTMemoryReader};
use sot_reader::tarray::{TArray, TArrayStruct};

fn session_over(mem: SparseMemory) -> SoTMemoryReader<SparseMemory> {
    SoTMemoryReader {
        rm: MemoryReader {
            source: mem,
            module_base: 0,
            u_world_base: 0,
            g_object_base: 0,
            g_name_base: 0,
            g_name_start_address: 0,
        },
        world_address: 0,
        g_objects_address: 0,
    }
}

/// Map a 12-byte dynamic array header: 8-byte data pointer, 4-byte count.
fn put_header(mem: &mut SparseMemory, addr: u64, ptr: u64, count: u32) {
    mem.write_u64(addr, ptr);
    mem.write_u32(addr + 8, count);
}

#[test]
fn zero_count_yields_empty_without_any_element_read() {
    let mut mem = SparseMemory::new();
    // the data pointer leads nowhere: a zero count must never follow it
    put_header(&mut mem, 0x100, 0xDEAD_0000, 0);
    let s = session_over(mem);
    let a = s.read_array(0x100, 4).unwrap();
    assert_eq!(a.count, 0);
    assert_eq!(a.raw_bytes.len(), 0);
}

#[test]
fn n_elements_of_width_w_come_back_byte_for_byte() {
    let mut mem = SparseMemory::new();
    put_header(&mut mem, 0x100, 0x4000, 3);
    mem.write_bytes(0x4000, &[1, 2, 3, 4, 5, 6, 7, 8, 9, 10, 11, 12]);
    let s = session_over(mem);
    let a = s.read_array(0x100, 4).unwrap();
    assert_eq!(a.count, 3);
    assert_eq!(a.element(0), vec![1, 2, 3, 4]);
    assert_eq!(a.element(1), vec![5, 6, 7, 8]);
    assert_eq!(a.element(2), vec![9, 10, 11, 12]);
}

#[test]
fn rereading_after_count_change_yields_the_new_count() {
    let mut mem = SparseMemory::new();
    put_header(&mut mem, 0x100, 0x4000, 2);
    mem.write_bytes(0x4000, &[0u8; 16]);
    let s = session_over(mem);
    assert_eq!(s.read_array(0x100, 8).unwrap().count, 2);
    // the remote process grows the array; nothing at this layer caches
    let mut s = s;
    put_header(&mut s.rm.source, 0x100, 0x4000, 1);
    assert_eq!(s.read_array(0x100, 8).unwrap().count, 1);
}

#[test]
fn unreadable_elements_are_a_tagged_read_error() {
    let mut mem = SparseMemory::new();
    put_header(&mut mem, 0x100, 0x4000, 2);
    // only half of the 16 element bytes are mapped: never a partial result
    mem.write_bytes(0x4000, &[0u8; 8]);
    let s = session_over(mem);
    match s.read_array(0x100, 8) {
        Err(MemoryReaderError::MemoryReadingError(f)) => {
            assert_eq!(f.addr, 0x4000);
            assert_eq!(f.len, 16);
        }
        _ => panic!("expected a read error"),
    }
}

#[test]
fn tarray_cursor_walks_each_slice_and_stops() {
    let a = TArray::new(vec![1, 2, 3, 4, 5, 6], 2, 3);
    let mut it = a.iter();
    assert_eq!(it.next(), Some(vec![1, 2]));
    assert_eq!(it.next(), Some(vec![3, 4]));
    assert_eq!(it.next(), Some(vec![5, 6]));
    assert_eq!(it.next(), None);
    // the cursor is restartable: a fresh one walks again
    let mut it2 = a.iter();
    assert_eq!(it2.next(), Some(vec![1, 2]));
}

#[test]
fn tarray_element_u64_reads_little_endian() {
    let a = TArray::new(vec![0x78, 0x56, 0x34, 0x12, 0, 0, 0, 0], 8, 1);
    assert_eq!(a.element_u64(0), 0x1234_5678);
}

#[test]
fn tarray_struct_hands_out_strided_addresses() {
    let t = TArrayStruct::new(0x1000, 0x30, 3);
    assert_eq!(t.element_pointer(0), 0x1000);
    assert_eq!(t.element_pointer(1), 0x1030);
    assert_eq!(t.element_pointer(2), 0x1060);
    let mut it = t.iter();
    assert_eq!(it.next().unwrap().item_pointer, 0x1000);
    assert_eq!(it.next().unwrap().item_pointer, 0x1030);
    assert_eq!(it.next().unwrap().item_pointer, 0x1060);
    assert!(it.next().is_none());
}

#[test]
fn read_array_sized_reads_only_the_header() {
    let mut mem = SparseMemory::new();
    put_header(&mut mem, 0x100, 0x7000, 5);
    // nothing at 0x7000 is mapped; the sized read must not care
    let s = session_over(mem);
    let t = s.read_array_sized(0x100, 0x30).unwrap();
    assert_eq!(t.count, 5);
    assert_eq!(t.array_pointer, 0x7000);
    assert_eq!(t.element_pointer(1), 0x7030);
}

#[test]
fn an_oversized_element_buffer_is_refused_not_attempted() {
    let mut mem = SparseMemory::new();
    // count * item_size exceeds any host buffer; the bulk read must not start
    put_header(&mut mem, 0x100, 0x4000, u32::MAX);
    let s = session_over(mem);
    match s.read_array(0x100, u32::MAX) {
        Err(MemoryReaderError::MemoryReadingError(f)) => {
            assert_eq!(f.addr, 0x4000);
            assert_eq!(f.len, (u32::MAX as u64) * (u32::MAX as u64));
        }
        _ => panic!("expected a read error"),
    }
}
