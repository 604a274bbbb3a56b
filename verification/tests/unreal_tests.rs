use sot_reader::memory::SparseMemory;
use sot_reader::reader::MemoryReader;
use sot_reader::unreal::{FName, UClass, UObject};

fn header_bytes() -> [u8; 40] {
    let mut b = [0u8; 40];
    b[0..8].copy_from_slice(&0x1111_2222_3333_4444u64.to_le_bytes());
    b[8..12].copy_from_slice(&0x55u32.to_le_bytes());
    b[12..16].copy_from_slice(&0x66u32.to_le_bytes());
    b[16..24].copy_from_slice(&0x7777_8888u64.to_le_bytes());
    b[24..28].copy_from_slice(&1001u32.to_le_bytes());
    b[28..32].copy_from_slice(&0u32.to_le_bytes());
    b[32..40].copy_from_slice(&0x9999_AAAAu64.to_le_bytes());
    b
}

#[test]
fn object_header_fields_sit_at_their_packed_offsets() {
    let o = UObject::from_bytes(&header_bytes());
    assert_eq!(o.v_table_object, 0x1111_2222_3333_4444);
    assert_eq!(o.object_flag, 0x55);
    assert_eq!(o.internal_index, 0x66);
    assert_eq!(o.u_class, 0x7777_8888);
    assert_eq!(o.name, FName { index: 1001, unknown_data_00: 0 });
    assert_eq!(o.outer, 0x9999_AAAA);
}

#[test]
fn class_header_reads_like_an_object_header() {
    let c = UClass::from_bytes(&header_bytes());
    assert_eq!(c.u_class, 0x7777_8888);
    assert_eq!(c.name.index, 1001);
}

fn reader_over(mem: SparseMemory) -> MemoryReader<SparseMemory> {
    MemoryReader {
        source: mem,
        module_base: 0,
        u_world_base: 0,
        g_object_base: 0,
        g_name_base: 0,
        g_name_start_address: 0,
    }
}

#[test]
fn object_headers_read_out_of_the_source() {
    let mut mem = SparseMemory::new();
    mem.write_bytes(0x4000, &header_bytes());
    let rm = reader_over(mem);
    let o = UObject::read_from(&rm, 0x4000).unwrap();
    assert_eq!(o.name.index, 1001);
    assert!(UObject::read_from(&rm, 0x5000).is_err());
}

#[test]
fn offset_chains_walk_pointer_then_offset() {
    let mut mem = SparseMemory::new();
    // base -> 0x2000; 0x2000 + 0x10 -> 0x3000; 0x3000 + 0x8 holds the value
    mem.write_u64(0x1000, 0x2000);
    mem.write_u64(0x2000 + 0x10, 0x3000);
    mem.write_u32(0x3000 + 0x8, 42);
    let rm = reader_over(mem);
    assert_eq!(rm.read_offset_chain(0x1000, &vec![0x10, 0x8]).unwrap(), 42);
}

#[test]
fn a_broken_chain_step_fails_the_walk() {
    let mut mem = SparseMemory::new();
    mem.write_u64(0x1000, 0x2000);
    let rm = reader_over(mem);
    assert!(rm.read_offset_chain(0x1000, &vec![0x10, 0x8]).is_err());
}

#[test]
fn an_empty_chain_reads_at_the_base() {
    let mut mem = SparseMemory::new();
    mem.write_u32(0x1000, 7);
    let rm = reader_over(mem);
    assert_eq!(rm.read_offset_chain(0x1000, &vec![]).unwrap(), 7);
}
