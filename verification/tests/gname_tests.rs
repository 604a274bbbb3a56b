use sot_reader::memory::SparseMemory;
use sot_reader::reader::{MemoryReader, MemoryReaderError};

const BASE: u64 = 0x0014_0000;
const GSTART: u64 = 0x9000_0000;

fn reader_over(mem: SparseMemory) -> MemoryReader<SparseMemory> {
    MemoryReader {
        source: mem,
        module_base: BASE,
        u_world_base: 0,
        g_object_base: 0,
        g_name_base: 0,
        g_name_start_address: GSTART,
    }
}

/// Map one name entry: the chunk pointer at index id / 0x4000, the name pointer
/// at slot id % 0x4000, and a 64-byte buffer at the fixed text offset.
fn put_name(mem: &mut SparseMemory, id: u32, text: &[u8]) {
    assert!(text.len() <= 64);
    let chunk = (id / 0x4000) as u64;
    let slot = (id % 0x4000) as u64;
    let chunk_base = 0x2000_0000u64 + chunk * 0x10_0000;
    let name_addr = 0x3000_0000u64 + (id as u64) * 0x100;
    mem.write_u64(GSTART + chunk * 8, chunk_base);
    mem.write_u64(chunk_base + slot * 8, name_addr);
    let mut buf = [0u8; 64];
    buf[..text.len()].copy_from_slice(text);
    mem.write_bytes(name_addr + 0x10, &buf);
}

#[test]
fn narrow_name_round_trips() {
    let mut mem = SparseMemory::new();
    let id = 2 * 0x4000 + 5;
    put_name(&mut mem, id, b"Crate");
    let rm = reader_over(mem);
    assert_eq!(rm.read_gname(id).unwrap(), "Crate");
}

#[test]
fn wide_name_round_trips() {
    let mut mem = SparseMemory::new();
    // "ΩΣ" as 16-bit little-endian units; the zero padding of the buffer gives
    // the run of three zero bytes that anchors the 16-bit terminator
    let id = 7;
    put_name(&mut mem, id, &[0xA9, 0x03, 0xA3, 0x03]);
    let rm = reader_over(mem);
    assert_eq!(rm.read_gname(id).unwrap(), "\u{3A9}\u{3A3}");
}

#[test]
fn chunk_and_slot_arithmetic_is_used_consistently() {
    let mut mem = SparseMemory::new();
    // two identities in different chunks and slots must not collide
    let a = 0x4000 + 1;
    let b = 3 * 0x4000 + 0x3FFF;
    put_name(&mut mem, a, b"First");
    put_name(&mut mem, b, b"Second");
    let rm = reader_over(mem);
    assert_eq!(rm.read_gname(a).unwrap(), "First");
    assert_eq!(rm.read_gname(b).unwrap(), "Second");
}

#[test]
fn undecodable_buffer_is_a_conversion_error() {
    let mut mem = SparseMemory::new();
    let id = 11;
    put_name(&mut mem, id, b"x");
    // overwrite the whole buffer with bytes that fit neither shape: no zero
    // byte, not well-formed narrow text, no run of three zero bytes
    let name_addr = 0x3000_0000u64 + (id as u64) * 0x100;
    mem.write_bytes(name_addr + 0x10, &[0xFF; 64]);
    let rm = reader_over(mem);
    assert!(matches!(
        rm.read_gname(id),
        Err(MemoryReaderError::ByteToStringConversion)
    ));
}

#[test]
fn unmapped_chunk_pointer_is_a_tagged_read_error() {
    let mem = SparseMemory::new();
    let rm = reader_over(mem);
    let id = 5 * 0x4000 + 3;
    match rm.read_gname(id) {
        Err(MemoryReaderError::MemoryReadingError(f)) => {
            assert_eq!(f.addr, GSTART + 5 * 8);
            assert_eq!(f.len, 8);
        }
        _ => panic!("expected a read error"),
    }
}

#[test]
fn read_string_decodes_prefix_before_first_zero() {
    let mut mem = SparseMemory::new();
    mem.write_bytes(0x100, b"Player\0garbage");
    let rm = reader_over(mem);
    assert_eq!(rm.read_string(0x100, 14).unwrap(), "Player");
}

#[test]
fn read_name_string_decodes_wide_only() {
    let mut mem = SparseMemory::new();
    // "é" twice as 16-bit units, then a 16-bit terminator and padding
    mem.write_bytes(0x200, &[0xE9, 0x00, 0xE9, 0x00, 0x00, 0x00, 0x00, 0x00]);
    let rm = reader_over(mem);
    // the byte-level scan anchors at the first run of three zero bytes, which
    // begins inside the second unit's low byte: only the first unit survives
    assert_eq!(rm.read_name_string(0x200, 8).unwrap(), "\u{E9}");
}

#[test]
fn read_string_default_size_reads_124_bytes() {
    let mut mem = SparseMemory::new();
    let mut buf = [0u8; 124];
    buf[..5].copy_from_slice(b"hello");
    mem.write_bytes(0x300, &buf);
    let rm = reader_over(mem);
    assert_eq!(rm.read_string_default_size(0x300).unwrap(), "hello");
    // one byte short of the fixed buffer: the read must fail, tagged with it
    let mut mem2 = SparseMemory::new();
    mem2.write_bytes(0x300, &buf[..123]);
    let rm2 = reader_over(mem2);
    match rm2.read_string_default_size(0x300) {
        Err(MemoryReaderError::MemoryReadingError(f)) => {
            assert_eq!(f.addr, 0x300);
            assert_eq!(f.len, 124);
        }
        _ => panic!("expected a read error"),
    }
}
