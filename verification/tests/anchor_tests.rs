use sot_reader::memory::SparseMemory;
use sot_reader::reader::{MemoryReader, MemoryReaderError, SoTMemoryReader};

const BASE: u64 = 0x0014_0000;

const UWORLD_BYTES: [u8; 23] = [
    0x48, 0x8B, 0x05, 0xAA, 0xAA, 0xAA, 0xAA, 0x48, 0x8B, 0x88, 0xAA, 0xAA, 0xAA, 0xAA, 0x48,
    0x85, 0xC9, 0x74, 0x06, 0x48, 0x8B, 0x49, 0x70,
];
const GOBJECT_BYTES: [u8; 13] = [
    0x89, 0x0D, 0xAA, 0xAA, 0xAA, 0xAA, 0x48, 0x8B, 0xDF, 0x48, 0x89, 0x5C, 0x24,
];
const GNAME_BYTES: [u8; 17] = [
    0x48, 0x8B, 0x1D, 0xAA, 0xAA, 0xAA, 0xAA, 0x48, 0x85, 0xDB, 0x75, 0xAA, 0xB9, 0x08, 0x04,
    0x00, 0x00,
];

fn fixture_image() -> Vec<u8> {
    let mut img = vec![0u8; 0x90];
    img[0x10..0x10 + 23].copy_from_slice(&UWORLD_BYTES);
    img[0x40..0x40 + 13].copy_from_slice(&GOBJECT_BYTES);
    img[0x60..0x60 + 17].copy_from_slice(&GNAME_BYTES);
    img
}

fn fixture_memory() -> SparseMemory {
    let mut mem = SparseMemory::new();
    // name-table anchor: displacement at match + 3, target dereferenced once
    mem.write_u32(BASE + 0x60 + 3, 0x100);
    mem.write_u64(BASE + 0x60 + 0x100 + 7, 0xABCD_E000);
    // world anchor: displacement at match + 3, target dereferenced once
    mem.write_u32(BASE + 0x10 + 3, 0x200);
    mem.write_u64(BASE + 0x10 + 0x200 + 7, 0x5000_0000);
    // object-array anchor: displacement at match + 2, resolved but not dereferenced
    mem.write_u32(BASE + 0x40 + 2, 0x300);
    mem
}

#[test]
fn anchors_resolve_to_hand_computed_addresses() {
    let img = fixture_image();
    let mem = fixture_memory();
    let rm = MemoryReader::new(mem, BASE, &img).unwrap();
    assert_eq!(rm.u_world_base, 0x10);
    assert_eq!(rm.g_object_base, 0x40);
    assert_eq!(rm.g_name_base, 0x60);
    // moduleBase + matchOffset + displacement + trailing length, then one dereference
    assert_eq!(rm.g_name_start_address, 0xABCD_E000);
}

#[test]
fn session_reader_resolves_world_and_object_anchors() {
    let img = fixture_image();
    let mem = fixture_memory();
    let s = SoTMemoryReader::new(mem, BASE, &img).unwrap();
    assert_eq!(s.world_address, 0x5000_0000);
    assert_eq!(s.g_objects_address, BASE + 0x40 + 0x300 + 22);
}

#[test]
fn missing_anchor_names_the_anchor_that_failed() {
    let mut img = fixture_image();
    // corrupt the name-table signature only
    img[0x60] = 0x00;
    let mem = fixture_memory();
    match MemoryReader::new(mem, BASE, &img) {
        Err(MemoryReaderError::InitializationError(m)) => {
            assert_eq!(m, "Could not find g_name_base offsets");
        }
        _ => panic!("expected an initialization error"),
    }
}

#[test]
fn missing_world_anchor_is_reported_first() {
    let img = vec![0u8; 0x90];
    let mem = fixture_memory();
    match MemoryReader::new(mem, BASE, &img) {
        Err(MemoryReaderError::InitializationError(m)) => {
            assert_eq!(m, "Could not find u_world_base offsets");
        }
        _ => panic!("expected an initialization error"),
    }
}

#[test]
fn unreadable_displacement_is_a_tagged_read_error() {
    let img = fixture_image();
    let mut mem = SparseMemory::new();
    // only the world and object anchors would resolve; the name displacement is unmapped
    mem.write_u32(BASE + 0x10 + 3, 0x200);
    mem.write_u32(BASE + 0x40 + 2, 0x300);
    match MemoryReader::new(mem, BASE, &img) {
        Err(MemoryReaderError::MemoryReadingError(f)) => {
            assert_eq!(f.addr, BASE + 0x60 + 3);
            assert_eq!(f.len, 4);
        }
        _ => panic!("expected a read error"),
    }
}
