//! Models of the target's object headers.
//!
//! These mirror the remote layouts byte for byte: pointers are 64-bit remote
//! addresses, never host pointers. Each is reconstructed from raw bytes read
//! out of the target, fields at their packed offsets, all little-endian.

use vstd::prelude::*;

use crate::memory::{bytes_at, MemorySource, ReadFailure};
use crate::reader::{MemoryReader, MemoryReaderError};

verus! {

/// A name reference: an index into the name table, plus padding the layout carries.
#[derive(PartialEq, Eq, Structural, Debug, Clone, Copy)]
pub struct FName {
    pub index: u32,
    pub unknown_data_00: u32,
}

/// An object header: 40 packed bytes.
#[derive(PartialEq, Eq, Structural, Debug, Clone, Copy)]
pub struct UObject {
    pub v_table_object: u64,
    pub object_flag: u32,
    pub internal_index: u32,
    pub u_class: u64,
    pub name: FName,
    pub outer: u64,
}

/// A class header: the same 40 packed bytes as an object header.
#[derive(PartialEq, Eq, Structural, Debug, Clone, Copy)]
pub struct UClass {
    pub v_table_object: u64,
    pub object_flag: u32,
    pub internal_index: u32,
    pub u_class: u64,
    pub name: FName,
    pub outer: u64,
}

/// One enumerated object as a plain record.
#[allow(dead_code)]
pub struct Actor {
    ptr: u64,
    id: u32,
    name: String,
}

/// Byte width of an object or class header.
pub const OBJECT_HEADER_SIZE: usize = 40;

/// The name reference encoded by 8 bytes.
pub open spec fn spec_fname(b: Seq<u8>) -> FName {
    FName {
        index: vstd::bytes::spec_u32_from_le_bytes(b.subrange(0, 4)),
        unknown_data_00: vstd::bytes::spec_u32_from_le_bytes(b.subrange(4, 8)),
    }
}

/// The object header encoded by 40 packed bytes.
pub open spec fn spec_uobject(b: Seq<u8>) -> UObject {
    UObject {
        v_table_object: vstd::bytes::spec_u64_from_le_bytes(b.subrange(0, 8)),
        object_flag: vstd::bytes::spec_u32_from_le_bytes(b.subrange(8, 12)),
        internal_index: vstd::bytes::spec_u32_from_le_bytes(b.subrange(12, 16)),
        u_class: vstd::bytes::spec_u64_from_le_bytes(b.subrange(16, 24)),
        name: spec_fname(b.subrange(24, 32)),
        outer: vstd::bytes::spec_u64_from_le_bytes(b.subrange(32, 40)),
    }
}

/// The class header encoded by 40 packed bytes.
pub open spec fn spec_uclass(b: Seq<u8>) -> UClass {
    UClass {
        v_table_object: vstd::bytes::spec_u64_from_le_bytes(b.subrange(0, 8)),
        object_flag: vstd::bytes::spec_u32_from_le_bytes(b.subrange(8, 12)),
        internal_index: vstd::bytes::spec_u32_from_le_bytes(b.subrange(12, 16)),
        u_class: vstd::bytes::spec_u64_from_le_bytes(b.subrange(16, 24)),
        name: spec_fname(b.subrange(24, 32)),
        outer: vstd::bytes::spec_u64_from_le_bytes(b.subrange(32, 40)),
    }
}

impl FName {
    /// The name reference read byte for byte from an 8-byte buffer.
    pub fn from_bytes(b: &[u8]) -> (r: FName)
        requires
            b@.len() == 8,
        ensures
            r == spec_fname(b@),
    {
        FName {
            index: vstd::bytes::u32_from_le_bytes(vstd::slice::slice_subrange(b, 0, 4)),
            unknown_data_00: vstd::bytes::u32_from_le_bytes(vstd::slice::slice_subrange(b, 4, 8)),
        }
    }
}

impl UObject {
    /// The object header read byte for byte from a 40-byte buffer.
    pub fn from_bytes(b: &[u8]) -> (r: UObject)
        requires
            b@.len() == OBJECT_HEADER_SIZE,
        ensures
            r == spec_uobject(b@),
    {
        UObject {
            v_table_object: vstd::bytes::u64_from_le_bytes(vstd::slice::slice_subrange(b, 0, 8)),
            object_flag: vstd::bytes::u32_from_le_bytes(vstd::slice::slice_subrange(b, 8, 12)),
            internal_index: vstd::bytes::u32_from_le_bytes(vstd::slice::slice_subrange(b, 12, 16)),
            u_class: vstd::bytes::u64_from_le_bytes(vstd::slice::slice_subrange(b, 16, 24)),
            name: FName::from_bytes(vstd::slice::slice_subrange(b, 24, 32)),
            outer: vstd::bytes::u64_from_le_bytes(vstd::slice::slice_subrange(b, 32, 40)),
        }
    }

    /// The object header that `mem` holds at `addr`, if its 40 bytes are mapped.
    pub open spec fn spec_at(mem: Map<u64, u8>, addr: u64) -> Option<UObject> {
        match bytes_at(mem, addr, OBJECT_HEADER_SIZE as int) {
            Some(b) => Some(spec_uobject(b)),
            None => None,
        }
    }

    /// Read the object header at `addr` out of the source.
    pub fn read_from<M: MemorySource>(rm: &MemoryReader<M>, addr: u64) -> (r: Result<
        UObject,
        MemoryReaderError,
    >)
        ensures
            r matches Ok(o) ==> UObject::spec_at(rm.mem(), addr) == Some(o),
            r matches Err(e) ==> match e {
                MemoryReaderError::MemoryReadingError(f) => UObject::spec_at(rm.mem(), addr)
                    is None && f == (ReadFailure { addr, len: OBJECT_HEADER_SIZE as u64 }),
                _ => false,
            },
    {
        match rm.read_bytes(addr, OBJECT_HEADER_SIZE) {
            Ok(b) => Ok(UObject::from_bytes(b.as_slice())),
            Err(e) => Err(e),
        }
    }
}

impl UClass {
    /// The class header read byte for byte from a 40-byte buffer.
    pub fn from_bytes(b: &[u8]) -> (r: UClass)
        requires
            b@.len() == OBJECT_HEADER_SIZE,
        ensures
            r == spec_uclass(b@),
    {
        UClass {
            v_table_object: vstd::bytes::u64_from_le_bytes(vstd::slice::slice_subrange(b, 0, 8)),
            object_flag: vstd::bytes::u32_from_le_bytes(vstd::slice::slice_subrange(b, 8, 12)),
            internal_index: vstd::bytes::u32_from_le_bytes(vstd::slice::slice_subrange(b, 12, 16)),
            u_class: vstd::bytes::u64_from_le_bytes(vstd::slice::slice_subrange(b, 16, 24)),
            name: FName::from_bytes(vstd::slice::slice_subrange(b, 24, 32)),
            outer: vstd::bytes::u64_from_le_bytes(vstd::slice::slice_subrange(b, 32, 40)),
        }
    }

    /// The class header that `mem` holds at `addr`, if its 40 bytes are mapped.
    pub open spec fn spec_at(mem: Map<u64, u8>, addr: u64) -> Option<UClass> {
        match bytes_at(mem, addr, OBJECT_HEADER_SIZE as int) {
            Some(b) => Some(spec_uclass(b)),
            None => None,
        }
    }

    /// Read the class header at `addr` out of the source.
    pub fn read_from<M: MemorySource>(rm: &MemoryReader<M>, addr: u64) -> (r: Result<
        UClass,
        MemoryReaderError,
    >)
        ensures
            r matches Ok(c) ==> UClass::spec_at(rm.mem(), addr) == Some(c),
            r matches Err(e) ==> match e {
                MemoryReaderError::MemoryReadingError(f) => UClass::spec_at(rm.mem(), addr)
                    is None && f == (ReadFailure { addr, len: OBJECT_HEADER_SIZE as u64 }),
                _ => false,
            },
    {
        match rm.read_bytes(addr, OBJECT_HEADER_SIZE) {
            Ok(b) => Ok(UClass::from_bytes(b.as_slice())),
            Err(e) => Err(e),
        }
    }
}

} // verus!
