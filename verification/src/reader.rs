//! Anchor discovery and the typed remote-read layer.
//!
//! [`MemoryReader`] owns a memory source and the module-relative offsets of
//! three anchor instructions, found once by signature scanning. Each anchor is
//! resolved in two steps: read a 4-byte displacement a fixed number of bytes
//! after the match, then add match offset, displacement and the instruction's
//! trailing length to the module base. The skip and trailing-length constants
//! are per-anchor instruction-encoding properties of each signature, re-derived
//! per target build. [`SoTMemoryReader`] adds the world anchor and the dynamic
//! array reads built on it. All address arithmetic on remote pointers wraps at
//! 64 bits; a wrapped range simply fails to read.

use vstd::prelude::*;

use crate::decode::{decode_string_buffer, decode_wide, spec_decode_string, spec_decode_wide};
use crate::memory::{bytes_at, u32_at, u64_at, MemorySource, ReadFailure};
use crate::pattern::{find_pattern, parse_signature, spec_find_pattern, spec_parse_signature};
use crate::tarray::{TArray, TArrayStruct};

verus! {

/// Signature of the instruction that references the world pointer.
pub const UWORLDPATTERN: &'static str =
    "48 8B 05 ? ? ? ? 48 8B 88 ? ? ? ? 48 85 C9 74 06 48 8B 49 70";

/// Signature of the instruction that references the object array.
pub const GOBJECTPATTERN: &'static str = "89 0D ? ? ? ? 48 8B DF 48 89 5C 24";

/// Signature of the instruction that references the name table.
pub const GNAMEPATTERN: &'static str = "48 8B 1D ? ? ? ? 48 85 DB 75 ? B9 08 04 00 00";

/// Bytes from the world match to its embedded displacement.
pub const WORLD_DISP_SKIP: u64 = 3;

/// Trailing instruction length added after the world displacement.
pub const WORLD_INSTR_LEN: u64 = 7;

/// Bytes from the object-array match to its embedded displacement.
pub const OBJECTS_DISP_SKIP: u64 = 2;

/// Trailing instruction length added after the object-array displacement.
pub const OBJECTS_INSTR_LEN: u64 = 22;

/// Bytes from the name-table match to its embedded displacement.
pub const NAMES_DISP_SKIP: u64 = 3;

/// Trailing instruction length added after the name-table displacement.
pub const NAMES_INSTR_LEN: u64 = 7;

/// How many name pointers one chunk of the name table holds.
pub const NAME_CHUNK_SIZE: u32 = 0x4000;

/// Byte offset of the decoded text inside a name object.
pub const NAME_TEXT_OFFSET: u64 = 0x10;

/// Byte size of one name read.
pub const NAME_BUFFER_SIZE: usize = 64;

/// Default byte size of a generic string read.
pub const STRING_BUFFER_SIZE: usize = 124;

/// What can go wrong in the reading layer.
#[derive(Debug)]
pub enum MemoryReaderError {
    /// An anchor signature was not found at start-up; the message names it.
    InitializationError(String),
    /// A remote read failed, tagged with the requested address and length.
    MemoryReadingError(ReadFailure),
    /// A string buffer matched neither the narrow nor the wide shape.
    ByteToStringConversion,
}

/// One enumerated object: a numeric identity, its display name, and the base
/// address of the first instance seen with that identity.
#[derive(Debug, Clone)]
pub struct ActorInfo {
    pub id: u32,
    pub raw_name: String,
    pub base_address: u64,
}

/// The offset of a signature in the image: the pattern text parsed, then the
/// first match position.
pub open spec fn spec_sig_offset(img: Seq<u8>, pattern: Seq<char>) -> Option<int> {
    match spec_parse_signature(pattern) {
        Some(sig) => spec_find_pattern(img, sig),
        None => None,
    }
}

/// Step one to three of anchor resolution: read the 4-byte displacement at
/// `base + off + skip`, then form `base + off + displacement + instr_len`,
/// wrapping at 64 bits.
pub open spec fn anchor_target(mem: Map<u64, u8>, base: u64, off: u64, skip: u64, instr_len: u64) -> Option<
    u64,
> {
    match u32_at(mem, base.wrapping_add(off).wrapping_add(skip)) {
        Some(d) => Some(base.wrapping_add(off).wrapping_add(d as u64).wrapping_add(instr_len)),
        None => None,
    }
}

/// Step four of anchor resolution: dereference the target once.
pub open spec fn anchor_value(mem: Map<u64, u8>, base: u64, off: u64, skip: u64, instr_len: u64) -> Option<
    u64,
> {
    match anchor_target(mem, base, off, skip, instr_len) {
        Some(t) => u64_at(mem, t),
        None => None,
    }
}

/// The read failure that anchor resolution reports: the displacement read's tag
/// if that failed, else the dereference's tag.
pub open spec fn anchor_read_failure(
    mem: Map<u64, u8>,
    base: u64,
    off: u64,
    skip: u64,
    instr_len: u64,
    f: ReadFailure,
) -> bool {
    let da = base.wrapping_add(off).wrapping_add(skip);
    match u32_at(mem, da) {
        None => f == (ReadFailure { addr: da, len: 4 }),
        Some(d) => {
            let t = base.wrapping_add(off).wrapping_add(d as u64).wrapping_add(instr_len);
            u64_at(mem, t) is None && f == (ReadFailure { addr: t, len: 8 })
        },
    }
}

/// True when the world signature occurs in the image.
pub open spec fn world_found(img: Seq<u8>) -> bool {
    spec_sig_offset(img, UWORLDPATTERN@) is Some
}

/// True when the object-array signature occurs in the image.
pub open spec fn objects_found(img: Seq<u8>) -> bool {
    spec_sig_offset(img, GOBJECTPATTERN@) is Some
}

/// True when the name-table signature occurs in the image.
pub open spec fn names_found(img: Seq<u8>) -> bool {
    spec_sig_offset(img, GNAMEPATTERN@) is Some
}

/// The whole anchor set, if all three signatures occur in the image and the
/// name-table anchor resolves and dereferences: the three match offsets and the
/// name table's start address.
pub open spec fn spec_anchors(mem: Map<u64, u8>, base: u64, img: Seq<u8>) -> Option<
    (u64, u64, u64, u64),
> {
    match (
        spec_sig_offset(img, UWORLDPATTERN@),
        spec_sig_offset(img, GOBJECTPATTERN@),
        spec_sig_offset(img, GNAMEPATTERN@),
    ) {
        (Some(w), Some(o), Some(n)) => match anchor_value(
            mem,
            base,
            n as u64,
            NAMES_DISP_SKIP,
            NAMES_INSTR_LEN,
        ) {
            Some(g) => Some((w as u64, o as u64, n as u64, g)),
            None => None,
        },
        _ => None,
    }
}

/// The address of the chunk pointer for `id`: chunk index `id / 0x4000`, eight
/// bytes per chunk pointer.
pub open spec fn gname_chunk_addr(start: u64, id: u32) -> u64 {
    start.wrapping_add((((id / NAME_CHUNK_SIZE) as u64) * 8) as u64)
}

/// The address of the name pointer for `id` within its chunk: slot `id % 0x4000`,
/// eight bytes per name pointer.
pub open spec fn gname_slot_addr(chunk: u64, id: u32) -> u64 {
    chunk.wrapping_add((8 * ((id % NAME_CHUNK_SIZE) as u64)) as u64)
}

/// The 64-byte name buffer for `id`: chunk pointer, then name pointer, then the
/// bytes at the fixed text offset.
pub open spec fn spec_gname_buffer(mem: Map<u64, u8>, start: u64, id: u32) -> Option<Seq<u8>> {
    match u64_at(mem, gname_chunk_addr(start, id)) {
        None => None,
        Some(c) => match u64_at(mem, gname_slot_addr(c, id)) {
            None => None,
            Some(p) => bytes_at(mem, p.wrapping_add(NAME_TEXT_OFFSET), NAME_BUFFER_SIZE as int),
        },
    }
}

/// The display name for `id`: its buffer decoded under the narrow-then-wide policy.
pub open spec fn spec_gname(mem: Map<u64, u8>, start: u64, id: u32) -> Option<Seq<char>> {
    match spec_gname_buffer(mem, start, id) {
        Some(b) => spec_decode_string(b),
        None => None,
    }
}

/// The read failure that name resolution reports: the tag of the first of its
/// three reads that failed.
pub open spec fn gname_read_failure(mem: Map<u64, u8>, start: u64, id: u32, f: ReadFailure) -> bool {
    let ca = gname_chunk_addr(start, id);
    match u64_at(mem, ca) {
        None => f == (ReadFailure { addr: ca, len: 8 }),
        Some(c) => {
            let sa = gname_slot_addr(c, id);
            match u64_at(mem, sa) {
                None => f == (ReadFailure { addr: sa, len: 8 }),
                Some(p) => f == (ReadFailure {
                    addr: p.wrapping_add(NAME_TEXT_OFFSET),
                    len: NAME_BUFFER_SIZE as u64,
                }),
            }
        },
    }
}

/// The 12-byte dynamic array header at `addr`: data pointer, then element count.
pub open spec fn spec_array_header(mem: Map<u64, u8>, addr: u64) -> Option<(u64, u32)> {
    match bytes_at(mem, addr, 12) {
        Some(h) => Some(
            (
                vstd::bytes::spec_u64_from_le_bytes(h.take(8)),
                vstd::bytes::spec_u32_from_le_bytes(h.skip(8)),
            ),
        ),
        None => None,
    }
}

/// The backing bytes and count of the dynamic array at `addr`: a zero count is
/// an empty buffer with no element read at all; otherwise the bulk read of
/// `count * item_size` bytes at the header's pointer, which must also fit the
/// host's buffer limit.
pub open spec fn spec_array_bytes(mem: Map<u64, u8>, addr: u64, item_size: u32) -> Option<
    (Seq<u8>, u32),
> {
    match spec_array_header(mem, addr) {
        None => None,
        Some((p, count)) => if count == 0 {
            Some((Seq::empty(), 0))
        } else {
            let total = count * item_size;
            if total > usize::MAX {
                None
            } else {
                match bytes_at(mem, p, total as int) {
                    Some(b) => Some((b, count)),
                    None => None,
                }
            }
        },
    }
}

/// The read failure that a dynamic array read reports: the header read's tag if
/// that failed, else the bulk element read's tag.
pub open spec fn array_read_failure(mem: Map<u64, u8>, addr: u64, item_size: u32, f: ReadFailure) -> bool {
    match spec_array_header(mem, addr) {
        None => f == (ReadFailure { addr, len: 12 }),
        Some((p, count)) => count > 0 && f == (ReadFailure {
            addr: p,
            len: (count * item_size) as u64,
        }),
    }
}


/// The address a pointer chain ends at: starting from `base`, dereference an
/// 8-byte pointer and add the next offset, once per offset.
pub open spec fn spec_chain_addr(mem: Map<u64, u8>, base: u64, offs: Seq<u32>) -> Option<u64>
    decreases offs.len(),
{
    if offs.len() == 0 {
        Some(base)
    } else {
        match u64_at(mem, base) {
            None => None,
            Some(p) => spec_chain_addr(mem, p.wrapping_add(offs[0] as u64), offs.drop_first()),
        }
    }
}

/// The 4-byte value at the end of a pointer chain, if every step reads.
pub open spec fn spec_chain_u32(mem: Map<u64, u8>, base: u64, offs: Seq<u32>) -> Option<u32> {
    match spec_chain_addr(mem, base, offs) {
        Some(a) => u32_at(mem, a),
        None => None,
    }
}


/// A dynamic array read is a fresh snapshot of the header: the count that
/// comes back is exactly the count the header holds in the memory the read
/// went to, never a remembered one. Reading through two different memory
/// states yields each state's own count.
pub proof fn lemma_array_count_fresh(
    mem1: Map<u64, u8>,
    mem2: Map<u64, u8>,
    addr: u64,
    item_size: u32,
)
    ensures
        spec_array_bytes(mem1, addr, item_size) matches Some(hc) ==> (spec_array_header(
            mem1,
            addr,
        ) matches Some(h) && h.1 == hc.1),
        spec_array_bytes(mem2, addr, item_size) matches Some(hc) ==> (spec_array_header(
            mem2,
            addr,
        ) matches Some(h) && h.1 == hc.1),
{
}

/// Read a little-endian 32-bit value out of the source.
pub fn read_u32_from<M: MemorySource>(m: &M, addr: u64) -> (r: Result<u32, ReadFailure>)
    ensures
        r matches Ok(v) ==> u32_at(m.mem(), addr) == Some(v),
        r is Err ==> u32_at(m.mem(), addr) is None,
        r matches Err(f) ==> f == (ReadFailure { addr, len: 4 }),
{
    match m.read_bytes(addr, 4) {
        Ok(b) => Ok(vstd::bytes::u32_from_le_bytes(b.as_slice())),
        Err(f) => Err(f),
    }
}

/// Read a little-endian 64-bit value out of the source.
pub fn read_u64_from<M: MemorySource>(m: &M, addr: u64) -> (r: Result<u64, ReadFailure>)
    ensures
        r matches Ok(v) ==> u64_at(m.mem(), addr) == Some(v),
        r is Err ==> u64_at(m.mem(), addr) is None,
        r matches Err(f) ==> f == (ReadFailure { addr, len: 8 }),
{
    match m.read_bytes(addr, 8) {
        Ok(b) => Ok(vstd::bytes::u64_from_le_bytes(b.as_slice())),
        Err(f) => Err(f),
    }
}

/// Resolve an anchor to the address its instruction referenced.
fn resolve_anchor_target<M: MemorySource>(m: &M, base: u64, off: u64, skip: u64, instr_len: u64) -> (r:
    Result<u64, ReadFailure>)
    ensures
        r matches Ok(t) ==> anchor_target(m.mem(), base, off, skip, instr_len) == Some(t),
        r is Err ==> anchor_target(m.mem(), base, off, skip, instr_len) is None,
        r matches Err(f) ==> f == (ReadFailure {
            addr: base.wrapping_add(off).wrapping_add(skip),
            len: 4,
        }),
{
    let da = base.wrapping_add(off).wrapping_add(skip);
    match read_u32_from(m, da) {
        Ok(d) => Ok(base.wrapping_add(off).wrapping_add(d as u64).wrapping_add(instr_len)),
        Err(f) => Err(f),
    }
}

/// Resolve an anchor and dereference the target once.
fn resolve_anchor_value<M: MemorySource>(m: &M, base: u64, off: u64, skip: u64, instr_len: u64) -> (r:
    Result<u64, ReadFailure>)
    ensures
        r matches Ok(v) ==> anchor_value(m.mem(), base, off, skip, instr_len) == Some(v),
        r is Err ==> anchor_value(m.mem(), base, off, skip, instr_len) is None,
        r matches Err(f) ==> anchor_read_failure(m.mem(), base, off, skip, instr_len, f),
{
    match resolve_anchor_target(m, base, off, skip, instr_len) {
        Ok(t) => read_u64_from(m, t),
        Err(f) => Err(f),
    }
}

/// Read a dynamic array header out of the source.
fn read_array_header<M: MemorySource>(m: &M, addr: u64) -> (r: Result<(u64, u32), ReadFailure>)
    ensures
        r matches Ok(h) ==> spec_array_header(m.mem(), addr) == Some(h),
        r is Err ==> spec_array_header(m.mem(), addr) is None,
        r matches Err(f) ==> f == (ReadFailure { addr, len: 12 }),
{
    match m.read_bytes(addr, 12) {
        Ok(h) => {
            let pb = vstd::slice::slice_subrange(h.as_slice(), 0, 8);
            let cb = vstd::slice::slice_subrange(h.as_slice(), 8, 12);
            let p = vstd::bytes::u64_from_le_bytes(pb);
            let c = vstd::bytes::u32_from_le_bytes(cb);
            proof {
                assert(h@.subrange(0, 8) =~= h@.take(8));
                assert(h@.subrange(8, 12) =~= h@.skip(8));
            }
            Ok((p, c))
        },
        Err(f) => Err(f),
    }
}

/// The read layer: a memory source plus the anchors found in the module image.
pub struct MemoryReader<M: MemorySource> {
    pub source: M,
    pub module_base: u64,
    pub u_world_base: u64,
    pub g_object_base: u64,
    pub g_name_base: u64,
    pub g_name_start_address: u64,
}

impl<M: MemorySource> MemoryReader<M> {
    /// The mapped bytes of the underlying source.
    pub open spec fn mem(&self) -> Map<u64, u8> {
        self.source.mem()
    }

    /// Scan the module image for the three anchor signatures and resolve the
    /// name table's start address. Absence of any anchor is fatal, with an
    /// error naming the anchor that failed.
    pub fn new(source: M, module_base: u64, image: &[u8]) -> (r: Result<Self, MemoryReaderError>)
        ensures
            r matches Ok(reader) ==> ({
                &&& reader.mem() == source.mem()
                &&& reader.module_base == module_base
                &&& spec_anchors(source.mem(), module_base, image@) == Some(
                    (
                        reader.u_world_base,
                        reader.g_object_base,
                        reader.g_name_base,
                        reader.g_name_start_address,
                    ),
                )
            }),
            r is Err ==> spec_anchors(source.mem(), module_base, image@) is None,
            r matches Err(e) ==> match e {
                MemoryReaderError::InitializationError(m) => (!world_found(image@) && m@
                    == "Could not find u_world_base offsets"@) || (world_found(image@)
                    && !objects_found(image@) && m@ == "Could not find g_object_base offsets"@) || (
                world_found(image@) && objects_found(image@) && !names_found(image@) && m@
                    == "Could not find g_name_base offsets"@),
                MemoryReaderError::MemoryReadingError(f) => world_found(image@) && objects_found(
                    image@,
                ) && names_found(image@) && (spec_sig_offset(image@, GNAMEPATTERN@) matches Some(n)
                    && anchor_read_failure(
                    source.mem(),
                    module_base,
                    n as u64,
                    NAMES_DISP_SKIP,
                    NAMES_INSTR_LEN,
                    f,
                )),
                MemoryReaderError::ByteToStringConversion => false,
            },
    {
        let w = match parse_signature(UWORLDPATTERN) {
            Some(sig) => match find_pattern(image, &sig) {
                Some(w) => w,
                None => {
                    return Err(
                        MemoryReaderError::InitializationError(
                            "Could not find u_world_base offsets".to_owned(),
                        ),
                    );
                },
            },
            None => {
                return Err(
                    MemoryReaderError::InitializationError(
                        "Could not find u_world_base offsets".to_owned(),
                    ),
                );
            },
        };
        let o = match parse_signature(GOBJECTPATTERN) {
            Some(sig) => match find_pattern(image, &sig) {
                Some(o) => o,
                None => {
                    return Err(
                        MemoryReaderError::InitializationError(
                            "Could not find g_object_base offsets".to_owned(),
                        ),
                    );
                },
            },
            None => {
                return Err(
                    MemoryReaderError::InitializationError(
                        "Could not find g_object_base offsets".to_owned(),
                    ),
                );
            },
        };
        let n = match parse_signature(GNAMEPATTERN) {
            Some(sig) => match find_pattern(image, &sig) {
                Some(n) => n,
                None => {
                    return Err(
                        MemoryReaderError::InitializationError(
                            "Could not find g_name_base offsets".to_owned(),
                        ),
                    );
                },
            },
            None => {
                return Err(
                    MemoryReaderError::InitializationError(
                        "Could not find g_name_base offsets".to_owned(),
                    ),
                );
            },
        };
        let g_name_start_address = match resolve_anchor_value(
            &source,
            module_base,
            n as u64,
            NAMES_DISP_SKIP,
            NAMES_INSTR_LEN,
        ) {
            Ok(g) => g,
            Err(f) => {
                return Err(MemoryReaderError::MemoryReadingError(f));
            },
        };
        Ok(
            MemoryReader {
                source,
                module_base,
                u_world_base: w as u64,
                g_object_base: o as u64,
                g_name_base: n as u64,
                g_name_start_address,
            },
        )
    }


    /// Walk a pointer chain: dereference the base, add the first offset,
    /// dereference again, and so on; the final address is read as a 4-byte
    /// value. The walk fails as soon as any one read fails.
    pub fn read_offset_chain(&self, base: u64, offsets: &Vec<u32>) -> (r: Result<
        u32,
        MemoryReaderError,
    >)
        ensures
            r matches Ok(v) ==> spec_chain_u32(self.mem(), base, offsets@) == Some(v),
            r matches Err(e) ==> spec_chain_u32(self.mem(), base, offsets@) is None && e matches
                MemoryReaderError::MemoryReadingError(_),
    {
        proof {
            assert(offsets@.skip(0) =~= offsets@);
        }
        let n = offsets.len();
        let mut addr = base;
        let mut i: usize = 0;
        while i < n
            invariant
                0 <= i <= n,
                n == offsets@.len(),
                spec_chain_addr(self.mem(), base, offsets@) == spec_chain_addr(
                    self.mem(),
                    addr,
                    offsets@.skip(i as int),
                ),
            decreases n - i,
        {
            proof {
                let rest = offsets@.skip(i as int);
                assert(rest[0] == offsets@[i as int]);
                assert(rest.drop_first() =~= offsets@.skip(i + 1 as int));
            }
            let p = match read_u64_from(&self.source, addr) {
                Ok(p) => p,
                Err(f) => {
                    return Err(MemoryReaderError::MemoryReadingError(f));
                },
            };
            addr = p.wrapping_add(offsets[i] as u64);
            i = i + 1;
        }
        proof {
            assert(offsets@.skip(n as int) =~= Seq::<u32>::empty());
        }
        match read_u32_from(&self.source, addr) {
            Ok(v) => Ok(v),
            Err(f) => Err(MemoryReaderError::MemoryReadingError(f)),
        }
    }

    /// Read raw bytes, tagging a failure with the requested address and length.
    pub fn read_bytes(&self, address: u64, size: usize) -> (r: Result<Vec<u8>, MemoryReaderError>)
        ensures
            r matches Ok(v) ==> bytes_at(self.mem(), address, size as int) == Some(v@),
            r matches Err(e) ==> match e {
                MemoryReaderError::MemoryReadingError(f) => bytes_at(self.mem(), address, size as int)
                    is None && f == (ReadFailure { addr: address, len: size as u64 }),
                _ => false,
            },
    {
        match self.source.read_bytes(address, size) {
            Ok(v) => Ok(v),
            Err(f) => Err(MemoryReaderError::MemoryReadingError(f)),
        }
    }

    /// Read an 8-byte remote pointer.
    pub fn read_pointer(&self, address: u64) -> (r: Result<u64, MemoryReaderError>)
        ensures
            r matches Ok(v) ==> u64_at(self.mem(), address) == Some(v),
            r matches Err(e) ==> match e {
                MemoryReaderError::MemoryReadingError(f) => u64_at(self.mem(), address) is None && f
                    == (ReadFailure { addr: address, len: 8 }),
                _ => false,
            },
    {
        match read_u64_from(&self.source, address) {
            Ok(v) => Ok(v),
            Err(f) => Err(MemoryReaderError::MemoryReadingError(f)),
        }
    }

    /// Read a 4-byte remote value.
    pub fn read_u32(&self, address: u64) -> (r: Result<u32, MemoryReaderError>)
        ensures
            r matches Ok(v) ==> u32_at(self.mem(), address) == Some(v),
            r matches Err(e) ==> match e {
                MemoryReaderError::MemoryReadingError(f) => u32_at(self.mem(), address) is None && f
                    == (ReadFailure { addr: address, len: 4 }),
                _ => false,
            },
    {
        match read_u32_from(&self.source, address) {
            Ok(v) => Ok(v),
            Err(f) => Err(MemoryReaderError::MemoryReadingError(f)),
        }
    }

    /// Read and decode a string buffer of `size` bytes at `address`.
    pub fn read_string(&self, address: u64, size: usize) -> (r: Result<String, MemoryReaderError>)
        ensures
            r matches Ok(s) ==> (bytes_at(self.mem(), address, size as int) matches Some(b)
                && spec_decode_string(b) == Some(s@)),
            r matches Err(e) ==> match e {
                MemoryReaderError::MemoryReadingError(f) => bytes_at(self.mem(), address, size as int)
                    is None && f == (ReadFailure { addr: address, len: size as u64 }),
                MemoryReaderError::ByteToStringConversion => (bytes_at(
                    self.mem(),
                    address,
                    size as int,
                ) matches Some(b) && spec_decode_string(b) is None),
                MemoryReaderError::InitializationError(_) => false,
            },
    {
        let buffer = match self.source.read_bytes(address, size) {
            Ok(b) => b,
            Err(f) => {
                return Err(MemoryReaderError::MemoryReadingError(f));
            },
        };
        match decode_string_buffer(buffer.as_slice()) {
            Some(s) => Ok(s),
            None => Err(MemoryReaderError::ByteToStringConversion),
        }
    }

    /// Read and decode a string buffer of the default size.
    pub fn read_string_default_size(&self, address: u64) -> (r: Result<String, MemoryReaderError>)
        ensures
            r matches Ok(s) ==> (bytes_at(self.mem(), address, STRING_BUFFER_SIZE as int)
                matches Some(b) && spec_decode_string(b) == Some(s@)),
            r matches Err(e) ==> match e {
                MemoryReaderError::MemoryReadingError(f) => bytes_at(
                    self.mem(),
                    address,
                    STRING_BUFFER_SIZE as int,
                ) is None && f == (ReadFailure { addr: address, len: STRING_BUFFER_SIZE as u64 }),
                MemoryReaderError::ByteToStringConversion => (bytes_at(
                    self.mem(),
                    address,
                    STRING_BUFFER_SIZE as int,
                ) matches Some(b) && spec_decode_string(b) is None),
                MemoryReaderError::InitializationError(_) => false,
            },
    {
        self.read_string(address, STRING_BUFFER_SIZE)
    }

    /// Read a string buffer and decode it under the wide interpretation only.
    pub fn read_name_string(&self, address: u64, size: usize) -> (r: Result<
        String,
        MemoryReaderError,
    >)
        ensures
            r matches Ok(s) ==> (bytes_at(self.mem(), address, size as int) matches Some(b)
                && spec_decode_wide(b) == Some(s@)),
            r matches Err(e) ==> match e {
                MemoryReaderError::MemoryReadingError(f) => bytes_at(self.mem(), address, size as int)
                    is None && f == (ReadFailure { addr: address, len: size as u64 }),
                MemoryReaderError::ByteToStringConversion => (bytes_at(
                    self.mem(),
                    address,
                    size as int,
                ) matches Some(b) && spec_decode_wide(b) is None),
                MemoryReaderError::InitializationError(_) => false,
            },
    {
        let buffer = match self.source.read_bytes(address, size) {
            Ok(b) => b,
            Err(f) => {
                return Err(MemoryReaderError::MemoryReadingError(f));
            },
        };
        match decode_wide(buffer.as_slice()) {
            Some(s) => Ok(s),
            None => Err(MemoryReaderError::ByteToStringConversion),
        }
    }

    /// Resolve an identity to its display name through the two-level name table:
    /// chunk pointer at index `id / 0x4000`, name pointer at slot `id % 0x4000`,
    /// then the 64-byte buffer at the fixed text offset, decoded.
    pub fn read_gname(&self, actor_id: u32) -> (r: Result<String, MemoryReaderError>)
        ensures
            r matches Ok(s) ==> spec_gname(self.mem(), self.g_name_start_address, actor_id) == Some(
                s@,
            ),
            r matches Err(e) ==> match e {
                MemoryReaderError::MemoryReadingError(f) => spec_gname_buffer(
                    self.mem(),
                    self.g_name_start_address,
                    actor_id,
                ) is None && gname_read_failure(
                    self.mem(),
                    self.g_name_start_address,
                    actor_id,
                    f,
                ),
                MemoryReaderError::ByteToStringConversion => (spec_gname_buffer(
                    self.mem(),
                    self.g_name_start_address,
                    actor_id,
                ) matches Some(b) && spec_decode_string(b) is None),
                MemoryReaderError::InitializationError(_) => false,
            },
    {
        let chunk_addr = self.g_name_start_address.wrapping_add(
            ((actor_id / NAME_CHUNK_SIZE) as u64) * 8,
        );
        let chunk = match read_u64_from(&self.source, chunk_addr) {
            Ok(c) => c,
            Err(f) => {
                return Err(MemoryReaderError::MemoryReadingError(f));
            },
        };
        let slot_addr = chunk.wrapping_add(8 * ((actor_id % NAME_CHUNK_SIZE) as u64));
        let name = match read_u64_from(&self.source, slot_addr) {
            Ok(p) => p,
            Err(f) => {
                return Err(MemoryReaderError::MemoryReadingError(f));
            },
        };
        self.read_string(name.wrapping_add(NAME_TEXT_OFFSET), NAME_BUFFER_SIZE)
    }
}

/// The session reader: the anchor layer plus the world address resolved once.
pub struct SoTMemoryReader<M: MemorySource> {
    pub rm: MemoryReader<M>,
    pub world_address: u64,
    /// The object-array anchor's resolved address; computed at start-up and
    /// retained, its consumption lying outside the enumerator.
    pub g_objects_address: u64,
}

impl<M: MemorySource> SoTMemoryReader<M> {
    /// The world address resolved at start-up.
    pub open spec fn spec_world(&self) -> u64 {
        self.world_address
    }

    /// Resolve all anchors: the three signature offsets and the name-table
    /// start through [`MemoryReader::new`], then the world pointer (resolved
    /// and dereferenced) and the object-array address (resolved only).
    pub fn new(source: M, module_base: u64, image: &[u8]) -> (r: Result<Self, MemoryReaderError>)
        ensures
            r matches Ok(s) ==> ({
                &&& s.rm.mem() == source.mem()
                &&& s.rm.module_base == module_base
                &&& spec_anchors(source.mem(), module_base, image@) == Some(
                    (
                        s.rm.u_world_base,
                        s.rm.g_object_base,
                        s.rm.g_name_base,
                        s.rm.g_name_start_address,
                    ),
                )
                &&& anchor_value(
                    source.mem(),
                    module_base,
                    s.rm.u_world_base,
                    WORLD_DISP_SKIP,
                    WORLD_INSTR_LEN,
                ) == Some(s.spec_world())
                &&& anchor_target(
                    source.mem(),
                    module_base,
                    s.rm.g_object_base,
                    OBJECTS_DISP_SKIP,
                    OBJECTS_INSTR_LEN,
                ) == Some(s.g_objects_address)
            }),
            r matches Err(e) ==> match e {
                MemoryReaderError::InitializationError(m) => (!world_found(image@) && m@
                    == "Could not find u_world_base offsets"@) || (world_found(image@)
                    && !objects_found(image@) && m@ == "Could not find g_object_base offsets"@) || (
                world_found(image@) && objects_found(image@) && !names_found(image@) && m@
                    == "Could not find g_name_base offsets"@),
                MemoryReaderError::MemoryReadingError(f) => spec_anchors(
                    source.mem(),
                    module_base,
                    image@,
                ) is None || (spec_anchors(source.mem(), module_base, image@) matches Some(a) && (
                anchor_read_failure(
                    source.mem(),
                    module_base,
                    a.0,
                    WORLD_DISP_SKIP,
                    WORLD_INSTR_LEN,
                    f,
                ) && anchor_value(source.mem(), module_base, a.0, WORLD_DISP_SKIP, WORLD_INSTR_LEN)
                    is None || anchor_value(
                    source.mem(),
                    module_base,
                    a.0,
                    WORLD_DISP_SKIP,
                    WORLD_INSTR_LEN,
                ) is Some && u32_at(
                    source.mem(),
                    module_base.wrapping_add(a.1).wrapping_add(OBJECTS_DISP_SKIP),
                ) is None && f == (ReadFailure {
                    addr: module_base.wrapping_add(a.1).wrapping_add(OBJECTS_DISP_SKIP),
                    len: 4,
                }))),
                MemoryReaderError::ByteToStringConversion => false,
            },
    {
        let rm = match MemoryReader::new(source, module_base, image) {
            Ok(rm) => rm,
            Err(e) => {
                return Err(e);
            },
        };
        let world_address = match resolve_anchor_value(
            &rm.source,
            module_base,
            rm.u_world_base,
            WORLD_DISP_SKIP,
            WORLD_INSTR_LEN,
        ) {
            Ok(w) => w,
            Err(f) => {
                return Err(MemoryReaderError::MemoryReadingError(f));
            },
        };
        let g_objects_address = match resolve_anchor_target(
            &rm.source,
            module_base,
            rm.g_object_base,
            OBJECTS_DISP_SKIP,
            OBJECTS_INSTR_LEN,
        ) {
            Ok(a) => a,
            Err(f) => {
                return Err(MemoryReaderError::MemoryReadingError(f));
            },
        };
        Ok(SoTMemoryReader { rm, world_address, g_objects_address })
    }

    /// Read the dynamic array at `address` in bulk: the 12-byte header, then,
    /// for a non-zero count, one read of `count * item_size` bytes. A zero
    /// count yields an empty array without attempting any element read.
    pub fn read_array(&self, address: u64, item_size: u32) -> (r: Result<TArray, MemoryReaderError>)
        ensures
            r matches Ok(a) ==> (spec_array_bytes(self.rm.mem(), address, item_size) matches Some(hc)
                && a.spec_bytes() == hc.0 && a.count == hc.1 && a.spec_item_size() == item_size
                && a.wf()),
            r matches Err(e) ==> match e {
                MemoryReaderError::MemoryReadingError(f) => spec_array_bytes(
                    self.rm.mem(),
                    address,
                    item_size,
                ) is None && array_read_failure(self.rm.mem(), address, item_size, f),
                _ => false,
            },
    {
        let (p, count) = match read_array_header(&self.rm.source, address) {
            Ok(h) => h,
            Err(f) => {
                return Err(MemoryReaderError::MemoryReadingError(f));
            },
        };
        if count == 0 {
            return Ok(TArray::new(Vec::new(), item_size, 0));
        }
        proof {
            assert((count as int) * (item_size as int) <= 0xFFFF_FFFFint * 0xFFFF_FFFFint)
                by (nonlinear_arith)
                requires
                    count <= 0xFFFF_FFFFu32 && item_size <= 0xFFFF_FFFFu32,
            ;
        }
        let total: u64 = (count as u64) * (item_size as u64);
        if total > usize::MAX as u64 {
            return Err(
                MemoryReaderError::MemoryReadingError(ReadFailure { addr: p, len: total }),
            );
        }
        match self.rm.source.read_bytes(p, total as usize) {
            Ok(raw) => Ok(TArray::new(raw, item_size, count)),
            Err(f) => Err(MemoryReaderError::MemoryReadingError(f)),
        }
    }

    /// Read only the header of the dynamic array at `address` and expose the
    /// elements as remote addresses with the given stride, nothing materialised.
    pub fn read_array_sized(&self, address: u64, item_size: u64) -> (r: Result<
        TArrayStruct,
        MemoryReaderError,
    >)
        ensures
            r matches Ok(t) ==> (spec_array_header(self.rm.mem(), address) matches Some(hc)
                && t.spec_pointer() == hc.0 && t.count == hc.1 && t.spec_item_size() == item_size),
            r matches Err(e) ==> match e {
                MemoryReaderError::MemoryReadingError(f) => spec_array_header(
                    self.rm.mem(),
                    address,
                ) is None && f == (ReadFailure { addr: address, len: 12 }),
                _ => false,
            },
    {
        match read_array_header(&self.rm.source, address) {
            Ok((p, count)) => Ok(TArrayStruct::new(p, item_size, count)),
            Err(f) => Err(MemoryReaderError::MemoryReadingError(f)),
        }
    }
}

} // verus!
