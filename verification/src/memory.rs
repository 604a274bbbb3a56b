//! The raw read primitive against a remote address space, and its model.
//!
//! A remote address space is modelled as a partial map from 64-bit addresses to
//! bytes. Every read is fallible and yields either exactly the requested bytes or
//! an error tagged with the requested address and length, never a partial result.

use vstd::prelude::*;

verus! {

/// A failed remote read, tagged with the requested address and byte count.
#[derive(Clone, Copy, Debug, PartialEq, Eq, Structural)]
pub struct ReadFailure {
    pub addr: u64,
    pub len: u64,
}

/// True when `len` bytes starting at `addr` lie within the 64-bit address space.
pub open spec fn range_ok(addr: u64, len: int) -> bool {
    addr + len <= u64::MAX + 1
}

/// The bytes that `mem` holds in the given range, if the range is in bounds and
/// every address in it is mapped.
pub open spec fn bytes_at(mem: Map<u64, u8>, addr: u64, len: int) -> Option<Seq<u8>> {
    if len >= 0 && range_ok(addr, len) && (forall|i: int|
        0 <= i < len ==> #[trigger] mem.contains_key((addr + i) as u64)) {
        Some(Seq::new(len as nat, |i: int| mem[(addr + i) as u64]))
    } else {
        None
    }
}

/// The little-endian 32-bit value that `mem` holds at `addr`, if mapped.
pub open spec fn u32_at(mem: Map<u64, u8>, addr: u64) -> Option<u32> {
    match bytes_at(mem, addr, 4) {
        Some(b) => Some(vstd::bytes::spec_u32_from_le_bytes(b)),
        None => None,
    }
}

/// The little-endian 64-bit value that `mem` holds at `addr`, if mapped.
pub open spec fn u64_at(mem: Map<u64, u8>, addr: u64) -> Option<u64> {
    match bytes_at(mem, addr, 8) {
        Some(b) => Some(vstd::bytes::spec_u64_from_le_bytes(b)),
        None => None,
    }
}

/// A source of remote bytes: the one primitive everything else is built on.
///
/// The contract treats the source as a single consistent snapshot: two reads of
/// the same range agree. A source backed by a live process only approximates
/// this, which is the usual consistency hazard of external introspection; the
/// engine never assumes a successful read, so a source that fails any read at
/// any time also satisfies the contract's obligations on callers.
pub trait MemorySource {
    /// The mapped bytes of the remote address space. An implementation that
    /// leaves this default claims no model at all: under an empty map the
    /// contract below admits only failing reads, so nothing is promised of
    /// such a source's successes.
    open spec fn mem(&self) -> Map<u64, u8> {
        Map::empty()
    }

    /// Read exactly `len` bytes at `addr`, or fail with the requested address
    /// and length; never a partial result.
    fn read_bytes(&self, addr: u64, len: usize) -> (r: Result<Vec<u8>, ReadFailure>)
        ensures
            r matches Ok(v) ==> bytes_at(self.mem(), addr, len as int) == Some(v@),
            r is Err ==> bytes_at(self.mem(), addr, len as int) is None,
            r matches Err(e) ==> e == (ReadFailure { addr, len: len as u64 }),
    ;
}

/// The map described by a journal of byte writes, later entries winning.
pub open spec fn map_of(cells: Seq<(u64, u8)>) -> Map<u64, u8>
    decreases cells.len(),
{
    if cells.len() == 0 {
        Map::empty()
    } else {
        map_of(cells.drop_last()).insert(cells.last().0, cells.last().1)
    }
}

/// The value of the latest write to `addr` in the journal, if any.
pub open spec fn find_last(cells: Seq<(u64, u8)>, addr: u64) -> Option<u8>
    decreases cells.len(),
{
    if cells.len() == 0 {
        None
    } else if cells.last().0 == addr {
        Some(cells.last().1)
    } else {
        find_last(cells.drop_last(), addr)
    }
}

proof fn lemma_map_of_find_last(cells: Seq<(u64, u8)>, addr: u64)
    ensures
        map_of(cells).contains_key(addr) <==> find_last(cells, addr) is Some,
        find_last(cells, addr) matches Some(v) ==> map_of(cells)[addr] == v,
    decreases cells.len(),
{
    if cells.len() > 0 {
        lemma_map_of_find_last(cells.drop_last(), addr);
    }
}

/// `mem` with `b` stored byte for byte starting at `addr`.
pub open spec fn store_bytes(mem: Map<u64, u8>, addr: int, b: Seq<u8>) -> Map<u64, u8>
    decreases b.len(),
{
    if b.len() == 0 {
        mem
    } else {
        store_bytes(mem.insert(addr as u64, b[0]), addr + 1, b.drop_first())
    }
}

proof fn lemma_store_bytes_push(mem: Map<u64, u8>, addr: int, b: Seq<u8>, x: u8)
    ensures
        store_bytes(mem, addr, b.push(x)) == store_bytes(mem, addr, b).insert(
            (addr + b.len()) as u64,
            x,
        ),
    decreases b.len(),
{
    if b.len() == 0 {
        assert(b.push(x).drop_first() =~= Seq::<u8>::empty());
        assert(b.push(x)[0] == x);
        assert(store_bytes(mem, addr, b.push(x)) == store_bytes(
            mem.insert(addr as u64, x),
            addr + 1,
            Seq::<u8>::empty(),
        ));
        assert(store_bytes(mem, addr, b.push(x)) == mem.insert(addr as u64, x));
        assert(store_bytes(mem, addr, b) == mem);
    } else {
        assert(b.push(x).drop_first() =~= b.drop_first().push(x));
        assert(b.push(x)[0] == b[0]);
        lemma_store_bytes_push(mem.insert(addr as u64, b[0]), addr + 1, b.drop_first(), x);
        assert(store_bytes(mem, addr, b.push(x)) == store_bytes(
            mem.insert(addr as u64, b[0]),
            addr + 1,
            b.drop_first().push(x),
        ));
        assert(store_bytes(mem, addr, b) == store_bytes(
            mem.insert(addr as u64, b[0]),
            addr + 1,
            b.drop_first(),
        ));
    }
}

/// An explicitly constructed address space: a journal of byte writes against an
/// initially unmapped space. It serves as a synthetic target for exercising the
/// engine without a live process.
pub struct SparseMemory {
    cells: Vec<(u64, u8)>,
}

impl SparseMemory {
    /// A fully unmapped address space.
    pub fn new() -> (r: SparseMemory)
        ensures
            r.mem() == Map::<u64, u8>::empty(),
    {
        SparseMemory { cells: Vec::new() }
    }

    /// Map one byte, replacing whatever the address held.
    pub fn write_byte(&mut self, addr: u64, val: u8)
        ensures
            final(self).mem() == old(self).mem().insert(addr, val),
    {
        self.cells.push((addr, val));
        assert(self.cells@.drop_last() =~= old(self).cells@);
    }

    /// Map `b.len()` bytes starting at `addr`, replacing whatever they held.
    pub fn write_bytes(&mut self, addr: u64, b: &[u8])
        requires
            range_ok(addr, b@.len() as int),
        ensures
            final(self).mem() == store_bytes(old(self).mem(), addr as int, b@),
    {
        let ghost orig = self.mem();
        let n = b.len();
        let mut i: usize = 0;
        while i < n
            invariant
                i <= n,
                n == b@.len(),
                range_ok(addr, n as int),
                self.mem() == store_bytes(orig, addr as int, b@.take(i as int)),
            decreases n - i,
        {
            self.write_byte(addr + i as u64, b[i]);
            proof {
                lemma_store_bytes_push(orig, addr as int, b@.take(i as int), b@[i as int]);
                assert(b@.take(i as int).push(b@[i as int]) =~= b@.take(i + 1 as int));
            }
            i = i + 1;
        }
        assert(b@.take(n as int) =~= b@);
    }

    /// Map the four little-endian bytes of `val` starting at `addr`.
    pub fn write_u32(&mut self, addr: u64, val: u32)
        requires
            range_ok(addr, 4),
        ensures
            final(self).mem() == store_bytes(
                old(self).mem(),
                addr as int,
                vstd::bytes::spec_u32_to_le_bytes(val),
            ),
    {
        let b = vstd::bytes::u32_to_le_bytes(val);
        self.write_bytes(addr, b.as_slice());
    }

    /// Map the eight little-endian bytes of `val` starting at `addr`.
    pub fn write_u64(&mut self, addr: u64, val: u64)
        requires
            range_ok(addr, 8),
        ensures
            final(self).mem() == store_bytes(
                old(self).mem(),
                addr as int,
                vstd::bytes::spec_u64_to_le_bytes(val),
            ),
    {
        let b = vstd::bytes::u64_to_le_bytes(val);
        self.write_bytes(addr, b.as_slice());
    }

    /// The latest write to `addr`, if the address is mapped.
    fn lookup(&self, addr: u64) -> (r: Option<u8>)
        ensures
            r == find_last(self.cells@, addr),
    {
        let mut i: usize = self.cells.len();
        assert(self.cells@.take(self.cells@.len() as int) =~= self.cells@);
        loop
            invariant
                i <= self.cells@.len(),
                find_last(self.cells@, addr) == find_last(self.cells@.take(i as int), addr),
            ensures
                find_last(self.cells@, addr) == find_last(self.cells@.take(i as int), addr),
                i == 0 || (i <= self.cells@.len() && self.cells@[i - 1].0 == addr),
            decreases i,
        {
            if i == 0 {
                break;
            }
            let (a, _) = self.cells[i - 1];
            proof {
                assert(self.cells@.take(i as int).drop_last() =~= self.cells@.take(i - 1 as int));
                assert(self.cells@.take(i as int).last() == self.cells@[i - 1]);
            }
            if a == addr {
                break;
            }
            i = i - 1;
        }
        if i == 0 {
            proof {
                assert(self.cells@.take(0) =~= Seq::<(u64, u8)>::empty());
            }
            None
        } else {
            let (_, v) = self.cells[i - 1];
            proof {
                assert(self.cells@.take(i as int).last() == self.cells@[i - 1]);
            }
            Some(v)
        }
    }
}

impl MemorySource for SparseMemory {
    closed spec fn mem(&self) -> Map<u64, u8> {
        map_of(self.cells@)
    }

    fn read_bytes(&self, addr: u64, len: usize) -> (r: Result<Vec<u8>, ReadFailure>) {
        if !((addr as u128) + (len as u128) <= (u64::MAX as u128) + 1) {
            assert(!range_ok(addr, len as int));
            return Err(ReadFailure { addr, len: len as u64 });
        }
        let mut out: Vec<u8> = Vec::new();
        let mut i: usize = 0;
        while i < len
            invariant
                i <= len,
                range_ok(addr, len as int),
                out@.len() == i as int,
                forall|k: int| 0 <= k < i ==> #[trigger] self.mem().contains_key((addr + k) as u64),
                forall|k: int|
                    0 <= k < i ==> #[trigger] out@[k] == self.mem()[(addr + k) as u64],
            decreases len - i,
        {
            let a: u64 = addr + i as u64;
            proof {
                lemma_map_of_find_last(self.cells@, a);
                assert(a == (addr + i as int) as u64);
            }
            match self.lookup(a) {
                Some(v) => {
                    let ghost prev = out@;
                    out.push(v);
                    proof {
                        assert(forall|k: int| 0 <= k < prev.len() ==> out@[k] == prev[k]);
                        assert(out@[i as int] == v);
                        assert(self.mem().contains_key((addr + i as int) as u64));
                        assert(self.mem()[(addr + i as int) as u64] == v);
                    }
                }
                None => {
                    assert(!self.mem().contains_key((addr + i as int) as u64));
                    return Err(ReadFailure { addr, len: len as u64 });
                }
            }
            i = i + 1;
        }
        proof {
            let b = bytes_at(self.mem(), addr, len as int);
            assert(b matches Some(s) && s =~= out@);
        }
        Ok(out)
    }
}

} // verus!
