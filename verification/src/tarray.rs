//! Views over a remote dynamic array.
//!
//! A remote dynamic array is described by a 12-byte header: an 8-byte element
//! data pointer followed by a 4-byte element count. Two access patterns exist
//! behind the same sequence idea: [`TArray`] holds the backing bytes read in
//! bulk and reinterprets each fixed-width slice as one element; [`TArrayStruct`]
//! materialises nothing and hands out the remote address of each element, to be
//! dereferenced on demand. Element widths are explicit: the remote target's
//! layout is a property of the target, never assumed equal to the host's.

use vstd::prelude::*;

verus! {

/// A dynamic array's backing bytes, read in bulk, exposed as fixed-width elements.
pub struct TArray {
    pub item_size: u32,
    pub raw_bytes: Vec<u8>,
    pub count: u32,
}

impl TArray {
    /// The backing bytes.
    pub open spec fn spec_bytes(&self) -> Seq<u8> {
        self.raw_bytes@
    }

    /// The element width in bytes.
    pub open spec fn spec_item_size(&self) -> u32 {
        self.item_size
    }

    /// The backing buffer holds exactly `count` elements of `item_size` bytes.
    pub open spec fn wf(&self) -> bool {
        self.spec_bytes().len() == self.count * self.spec_item_size()
    }

    /// The bytes of the element at `i`.
    pub open spec fn spec_element(&self, i: int) -> Seq<u8> {
        self.spec_bytes().subrange(i * self.spec_item_size(), (i + 1) * self.spec_item_size())
    }

    pub fn new(raw_bytes: Vec<u8>, item_size: u32, count: u32) -> (r: TArray)
        requires
            raw_bytes@.len() == count * item_size,
        ensures
            r.spec_bytes() == raw_bytes@,
            r.spec_item_size() == item_size,
            r.count == count,
            r.wf(),
    {
        TArray { item_size, raw_bytes, count }
    }

    /// The element at `i`, reinterpreted byte for byte from its slice of the
    /// backing buffer.
    pub fn element(&self, i: u32) -> (r: Vec<u8>)
        requires
            self.wf(),
            i < self.count,
        ensures
            r@ == self.spec_element(i as int),
    {
        proof {
            assert((i + 1) * self.spec_item_size() <= self.count * self.spec_item_size()
                && i * self.spec_item_size() >= 0 && i * self.spec_item_size() + self.spec_item_size()
                == (i + 1) * self.spec_item_size()) by (nonlinear_arith)
                requires
                    i < self.count,
            ;
        }
        let len = self.raw_bytes.len();
        assert(i as int * (self.item_size as int) + self.item_size as int <= len as int);
        let start: usize = (i as usize) * (self.item_size as usize);
        let end: usize = start + self.item_size as usize;
        let s = vstd::slice::slice_subrange(self.raw_bytes.as_slice(), start, end);
        vstd::slice::slice_to_vec(s)
    }

    /// The element at `i` read as a little-endian 64-bit value, for arrays of
    /// 8-byte remote pointers.
    pub fn element_u64(&self, i: u32) -> (r: u64)
        requires
            self.wf(),
            i < self.count,
            self.spec_item_size() == 8,
        ensures
            r == vstd::bytes::spec_u64_from_le_bytes(self.spec_element(i as int)),
    {
        let b = self.element(i);
        vstd::bytes::u64_from_le_bytes(b.as_slice())
    }

    /// A restartable cursor over the elements.
    pub fn iter(&self) -> (r: TArrayIter<'_>)
        ensures
            r.array == self,
            r.index == 0,
    {
        TArrayIter { array: self, index: 0 }
    }
}

/// A cursor over a [`TArray`]'s elements.
pub struct TArrayIter<'a> {
    pub array: &'a TArray,
    pub index: u32,
}

impl<'a> TArrayIter<'a> {
    /// The next element's bytes, or `None` past the end.
    pub fn next(&mut self) -> (r: Option<Vec<u8>>)
        requires
            old(self).array.wf(),
        ensures
            final(self).array == old(self).array,
            old(self).index >= old(self).array.count ==> r is None && final(self).index == old(
                self,
            ).index,
            old(self).index < old(self).array.count ==> final(self).index == old(self).index + 1
                && (r matches Some(v) && v@ == old(self).array.spec_element(
                old(self).index as int,
            )),
    {
        if self.index >= self.array.count {
            return None;
        }
        let b = self.array.element(self.index);
        self.index = self.index + 1;
        Some(b)
    }
}

/// A dynamic array exposed as remote element addresses, nothing materialised.
pub struct TArrayStruct {
    pub array_pointer: u64,
    pub item_size: u64,
    pub count: u32,
}

impl TArrayStruct {
    /// The remote address of the first element.
    pub open spec fn spec_pointer(&self) -> u64 {
        self.array_pointer
    }

    /// The element stride in bytes.
    pub open spec fn spec_item_size(&self) -> u64 {
        self.item_size
    }

    /// The remote address of the element at `i`, by wrapping 64-bit arithmetic.
    pub open spec fn spec_element_pointer(&self, i: int) -> u64 {
        self.spec_pointer().wrapping_add((i as u64).wrapping_mul(self.spec_item_size()))
    }

    pub fn new(array_pointer: u64, item_size: u64, count: u32) -> (r: TArrayStruct)
        ensures
            r.spec_pointer() == array_pointer,
            r.spec_item_size() == item_size,
            r.count == count,
    {
        TArrayStruct { array_pointer, item_size, count }
    }

    /// The remote address of the element at `i`.
    pub fn element_pointer(&self, i: u32) -> (r: u64)
        requires
            i < self.count,
        ensures
            r == self.spec_element_pointer(i as int),
    {
        self.array_pointer.wrapping_add((i as u64).wrapping_mul(self.item_size))
    }

    /// A restartable cursor over the element addresses.
    pub fn iter(&self) -> (r: TArrayStructIter<'_>)
        ensures
            r.array == self,
            r.index == 0,
    {
        TArrayStructIter { array: self, index: 0 }
    }
}

/// One element of a [`TArrayStruct`]: the remote address where the item lies.
pub struct TArrayStructItem {
    pub item_pointer: u64,
}

/// A cursor over a [`TArrayStruct`]'s element addresses.
pub struct TArrayStructIter<'a> {
    pub array: &'a TArrayStruct,
    pub index: u32,
}

impl<'a> TArrayStructIter<'a> {
    /// The next element's remote address, or `None` past the end.
    pub fn next(&mut self) -> (r: Option<TArrayStructItem>)
        ensures
            final(self).array == old(self).array,
            old(self).index >= old(self).array.count ==> r is None && final(self).index == old(
                self,
            ).index,
            old(self).index < old(self).array.count ==> final(self).index == old(self).index + 1
                && (r matches Some(item) && item.item_pointer == old(self).array.spec_element_pointer(
                old(self).index as int,
            )),
    {
        if self.index >= self.array.count {
            return None;
        }
        let pointer = self.array.array_pointer.wrapping_add(
            (self.index as u64).wrapping_mul(self.array.item_size),
        );
        self.index = self.index + 1;
        Some(TArrayStructItem { item_pointer: pointer })
    }
}

} // verus!
