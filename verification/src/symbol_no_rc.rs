//! The key under which a registry indexes a storage block.

use crate::heap::Heap;
use crate::symbol::{Symbol, MAX_REFCOUNT};
use vstd::prelude::*;

verus! {

/// A reference to a storage block that does not count: it names the block a
/// symbol owns, and neither keeps the block allocated nor frees it.
#[derive(Clone, Copy, Debug)]
pub struct SymbolNoRc {
    ptr: u64,
}

impl SymbolNoRc {
    /// The address of the block that the key names.
    pub closed spec fn addr(&self) -> nat {
        self.ptr as nat
    }

    /// The key of the block at `ptr`.
    pub(crate) fn from_ptr(ptr: u64) -> (key: SymbolNoRc)
        ensures
            key.addr() == ptr as nat,
    {
        SymbolNoRc { ptr }
    }

    /// Whether the block that the key names is still allocated.
    pub fn is_allocated(&self, heap: &Heap) -> (allocated: bool)
        ensures
            allocated == heap@.has_block(self.addr()),
    {
        heap.has_block(self.ptr)
    }

    /// The string of the block that the key names.
    pub fn borrow<'a>(&self, heap: &'a Heap) -> (value: &'a str)
        requires
            heap.wf(),
            heap@.has_block(self.addr()),
        ensures
            value@ == heap@.value(self.addr()),
    {
        heap.block(self.ptr).data.as_str()
    }

    /// Compares by value: whether both keys name blocks with the same
    /// string.
    pub fn eq(&self, heap: &Heap, other: &SymbolNoRc) -> (equal: bool)
        requires
            heap.wf(),
            heap@.has_block(self.addr()),
            heap@.has_block(other.addr()),
        ensures
            equal == (heap@.value(self.addr()) == heap@.value(other.addr())),
    {
        heap.block(self.ptr).data == heap.block(other.ptr).data
    }

    /// The strong count of the block that the key names.
    pub fn strong_count(&self, heap: &Heap) -> (count: usize)
        requires
            heap.wf(),
            heap@.has_block(self.addr()),
        ensures
            count == heap@.strong(self.addr()),
    {
        heap.block(self.ptr).strong
    }

    /// Makes an owning handle on the block that the key names: one more in
    /// its strong count, also where the count had fallen to zero.
    pub fn symbol(&self, heap: &mut Heap) -> (symbol: Symbol)
        requires
            old(heap).wf(),
            old(heap)@.has_block(self.addr()),
            old(heap)@.strong(self.addr()) <= MAX_REFCOUNT,
        ensures
            final(heap).wf(),
            final(heap)@ == old(heap)@.retain(self.addr()),
            symbol.addr() == self.addr(),
    {
        heap.fetch_add(self.ptr);
        proof {
            old(heap)@.retain_wf(self.addr());
        }
        Symbol::from_ptr(self.ptr)
    }
}

} // verus!
