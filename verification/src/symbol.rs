//! Symbols: owning handles on storage blocks.

use crate::heap::Heap;
use crate::model::BlockView;
use crate::symbol_no_rc::SymbolNoRc;
use vstd::layout::valid_layout;
use vstd::prelude::*;
use vstd::utf8::encode_utf8;

verus! {

/// Bytes that the metadata of a storage block takes in front of the string:
/// the strong count, the registry reference and the length, eight bytes each.
pub const DATA_OFFSET: usize = 24;

/// Alignment of a storage block.
pub const BLOCK_ALIGN: usize = 8;

/// The most handles that a block may count when one more is asked for.
pub const MAX_REFCOUNT: usize = isize::MAX as usize;

/// Size and alignment of one allocation.
#[derive(Clone, Copy, Debug, PartialEq, Eq, Structural)]
pub struct Layout {
    /// Size in bytes.
    pub size: usize,
    /// Alignment in bytes, a power of two.
    pub align: usize,
}

/// Whether a block for a string of `len` bytes can be laid out: metadata and
/// string together, rounded up to the alignment, stay within `isize::MAX`.
pub open spec fn layout_fits(len: nat) -> bool {
    DATA_OFFSET + len <= isize::MAX - (BLOCK_ALIGN - 1)
}

/// The layout of the block for a string of `len` bytes.
pub open spec fn block_layout(len: nat) -> Layout {
    Layout { size: (DATA_OFFSET + len) as usize, align: BLOCK_ALIGN }
}

/// Computes the layout of the storage block for a string of `len` bytes:
/// the metadata followed at once by the string.
pub fn make_layout(len: usize) -> (layout: Layout)
    requires
        layout_fits(len as nat),
    ensures
        layout == block_layout(len as nat),
        layout.size == DATA_OFFSET + len,
        layout.align == BLOCK_ALIGN,
        valid_layout(layout.size, layout.align),
{
    proof {
        reveal_with_fuel(vstd::arithmetic::power2::is_pow2, 4);
        assert(isize::MAX % 8 == 7) by {
            assert(isize::MAX == 0x7fff_ffff || isize::MAX == 0x7fff_ffff_ffff_ffff);
        }
    }
    Layout { size: DATA_OFFSET + len, align: BLOCK_ALIGN }
}

/// The storage block of one string: the metadata, and the string itself.
pub(crate) struct Inner {
    /// How many owning handles there are.
    pub(crate) strong: usize,
    /// Address of the registry that interned the block, set at most once.
    pub(crate) registry: Option<u64>,
    /// Length of the string in bytes, fixed when the block is made.
    pub(crate) len: usize,
    /// The string.
    pub(crate) data: String,
}

impl Inner {
    /// The block as contracts see it.
    pub(crate) open spec fn view(&self) -> BlockView {
        BlockView {
            strong: self.strong as nat,
            registry: match self.registry {
                Some(r) => Some(r as nat),
                None => None,
            },
            value: self.data@,
        }
    }

    /// The stored length is the length of the string in bytes.
    pub(crate) open spec fn len_ok(&self) -> bool {
        self.len as nat == encode_utf8(self.data@).len()
    }
}

/// An owning handle on a shared string.
///
/// A symbol is shared by cloning it or by looking its string up in the
/// registry that interned it. Each handle counts in the strong count of its
/// storage block; the block is freed when the last one is dropped.
#[derive(Debug)]
pub struct Symbol {
    ptr: u64,
}

impl Symbol {
    /// The address of the storage block that the symbol owns a share of.
    pub closed spec fn addr(&self) -> nat {
        self.ptr as nat
    }

    /// The handle on the block at `ptr`; the caller accounts for it in the
    /// strong count.
    pub(crate) fn from_ptr(ptr: u64) -> (symbol: Symbol)
        ensures
            symbol.addr() == ptr as nat,
    {
        Symbol { ptr }
    }

    /// The address of the symbol's block.
    pub(crate) fn ptr(&self) -> (ptr: u64)
        ensures
            ptr as nat == self.addr(),
    {
        self.ptr
    }

    /// Creates a standalone symbol: a new storage block that holds a copy of
    /// `data`, with a strong count of one and no registry.
    pub fn new(heap: &mut Heap, data: &str) -> (symbol: Symbol)
        requires
            old(heap).wf(),
            old(heap)@.next < u64::MAX,
            layout_fits(encode_utf8(data@).len()),
        ensures
            final(heap).wf(),
            final(heap)@ == old(heap)@.allocate(data@),
            symbol.addr() == old(heap)@.next,
    {
        let len = data.len();
        let inner = Inner { strong: 1, registry: None, len, data: data.to_owned() };
        let ptr = heap.allocate(make_layout(len), inner);
        proof {
            old(heap)@.allocate_wf(data@);
        }
        Symbol { ptr }
    }

    /// The string value of the symbol.
    pub fn value<'a>(&self, heap: &'a Heap) -> (value: &'a str)
        requires
            heap.wf(),
            heap@.has_block(self.addr()),
        ensures
            value@ == heap@.value(self.addr()),
    {
        self.inner(heap).data.as_str()
    }

    /// Compares by identity: whether both handles own the same storage
    /// block. Symbols of one registry with equal strings do; standalone
    /// symbols do only if one was cloned from the other.
    pub fn ptr_eq(&self, other: &Symbol) -> (same: bool)
        ensures
            same == (self.addr() == other.addr()),
    {
        self.ptr == other.ptr
    }

    /// Compares by value: whether both symbols hold the same string,
    /// whichever blocks and registries they belong to.
    pub fn eq(&self, heap: &Heap, other: &Symbol) -> (equal: bool)
        requires
            heap.wf(),
            heap@.has_block(self.addr()),
            heap@.has_block(other.addr()),
        ensures
            equal == (heap@.value(self.addr()) == heap@.value(other.addr())),
    {
        self.inner(heap).data == other.inner(heap).data
    }

    /// Stamps the block with the registry that has just indexed it. A block
    /// is stamped once, by the `insert` that made it, before any other
    /// handle on it exists.
    pub(crate) fn set_registry(&self, heap: &mut Heap, registry: u64)
        requires
            old(heap).rep(),
            old(heap)@.has_block(self.addr()),
            old(heap)@.blocks[self.addr()].registry is None,
            old(heap)@.strong(self.addr()) == 1,
        ensures
            final(heap).rep(),
            final(heap)@ == old(heap)@.stamp(self.addr(), registry as nat),
    {
        heap.set_registry(self.ptr, registry);
    }

    /// The key of the symbol's block: a reference that does not count.
    pub fn clone_no_rc(&self) -> (key: SymbolNoRc)
        ensures
            key.addr() == self.addr(),
    {
        SymbolNoRc::from_ptr(self.ptr)
    }

    /// The symbol's storage block.
    pub(crate) fn inner<'a>(&self, heap: &'a Heap) -> (inner: &'a Inner)
        requires
            heap.rep(),
            heap@.has_block(self.addr()),
        ensures
            inner@ == heap@.blocks[self.addr()],
            inner.len_ok(),
            layout_fits(inner.len as nat),
    {
        heap.block(self.ptr)
    }

    /// Resolves the block's registry reference: the address of the registry
    /// that interned the symbol, if there is one and it still exists.
    pub(crate) fn registry(&self, heap: &Heap) -> (registry: Option<u64>)
        requires
            heap.rep(),
            heap@.has_block(self.addr()),
        ensures
            match registry {
                Some(r) => heap@.resolve(self.addr()) == Some(r as nat),
                None => heap@.resolve(self.addr()) is None,
            },
    {
        match self.inner(heap).registry {
            Some(r) => if heap.has_registry(r) {
                Some(r)
            } else {
                None
            },
            None => None,
        }
    }

    /// Makes one more handle on the same storage block.
    pub fn clone(&self, heap: &mut Heap) -> (copy: Symbol)
        requires
            old(heap).wf(),
            old(heap)@.has_block(self.addr()),
            old(heap)@.strong(self.addr()) <= MAX_REFCOUNT,
        ensures
            final(heap).wf(),
            final(heap)@ == old(heap)@.retain(self.addr()),
            copy.addr() == self.addr(),
    {
        heap.fetch_add(self.ptr);
        proof {
            old(heap)@.retain_wf(self.addr());
        }
        Symbol { ptr: self.ptr }
    }

    /// Gives the handle up: takes one from the strong count, and nothing
    /// else. The handle comes back when the count has reached zero; its
    /// holder then owes the block a call of `drop_slow`.
    pub fn release(self, heap: &mut Heap) -> (last: Option<Symbol>)
        requires
            old(heap).wf(),
            old(heap)@.has_block(self.addr()),
            old(heap)@.strong(self.addr()) >= 1,
        ensures
            final(heap).wf(),
            final(heap)@ == old(heap)@.release(self.addr()),
            match last {
                Some(symbol) => symbol.addr() == self.addr() && old(heap)@.strong(self.addr()) == 1,
                None => old(heap)@.strong(self.addr()) != 1,
            },
    {
        let prev = heap.fetch_sub(self.ptr);
        proof {
            old(heap)@.release_wf(self.addr());
        }
        if prev != 1 {
            return None;
        }
        Some(self)
    }

    /// The teardown of the storage block, for the handle whose release
    /// brought the strong count to zero.
    ///
    /// Where the block's registry still exists, the count is read again: if
    /// a lookup has handed out a new handle since the release, the teardown
    /// is cancelled and nothing changes. Otherwise the registry loses the
    /// index entry of the block, and the block is freed with the layout it
    /// was allocated with. Returns whether the block was freed.
    pub fn drop_slow(self, heap: &mut Heap) -> (freed: bool)
        requires
            old(heap).wf(),
            old(heap)@.has_block(self.addr()),
        ensures
            final(heap).wf(),
            final(heap)@ == old(heap)@.teardown(self.addr()),
            freed == !final(heap)@.has_block(self.addr()),
    {
        proof {
            old(heap)@.teardown_wf(self.addr());
        }
        if let Some(registry) = self.registry(heap) {
            if self.inner(heap).strong > 0 {
                return false;
            }
            assert(heap@.registered_in(self.addr(), registry as nat));
            assert(heap@.lookup(registry as nat, heap@.value(self.addr())) == Some(self.addr()));
            heap.unindex(registry, self.ptr);
        }
        let layout = make_layout(self.inner(heap).len);
        heap.deallocate(self.ptr, layout);
        true
    }

    /// Drops the handle: releases it and, where it was the last one, tears
    /// the storage block down.
    pub fn drop(self, heap: &mut Heap)
        requires
            old(heap).wf(),
            old(heap)@.has_block(self.addr()),
            old(heap)@.strong(self.addr()) >= 1,
        ensures
            final(heap).wf(),
            final(heap)@ == old(heap)@.drop_symbol(self.addr()),
    {
        if let Some(last) = self.release(heap) {
            last.drop_slow(heap);
        }
    }
}

} // verus!
