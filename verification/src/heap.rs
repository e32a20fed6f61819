//! The heap: every storage block and every registry, by address.

use crate::model::{HeapView, RegistryView};
use crate::symbol::{block_layout, layout_fits, Inner, Layout};
use crate::symbol_no_rc::SymbolNoRc;
use crate::Registry;
use std::collections::HashMap;
use vstd::prelude::*;
use vstd::utf8::encode_utf8;

verus! {

broadcast use vstd::std_specs::hash::group_hash_axioms;

/// What the allocator keeps for one block: the layout it was asked for, and
/// the block.
pub(crate) struct Slot {
    pub(crate) layout: Layout,
    pub(crate) inner: Inner,
}

/// A registry and the number of handles that share it.
pub(crate) struct Shared {
    pub(crate) handles: usize,
    pub(crate) registry: Registry,
}

impl Shared {
    /// The registry as contracts see it.
    pub(crate) open spec fn view(&self) -> RegistryView {
        RegistryView { handles: self.handles as nat, index: self.registry@ }
    }
}

/// The memory in which symbols and registries live.
///
/// A heap owns the storage block behind every symbol and the index behind
/// every registry handle. Handles are addresses into it; each operation on a
/// handle names the heap it belongs to.
pub struct Heap {
    blocks: HashMap<u64, Slot>,
    registries: HashMap<u64, Shared>,
    next: u64,
}

impl View for Heap {
    type V = HeapView;

    closed spec fn view(&self) -> HeapView {
        HeapView {
            blocks: Map::new(
                |p: nat| p <= u64::MAX && self.blocks@.contains_key(p as u64),
                |p: nat| self.blocks@[p as u64].inner@,
            ),
            registries: Map::new(
                |r: nat| r <= u64::MAX && self.registries@.contains_key(r as u64),
                |r: nat| self.registries@[r as u64]@,
            ),
            next: self.next as nat,
        }
    }
}

impl Heap {
    /// What holds of the representation: each block records the length of
    /// its string, and was allocated with the layout for that length.
    pub closed spec fn rep(&self) -> bool {
        forall|p: u64| #[trigger]
            self.blocks@.contains_key(p) ==> {
                &&& self.blocks@[p].inner.len_ok()
                &&& layout_fits(self.blocks@[p].inner.len as nat)
                &&& self.blocks@[p].layout == block_layout(self.blocks@[p].inner.len as nat)
            }
    }

    /// The invariant of a heap: that of its representation and that of its
    /// model.
    pub open spec fn wf(&self) -> bool {
        self.rep() && self@.wf()
    }

    /// An empty heap.
    pub fn new() -> (heap: Heap)
        ensures
            heap.wf(),
            heap@ == HeapView::empty(),
    {
        let heap = Heap { blocks: HashMap::new(), registries: HashMap::new(), next: 0 };
        assert(heap@ =~~= HeapView::empty());
        heap
    }

    /// Whether every address has been handed out, so that nothing more can
    /// be allocated.
    pub fn is_exhausted(&self) -> (exhausted: bool)
        ensures
            exhausted == !(self@.next < u64::MAX),
    {
        self.next == u64::MAX
    }

    /// Allocates a block with the given layout and moves `inner` into it.
    pub(crate) fn allocate(&mut self, layout: Layout, inner: Inner) -> (ptr: u64)
        requires
            old(self).rep(),
            old(self)@.next < u64::MAX,
            inner.len_ok(),
            layout_fits(inner.len as nat),
            layout == block_layout(inner.len as nat),
        ensures
            final(self).rep(),
            ptr == old(self)@.next,
            final(self)@ == (HeapView {
                blocks: old(self)@.blocks.insert(ptr as nat, inner@),
                next: old(self)@.next + 1,
                ..old(self)@
            }),
    {
        let ptr = self.next;
        self.blocks.insert(ptr, Slot { layout, inner });
        self.next = ptr + 1;
        assert(self@ =~~= (HeapView {
            blocks: old(self)@.blocks.insert(ptr as nat, inner@),
            next: old(self)@.next + 1,
            ..old(self)@
        }));
        ptr
    }

    /// Whether a block is allocated at `ptr`.
    pub(crate) fn has_block(&self, ptr: u64) -> (b: bool)
        ensures
            b == self@.has_block(ptr as nat),
    {
        self.blocks.contains_key(&ptr)
    }

    /// The block at `ptr`.
    pub(crate) fn block(&self, ptr: u64) -> (inner: &Inner)
        requires
            self.rep(),
            self@.has_block(ptr as nat),
        ensures
            inner@ == self@.blocks[ptr as nat],
            inner.len_ok(),
            layout_fits(inner.len as nat),
    {
        let slot = self.blocks.get(&ptr);
        &slot.unwrap().inner
    }

    /// Adds one to the strong count of the block at `ptr` and returns what
    /// the count was before.
    pub(crate) fn fetch_add(&mut self, ptr: u64) -> (prev: usize)
        requires
            old(self).rep(),
            old(self)@.has_block(ptr as nat),
            old(self)@.strong(ptr as nat) < usize::MAX,
        ensures
            final(self).rep(),
            final(self)@ == old(self)@.retain(ptr as nat),
            prev == old(self)@.strong(ptr as nat),
    {
        let mut slot = self.blocks.remove(&ptr).unwrap();
        let prev = slot.inner.strong;
        slot.inner.strong = prev + 1;
        self.blocks.insert(ptr, slot);
        assert(self@ =~~= old(self)@.retain(ptr as nat));
        prev
    }

    /// Takes one from the strong count of the block at `ptr` and returns
    /// what the count was before.
    pub(crate) fn fetch_sub(&mut self, ptr: u64) -> (prev: usize)
        requires
            old(self).rep(),
            old(self)@.has_block(ptr as nat),
            old(self)@.strong(ptr as nat) >= 1,
        ensures
            final(self).rep(),
            final(self)@ == old(self)@.release(ptr as nat),
            prev == old(self)@.strong(ptr as nat),
    {
        let mut slot = self.blocks.remove(&ptr).unwrap();
        let prev = slot.inner.strong;
        slot.inner.strong = prev - 1;
        self.blocks.insert(ptr, slot);
        assert(self@ =~~= old(self)@.release(ptr as nat));
        prev
    }

    /// Writes the registry reference of the block at `ptr`, which has none
    /// yet.
    pub(crate) fn set_registry(&mut self, ptr: u64, registry: u64)
        requires
            old(self).rep(),
            old(self)@.has_block(ptr as nat),
            old(self)@.blocks[ptr as nat].registry is None,
        ensures
            final(self).rep(),
            final(self)@ == old(self)@.stamp(ptr as nat, registry as nat),
    {
        let mut slot = self.blocks.remove(&ptr).unwrap();
        slot.inner.registry = Some(registry);
        self.blocks.insert(ptr, slot);
        assert(self@ =~~= old(self)@.stamp(ptr as nat, registry as nat));
    }

    /// Frees the block at `ptr`. The layout must be the one that the block
    /// was allocated with.
    pub(crate) fn deallocate(&mut self, ptr: u64, layout: Layout)
        requires
            old(self).rep(),
            old(self)@.has_block(ptr as nat),
            layout == block_layout(encode_utf8(old(self)@.value(ptr as nat)).len()),
        ensures
            final(self).rep(),
            final(self)@ == old(self)@.free(ptr as nat),
    {
        let slot = self.blocks.remove(&ptr);
        assert(slot.unwrap().layout == layout);
        assert(self@ =~~= old(self)@.free(ptr as nat));
    }

    /// Whether a registry exists at `registry`.
    pub(crate) fn has_registry(&self, registry: u64) -> (b: bool)
        ensures
            b == self@.has_registry(registry as nat),
    {
        self.registries.contains_key(&registry)
    }

    /// Makes a registry with an empty index and one handle.
    pub(crate) fn new_registry(&mut self) -> (registry: u64)
        requires
            old(self).rep(),
            old(self)@.next < u64::MAX,
        ensures
            final(self).rep(),
            registry == old(self)@.next,
            final(self)@ == old(self)@.new_registry(),
    {
        let registry = self.next;
        self.registries.insert(registry, Shared { handles: 1, registry: Registry::new() });
        self.next = registry + 1;
        assert(self@ =~~= old(self)@.new_registry());
        registry
    }

    /// The handle count of the registry at `registry`.
    pub(crate) fn handles(&self, registry: u64) -> (count: usize)
        requires
            self@.has_registry(registry as nat),
        ensures
            count == self@.registries[registry as nat].handles,
    {
        let shared = self.registries.get(&registry);
        shared.unwrap().handles
    }

    /// Adds one to the handle count of the registry at `registry`.
    pub(crate) fn retain_registry(&mut self, registry: u64)
        requires
            old(self).rep(),
            old(self)@.has_registry(registry as nat),
            old(self)@.registries[registry as nat].handles < usize::MAX,
        ensures
            final(self).rep(),
            final(self)@ == old(self)@.retain_registry(registry as nat),
    {
        let mut shared = self.registries.remove(&registry).unwrap();
        shared.handles = shared.handles + 1;
        self.registries.insert(registry, shared);
        assert(self@ =~~= old(self)@.retain_registry(registry as nat));
    }

    /// Takes one from the handle count of the registry at `registry`, and
    /// drops the registry with its index when that was the last handle.
    pub(crate) fn release_registry(&mut self, registry: u64)
        requires
            old(self).rep(),
            old(self)@.has_registry(registry as nat),
            old(self)@.registries[registry as nat].handles >= 1,
        ensures
            final(self).rep(),
            final(self)@ == old(self)@.release_registry(registry as nat),
    {
        let mut shared = self.registries.remove(&registry).unwrap();
        if shared.handles > 1 {
            shared.handles = shared.handles - 1;
            self.registries.insert(registry, shared);
        }
        assert(self@ =~~= old(self)@.release_registry(registry as nat));
    }

    /// The key that the index of the registry at `registry` has for `name`.
    pub(crate) fn lookup(&self, registry: u64, name: &str) -> (entry: Option<SymbolNoRc>)
        requires
            self@.has_registry(registry as nat),
        ensures
            match entry {
                Some(k) => self@.lookup(registry as nat, name@) == Some(k.addr()),
                None => self@.lookup(registry as nat, name@) is None,
            },
    {
        let shared = self.registries.get(&registry);
        shared.unwrap().registry.find(name)
    }

    /// Enters the block at `ptr` into the index of the registry at
    /// `registry`, under the string that the block holds.
    pub(crate) fn index(&mut self, registry: u64, ptr: u64)
        requires
            old(self).rep(),
            old(self)@.has_registry(registry as nat),
            old(self)@.has_block(ptr as nat),
        ensures
            final(self).rep(),
            final(self)@ == old(self)@.index(
                registry as nat,
                old(self)@.value(ptr as nat),
                ptr as nat,
            ),
    {
        let name = self.blocks.get(&ptr).unwrap().inner.data.clone();
        let mut shared = self.registries.remove(&registry).unwrap();
        shared.registry.insert(name, SymbolNoRc::from_ptr(ptr));
        self.registries.insert(registry, shared);
        assert(self@ =~~= old(self)@.index(
            registry as nat,
            old(self)@.value(ptr as nat),
            ptr as nat,
        ));
    }

    /// Takes the entry for the string of the block at `ptr` out of the index
    /// of the registry at `registry`.
    pub(crate) fn unindex(&mut self, registry: u64, ptr: u64)
        requires
            old(self).rep(),
            old(self)@.has_registry(registry as nat),
            old(self)@.has_block(ptr as nat),
        ensures
            final(self).rep(),
            final(self)@ == old(self)@.unindex(registry as nat, old(self)@.value(ptr as nat)),
    {
        let mut shared = self.registries.remove(&registry).unwrap();
        shared.registry.remove(self.blocks.get(&ptr).unwrap().inner.data.as_str());
        self.registries.insert(registry, shared);
        assert(self@ =~~= old(self)@.unindex(registry as nat, old(self)@.value(ptr as nat)));
    }
}

} // verus!
