//! The mathematical model that every contract of this crate speaks of.
//!
//! A heap is a map from addresses to storage blocks and a map from addresses
//! to registries. Addresses are handed out in increasing order and never
//! again, so a block that was freed stays freed. Every operation of the
//! executable code is one transition of this model.

use vstd::prelude::*;

verus! {

/// A storage block: the metadata and the string behind a symbol.
#[verifier::ext_equal]
pub struct BlockView {
    /// How many owning handles the block counts.
    pub strong: nat,
    /// Address of the registry that interned the block; `None` for a block
    /// that was created standalone.
    pub registry: Option<nat>,
    /// The string that the block holds.
    pub value: Seq<char>,
}

/// A registry: its handle count and its index from string values to blocks.
#[verifier::ext_equal]
pub struct RegistryView {
    /// How many registry handles share the registry.
    pub handles: nat,
    /// The index: for each interned value, the address of its block.
    pub index: Map<Seq<char>, nat>,
}

/// The whole heap.
#[verifier::ext_equal]
pub struct HeapView {
    /// The allocated storage blocks, by address.
    pub blocks: Map<nat, BlockView>,
    /// The registries that still exist, by address.
    pub registries: Map<nat, RegistryView>,
    /// The address that the next allocation gets.
    pub next: nat,
}

impl HeapView {
    /// The heap in which nothing was allocated yet.
    pub open spec fn empty() -> HeapView {
        HeapView { blocks: Map::empty(), registries: Map::empty(), next: 0 }
    }

    /// Whether a block is allocated at `p`.
    pub open spec fn has_block(self, p: nat) -> bool {
        self.blocks.contains_key(p)
    }

    /// Whether a registry exists at `r`.
    pub open spec fn has_registry(self, r: nat) -> bool {
        self.registries.contains_key(r)
    }

    /// The strong count of the block at `p`.
    pub open spec fn strong(self, p: nat) -> nat {
        self.blocks[p].strong
    }

    /// The string of the block at `p`.
    pub open spec fn value(self, p: nat) -> Seq<char> {
        self.blocks[p].value
    }

    /// Whether the block at `p` carries a reference to the registry at `r`,
    /// whether or not that registry still exists.
    pub open spec fn registered_in(self, p: nat, r: nat) -> bool {
        self.has_block(p) && self.blocks[p].registry == Some(r)
    }

    /// The registry that the reference of the block at `p` resolves to:
    /// `None` if the block has no reference, or if the registry is gone.
    pub open spec fn resolve(self, p: nat) -> Option<nat> {
        match self.blocks[p].registry {
            Some(r) => if self.has_registry(r) {
                Some(r)
            } else {
                None
            },
            None => None,
        }
    }

    /// Whether the block at `p` is local to the registry at `r`: its
    /// reference resolves to exactly that registry.
    pub open spec fn is_local(self, r: nat, p: nat) -> bool {
        self.has_block(p) && self.resolve(p) == Some(r)
    }

    /// The index entry of the registry at `r` for the value `v`.
    pub open spec fn lookup(self, r: nat, v: Seq<char>) -> Option<nat> {
        if self.has_registry(r) && self.registries[r].index.contains_key(v) {
            Some(self.registries[r].index[v])
        } else {
            None
        }
    }

    /// Whether the block at `p`, which refers to the registry at `r`, is
    /// accounted for there: the reference is to an address that was handed
    /// out, and if the registry still exists, its index has the block under
    /// the block's string.
    pub open spec fn reference_sound(self, p: nat, r: nat) -> bool {
        r < self.next && (self.has_registry(r) ==> self.lookup(r, self.value(p)) == Some(p))
    }

    /// Whether the index entry of the registry at `r` for `v`, if there is
    /// one, leads to an allocated block that holds `v` and refers back to
    /// the registry.
    pub open spec fn entry_sound(self, r: nat, v: Seq<char>) -> bool {
        self.lookup(r, v) matches Some(p) ==> self.registered_in(p, r) && self.value(p) == v
    }

    /// The invariant of the heap.
    ///
    /// Addresses in use lie below `next`. A registry that exists has a
    /// handle. Every index entry leads to an allocated block that holds the
    /// entry's value and refers back to the entry's registry; and every block
    /// whose registry still exists is the entry of its value there. So an
    /// index is exactly the set of allocated blocks that its registry
    /// interned, one for each value.
    pub open spec fn wf(self) -> bool {
        &&& forall|p: nat| #[trigger] self.has_block(p) ==> p < self.next
        &&& forall|r: nat| #[trigger]
            self.has_registry(r) ==> r < self.next && self.registries[r].handles >= 1
        &&& forall|p: nat, r: nat| #[trigger]
            self.registered_in(p, r) ==> self.reference_sound(p, r)
        &&& forall|r: nat, v: Seq<char>|
            (#[trigger] self.lookup(r, v)) is Some ==> self.entry_sound(r, v)
    }

    /// A new standalone block for `value`, at the address `self.next`, with
    /// one handle.
    pub open spec fn allocate(self, value: Seq<char>) -> HeapView {
        HeapView {
            blocks: self.blocks.insert(
                self.next,
                BlockView { strong: 1, registry: None, value },
            ),
            next: self.next + 1,
            ..self
        }
    }

    /// One more handle on the block at `p`.
    pub open spec fn retain(self, p: nat) -> HeapView {
        HeapView {
            blocks: self.blocks.insert(
                p,
                BlockView { strong: self.blocks[p].strong + 1, ..self.blocks[p] },
            ),
            ..self
        }
    }

    /// One handle less on the block at `p`. The block stays allocated, also
    /// when the count reaches zero.
    pub open spec fn release(self, p: nat) -> HeapView {
        HeapView {
            blocks: self.blocks.insert(
                p,
                BlockView { strong: (self.blocks[p].strong - 1) as nat, ..self.blocks[p] },
            ),
            ..self
        }
    }

    /// The block at `p` is deallocated.
    pub open spec fn free(self, p: nat) -> HeapView {
        HeapView { blocks: self.blocks.remove(p), ..self }
    }

    /// The block at `p` gets a reference to the registry at `r`.
    pub open spec fn stamp(self, p: nat, r: nat) -> HeapView {
        HeapView {
            blocks: self.blocks.insert(p, BlockView { registry: Some(r), ..self.blocks[p] }),
            ..self
        }
    }

    /// The registry at `r` gets the index entry from `v` to `p`.
    pub open spec fn index(self, r: nat, v: Seq<char>, p: nat) -> HeapView {
        HeapView {
            registries: self.registries.insert(
                r,
                RegistryView {
                    index: self.registries[r].index.insert(v, p),
                    ..self.registries[r]
                },
            ),
            ..self
        }
    }

    /// The registry at `r` loses its index entry for `v`.
    pub open spec fn unindex(self, r: nat, v: Seq<char>) -> HeapView {
        HeapView {
            registries: self.registries.insert(
                r,
                RegistryView { index: self.registries[r].index.remove(v), ..self.registries[r] },
            ),
            ..self
        }
    }

    /// The teardown of the block at `p`, run by the handle whose release
    /// brought the count to zero.
    ///
    /// Where the block's registry reference resolves, the count is read
    /// again: a count above zero means that a lookup handed out a new handle
    /// in the meantime, and the teardown is cancelled. Otherwise the index
    /// entry leaves the registry and the block is freed. A block without a
    /// registry, or whose registry is gone, is freed at once.
    pub open spec fn teardown(self, p: nat) -> HeapView {
        match self.resolve(p) {
            Some(r) => if self.strong(p) > 0 {
                self
            } else {
                self.unindex(r, self.value(p)).free(p)
            },
            None => self.free(p),
        }
    }

    /// A handle on the block at `p` is dropped: released, and, where that was
    /// the last one, followed by the teardown with nothing in between.
    pub open spec fn drop_symbol(self, p: nat) -> HeapView {
        if self.strong(p) == 1 {
            self.release(p).teardown(p)
        } else {
            self.release(p)
        }
    }

    /// The address of the symbol that `insert` of `v` into the registry at
    /// `r` returns: the block that the index has for `v`, else a new one.
    pub open spec fn insert_addr(self, r: nat, v: Seq<char>) -> nat {
        match self.lookup(r, v) {
            Some(p) => p,
            None => self.next,
        }
    }

    /// `insert` of `v` into the registry at `r`: one more handle on the
    /// block that the index has for `v`; else a new block with one handle,
    /// indexed under `v` and referring to the registry.
    pub open spec fn insert(self, r: nat, v: Seq<char>) -> HeapView {
        match self.lookup(r, v) {
            Some(p) => self.retain(p),
            None => self.allocate(v).index(r, v, self.next).stamp(self.next, r),
        }
    }

    /// `find` of `v` in the registry at `r`: one more handle on the block
    /// that the index has for `v`; nothing changes where it has none.
    pub open spec fn find(self, r: nat, v: Seq<char>) -> HeapView {
        match self.lookup(r, v) {
            Some(p) => self.retain(p),
            None => self,
        }
    }

    /// The address that `find_symbol` returns for the block at `p`: `p`
    /// itself where the block is local to the registry at `r`, else what the
    /// index has for the block's value.
    pub open spec fn find_symbol_addr(self, r: nat, p: nat) -> Option<nat> {
        if self.is_local(r, p) {
            Some(p)
        } else {
            self.lookup(r, self.value(p))
        }
    }

    /// `find_symbol` for the block at `p` in the registry at `r`: one more
    /// handle on the block that is returned.
    pub open spec fn find_symbol(self, r: nat, p: nat) -> HeapView {
        match self.find_symbol_addr(r, p) {
            Some(q) => self.retain(q),
            None => self,
        }
    }

    /// A new registry with an empty index and one handle, at the address
    /// `self.next`.
    pub open spec fn new_registry(self) -> HeapView {
        HeapView {
            registries: self.registries.insert(
                self.next,
                RegistryView { handles: 1, index: Map::empty() },
            ),
            next: self.next + 1,
            ..self
        }
    }

    /// One more handle on the registry at `r`.
    pub open spec fn retain_registry(self, r: nat) -> HeapView {
        HeapView {
            registries: self.registries.insert(
                r,
                RegistryView { handles: self.registries[r].handles + 1, ..self.registries[r] },
            ),
            ..self
        }
    }

    /// One handle less on the registry at `r`. With its last handle the
    /// registry and its index go; the blocks it interned stay as they are.
    pub open spec fn release_registry(self, r: nat) -> HeapView {
        if self.registries[r].handles == 1 {
            HeapView { registries: self.registries.remove(r), ..self }
        } else {
            HeapView {
                registries: self.registries.insert(
                    r,
                    RegistryView {
                        handles: (self.registries[r].handles - 1) as nat,
                        ..self.registries[r]
                    },
                ),
                ..self
            }
        }
    }
}

impl HeapView {
    /// The empty heap is well formed.
    pub proof fn empty_wf()
        ensures
            HeapView::empty().wf(),
    {
    }

    /// A heap stays well formed under any change that allocates nothing new,
    /// leaves the strings, the registry references and the indexes as they
    /// were, and frees no block that an index of a remaining registry holds.
    /// Strong counts and handle counts may change, registries may go, and
    /// blocks that no remaining registry indexes may go.
    proof fn frame_wf(self, h: HeapView)
        requires
            self.wf(),
            h.next >= self.next,
            forall|p: nat| #[trigger]
                h.has_block(p) ==> self.has_block(p) && h.blocks[p].registry
                    == self.blocks[p].registry && h.value(p) == self.value(p),
            forall|r: nat| #[trigger]
                h.has_registry(r) ==> self.has_registry(r) && h.registries[r].handles >= 1
                    && h.registries[r].index == self.registries[r].index,
            forall|p: nat, r: nat| #[trigger]
                self.registered_in(p, r) && h.has_registry(r) ==> h.has_block(p),
        ensures
            h.wf(),
    {
        assert forall|p: nat, r: nat| #[trigger] h.registered_in(p, r) implies
            h.reference_sound(p, r) by {
            assert(self.registered_in(p, r));
            if h.has_registry(r) {
                assert(self.lookup(r, self.value(p)) == Some(p));
            }
        }
        assert forall|r: nat, v: Seq<char>| (#[trigger] h.lookup(r, v)) is Some implies
            h.entry_sound(r, v) by {
            assert(self.lookup(r, v) == h.lookup(r, v));
            assert(self.entry_sound(r, v));
            assert(self.registered_in(self.lookup(r, v)->0, r));
        }
    }

    /// Allocating a standalone block keeps the invariant.
    pub proof fn allocate_wf(self, value: Seq<char>)
        requires
            self.wf(),
        ensures
            self.allocate(value).wf(),
    {
        let h = self.allocate(value);
        assert forall|p: nat| #[trigger] h.has_block(p) implies p < h.next by {
            assert(p == self.next || self.has_block(p));
        }
        assert forall|r: nat| #[trigger] h.has_registry(r) implies r < h.next
            && h.registries[r].handles >= 1 by {
            assert(self.has_registry(r));
        }
        assert forall|p: nat, r: nat| #[trigger] h.registered_in(p, r) implies
            h.reference_sound(p, r) by {
            assert(self.registered_in(p, r));
        }
        assert forall|r: nat, v: Seq<char>| (#[trigger] h.lookup(r, v)) is Some implies
            h.entry_sound(r, v) by {
            assert(self.lookup(r, v) == h.lookup(r, v));
            assert(self.registered_in(self.lookup(r, v)->0, r));
        }
    }

    /// One more handle on a block keeps the invariant.
    pub proof fn retain_wf(self, p: nat)
        requires
            self.wf(),
            self.has_block(p),
        ensures
            self.retain(p).wf(),
    {
        self.frame_wf(self.retain(p));
    }

    /// One handle less on a block keeps the invariant.
    pub proof fn release_wf(self, p: nat)
        requires
            self.wf(),
            self.has_block(p),
        ensures
            self.release(p).wf(),
    {
        self.frame_wf(self.release(p));
    }

    /// The teardown keeps the invariant, whether it frees the block or is
    /// cancelled.
    pub proof fn teardown_wf(self, p: nat)
        requires
            self.wf(),
            self.has_block(p),
        ensures
            self.teardown(p).wf(),
    {
        let h = self.teardown(p);
        match self.resolve(p) {
            Some(r0) => {
                if self.strong(p) == 0 {
                    assert(self.registered_in(p, r0));
                    assert forall|q: nat| #[trigger] h.has_block(q) implies q < h.next by {
                        assert(self.has_block(q));
                    }
                    assert forall|r: nat| #[trigger] h.has_registry(r) implies r < h.next
                        && h.registries[r].handles >= 1 by {
                        assert(self.has_registry(r));
                    }
                    assert forall|q: nat, r: nat| #[trigger] h.registered_in(q, r) implies
                        h.reference_sound(q, r) by {
                        assert(self.registered_in(q, r));
                        if h.has_registry(r) {
                            assert(self.has_registry(r));
                            assert(self.lookup(r, self.value(q)) == Some(q));
                        }
                    }
                    assert forall|r: nat, v: Seq<char>| (#[trigger] h.lookup(r, v)) is Some implies
                        h.entry_sound(r, v) by {
                        assert(self.lookup(r, v) == h.lookup(r, v));
                        assert(self.registered_in(self.lookup(r, v)->0, r));
                    }
                }
            },
            None => {
                assert forall|q: nat, r: nat| #[trigger]
                    self.registered_in(q, r) && h.has_registry(r) implies h.has_block(q) by {
                    assert(self.has_registry(r));
                }
                self.frame_wf(h);
            },
        }
    }

    /// Dropping a handle keeps the invariant.
    pub proof fn drop_symbol_wf(self, p: nat)
        requires
            self.wf(),
            self.has_block(p),
        ensures
            self.drop_symbol(p).wf(),
    {
        self.release_wf(p);
        if self.strong(p) == 1 {
            self.release(p).teardown_wf(p);
        }
    }

    /// `insert` keeps the invariant.
    pub proof fn insert_wf(self, r: nat, v: Seq<char>)
        requires
            self.wf(),
            self.has_registry(r),
        ensures
            self.insert(r, v).wf(),
    {
        match self.lookup(r, v) {
            Some(p) => {
                assert(self.registered_in(p, r));
                self.retain_wf(p);
            },
            None => {
                let n = self.next;
                let h = self.insert(r, v);
                assert(!self.has_block(n));
                assert forall|q: nat| #[trigger] h.has_block(q) implies q < h.next by {
                    assert(q == n || self.has_block(q));
                }
                assert forall|s: nat| #[trigger] h.has_registry(s) implies s < h.next
                    && h.registries[s].handles >= 1 by {
                    assert(self.has_registry(s));
                }
                assert forall|q: nat, s: nat| #[trigger] h.registered_in(q, s) implies
                    h.reference_sound(q, s) by {
                    if q != n {
                        assert(self.registered_in(q, s));
                        if h.has_registry(s) {
                            assert(self.has_registry(s));
                            assert(self.lookup(s, self.value(q)) == Some(q));
                        }
                    }
                }
                assert forall|s: nat, w: Seq<char>| (#[trigger] h.lookup(s, w)) is Some implies
                    h.entry_sound(s, w) by {
                    if !(s == r && w == v) {
                        assert(self.lookup(s, w) == h.lookup(s, w));
                        assert(self.registered_in(self.lookup(s, w)->0, s));
                    }
                }
            },
        }
    }

    /// `find` keeps the invariant.
    pub proof fn find_wf(self, r: nat, v: Seq<char>)
        requires
            self.wf(),
        ensures
            self.find(r, v).wf(),
    {
        if self.lookup(r, v) is Some {
            assert(self.registered_in(self.lookup(r, v)->0, r));
            self.retain_wf(self.lookup(r, v)->0);
        }
    }

    /// `find_symbol` keeps the invariant.
    pub proof fn find_symbol_wf(self, r: nat, p: nat)
        requires
            self.wf(),
            self.has_block(p),
        ensures
            self.find_symbol(r, p).wf(),
    {
        if self.find_symbol_addr(r, p) is Some {
            let q = self.find_symbol_addr(r, p)->0;
            if !self.is_local(r, p) {
                assert(self.registered_in(q, r));
            }
            self.retain_wf(q);
        }
    }

    /// A new registry keeps the invariant.
    pub proof fn new_registry_wf(self)
        requires
            self.wf(),
        ensures
            self.new_registry().wf(),
    {
        let h = self.new_registry();
        let n = self.next;
        assert forall|q: nat| #[trigger] h.has_block(q) implies q < h.next by {
            assert(self.has_block(q));
        }
        assert forall|s: nat| #[trigger] h.has_registry(s) implies s < h.next
            && h.registries[s].handles >= 1 by {
            assert(s == n || self.has_registry(s));
        }
        assert forall|q: nat, s: nat| #[trigger] h.registered_in(q, s) implies
            h.reference_sound(q, s) by {
            assert(self.registered_in(q, s));
            if h.has_registry(s) {
                assert(self.has_registry(s));
                assert(self.lookup(s, self.value(q)) == Some(q));
            }
        }
        assert forall|s: nat, w: Seq<char>| (#[trigger] h.lookup(s, w)) is Some implies
            h.entry_sound(s, w) by {
            assert(s != n);
            assert(self.lookup(s, w) == h.lookup(s, w));
            assert(self.registered_in(self.lookup(s, w)->0, s));
        }
    }

    /// One more registry handle keeps the invariant.
    pub proof fn retain_registry_wf(self, r: nat)
        requires
            self.wf(),
            self.has_registry(r),
        ensures
            self.retain_registry(r).wf(),
    {
        self.frame_wf(self.retain_registry(r));
    }

    /// One registry handle less keeps the invariant, also where the registry
    /// goes with it.
    pub proof fn release_registry_wf(self, r: nat)
        requires
            self.wf(),
            self.has_registry(r),
        ensures
            self.release_registry(r).wf(),
    {
        self.frame_wf(self.release_registry(r));
    }
}

} // verus!
