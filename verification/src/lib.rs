//! Shared immutable strings ("symbols"), interned through registries.
//!
//! A registry stores each string once and hands out symbols for it; a symbol
//! can also be made standalone. Every symbol counts in the strong count of
//! its storage block. When the count reaches zero the block leaves the
//! registry and is freed, unless a lookup in the registry handed out a new
//! symbol in the meantime. The registry keeps no count on a block, and a
//! block keeps its registry only by a reference that may dangle.
//!
//! All blocks and registries live in a [`Heap`]. Symbols and registry
//! handles are addresses into it, and every operation names the heap it
//! works on. The contracts speak of the heap's model, [`model::HeapView`];
//! [`laws`] states what follows for every heap.

pub mod heap;
pub mod laws;
pub mod model;
pub mod order;
pub mod symbol;
pub mod symbol_no_rc;

pub use crate::heap::Heap;
pub use crate::symbol::Symbol;
pub use crate::symbol_no_rc::SymbolNoRc;

use crate::symbol::{layout_fits, MAX_REFCOUNT};
use vstd::hash_map::StringHashMap;
use vstd::prelude::*;
use vstd::utf8::encode_utf8;

verus! {

/// The index of one registry: for each interned string the key of its block.
pub(crate) struct Registry {
    content: StringHashMap<SymbolNoRc>,
}

impl View for Registry {
    type V = Map<Seq<char>, nat>;

    closed spec fn view(&self) -> Map<Seq<char>, nat> {
        self.content@.map_values(|k: SymbolNoRc| k.addr())
    }
}

impl Registry {
    /// An empty index.
    pub(crate) fn new() -> (registry: Registry)
        ensures
            registry@ == Map::<Seq<char>, nat>::empty(),
    {
        let registry = Registry { content: StringHashMap::new() };
        assert(registry@ =~= Map::<Seq<char>, nat>::empty());
        registry
    }

    /// The key that the index has for `name`, if it has one.
    pub(crate) fn find(&self, name: &str) -> (entry: Option<SymbolNoRc>)
        ensures
            match entry {
                Some(k) => self@.contains_key(name@) && self@[name@] == k.addr(),
                None => !self@.contains_key(name@),
            },
    {
        match self.content.get(name) {
            Some(k) => Some(*k),
            None => None,
        }
    }

    /// Sets the entry of `name`.
    pub(crate) fn insert(&mut self, name: String, key: SymbolNoRc)
        ensures
            final(self)@ == old(self)@.insert(name@, key.addr()),
    {
        self.content.insert(name, key);
        assert(self@ =~= old(self)@.insert(name@, key.addr()));
    }

    /// Takes the entry of `name` out, if there is one.
    pub(crate) fn remove(&mut self, name: &str)
        ensures
            final(self)@ == old(self)@.remove(name@),
    {
        self.content.remove(name);
        assert(self@ =~= old(self)@.remove(name@));
    }
}

/// A set of shared strings.
///
/// A registry interns strings: it hands out the same symbol for equal
/// strings as long as a handle on that symbol exists, and forgets a string
/// when the last handle on its symbol is dropped. A `SymbolRegistry` is a
/// handle on a registry; handles made by `clone` share it.
#[derive(Debug, PartialEq, Eq, Structural)]
pub struct SymbolRegistry {
    registry: u64,
}

impl SymbolRegistry {
    /// The address of the registry that the handle shares.
    pub closed spec fn addr(&self) -> nat {
        self.registry as nat
    }

    /// Creates a new registry.
    pub fn new(heap: &mut Heap) -> (registry: SymbolRegistry)
        requires
            old(heap).wf(),
            old(heap)@.next < u64::MAX,
        ensures
            final(heap).wf(),
            final(heap)@ == old(heap)@.new_registry(),
            registry.addr() == old(heap)@.next,
    {
        let registry = heap.new_registry();
        proof {
            old(heap)@.new_registry_wf();
        }
        SymbolRegistry { registry }
    }

    /// Looks a string up without counting: the key of the block that the
    /// registry holds for it, if it holds one.
    pub fn lookup(&self, heap: &Heap, value: &str) -> (entry: Option<SymbolNoRc>)
        requires
            heap.wf(),
            heap@.has_registry(self.addr()),
        ensures
            match entry {
                Some(key) => heap@.lookup(self.addr(), value@) == Some(key.addr()),
                None => heap@.lookup(self.addr(), value@) is None,
            },
    {
        heap.lookup(self.registry, value)
    }

    /// Inserts a string into the registry if it is not present, and returns
    /// the symbol for it.
    pub fn insert(&self, heap: &mut Heap, value: &str) -> (symbol: Symbol)
        requires
            old(heap).wf(),
            old(heap)@.has_registry(self.addr()),
            match old(heap)@.lookup(self.addr(), value@) {
                Some(p) => old(heap)@.strong(p) <= MAX_REFCOUNT,
                None => old(heap)@.next < u64::MAX && layout_fits(encode_utf8(value@).len()),
            },
        ensures
            final(heap).wf(),
            final(heap)@ == old(heap)@.insert(self.addr(), value@),
            symbol.addr() == old(heap)@.insert_addr(self.addr(), value@),
    {
        proof {
            old(heap)@.insert_wf(self.addr(), value@);
        }
        if let Some(entry) = self.lookup(heap, value) {
            assert(heap@.registered_in(entry.addr(), self.addr()));
            return entry.symbol(heap);
        }
        let symbol = Symbol::new(heap, value);
        heap.index(self.registry, symbol.ptr());
        symbol.set_registry(heap, self.registry);
        symbol
    }

    /// Finds the symbol for a string, if the registry holds it.
    pub fn find(&self, heap: &mut Heap, value: &str) -> (found: Option<Symbol>)
        requires
            old(heap).wf(),
            old(heap)@.has_registry(self.addr()),
            old(heap)@.lookup(self.addr(), value@) matches Some(p) ==> old(heap)@.strong(p)
                <= MAX_REFCOUNT,
        ensures
            final(heap).wf(),
            final(heap)@ == old(heap)@.find(self.addr(), value@),
            match found {
                Some(symbol) => old(heap)@.lookup(self.addr(), value@) == Some(symbol.addr()),
                None => old(heap)@.lookup(self.addr(), value@) is None,
            },
    {
        match self.lookup(heap, value) {
            Some(entry) => {
                assert(heap@.registered_in(entry.addr(), self.addr()));
                Some(entry.symbol(heap))
            },
            None => None,
        }
    }

    /// Checks whether the symbol itself, not only its string, belongs to
    /// this registry.
    pub fn is_local_symbol(&self, heap: &Heap, symbol: &Symbol) -> (local: bool)
        requires
            heap.wf(),
            heap@.has_block(symbol.addr()),
        ensures
            local == heap@.is_local(self.addr(), symbol.addr()),
    {
        if let Some(registry) = symbol.registry(heap) {
            registry == self.registry
        } else {
            false
        }
    }

    /// Finds a symbol in the registry: a clone of the symbol itself where it
    /// belongs to this registry, else the registry's symbol for the same
    /// string.
    pub fn find_symbol(&self, heap: &mut Heap, symbol: &Symbol) -> (found: Option<Symbol>)
        requires
            old(heap).wf(),
            old(heap)@.has_registry(self.addr()),
            old(heap)@.has_block(symbol.addr()),
            old(heap)@.find_symbol_addr(self.addr(), symbol.addr()) matches Some(p) ==> old(
                heap,
            )@.strong(p) <= MAX_REFCOUNT,
        ensures
            final(heap).wf(),
            final(heap)@ == old(heap)@.find_symbol(self.addr(), symbol.addr()),
            match found {
                Some(s) => old(heap)@.find_symbol_addr(self.addr(), symbol.addr()) == Some(
                    s.addr(),
                ),
                None => old(heap)@.find_symbol_addr(self.addr(), symbol.addr()) is None,
            },
    {
        if self.is_local_symbol(heap, symbol) {
            return Some(symbol.clone(heap));
        }
        match self.lookup(heap, symbol.value(heap)) {
            Some(entry) => {
                assert(heap@.registered_in(entry.addr(), self.addr()));
                Some(entry.symbol(heap))
            },
            None => None,
        }
    }

    /// How many handles share the registry.
    pub fn handle_count(&self, heap: &Heap) -> (count: usize)
        requires
            heap.wf(),
            heap@.has_registry(self.addr()),
        ensures
            count == heap@.registries[self.addr()].handles,
    {
        heap.handles(self.registry)
    }

    /// Makes one more handle on the same registry.
    pub fn clone(&self, heap: &mut Heap) -> (copy: SymbolRegistry)
        requires
            old(heap).wf(),
            old(heap)@.has_registry(self.addr()),
            old(heap)@.registries[self.addr()].handles <= MAX_REFCOUNT,
        ensures
            final(heap).wf(),
            final(heap)@ == old(heap)@.retain_registry(self.addr()),
            copy == *self,
    {
        heap.retain_registry(self.registry);
        proof {
            old(heap)@.retain_registry_wf(self.addr());
        }
        SymbolRegistry { registry: self.registry }
    }

    /// Drops the handle. The registry goes with its last handle; the symbols
    /// it interned stay valid and are standalone from then on.
    pub fn drop(self, heap: &mut Heap)
        requires
            old(heap).wf(),
            old(heap)@.has_registry(self.addr()),
        ensures
            final(heap).wf(),
            final(heap)@ == old(heap)@.release_registry(self.addr()),
    {
        heap.release_registry(self.registry);
        proof {
            old(heap)@.release_registry_wf(self.addr());
        }
    }
}

} // verus!
