//! What holds of every heap: the laws of interning, stated over the model
//! that the contracts of the executable functions speak of.

use crate::model::HeapView;
use vstd::prelude::*;

verus! {

/// Interning deduplicates: two inserts of one string into one registry, with
/// nothing in between, return symbols on the same storage block, and the
/// block then counts both.
pub proof fn insert_twice_same_block(h: HeapView, r: nat, v: Seq<char>)
    requires
        h.wf(),
        h.has_registry(r),
    ensures
        h.insert(r, v).insert_addr(r, v) == h.insert_addr(r, v),
        h.insert(r, v).insert(r, v).strong(h.insert_addr(r, v)) == h.insert(r, v).strong(
            h.insert_addr(r, v),
        ) + 1,
        h.insert(r, v).insert(r, v).value(h.insert_addr(r, v)) == v,
{
    let h1 = h.insert(r, v);
    let p = h.insert_addr(r, v);
    h.insert_wf(r, v);
    if h.lookup(r, v) is Some {
        assert(h.registered_in(p, r));
    }
    assert(h1.lookup(r, v) == Some(p));
    assert(h1.registered_in(p, r));
}

/// The registry holds no string twice: two allocated blocks that the same
/// existing registry interned, with equal strings, are one block.
pub proof fn one_block_per_value(h: HeapView, r: nat, p: nat, q: nat)
    requires
        h.wf(),
        h.is_local(r, p),
        h.is_local(r, q),
        h.value(p) == h.value(q),
    ensures
        p == q,
{
    assert(h.registered_in(p, r));
    assert(h.registered_in(q, r));
}

/// Value and identity differ: two standalone symbols made from one string,
/// one after the other, hold equal strings in different storage blocks.
pub proof fn standalone_equal_not_same(h: HeapView, v: Seq<char>)
    requires
        h.wf(),
    ensures
        h.allocate(v).next != h.next,
        h.allocate(v).allocate(v).has_block(h.next),
        h.allocate(v).allocate(v).has_block(h.allocate(v).next),
        h.allocate(v).allocate(v).value(h.next) == h.allocate(v).allocate(v).value(
            h.allocate(v).next,
        ),
        h.allocate(v).allocate(v).value(h.next) == v,
{
}

/// A clone is the same block: it holds the same string at the same address,
/// and the block counts one handle more.
pub proof fn clone_same_block(h: HeapView, p: nat)
    requires
        h.wf(),
        h.has_block(p),
    ensures
        h.retain(p).has_block(p),
        h.retain(p).value(p) == h.value(p),
        h.retain(p).strong(p) == h.strong(p) + 1,
        h.retain(p).blocks[p].registry == h.blocks[p].registry,
{
}

/// Dropping a handle that is not the last one changes the count and nothing
/// else: the block stays allocated and stays in its registry's index.
pub proof fn drop_not_last_keeps_block(h: HeapView, p: nat)
    requires
        h.wf(),
        h.has_block(p),
        h.strong(p) >= 2,
    ensures
        h.drop_symbol(p) == h.release(p),
        h.drop_symbol(p).has_block(p),
        h.drop_symbol(p).strong(p) == h.strong(p) - 1,
        h.drop_symbol(p).registries == h.registries,
{
}

/// Dropping the last handle frees the block and takes its entry out of the
/// index: the registry then finds nothing under the block's string.
pub proof fn drop_last_frees(h: HeapView, p: nat)
    requires
        h.wf(),
        h.has_block(p),
        h.strong(p) == 1,
    ensures
        !h.drop_symbol(p).has_block(p),
        h.drop_symbol(p).next == h.next,
        forall|r: nat| h.is_local(r, p) ==> h.drop_symbol(p).lookup(r, h.value(p)) is None,
        forall|q: nat| q != p ==> (h.drop_symbol(p).has_block(q) <==> h.has_block(q)),
        forall|q: nat| q != p && h.has_block(q) ==> h.drop_symbol(p).blocks[q] == h.blocks[q],
{
    let h1 = h.release(p);
    h.release_wf(p);
    assert(h1.resolve(p) == h.resolve(p));
    assert(h1.value(p) == h.value(p));
    assert(h1.strong(p) == 0);
}

/// Cleanup: when a registry has interned a string and the only handle on
/// its symbol is dropped, the next insert of the same string makes a new
/// storage block, at an address that no block had before.
pub proof fn insert_after_cleanup_is_fresh(h: HeapView, r: nat, v: Seq<char>)
    requires
        h.wf(),
        h.has_registry(r),
        h.insert(r, v).strong(h.insert_addr(r, v)) == 1,
    ensures
        h.insert(r, v).drop_symbol(h.insert_addr(r, v)).wf(),
        !h.insert(r, v).drop_symbol(h.insert_addr(r, v)).has_block(h.insert_addr(r, v)),
        h.insert(r, v).drop_symbol(h.insert_addr(r, v)).insert_addr(r, v) != h.insert_addr(r, v),
        h.insert(r, v).drop_symbol(h.insert_addr(r, v)).insert_addr(r, v) == h.insert(r, v).next,
{
    let p = h.insert_addr(r, v);
    let h1 = h.insert(r, v);
    h.insert_wf(r, v);
    if h.lookup(r, v) is Some {
        assert(h.registered_in(p, r));
    }
    assert(h1.has_block(p));
    assert(h1.lookup(r, v) == Some(p));
    assert(h1.registered_in(p, r));
    assert(h1.is_local(r, p));
    assert(h1.value(p) == v);
    drop_last_frees(h1, p);
    h1.drop_symbol_wf(p);
}

/// A freed address stays free: no allocation returns an address below
/// `next`, and every address that was ever in use lies below `next`.
pub proof fn addresses_are_fresh(h: HeapView, r: nat, v: Seq<char>, p: nat)
    requires
        h.wf(),
        p < h.next,
        !h.has_block(p),
    ensures
        !h.allocate(v).has_block(p),
        !h.insert(r, v).has_block(p),
        h.insert_addr(r, v) != p,
        !h.new_registry().has_block(p),
{
    if h.lookup(r, v) is Some {
        assert(h.registered_in(h.insert_addr(r, v), r));
    }
}

/// Resurrection, the dropper first: the last handle on an interned symbol is
/// released and its teardown runs before anyone looks the string up. The
/// block is freed and its index entry removed; a later `find` finds
/// nothing, and a later `insert` makes a new block.
pub proof fn teardown_before_lookup(h: HeapView, r: nat, p: nat)
    requires
        h.wf(),
        h.is_local(r, p),
        h.strong(p) == 1,
    ensures
        h.release(p).teardown(p).wf(),
        !h.release(p).teardown(p).has_block(p),
        h.release(p).teardown(p).lookup(r, h.value(p)) is None,
        h.release(p).teardown(p).find(r, h.value(p)) == h.release(p).teardown(p),
        h.release(p).teardown(p).insert_addr(r, h.value(p)) == h.next,
        h.release(p).teardown(p).insert_addr(r, h.value(p)) != p,
{
    drop_last_frees(h, p);
    h.drop_symbol_wf(p);
    assert(h.has_block(p));
}

/// Resurrection, the finder first: the last handle on an interned symbol is
/// released, and before its teardown runs a `find` or an `insert` of the
/// same string hands out a new handle on the same block. The teardown then
/// reads a count above zero and changes nothing: the block stays allocated
/// with the one new handle, and stays in the index.
pub proof fn lookup_before_teardown(h: HeapView, r: nat, p: nat)
    requires
        h.wf(),
        h.is_local(r, p),
        h.strong(p) == 1,
    ensures
        h.release(p).lookup(r, h.value(p)) == Some(p),
        h.release(p).insert_addr(r, h.value(p)) == p,
        h.release(p).insert(r, h.value(p)) == h.release(p).find(r, h.value(p)),
        h.release(p).find(r, h.value(p)).strong(p) == 1,
        h.release(p).find(r, h.value(p)).teardown(p) == h.release(p).find(r, h.value(p)),
        h.release(p).find(r, h.value(p)).wf(),
        h.release(p).find(r, h.value(p)).has_block(p),
        h.release(p).find(r, h.value(p)).lookup(r, h.value(p)) == Some(p),
        h.release(p).find(r, h.value(p)) == h,
{
    let v = h.value(p);
    let h1 = h.release(p);
    h.release_wf(p);
    assert(h.registered_in(p, r));
    assert(h.lookup(r, v) == Some(p));
    assert(h1.lookup(r, v) == Some(p));
    let h2 = h1.find(r, v);
    h1.find_wf(r, v);
    assert(h2.blocks =~= h.blocks);
    assert(h2 =~= h);
}

/// A teardown that finds a count above zero under its registry is cancelled:
/// nothing changes, whatever happened since the release.
pub proof fn teardown_cancelled(h: HeapView, p: nat)
    requires
        h.has_block(p),
        h.resolve(p) is Some,
        h.strong(p) > 0,
    ensures
        h.teardown(p) == h,
{
}

/// Identity scoping: a symbol is local to the registry that its reference
/// resolves to, and to no other, also where another registry holds an equal
/// string.
pub proof fn local_to_one_registry(h: HeapView, a: nat, b: nat, p: nat)
    requires
        h.is_local(a, p),
        a != b,
    ensures
        !h.is_local(b, p),
{
}

/// The symbol that `insert` returns is local to the registry it was
/// inserted into, and to no other.
pub proof fn inserted_is_local(h: HeapView, a: nat, b: nat, v: Seq<char>)
    requires
        h.wf(),
        h.has_registry(a),
        a != b,
    ensures
        h.insert(a, v).is_local(a, h.insert_addr(a, v)),
        !h.insert(a, v).is_local(b, h.insert_addr(a, v)),
        h.insert(a, v).value(h.insert_addr(a, v)) == v,
{
    if h.lookup(a, v) is Some {
        assert(h.registered_in(h.insert_addr(a, v), a));
    }
}

/// A standalone symbol is local to no registry.
pub proof fn standalone_is_local_nowhere(h: HeapView, v: Seq<char>, r: nat)
    requires
        h.wf(),
    ensures
        !h.allocate(v).is_local(r, h.next),
{
}

/// `find_symbol` with a symbol that is local to the registry returns that
/// symbol: a handle on the same block, which is also what a lookup of its
/// string in the index gives.
pub proof fn find_symbol_local(h: HeapView, r: nat, p: nat)
    requires
        h.wf(),
        h.is_local(r, p),
    ensures
        h.find_symbol_addr(r, p) == Some(p),
        h.find_symbol(r, p) == h.retain(p),
        h.find_symbol(r, p) == h.find(r, h.value(p)),
        h.find_symbol(r, p).value(p) == h.value(p),
{
    assert(h.registered_in(p, r));
}

/// `find_symbol` with a symbol of another registry, or a standalone one,
/// looks the symbol's string up: it returns this registry's own symbol for
/// that string, which holds an equal string in another block.
pub proof fn find_symbol_foreign(h: HeapView, r: nat, p: nat)
    requires
        h.wf(),
        h.has_block(p),
        !h.is_local(r, p),
    ensures
        h.find_symbol_addr(r, p) == h.lookup(r, h.value(p)),
        h.find_symbol(r, p) == h.find(r, h.value(p)),
        h.find_symbol_addr(r, p) matches Some(q) ==> q != p && h.is_local(r, q) && h.value(q)
            == h.value(p),
{
    if h.lookup(r, h.value(p)) is Some {
        let q = h.lookup(r, h.value(p))->0;
        assert(h.registered_in(q, r));
    }
}

/// What a registry finds is what it interned: `find` returns a symbol
/// exactly for the strings that were inserted and whose block is still
/// allocated, and the symbol holds the string asked for.
pub proof fn find_after_insert(h: HeapView, r: nat, v: Seq<char>)
    requires
        h.wf(),
        h.has_registry(r),
    ensures
        h.insert(r, v).lookup(r, v) == Some(h.insert_addr(r, v)),
        forall|w: Seq<char>| w != v ==> h.insert(r, v).lookup(r, w) == h.lookup(r, w),
        forall|s: nat, w: Seq<char>| s != r ==> h.insert(r, v).lookup(s, w) == h.lookup(s, w),
{
    if h.lookup(r, v) is Some {
        assert(h.registered_in(h.insert_addr(r, v), r));
    }
}

/// A registry that loses its last handle takes nothing with it: every block
/// stays allocated with its string and its count, and the symbols it
/// interned are local to no registry from then on.
pub proof fn registry_gone_symbols_stay(h: HeapView, r: nat, p: nat)
    requires
        h.wf(),
        h.has_registry(r),
        h.registries[r].handles == 1,
        h.has_block(p),
    ensures
        !h.release_registry(r).has_registry(r),
        h.release_registry(r).blocks == h.blocks,
        h.is_local(r, p) ==> h.release_registry(r).resolve(p) is None,
        h.is_local(r, p) ==> !h.release_registry(r).teardown(p).has_block(p),
{
}

} // verus!
