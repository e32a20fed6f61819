use symbol_registry::symbol::{make_layout, Layout, BLOCK_ALIGN, DATA_OFFSET, MAX_REFCOUNT};
use symbol_registry::{Heap, Symbol, SymbolRegistry};

#[test]
fn layout_is_metadata_plus_string() {
    assert_eq!(make_layout(0), Layout { size: 24, align: 8 });
    assert_eq!(make_layout(3), Layout { size: 27, align: 8 });
    assert_eq!(make_layout(1000).size, DATA_OFFSET + 1000);
    assert_eq!(make_layout(1000).align, BLOCK_ALIGN);
    assert_eq!(MAX_REFCOUNT, isize::MAX as usize);
}

#[test]
fn layout_counts_bytes_not_chars() {
    let mut heap = Heap::new();
    let s = Symbol::new(&mut heap, "héllo");
    assert_eq!(s.value(&heap), "héllo");
    assert_eq!(s.value(&heap).len(), 6);
    assert_eq!(make_layout(s.value(&heap).len()).size, 30);
}

#[test]
fn new_heap_has_room() {
    let heap = Heap::new();
    assert!(!heap.is_exhausted());
}

#[test]
fn value_is_what_was_stored() {
    let mut heap = Heap::new();
    let empty = Symbol::new(&mut heap, "");
    let word = Symbol::new(&mut heap, "symbol");
    assert_eq!(empty.value(&heap), "");
    assert_eq!(word.value(&heap), "symbol");
    let r = SymbolRegistry::new(&mut heap);
    let interned = r.insert(&mut heap, "interned");
    assert_eq!(interned.value(&heap), "interned");
}

#[test]
fn insert_twice_is_one_block() {
    let mut heap = Heap::new();
    let r = SymbolRegistry::new(&mut heap);
    let a = r.insert(&mut heap, "twice");
    let b = r.insert(&mut heap, "twice");
    assert!(a.ptr_eq(&b));
    assert!(a.eq(&heap, &b));
    assert_eq!(a.clone_no_rc().strong_count(&heap), 2);
}

#[test]
fn standalone_symbols_are_equal_but_not_identical() {
    let mut heap = Heap::new();
    let a = Symbol::new(&mut heap, "same");
    let b = Symbol::new(&mut heap, "same");
    assert!(a.eq(&heap, &b));
    assert!(!a.ptr_eq(&b));
    assert_eq!(a.clone_no_rc().strong_count(&heap), 1);
    assert_eq!(b.clone_no_rc().strong_count(&heap), 1);
}

#[test]
fn clone_counts_and_drop_uncounts() {
    let mut heap = Heap::new();
    let a = Symbol::new(&mut heap, "counted");
    let key = a.clone_no_rc();
    assert_eq!(key.strong_count(&heap), 1);
    let b = a.clone(&mut heap);
    let c = b.clone(&mut heap);
    assert_eq!(key.strong_count(&heap), 3);
    c.drop(&mut heap);
    assert_eq!(key.strong_count(&heap), 2);
    a.drop(&mut heap);
    assert!(key.is_allocated(&heap));
    assert_eq!(b.value(&heap), "counted");
    b.drop(&mut heap);
    assert!(!key.is_allocated(&heap));
}

#[test]
fn dropping_the_last_handle_forgets_the_string() {
    let mut heap = Heap::new();
    let r = SymbolRegistry::new(&mut heap);
    let first = r.insert(&mut heap, "v");
    let old = first.clone_no_rc();
    let copy = first.clone(&mut heap);
    first.drop(&mut heap);
    let found = r.find(&mut heap, "v").unwrap();
    assert!(found.ptr_eq(&copy));
    assert_eq!(old.strong_count(&heap), 2);
    copy.drop(&mut heap);
    assert!(old.is_allocated(&heap));
    found.drop(&mut heap);
    assert!(!old.is_allocated(&heap));
    assert!(r.find(&mut heap, "v").is_none());
    let second = r.insert(&mut heap, "v");
    assert!(second.clone_no_rc().is_allocated(&heap));
    assert_eq!(second.clone_no_rc().strong_count(&heap), 1);
    assert_eq!(second.value(&heap), "v");
    assert!(r.is_local_symbol(&heap, &second));
}

#[test]
fn insert_after_cleanup_makes_a_new_block() {
    let mut heap = Heap::new();
    let r = SymbolRegistry::new(&mut heap);
    let first = r.insert(&mut heap, "v");
    let witness = Symbol::new(&mut heap, "witness");
    let old = first.clone_no_rc();
    first.drop(&mut heap);
    assert!(!old.is_allocated(&heap));
    let second = r.insert(&mut heap, "v");
    assert!(!old.is_allocated(&heap));
    assert!(second.clone_no_rc().is_allocated(&heap));
    assert!(!second.ptr_eq(&witness));
    assert_eq!(second.value(&heap), "v");
}

#[test]
fn teardown_before_lookup_frees_the_block() {
    let mut heap = Heap::new();
    let r = SymbolRegistry::new(&mut heap);
    let a = r.insert(&mut heap, "raced");
    let key = a.clone_no_rc();
    let last = a.release(&mut heap).unwrap();
    assert!(key.is_allocated(&heap));
    assert_eq!(key.strong_count(&heap), 0);
    assert!(last.drop_slow(&mut heap));
    assert!(!key.is_allocated(&heap));
    assert!(r.find(&mut heap, "raced").is_none());
    let fresh = r.insert(&mut heap, "raced");
    assert!(fresh.clone_no_rc().is_allocated(&heap));
    assert_eq!(fresh.clone_no_rc().strong_count(&heap), 1);
}

#[test]
fn lookup_before_teardown_cancels_it() {
    let mut heap = Heap::new();
    let r = SymbolRegistry::new(&mut heap);
    let a = r.insert(&mut heap, "raced");
    let key = a.clone_no_rc();
    let last = a.release(&mut heap).unwrap();
    let found = r.find(&mut heap, "raced").unwrap();
    assert_eq!(key.strong_count(&heap), 1);
    let witness = key.symbol(&mut heap);
    assert!(found.ptr_eq(&witness));
    witness.drop(&mut heap);
    assert!(!last.drop_slow(&mut heap));
    assert!(key.is_allocated(&heap));
    assert_eq!(key.strong_count(&heap), 1);
    assert_eq!(found.value(&heap), "raced");
    assert!(r.is_local_symbol(&heap, &found));
    assert!(r.find(&mut heap, "raced").unwrap().ptr_eq(&found));
}

#[test]
fn insert_before_teardown_cancels_it() {
    let mut heap = Heap::new();
    let r = SymbolRegistry::new(&mut heap);
    let a = r.insert(&mut heap, "raced");
    let key = a.clone_no_rc();
    let last = a.release(&mut heap).unwrap();
    let again = r.insert(&mut heap, "raced");
    assert_eq!(key.strong_count(&heap), 1);
    assert!(!last.drop_slow(&mut heap));
    assert!(key.is_allocated(&heap));
    assert_eq!(again.value(&heap), "raced");
    again.drop(&mut heap);
    assert!(!key.is_allocated(&heap));
}

#[test]
fn release_of_a_shared_handle_owes_nothing() {
    let mut heap = Heap::new();
    let a = Symbol::new(&mut heap, "shared");
    let b = a.clone(&mut heap);
    assert!(a.release(&mut heap).is_none());
    assert_eq!(b.clone_no_rc().strong_count(&heap), 1);
    let last = b.release(&mut heap).unwrap();
    let key = last.clone_no_rc();
    assert!(last.drop_slow(&mut heap));
    assert!(!key.is_allocated(&heap));
}

#[test]
fn symbols_are_local_to_their_own_registry_only() {
    let mut heap = Heap::new();
    let a = SymbolRegistry::new(&mut heap);
    let b = SymbolRegistry::new(&mut heap);
    let in_a = a.insert(&mut heap, "both");
    let in_b = b.insert(&mut heap, "both");
    let alone = Symbol::new(&mut heap, "both");
    assert!(in_a.eq(&heap, &in_b));
    assert!(!in_a.ptr_eq(&in_b));
    assert!(a.is_local_symbol(&heap, &in_a));
    assert!(!b.is_local_symbol(&heap, &in_a));
    assert!(b.is_local_symbol(&heap, &in_b));
    assert!(!a.is_local_symbol(&heap, &in_b));
    assert!(!a.is_local_symbol(&heap, &alone));
    assert!(!b.is_local_symbol(&heap, &alone));
}

#[test]
fn find_symbol_returns_the_local_symbol_itself() {
    let mut heap = Heap::new();
    let r = SymbolRegistry::new(&mut heap);
    let s = r.insert(&mut heap, "local");
    let found = r.find_symbol(&mut heap, &s).unwrap();
    assert!(found.ptr_eq(&s));
    assert!(found.eq(&heap, &s));
    assert_eq!(s.clone_no_rc().strong_count(&heap), 2);
}

#[test]
fn find_symbol_looks_foreign_symbols_up_by_value() {
    let mut heap = Heap::new();
    let a = SymbolRegistry::new(&mut heap);
    let b = SymbolRegistry::new(&mut heap);
    let in_a = a.insert(&mut heap, "word");
    let alone = Symbol::new(&mut heap, "word");
    let other = Symbol::new(&mut heap, "other");
    assert!(b.find_symbol(&mut heap, &in_a).is_none());
    let from_alone = a.find_symbol(&mut heap, &alone).unwrap();
    assert!(from_alone.ptr_eq(&in_a));
    assert!(!from_alone.ptr_eq(&alone));
    assert!(a.find_symbol(&mut heap, &other).is_none());
    let in_b = b.insert(&mut heap, "word");
    let from_a = b.find_symbol(&mut heap, &in_a).unwrap();
    assert!(from_a.ptr_eq(&in_b));
    assert!(!from_a.ptr_eq(&in_a));
}

#[test]
fn find_misses_what_was_never_inserted() {
    let mut heap = Heap::new();
    let r = SymbolRegistry::new(&mut heap);
    assert!(r.find(&mut heap, "absent").is_none());
    let s = r.insert(&mut heap, "present");
    assert!(r.find(&mut heap, "absent").is_none());
    assert!(r.find(&mut heap, "").is_none());
    assert!(r.find(&mut heap, "present").unwrap().ptr_eq(&s));
}

#[test]
fn registry_handles_compare_by_identity() {
    let mut heap = Heap::new();
    let a = SymbolRegistry::new(&mut heap);
    let b = SymbolRegistry::new(&mut heap);
    let a2 = a.clone(&mut heap);
    assert_eq!(a, a2);
    assert_ne!(a, b);
    assert_eq!(a.handle_count(&heap), 2);
    assert_eq!(b.handle_count(&heap), 1);
    let s = a.insert(&mut heap, "shared");
    assert!(a2.is_local_symbol(&heap, &s));
    assert!(a2.find(&mut heap, "shared").unwrap().ptr_eq(&s));
}

#[test]
fn symbols_outlive_their_registry() {
    let mut heap = Heap::new();
    let r = SymbolRegistry::new(&mut heap);
    let r2 = r.clone(&mut heap);
    let s = r.insert(&mut heap, "survivor");
    let key = s.clone_no_rc();
    r.drop(&mut heap);
    assert_eq!(r2.handle_count(&heap), 1);
    assert!(r2.is_local_symbol(&heap, &s));
    r2.drop(&mut heap);
    assert!(key.is_allocated(&heap));
    assert_eq!(s.value(&heap), "survivor");
    let copy = s.clone(&mut heap);
    assert!(copy.ptr_eq(&s));
    let other = SymbolRegistry::new(&mut heap);
    assert!(!other.is_local_symbol(&heap, &s));
    copy.drop(&mut heap);
    s.drop(&mut heap);
    assert!(!key.is_allocated(&heap));
}

#[test]
fn scenario_foo_temp_bar() {
    let mut heap = Heap::new();
    let r = SymbolRegistry::new(&mut heap);
    let a = r.insert(&mut heap, "foo");
    r.insert(&mut heap, "temp").drop(&mut heap);
    let b = r.insert(&mut heap, "bar");
    let found = r.find(&mut heap, "foo").unwrap();
    assert!(a.eq(&heap, &found));
    assert!(a.ptr_eq(&found));
    assert!(r.is_local_symbol(&heap, &a));
    assert!(!a.eq(&heap, &b));
    assert!(r.find(&mut heap, "temp").is_none());
}

#[test]
fn keys_read_the_block_without_counting() {
    let mut heap = Heap::new();
    let r = SymbolRegistry::new(&mut heap);
    let a = r.insert(&mut heap, "keyed");
    let b = Symbol::new(&mut heap, "keyed");
    let c = Symbol::new(&mut heap, "other");
    let (ka, kb, kc) = (a.clone_no_rc(), b.clone_no_rc(), c.clone_no_rc());
    assert_eq!(ka.borrow(&heap), "keyed");
    assert_eq!(kc.borrow(&heap), "other");
    assert!(ka.eq(&heap, &kb));
    assert!(!ka.eq(&heap, &kc));
    assert_eq!(ka.strong_count(&heap), 1);
    let again = ka.symbol(&mut heap);
    assert!(again.ptr_eq(&a));
    assert_eq!(ka.strong_count(&heap), 2);
}

#[test]
fn lookup_does_not_count() {
    let mut heap = Heap::new();
    let r = SymbolRegistry::new(&mut heap);
    assert!(r.lookup(&heap, "word").is_none());
    let s = r.insert(&mut heap, "word");
    let key = r.lookup(&heap, "word").unwrap();
    assert_eq!(key.strong_count(&heap), 1);
    assert_eq!(key.borrow(&heap), "word");
    assert!(key.symbol(&mut heap).ptr_eq(&s));
    assert!(r.lookup(&heap, "wor").is_none());
}
