use symbol_registry::{Heap, Symbol, SymbolRegistry};

#[test]
fn standalone() {
    let mut heap = Heap::new();
    let s = Symbol::new(&mut heap, "standalone");
    let s1 = Symbol::new(&mut heap, "standalone2");
    let s2 = s1.clone(&mut heap);
    let s3 = s1.clone(&mut heap);
    let s4 = Symbol::new(&mut heap, "standalone2");
    assert!(!s.eq(&heap, &s1));
    assert!(!s.eq(&heap, &s2));
    assert!(!s.eq(&heap, &s3));
    assert!(s1.eq(&heap, &s2));
    assert!(s1.eq(&heap, &s2));
    assert!(s2.eq(&heap, &s3));
    assert!(s2.ptr_eq(&s3));
    assert!(!s2.ptr_eq(&s4));
}

#[test]
fn normal() {
    let mut heap = Heap::new();
    let r = SymbolRegistry::new(&mut heap);
    let s1 = r.insert(&mut heap, "foo");
    r.insert(&mut heap, "drop immediately").drop(&mut heap);
    let s2 = r.insert(&mut heap, "bar");
    let found = r.find(&mut heap, "foo").unwrap();
    assert!(s1.eq(&heap, &found));
    let same = r.find_symbol(&mut heap, &s1).unwrap();
    assert!(s1.eq(&heap, &same));
    assert!(r.is_local_symbol(&heap, &s1));
    let again = r.find_symbol(&mut heap, &s1).unwrap();
    assert!(r.is_local_symbol(&heap, &again));
    assert!(!s1.eq(&heap, &s2));
}
