use std::cmp::Ordering;
use symbol_registry::order::compare_bytes;
use symbol_registry::{Heap, Symbol, SymbolRegistry};

#[test]
fn bytes_compare_lexicographically() {
    assert_eq!(compare_bytes(b"", b""), 0);
    assert_eq!(compare_bytes(b"", b"a"), -1);
    assert_eq!(compare_bytes(b"a", b""), 1);
    assert_eq!(compare_bytes(b"abc", b"abc"), 0);
    assert_eq!(compare_bytes(b"abc", b"abd"), -1);
    assert_eq!(compare_bytes(b"abd", b"abc"), 1);
    assert_eq!(compare_bytes(b"ab", b"abc"), -1);
    assert_eq!(compare_bytes(b"abc", b"ab"), 1);
    assert_eq!(compare_bytes(b"b", b"abc"), 1);
    assert_eq!(compare_bytes(&[0xff], &[0x00, 0x01]), 1);
}

#[test]
fn symbols_order_as_their_strings_do() {
    let mut heap = Heap::new();
    let r = SymbolRegistry::new(&mut heap);
    let words = ["", "a", "ab", "abc", "b", "bar", "foo", "föö", "zebra", "é"];
    for x in words {
        for y in words {
            let a = Symbol::new(&mut heap, x);
            let b = r.insert(&mut heap, y);
            assert_eq!(a.cmp(&heap, &b), x.cmp(y));
            assert_eq!(a.partial_cmp(&heap, &b), Some(x.cmp(y)));
            assert_eq!(a.eq(&heap, &b), x == y);
            let sign = match x.cmp(y) {
                Ordering::Less => -1,
                Ordering::Equal => 0,
                Ordering::Greater => 1,
            };
            assert_eq!(a.sign(&heap, &b), sign);
            a.drop(&mut heap);
            b.drop(&mut heap);
        }
    }
}

#[test]
fn a_symbol_equals_itself_and_its_clones() {
    let mut heap = Heap::new();
    let a = Symbol::new(&mut heap, "self");
    let b = a.clone(&mut heap);
    assert_eq!(a.cmp(&heap, &a), Ordering::Equal);
    assert_eq!(a.cmp(&heap, &b), Ordering::Equal);
    assert!(a.eq(&heap, &a));
}

#[test]
fn order_is_exact_on_chosen_words() {
    let mut heap = Heap::new();
    let foo = Symbol::new(&mut heap, "foo");
    let bar = Symbol::new(&mut heap, "bar");
    let food = Symbol::new(&mut heap, "food");
    assert_eq!(bar.cmp(&heap, &foo), Ordering::Less);
    assert_eq!(foo.cmp(&heap, &bar), Ordering::Greater);
    assert_eq!(foo.cmp(&heap, &food), Ordering::Less);
    assert_eq!(food.cmp(&heap, &foo), Ordering::Greater);
}
