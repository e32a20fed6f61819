//! The order of symbols: that of their strings, byte by byte.

use crate::heap::Heap;
use crate::symbol::Symbol;
use std::cmp::Ordering;
use vstd::prelude::*;
use vstd::utf8::encode_utf8;

verus! {

/// Whether `a` and `b` agree before position `i`, and `a` comes first
/// there: `a` ends at `i` and `b` goes on, or `a` has the smaller byte.
pub open spec fn precedes_at(a: Seq<u8>, b: Seq<u8>, i: int) -> bool {
    &&& 0 <= i <= a.len()
    &&& i < b.len()
    &&& forall|k: int| 0 <= k < i ==> a[k] == b[k]
    &&& (i == a.len() || a[i] < b[i])
}

/// Whether `a` comes before `b` in lexicographic order.
pub open spec fn bytes_lt(a: Seq<u8>, b: Seq<u8>) -> bool {
    exists|i: int| precedes_at(a, b, i)
}

/// Whether the string `a` comes before the string `b`: the order of their
/// UTF-8 bytes, which is the order of `str`.
pub open spec fn value_lt(a: Seq<char>, b: Seq<char>) -> bool {
    bytes_lt(encode_utf8(a), encode_utf8(b))
}

/// No sequence comes before itself, and of two sequences at most one comes
/// before the other.
pub proof fn bytes_lt_asymmetric(a: Seq<u8>, b: Seq<u8>)
    requires
        bytes_lt(a, b),
    ensures
        !bytes_lt(b, a),
        a != b,
{
    let i = choose|i: int| precedes_at(a, b, i);
    if bytes_lt(b, a) {
        let j = choose|j: int| precedes_at(b, a, j);
        if j < i {
            assert(a[j] == b[j]);
        } else if i < j {
            assert(b[i] == a[i]);
        }
    }
}

/// Of two different sequences one comes before the other.
pub proof fn bytes_lt_total(a: Seq<u8>, b: Seq<u8>)
    ensures
        a == b || bytes_lt(a, b) || bytes_lt(b, a),
{
    scan_from(a, b, 0);
}

/// Two sequences that agree before `i` are equal, or one comes before the
/// other.
proof fn scan_from(a: Seq<u8>, b: Seq<u8>, i: int)
    requires
        0 <= i <= a.len(),
        i <= b.len(),
        forall|k: int| 0 <= k < i ==> a[k] == b[k],
    ensures
        a == b || bytes_lt(a, b) || bytes_lt(b, a),
    decreases a.len() - i,
{
    if i == a.len() {
        if i == b.len() {
            assert(a =~= b);
        } else {
            assert(precedes_at(a, b, i));
        }
    } else if i == b.len() {
        assert(precedes_at(b, a, i));
    } else if a[i] < b[i] {
        assert(precedes_at(a, b, i));
    } else if b[i] < a[i] {
        assert(precedes_at(b, a, i));
    } else {
        scan_from(a, b, i + 1);
    }
}

/// The order is transitive.
pub proof fn bytes_lt_transitive(a: Seq<u8>, b: Seq<u8>, c: Seq<u8>)
    requires
        bytes_lt(a, b),
        bytes_lt(b, c),
    ensures
        bytes_lt(a, c),
{
    let i = choose|i: int| precedes_at(a, b, i);
    let j = choose|j: int| precedes_at(b, c, j);
    if i <= j {
        assert forall|k: int| 0 <= k < i implies a[k] == c[k] by {
            assert(a[k] == b[k]);
            assert(b[k] == c[k]);
        }
        assert(precedes_at(a, c, i));
    } else {
        assert forall|k: int| 0 <= k < j implies a[k] == c[k] by {
            assert(a[k] == b[k]);
            assert(b[k] == c[k]);
        }
        assert(a[j] == b[j]);
        assert(precedes_at(a, c, j));
    }
}

/// Strings are ordered as their bytes are, and are equal only if their
/// bytes are: of two strings exactly one of "before", "equal" and "after"
/// holds.
pub proof fn value_lt_trichotomy(a: Seq<char>, b: Seq<char>)
    ensures
        a == b || value_lt(a, b) || value_lt(b, a),
        !(a == b && value_lt(a, b)),
        !(a == b && value_lt(b, a)),
        !(value_lt(a, b) && value_lt(b, a)),
        (encode_utf8(a) == encode_utf8(b)) == (a == b),
{
    vstd::utf8::encode_utf8_decode_utf8(a);
    vstd::utf8::encode_utf8_decode_utf8(b);
    bytes_lt_total(encode_utf8(a), encode_utf8(b));
    if value_lt(a, b) {
        bytes_lt_asymmetric(encode_utf8(a), encode_utf8(b));
    }
    if value_lt(b, a) {
        bytes_lt_asymmetric(encode_utf8(b), encode_utf8(a));
    }
}

/// The order of strings is transitive.
pub proof fn value_lt_transitive(a: Seq<char>, b: Seq<char>, c: Seq<char>)
    requires
        value_lt(a, b),
        value_lt(b, c),
    ensures
        value_lt(a, c),
{
    bytes_lt_transitive(encode_utf8(a), encode_utf8(b), encode_utf8(c));
}

/// Compares two byte strings in lexicographic order: `-1` where `a` comes
/// first, `1` where `b` does, `0` where they are equal.
pub fn compare_bytes(a: &[u8], b: &[u8]) -> (sign: i8)
    ensures
        sign == -1 || sign == 0 || sign == 1,
        (sign == -1) == bytes_lt(a@, b@),
        (sign == 1) == bytes_lt(b@, a@),
        (sign == 0) == (a@ == b@),
{
    let mut i: usize = 0;
    while i < a.len() && i < b.len()
        invariant
            i <= a.len(),
            i <= b.len(),
            forall|k: int| 0 <= k < i ==> a@[k] == b@[k],
        decreases a.len() - i,
    {
        if a[i] < b[i] {
            proof {
                assert(precedes_at(a@, b@, i as int));
                bytes_lt_asymmetric(a@, b@);
            }
            return -1;
        }
        if a[i] > b[i] {
            proof {
                assert(precedes_at(b@, a@, i as int));
                bytes_lt_asymmetric(b@, a@);
            }
            return 1;
        }
        i += 1;
    }
    if a.len() < b.len() {
        proof {
            assert(precedes_at(a@, b@, i as int));
            bytes_lt_asymmetric(a@, b@);
        }
        -1
    } else if a.len() > b.len() {
        proof {
            assert(precedes_at(b@, a@, i as int));
            bytes_lt_asymmetric(b@, a@);
        }
        1
    } else {
        proof {
            assert(a@ =~= b@);
            if bytes_lt(a@, b@) {
                bytes_lt_asymmetric(a@, b@);
            }
        }
        0
    }
}

impl Symbol {
    /// Compares by value, in the order of the strings' bytes: `-1` where
    /// this symbol's string comes first, `1` where the other's does, `0`
    /// where the strings are equal.
    pub fn sign(&self, heap: &Heap, other: &Symbol) -> (sign: i8)
        requires
            heap.wf(),
            heap@.has_block(self.addr()),
            heap@.has_block(other.addr()),
        ensures
            sign == -1 || sign == 0 || sign == 1,
            (sign == -1) == value_lt(heap@.value(self.addr()), heap@.value(other.addr())),
            (sign == 1) == value_lt(heap@.value(other.addr()), heap@.value(self.addr())),
            (sign == 0) == (heap@.value(self.addr()) == heap@.value(other.addr())),
    {
        proof {
            value_lt_trichotomy(heap@.value(self.addr()), heap@.value(other.addr()));
        }
        compare_bytes(self.value(heap).as_bytes(), other.value(heap).as_bytes())
    }

    /// Compares by value: the order of the two strings.
    pub fn cmp(&self, heap: &Heap, other: &Symbol) -> (order: Ordering)
        requires
            heap.wf(),
            heap@.has_block(self.addr()),
            heap@.has_block(other.addr()),
        ensures
            (order == Ordering::Less) == value_lt(
                heap@.value(self.addr()),
                heap@.value(other.addr()),
            ),
            (order == Ordering::Greater) == value_lt(
                heap@.value(other.addr()),
                heap@.value(self.addr()),
            ),
            (order == Ordering::Equal) == (heap@.value(self.addr()) == heap@.value(other.addr())),
    {
        let sign = self.sign(heap, other);
        if sign < 0 {
            Ordering::Less
        } else if sign > 0 {
            Ordering::Greater
        } else {
            Ordering::Equal
        }
    }

    /// Compares by value; symbols are totally ordered, so there is always
    /// an answer.
    pub fn partial_cmp(&self, heap: &Heap, other: &Symbol) -> (order: Option<Ordering>)
        requires
            heap.wf(),
            heap@.has_block(self.addr()),
            heap@.has_block(other.addr()),
        ensures
            order is Some,
            (order == Some(Ordering::Less)) == value_lt(
                heap@.value(self.addr()),
                heap@.value(other.addr()),
            ),
            (order == Some(Ordering::Greater)) == value_lt(
                heap@.value(other.addr()),
                heap@.value(self.addr()),
            ),
            (order == Some(Ordering::Equal)) == (heap@.value(self.addr()) == heap@.value(
                other.addr(),
            )),
    {
        Some(self.cmp(heap, other))
    }
}

} // verus!
