//! Lexicographic byte order (Rust `String` order is UTF-8 byte order) and a
//! stable sort of positions by such keys.

use vstd::prelude::*;
use vstd::slice::slice_to_vec;

verus! {

/// Strict lexicographic order on byte strings.
pub open spec fn bytes_lt(a: Seq<u8>, b: Seq<u8>) -> bool
    decreases a.len(),
{
    if a.len() == 0 {
        b.len() > 0
    } else if b.len() == 0 {
        false
    } else if a[0] < b[0] {
        true
    } else if a[0] > b[0] {
        false
    } else {
        bytes_lt(a.drop_first(), b.drop_first())
    }
}

/// The UTF-8 bytes of a string's characters — the key Rust orders
/// `String`s by.
pub open spec fn utf8_key(s: Seq<char>) -> Seq<u8> {
    vstd::utf8::encode_utf8(s)
}

/// `a` sorts strictly before `b` in Rust's `String` order.
pub open spec fn str_lt(a: Seq<char>, b: Seq<char>) -> bool {
    bytes_lt(utf8_key(a), utf8_key(b))
}

/// No byte string is below itself.
pub proof fn lemma_bytes_lt_irreflexive(a: Seq<u8>)
    ensures
        !bytes_lt(a, a),
    decreases a.len(),
{
    if a.len() > 0 {
        lemma_bytes_lt_irreflexive(a.drop_first());
    }
}

/// The order is transitive.
pub proof fn lemma_bytes_lt_transitive(a: Seq<u8>, b: Seq<u8>, c: Seq<u8>)
    requires
        bytes_lt(a, b),
        bytes_lt(b, c),
    ensures
        bytes_lt(a, c),
    decreases a.len(),
{
    if a.len() > 0 && b.len() > 0 && c.len() > 0 {
        if a[0] == b[0] && b[0] == c[0] {
            lemma_bytes_lt_transitive(a.drop_first(), b.drop_first(), c.drop_first());
        }
    }
}

/// Any two distinct byte strings are ordered one way or the other.
pub proof fn lemma_bytes_lt_total(a: Seq<u8>, b: Seq<u8>)
    requires
        a != b,
    ensures
        bytes_lt(a, b) || bytes_lt(b, a),
    decreases a.len(),
{
    if a.len() > 0 && b.len() > 0 && a[0] == b[0] {
        if a.drop_first() == b.drop_first() {
            assert(a =~= seq![a[0]] + a.drop_first());
            assert(b =~= seq![b[0]] + b.drop_first());
        }
        lemma_bytes_lt_total(a.drop_first(), b.drop_first());
    } else if a.len() == 0 && b.len() == 0 {
        assert(a =~= b);
    }
}

/// The order is asymmetric.
pub proof fn lemma_bytes_lt_asymmetric(a: Seq<u8>, b: Seq<u8>)
    requires
        bytes_lt(a, b),
    ensures
        !bytes_lt(b, a),
{
    if bytes_lt(b, a) {
        lemma_bytes_lt_transitive(a, b, a);
        lemma_bytes_lt_irreflexive(a);
    }
}

/// `a < b` and `c` not below `b` give `a < c`.
pub proof fn lemma_bytes_lt_le(a: Seq<u8>, b: Seq<u8>, c: Seq<u8>)
    requires
        bytes_lt(a, b),
        !bytes_lt(c, b),
    ensures
        bytes_lt(a, c),
{
    if b == c {
    } else {
        lemma_bytes_lt_total(b, c);
        lemma_bytes_lt_transitive(a, b, c);
    }
}

/// Distinct strings have distinct UTF-8 keys.
pub proof fn lemma_utf8_key_injective(a: Seq<char>, b: Seq<char>)
    requires
        utf8_key(a) == utf8_key(b),
    ensures
        a == b,
{
    vstd::utf8::encode_utf8_decode_utf8(a);
    vstd::utf8::encode_utf8_decode_utf8(b);
}

proof fn lemma_bytes_lt_common_prefix(a: Seq<u8>, b: Seq<u8>, i: int)
    requires
        0 <= i <= a.len(),
        i <= b.len(),
        forall|j: int| 0 <= j < i ==> a[j] == b[j],
    ensures
        bytes_lt(a, b) == bytes_lt(a.subrange(i, a.len() as int), b.subrange(i, b.len() as int)),
    decreases i,
{
    if i > 0 {
        lemma_bytes_lt_common_prefix(a.drop_first(), b.drop_first(), i - 1);
        assert(a.drop_first().subrange(i - 1, a.drop_first().len() as int) =~= a.subrange(i, a.len() as int));
        assert(b.drop_first().subrange(i - 1, b.drop_first().len() as int) =~= b.subrange(i, b.len() as int));
    } else {
        assert(a.subrange(0, a.len() as int) =~= a);
        assert(b.subrange(0, b.len() as int) =~= b);
    }
}

/// Exec comparison of byte strings.
pub fn bytes_less(a: &[u8], b: &[u8]) -> (res: bool)
    ensures
        res == bytes_lt(a@, b@),
{
    let mut i: usize = 0;
    while i < a.len() && i < b.len()
        invariant
            i <= a@.len(),
            i <= b@.len(),
            forall|j: int| 0 <= j < i ==> a@[j] == b@[j],
        decreases a@.len() - i,
    {
        if a[i] != b[i] {
            proof {
                lemma_bytes_lt_common_prefix(a@, b@, i as int);
            }
            return a[i] < b[i];
        }
        i = i + 1;
    }
    proof {
        lemma_bytes_lt_common_prefix(a@, b@, i as int);
    }
    i < b.len()
}

/// The UTF-8 bytes of a string.
pub fn key_of(s: &str) -> (res: Vec<u8>)
    ensures
        res@ == utf8_key(s@),
{
    slice_to_vec(s.as_bytes())
}

/// Exec comparison of strings in Rust's `String` order.
pub fn str_less(a: &str, b: &str) -> (res: bool)
    ensures
        res == str_lt(a@, b@),
{
    bytes_less(a.as_bytes(), b.as_bytes())
}

/// `j` occurs in `order`.
pub open spec fn has_pos(order: Seq<usize>, j: int) -> bool {
    exists|k: int| 0 <= k < order.len() && #[trigger] order[k] == j
}

/// `order` lists positions `0..keys.len()` so that their keys ascend
/// strictly.
pub open spec fn sorted_positions(keys: Seq<Seq<u8>>, order: Seq<usize>) -> bool {
    &&& order.len() == keys.len()
    &&& forall|k: int| 0 <= k < order.len() ==> (#[trigger] order[k]) < keys.len()
    &&& forall|j: int| 0 <= j < keys.len() ==> #[trigger] has_pos(order, j)
    &&& forall|k1: int, k2: int| 0 <= k1 < k2 < order.len() ==>
        bytes_lt(keys[#[trigger] order[k1] as int], keys[#[trigger] order[k2] as int])
}

/// All keys are pairwise distinct.
pub open spec fn keys_distinct(keys: Seq<Seq<u8>>) -> bool {
    forall|i: int, j: int| 0 <= i < keys.len() && 0 <= j < keys.len() && i != j ==> keys[i] != keys[j]
}

/// Position `a` comes before position `b` in a stable sort by `keys`: its
/// key is lower, or the keys are equal and `a` came first.
pub open spec fn stable_before(keys: Seq<Seq<u8>>, a: int, b: int) -> bool {
    bytes_lt(keys[a], keys[b]) || (keys[a] == keys[b] && a < b)
}

/// `order` lists positions `0..keys.len()` in stable key order.
pub open spec fn stable_sorted_positions(keys: Seq<Seq<u8>>, order: Seq<usize>) -> bool {
    &&& order.len() == keys.len()
    &&& forall|k: int| 0 <= k < order.len() ==> (#[trigger] order[k]) < keys.len()
    &&& forall|j: int| 0 <= j < keys.len() ==> #[trigger] has_pos(order, j)
    &&& forall|k1: int, k2: int| 0 <= k1 < k2 < order.len() ==>
        stable_before(keys, #[trigger] order[k1] as int, #[trigger] order[k2] as int)
}

/// The stable order is transitive.
proof fn lemma_stable_before_transitive(keys: Seq<Seq<u8>>, a: int, b: int, c: int)
    requires
        stable_before(keys, a, b),
        stable_before(keys, b, c),
    ensures
        stable_before(keys, a, c),
{
    if bytes_lt(keys[a], keys[b]) && bytes_lt(keys[b], keys[c]) {
        lemma_bytes_lt_transitive(keys[a], keys[b], keys[c]);
    }
}

/// With distinct keys, the stable order is the strict key order.
pub proof fn lemma_stable_sorted_distinct(keys: Seq<Seq<u8>>, order: Seq<usize>)
    requires
        stable_sorted_positions(keys, order),
        keys_distinct(keys),
    ensures
        sorted_positions(keys, order),
{
    assert forall|k1: int, k2: int| 0 <= k1 < k2 < order.len() implies
        bytes_lt(keys[#[trigger] order[k1] as int], keys[#[trigger] order[k2] as int]) by {
        assert(stable_before(keys, order[k1] as int, order[k2] as int));
        if keys[order[k1] as int] == keys[order[k2] as int] {
            lemma_bytes_lt_irreflexive(keys[order[k1] as int]);
            assert(order[k1] < order[k2]);
            assert(keys[order[k1] as int] != keys[order[k2] as int]);
        }
    }
}

/// Sorts positions by byte-string keys, stably: equal keys keep their
/// original order.
pub fn sort_positions(keys: &Vec<Vec<u8>>) -> (order: Vec<usize>)
    ensures
        stable_sorted_positions(keys@.map_values(|k: Vec<u8>| k@), order@),
{
    let ghost ks = keys@.map_values(|k: Vec<u8>| k@);
    let mut order: Vec<usize> = Vec::new();
    let mut i: usize = 0;
    while i < keys.len()
        invariant
            ks == keys@.map_values(|k: Vec<u8>| k@),
            i <= keys@.len(),
            order@.len() == i,
            forall|k: int| 0 <= k < order@.len() ==> (#[trigger] order@[k]) < i,
            forall|j: int| 0 <= j < i ==> #[trigger] has_pos(order@, j),
            forall|k1: int, k2: int| 0 <= k1 < k2 < order@.len() ==>
                stable_before(ks, #[trigger] order@[k1] as int, #[trigger] order@[k2] as int),
        decreases keys@.len() - i,
    {
        // Find the first position whose key is above keys[i].
        let mut p: usize = 0;
        while p < order.len() && !bytes_less(keys[i].as_slice(), keys[order[p]].as_slice())
            invariant
                ks == keys@.map_values(|k: Vec<u8>| k@),
                i < keys@.len(),
                p <= order@.len(),
                forall|k: int| 0 <= k < order@.len() ==> (#[trigger] order@[k]) < i,
                forall|k: int| 0 <= k < p ==> !bytes_lt(ks[i as int], #[trigger] ks[order@[k] as int]),
            decreases order@.len() - p,
        {
            p = p + 1;
        }
        let ghost old_order = order@;
        proof {
            // Positions before p sort before i (their keys are not above
            // keys[i], and they came first); from p on, keys are above.
            assert forall|k: int| 0 <= k < p implies stable_before(ks, #[trigger] old_order[k] as int, i as int) by {
                if ks[old_order[k] as int] != ks[i as int] {
                    lemma_bytes_lt_total(ks[old_order[k] as int], ks[i as int]);
                }
            }
            if p < old_order.len() {
                assert(bytes_lt(ks[i as int], ks[old_order[p as int] as int]));
                assert forall|k: int| p <= k < old_order.len() implies bytes_lt(ks[i as int], #[trigger] ks[old_order[k] as int]) by {
                    if k > p {
                        assert(stable_before(ks, old_order[p as int] as int, old_order[k] as int));
                        if bytes_lt(ks[old_order[p as int] as int], ks[old_order[k] as int]) {
                            lemma_bytes_lt_transitive(ks[i as int], ks[old_order[p as int] as int], ks[old_order[k] as int]);
                        }
                    }
                }
            }
        }
        order.insert(p, i);
        proof {
            assert forall|j: int| 0 <= j < i + 1 implies #[trigger] has_pos(order@, j) by {
                if j == i {
                    assert(order@[p as int] == j);
                } else {
                    assert(has_pos(old_order, j));
                    let k0 = choose|k: int| 0 <= k < old_order.len() && #[trigger] old_order[k] == j;
                    if k0 < p {
                        assert(order@[k0] == j);
                    } else {
                        assert(order@[k0 + 1] == j);
                    }
                }
            }
            assert forall|k1: int, k2: int| 0 <= k1 < k2 < order@.len() implies
                stable_before(ks, #[trigger] order@[k1] as int, #[trigger] order@[k2] as int) by {
                if k1 < p && k2 < p {
                    assert(order@[k1] == old_order[k1] && order@[k2] == old_order[k2]);
                } else if k1 < p && k2 == p {
                    assert(order@[k1] == old_order[k1]);
                } else if k1 < p && k2 > p {
                    assert(order@[k1] == old_order[k1]);
                    assert(order@[k2] == old_order[k2 - 1]);
                    assert(stable_before(ks, old_order[k1] as int, i as int));
                    assert(bytes_lt(ks[i as int], ks[old_order[k2 - 1] as int]));
                    lemma_stable_before_transitive(ks, old_order[k1] as int, i as int, old_order[k2 - 1] as int);
                } else if k1 == p {
                    assert(order@[k2] == old_order[k2 - 1]);
                    assert(bytes_lt(ks[i as int], ks[old_order[k2 - 1] as int]));
                } else {
                    assert(order@[k1] == old_order[k1 - 1] && order@[k2] == old_order[k2 - 1]);
                }
            }
        }
        i = i + 1;
    }
    order
}

} // verus!
