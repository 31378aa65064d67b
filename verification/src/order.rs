//! Three-way comparisons as integers, and the byte order of strings.

use std::cmp::Ordering;
use vstd::prelude::*;

verus! {

/// `-1`, `0` or `1` as `a` is below, equal to or above `b`.
pub open spec fn int_order(a: int, b: int) -> int {
    if a < b {
        -1
    } else if a == b {
        0
    } else {
        1
    }
}

/// Lexicographic combination: the first comparison decides unless it is a tie.
pub open spec fn then_order(first: int, second: int) -> int {
    if first != 0 {
        first
    } else {
        second
    }
}

/// An `Ordering` as `-1`, `0` or `1`.
pub open spec fn ordering_value(o: Ordering) -> int {
    match o {
        Ordering::Less => -1,
        Ordering::Equal => 0,
        Ordering::Greater => 1,
    }
}

/// The lexicographic order of two byte strings, as `-1`, `0` or `1`; a
/// proper prefix comes first.
pub open spec fn lex_order(a: Seq<u8>, b: Seq<u8>) -> int
    decreases a.len(),
{
    if a.len() == 0 && b.len() == 0 {
        0
    } else if a.len() == 0 {
        -1
    } else if b.len() == 0 {
        1
    } else if a[0] < b[0] {
        -1
    } else if a[0] > b[0] {
        1
    } else {
        lex_order(a.drop_first(), b.drop_first())
    }
}

/// Swapping the arguments reverses the lexicographic order.
pub proof fn law_lex_order_antisymmetric(a: Seq<u8>, b: Seq<u8>)
    ensures
        lex_order(a, b) == -lex_order(b, a),
    decreases a.len(),
{
    if a.len() > 0 && b.len() > 0 && a[0] == b[0] {
        law_lex_order_antisymmetric(a.drop_first(), b.drop_first());
    }
}

proof fn lemma_lex_order_range(a: Seq<u8>, b: Seq<u8>)
    ensures
        -1 <= lex_order(a, b) <= 1,
    decreases a.len(),
{
    if a.len() > 0 && b.len() > 0 && a[0] == b[0] {
        lemma_lex_order_range(a.drop_first(), b.drop_first());
    }
}

fn bytes_order(a: &[u8], b: &[u8]) -> (r: i8)
    ensures
        r == lex_order(a@, b@),
{
    let mut i: usize = 0;
    assert(a@.skip(0) =~= a@);
    assert(b@.skip(0) =~= b@);
    while i < a.len() && i < b.len()
        invariant
            i <= a.len(),
            i <= b.len(),
            lex_order(a@, b@) == lex_order(a@.skip(i as int), b@.skip(i as int)),
        decreases a.len() - i,
    {
        if a[i] < b[i] {
            return -1;
        }
        if a[i] > b[i] {
            return 1;
        }
        assert(a@.skip(i as int).drop_first() =~= a@.skip(i + 1));
        assert(b@.skip(i as int).drop_first() =~= b@.skip(i + 1));
        i = i + 1;
    }
    if i == a.len() && i == b.len() {
        0
    } else if i == a.len() {
        -1
    } else {
        1
    }
}

/// The order of two strings by their UTF-8 bytes, which is the order of
/// `str`'s `Ord`.
pub fn text_order(a: &str, b: &str) -> (r: Ordering)
    ensures
        ordering_value(r) == lex_order(vstd::utf8::encode_utf8(a@), vstd::utf8::encode_utf8(b@)),
{
    let ab = a.as_bytes();
    let bb = b.as_bytes();
    assert(ab@ == vstd::utf8::encode_utf8(a@));
    let x = bytes_order(ab, bb);
    proof {
        lemma_lex_order_range(ab@, bb@);
    }
    if x < 0 {
        Ordering::Less
    } else if x == 0 {
        Ordering::Equal
    } else {
        Ordering::Greater
    }
}


/// `a` comes before `b` at position `k`: they agree before `k`, and there
/// `a` ends while `b` goes on, or `a` has the smaller byte.
pub open spec fn bytes_precede_at(a: Seq<u8>, b: Seq<u8>, k: int) -> bool {
    &&& 0 <= k <= a.len()
    &&& k <= b.len()
    &&& a.take(k) == b.take(k)
    &&& ((k == a.len() && k < b.len()) || (k < a.len() && k < b.len() && a[k] < b[k]))
}

/// `a` comes before `b` in byte order.
pub open spec fn bytes_precede(a: Seq<u8>, b: Seq<u8>) -> bool {
    exists|k: int| bytes_precede_at(a, b, k)
}

proof fn lemma_precede_step(a: Seq<u8>, b: Seq<u8>)
    requires
        a.len() > 0,
        b.len() > 0,
        a[0] == b[0],
    ensures
        bytes_precede(a, b) == bytes_precede(a.drop_first(), b.drop_first()),
{
    let a1 = a.drop_first();
    let b1 = b.drop_first();
    if bytes_precede(a, b) {
        let k = choose|k: int| bytes_precede_at(a, b, k);
        if k == 0 {
            assert(false);
        }
        assert(a1.take(k - 1) =~= a.take(k).drop_first());
        assert(b1.take(k - 1) =~= b.take(k).drop_first());
        assert(bytes_precede_at(a1, b1, k - 1));
    }
    if bytes_precede(a1, b1) {
        let k = choose|k: int| bytes_precede_at(a1, b1, k);
        assert(a.take(k + 1) =~= seq![a[0]] + a1.take(k));
        assert(b.take(k + 1) =~= seq![b[0]] + b1.take(k));
        assert(bytes_precede_at(a, b, k + 1));
    }
}

/// The lexicographic order of byte strings is their byte order: equal
/// strings rank alike, and one comes first exactly when, at the first
/// position where they differ, it ends or has the smaller byte.
pub proof fn law_lex_order_is_byte_order(a: Seq<u8>, b: Seq<u8>)
    ensures
        lex_order(a, b) == 0 <==> a == b,
        lex_order(a, b) < 0 <==> bytes_precede(a, b),
        lex_order(a, b) > 0 <==> bytes_precede(b, a),
    decreases a.len(),
{
    lemma_lex_order_range(a, b);
    if a.len() == 0 && b.len() == 0 {
        assert(a =~= b);
        if bytes_precede(a, b) {
            let k = choose|k: int| bytes_precede_at(a, b, k);
        }
        if bytes_precede(b, a) {
            let k = choose|k: int| bytes_precede_at(b, a, k);
        }
    } else if a.len() == 0 {
        assert(a.take(0) =~= b.take(0));
        assert(bytes_precede_at(a, b, 0));
        if bytes_precede(b, a) {
            let k = choose|k: int| bytes_precede_at(b, a, k);
        }
    } else if b.len() == 0 {
        assert(a.take(0) =~= b.take(0));
        assert(bytes_precede_at(b, a, 0));
        if bytes_precede(a, b) {
            let k = choose|k: int| bytes_precede_at(a, b, k);
        }
    } else if a[0] != b[0] {
        assert(a.take(0) =~= b.take(0));
        if a[0] < b[0] {
            assert(bytes_precede_at(a, b, 0));
            if bytes_precede(b, a) {
                let k = choose|k: int| bytes_precede_at(b, a, k);
                if k > 0 {
                    assert(b.take(k)[0] == a.take(k)[0]);
                }
            }
        } else {
            assert(bytes_precede_at(b, a, 0));
            if bytes_precede(a, b) {
                let k = choose|k: int| bytes_precede_at(a, b, k);
                if k > 0 {
                    assert(b.take(k)[0] == a.take(k)[0]);
                }
            }
        }
    } else {
        law_lex_order_is_byte_order(a.drop_first(), b.drop_first());
        lemma_precede_step(a, b);
        lemma_precede_step(b, a);
        if a.drop_first() == b.drop_first() {
            assert(a =~= seq![a[0]] + a.drop_first());
            assert(b =~= seq![b[0]] + b.drop_first());
        }
        if a == b {
            assert(a.drop_first() =~= b.drop_first());
        }
    }
}

} // verus!
