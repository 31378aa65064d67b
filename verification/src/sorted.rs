//! Sorting by a three-way comparison.

use std::cmp::Ordering;
use vstd::prelude::*;

use crate::order::ordering_value;

verus! {

broadcast use vstd::seq_lib::group_to_multiset_ensures;

/// A three-way comparison of items, as `-1`, `0` or `1`, that swapping the
/// items reverses.
pub trait ItemOrder<T> {
    spec fn order(&self, a: T, b: T) -> int;

    fn compare(&self, a: &T, b: &T) -> (r: Ordering)
        ensures
            ordering_value(r) == self.order(*a, *b),
    ;

    proof fn order_antisymmetric(&self, a: T, b: T)
        ensures
            self.order(a, b) == -self.order(b, a),
    ;
}

/// Every item is ordered at or before the next one.
pub open spec fn sorted_by<T, O: ItemOrder<T>>(order: O, s: Seq<T>) -> bool {
    forall|i: int, j: int|
        0 <= i && j == i + 1 && j < s.len() ==> order.order(#[trigger] s[i], #[trigger] s[j]) <= 0
}

/// Where `x` goes among sorted items: before the first item that `x` is
/// ordered strictly before, at the end where there is none.
pub open spec fn insert_position<T, O: ItemOrder<T>>(order: O, s: Seq<T>, x: T) -> int
    decreases s.len(),
{
    if s.len() == 0 {
        0
    } else if order.order(x, s[0]) < 0 {
        0
    } else {
        1 + insert_position(order, s.drop_first(), x)
    }
}

/// The items inserted one after the other, each at its position among the
/// ones before it: items that are ordered alike keep their order.
pub open spec fn insertion_sort<T, O: ItemOrder<T>>(order: O, s: Seq<T>) -> Seq<T>
    decreases s.len(),
{
    if s.len() == 0 {
        Seq::empty()
    } else {
        let sorted = insertion_sort(order, s.drop_last());
        sorted.insert(insert_position(order, sorted, s.last()), s.last())
    }
}

pub proof fn lemma_insert_position_bounds<T, O: ItemOrder<T>>(order: O, s: Seq<T>, x: T)
    ensures
        0 <= insert_position(order, s, x) <= s.len(),
    decreases s.len(),
{
    if s.len() > 0 && order.order(x, s[0]) >= 0 {
        lemma_insert_position_bounds(order, s.drop_first(), x);
    }
}

/// `s` with `x` inserted at `k` holds one more `x`.
proof fn lemma_insert_multiset<T>(s: Seq<T>, k: int, x: T)
    requires
        0 <= k <= s.len(),
    ensures
        s.insert(k, x).to_multiset() =~= s.to_multiset().insert(x),
{
    let t = s.insert(k, x);
    assert(t.remove(k) =~= s);
    assert(t[k] == x);
    assert(t.contains(x));
}

/// Sorting keeps the items: the sorted sequence holds each item as often as
/// the input.
pub proof fn lemma_insertion_sort_multiset<T, O: ItemOrder<T>>(order: O, s: Seq<T>)
    ensures
        insertion_sort(order, s).to_multiset() == s.to_multiset(),
        insertion_sort(order, s).len() == s.len(),
    decreases s.len(),
{
    if s.len() > 0 {
        let rest = s.drop_last();
        lemma_insertion_sort_multiset(order, rest);
        let sorted = insertion_sort(order, rest);
        lemma_insert_position_bounds(order, sorted, s.last());
        lemma_insert_multiset(sorted, insert_position(order, sorted, s.last()), s.last());
        assert(s =~= rest.push(s.last()));
    }
}

/// Whether `a` is ordered strictly before `b`.
fn precedes<T, O: ItemOrder<T>>(order: &O, a: &T, b: &T) -> (r: bool)
    ensures
        r == (order.order(*a, *b) < 0),
{
    matches!(order.compare(a, b), Ordering::Less)
}

/// The items, sorted by `order`: the same items, each ordered at or before
/// the next one.
pub fn sort_with<T, O: ItemOrder<T>>(order: &O, items: Vec<T>) -> (r: Vec<T>)
    ensures
        r@ == insertion_sort(*order, items@),
        r@.to_multiset() == items@.to_multiset(),
        sorted_by(*order, r@),
{
    let ghost all = items@.to_multiset();
    let ghost input = items@;
    let mut rest = items;
    let mut out: Vec<T> = Vec::new();
    let mut n: usize = 0;
    assert(input.take(0) =~= Seq::<T>::empty());
    assert(rest@ =~= input.skip(0));
    assert(input.len() == rest.len());
    while rest.len() > 0
        invariant
            out@.to_multiset().add(rest@.to_multiset()) == all,
            sorted_by(*order, out@),
            n + rest@.len() == input.len(),
            input.len() <= usize::MAX,
            rest@ == input.skip(n as int),
            out@ == insertion_sort(*order, input.take(n as int)),
        decreases rest.len(),
    {
        let ghost before_rest = rest@;
        let x = rest.remove(0);
        assert(rest@ =~= before_rest.remove(0));
        assert(x == input[n as int]);
        let mut k: usize = 0;
        assert(out@.skip(0) =~= out@);
        while k < out.len()
            invariant
                k <= out.len(),
                k > 0 ==> order.order(x, out@[k - 1]) >= 0,
                insert_position(*order, out@, x) == k + insert_position(*order, out@.skip(k as int), x),
            ensures
                k <= out.len(),
                k > 0 ==> order.order(x, out@[k - 1]) >= 0,
                k < out.len() ==> order.order(x, out@[k as int]) < 0,
                insert_position(*order, out@, x) == k,
            decreases out.len() - k,
        {
            if precedes(order, &x, &out[k]) {
                assert(out@.skip(k as int)[0] == out@[k as int]);
                break;
            }
            assert(out@.skip(k as int).drop_first() =~= out@.skip(k + 1));
            assert(out@.skip(k as int)[0] == out@[k as int]);
            k = k + 1;
        }
        let ghost old_out = out@;
        proof {
            assert(input.take(n + 1).drop_last() =~= input.take(n as int));
            assert(input.take(n + 1).last() == x);
        }
        proof {
            lemma_insert_multiset(old_out, k as int, x);
            if k > 0 {
                order.order_antisymmetric(x, old_out[k - 1]);
            }
        }
        out.insert(k, x);
        assert(out@ =~= old_out.insert(k as int, x));
        n = n + 1;
        assert(rest@ =~= input.skip(n as int));
        assert(before_rest[0] == x);
        assert(before_rest.to_multiset().count(x) > 0);
        assert(out@.to_multiset().add(rest@.to_multiset()) =~= all);
        assert forall|i: int, j: int|
            0 <= i && j == i + 1 && j < out@.len() implies order.order(
            #[trigger] out@[i],
            #[trigger] out@[j],
        ) <= 0 by {
            if j < k {
                assert(out@[i] == old_out[i] && out@[j] == old_out[j]);
            } else if j == k {
            } else if i == k {
            } else {
                assert(out@[i] == old_out[i - 1] && out@[j] == old_out[j - 1]);
            }
        }
    }
    assert(input.take(n as int) =~= input);
    out
}

} // verus!
