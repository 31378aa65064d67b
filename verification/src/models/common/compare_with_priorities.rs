use std::cmp::Ordering;
use vstd::prelude::*;

use crate::constants::priorities_view;
use crate::order::{lex_order, ordering_value, text_order};

verus! {

/// The priority of `key`: the value of the last pair with that key (as a
/// map collected from the pairs would hold it), if any.
pub open spec fn priority_of(key: Seq<char>, priorities: Seq<(Seq<char>, i32)>) -> Option<i32>
    decreases priorities.len(),
{
    if priorities.len() == 0 {
        None
    } else if priorities.last().0 == key {
        Some(priorities.last().1)
    } else {
        priority_of(key, priorities.drop_last())
    }
}

/// The comparison of two keys by priority: prioritized keys by their
/// priority; a prioritized key above one without priority, unless its
/// priority is `i32::MIN`; two keys without priority in reverse order.
pub open spec fn spec_compare_with_priorities(
    a: Seq<char>,
    b: Seq<char>,
    priorities: Seq<(Seq<char>, i32)>,
) -> int {
    match (priority_of(a, priorities), priority_of(b, priorities)) {
        (Some(pa), Some(pb)) => if pa < pb {
            -1
        } else if pa == pb {
            0
        } else {
            1
        },
        (Some(p), None) => if p == i32::MIN {
            -1
        } else {
            1
        },
        (None, Some(p)) => if p == i32::MIN {
            1
        } else {
            -1
        },
        (None, None) => lex_order(vstd::utf8::encode_utf8(b), vstd::utf8::encode_utf8(a)),
    }
}

fn lookup(key: &str, priorities: &[(String, i32)]) -> (r: Option<i32>)
    ensures
        r == priority_of(key@, priorities_view(priorities@)),
{
    let ghost view = priorities_view(priorities@);
    let mut i: usize = priorities.len();
    assert(view.take(view.len() as int) =~= view);
    while i > 0
        invariant
            i <= priorities.len(),
            view == priorities_view(priorities@),
            priority_of(key@, view) == priority_of(key@, view.take(i as int)),
        decreases i,
    {
        let ghost before = view.take(i as int);
        assert(before.drop_last() =~= view.take(i - 1));
        if crate::text::str_eq(priorities[i - 1].0.as_str(), key) {
            return Some(priorities[i - 1].1);
        }
        i = i - 1;
    }
    None
}

/// Compares `a` and `b` by the given priorities.
pub fn compare_with_priorities(a: &str, b: &str, priorities: &[(String, i32)]) -> (r: Ordering)
    ensures
        ordering_value(r) == spec_compare_with_priorities(a@, b@, priorities_view(priorities@)),
{
    match (lookup(a, priorities), lookup(b, priorities)) {
        (Some(a_priority), Some(b_priority)) => if a_priority < b_priority {
            Ordering::Less
        } else if a_priority == b_priority {
            Ordering::Equal
        } else {
            Ordering::Greater
        },
        (Some(priority), None) => if priority == i32::MIN {
            Ordering::Less
        } else {
            Ordering::Greater
        },
        (None, Some(priority)) => if priority == i32::MIN {
            Ordering::Greater
        } else {
            Ordering::Less
        },
        (None, None) => text_order(b, a),
    }
}

/// Comparing by priorities is antisymmetric.
pub proof fn law_compare_with_priorities_antisymmetric(
    a: Seq<char>,
    b: Seq<char>,
    priorities: Seq<(Seq<char>, i32)>,
)
    ensures
        spec_compare_with_priorities(a, b, priorities) == -spec_compare_with_priorities(
            b,
            a,
            priorities,
        ),
{
    crate::order::law_lex_order_antisymmetric(
        vstd::utf8::encode_utf8(b),
        vstd::utf8::encode_utf8(a),
    );
}

} // verus!
