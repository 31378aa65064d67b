use vstd::prelude::*;
use vstd::std_specs::cmp::PartialEqSpec;

use crate::runtime::Effects;

verus! {

/// Replaces `value` by `next_value` when they differ. No effects; the model
/// has changed exactly when the two differed.
pub fn eq_update<T: PartialEq, A>(value: &mut T, next_value: T) -> (r: Effects<A>)
    ensures
        r.effect_list() == Seq::<A>::empty(),
        T::obeys_eq_spec() ==> r.has_changed == !(*old(value)).eq_spec(&next_value),
        r.has_changed ==> *final(value) == next_value,
        !r.has_changed ==> *final(value) == *old(value),
{
    if !(*value == next_value) {
        *value = next_value;
        Effects::none()
    } else {
        Effects::none().unchanged()
    }
}

} // verus!
