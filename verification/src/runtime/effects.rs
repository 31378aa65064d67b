use vstd::prelude::*;

verus! {

/// The outcome of a reducer step: the effects that the runtime should
/// perform and whether the model changed.
pub struct Effects<T> {
    /// The effects to be performed, in order.
    pub effects: Vec<T>,
    /// Whether or not the effects are changing something in the model.
    pub has_changed: bool,
}

impl<T> Effects<T> {
    /// The effects, in the order in which they are to be performed.
    pub open spec fn effect_list(&self) -> Seq<T> {
        self.effects@
    }

    /// No effects, model changed.
    pub fn none() -> (r: Self)
        ensures
            r.effect_list() == Seq::<T>::empty(),
            r.has_changed,
    {
        Effects { effects: Vec::new(), has_changed: true }
    }

    /// A single effect, model changed.
    pub fn one(effect: T) -> (r: Self)
        ensures
            r.effect_list() == seq![effect],
            r.has_changed,
    {
        let mut effects = Vec::new();
        effects.push(effect);
        Effects { effects, has_changed: true }
    }

    /// Several effects, model changed.
    pub fn many(effects: Vec<T>) -> (r: Self)
        ensures
            r.effect_list() == effects@,
            r.has_changed,
    {
        Effects { effects, has_changed: true }
    }

    /// Marks the model as not changed.
    pub fn unchanged(self) -> (r: Self)
        ensures
            r.effect_list() == self.effect_list(),
            !r.has_changed,
    {
        Effects { effects: self.effects, has_changed: false }
    }

    /// Appends the effects of `other` after those of `self`; the model has
    /// changed if either part changed it.
    pub fn join(self, other: Effects<T>) -> (r: Self)
        ensures
            r.effect_list() == self.effect_list() + other.effect_list(),
            r.has_changed == (self.has_changed || other.has_changed),
    {
        let mut effects = self.effects;
        let mut rest = other.effects;
        effects.append(&mut rest);
        Effects { effects, has_changed: self.has_changed || other.has_changed }
    }

    /// The number of effects.
    pub fn len(&self) -> (r: usize)
        ensures
            r == self.effect_list().len(),
    {
        self.effects.len()
    }

    /// Whether there are no effects.
    pub fn is_empty(&self) -> (r: bool)
        ensures
            r == (self.effect_list().len() == 0),
    {
        self.effects.len() == 0
    }

    /// Hands the effects out, in order.
    pub fn into_effects(self) -> (r: Vec<T>)
        ensures
            r@ == self.effect_list(),
    {
        self.effects
    }
}

impl<T> Default for Effects<T> {
    fn default() -> (r: Self)
        ensures
            r.effect_list() == Seq::<T>::empty(),
            !r.has_changed,
    {
        Effects::none().unchanged()
    }
}

/// Joining effects is associative: the order of the combined effects does
/// not depend on how the joins are grouped.
pub proof fn lemma_join_associative<T>(a: Seq<T>, b: Seq<T>, c: Seq<T>)
    ensures
        (a + b) + c == a + (b + c),
{
    assert((a + b) + c =~= a + (b + c));
}

/// Joining with an empty list of effects leaves the effects as they were.
pub proof fn lemma_join_empty_identity<T>(a: Seq<T>)
    ensures
        a + Seq::<T>::empty() == a,
        Seq::<T>::empty() + a == a,
{
    assert(a + Seq::<T>::empty() =~= a);
    assert(Seq::<T>::empty() + a =~= a);
}

} // verus!
