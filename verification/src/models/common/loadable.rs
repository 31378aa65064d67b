use vstd::prelude::*;

verus! {

/// Content that is being loaded, has been loaded, or failed to load.
#[derive(Clone, PartialEq, Eq, Debug)]
pub enum Loadable<R, E> {
    Loading,
    Ready(R),
    Error(E),
}

impl<R, E> Default for Loadable<R, E> {
    fn default() -> (r: Self)
        ensures
            r is Loading,
    {
        Loadable::Loading
    }
}

impl<R, E> Loadable<R, E> {
    /// Applies `f` to ready content; loading and errors stay as they are.
    pub fn map<U, F>(self, f: F) -> (r: Loadable<U, E>) where F: FnOnce(R) -> U
        requires
            self matches Loadable::Ready(ready) ==> f.requires((ready,)),
        ensures
            maps_to(self, f, r),
    {
        match self {
            Loadable::Loading => Loadable::Loading,
            Loadable::Ready(ready) => Loadable::Ready(f(ready)),
            Loadable::Error(err) => Loadable::Error(err),
        }
    }

    pub fn is_ready(&self) -> (r: bool)
        ensures
            r == (self is Ready),
    {
        matches!(self, Loadable::Ready(_))
    }

    pub fn is_err(&self) -> (r: bool)
        ensures
            r == (self is Error),
    {
        matches!(self, Loadable::Error(_))
    }

    pub fn is_loading(&self) -> (r: bool)
        ensures
            r == (self is Loading),
    {
        matches!(self, Loadable::Loading)
    }

    /// The same state, with the content and the error borrowed.
    pub fn as_ref(&self) -> (r: Loadable<&R, &E>)
        ensures
            match *self {
                Loadable::Loading => r is Loading,
                Loadable::Ready(ready) => r == Loadable::<&R, &E>::Ready(&ready),
                Loadable::Error(err) => r == Loadable::<&R, &E>::Error(&err),
            },
    {
        match self {
            Loadable::Error(e) => Loadable::Error(e),
            Loadable::Ready(r) => Loadable::Ready(r),
            Loadable::Loading => Loadable::Loading,
        }
    }

    /// The ready content, if any.
    pub fn ready(&self) -> (r: Option<&R>)
        ensures
            match *self {
                Loadable::Ready(ready) => r == Some(&ready),
                _ => r is None,
            },
    {
        match self {
            Loadable::Ready(r) => Some(r),
            _ => None,
        }
    }

    /// The error, if any.
    pub fn err(&self) -> (r: Option<&E>)
        ensures
            match *self {
                Loadable::Error(err) => r == Some(&err),
                _ => r is None,
            },
    {
        match self {
            Loadable::Error(e) => Some(e),
            _ => None,
        }
    }

    /// The ready content; only for content that is ready (panics otherwise).
    pub fn expect(self, msg: &str) -> (r: R)
        requires
            self is Ready,
        ensures
            self == Loadable::<R, E>::Ready(r),
    {
        match self {
            Loadable::Ready(r) => r,
            _ => vstd::pervasive::unreached(),
        }
    }

    /// The error; only for content that failed (panics otherwise).
    pub fn expect_err(self, msg: &str) -> (r: E)
        requires
            self is Error,
        ensures
            self == Loadable::<R, E>::Error(r),
    {
        match self {
            Loadable::Error(e) => e,
            _ => vstd::pervasive::unreached(),
        }
    }

    /// Checks that the content is still loading (panics otherwise).
    pub fn expect_loading(self, msg: &str)
        requires
            self is Loading,
    {
    }

    /// Applies `f` to ready content; loading and errors stay as they are.
    pub fn map_ready<F, U>(self, f: F) -> (r: Loadable<U, E>) where F: FnOnce(R) -> U
        requires
            self matches Loadable::Ready(ready) ==> f.requires((ready,)),
        ensures
            maps_to(self, f, r),
    {
        match self {
            Loadable::Error(e) => Loadable::Error(e),
            Loadable::Ready(r) => Loadable::Ready(f(r)),
            Loadable::Loading => Loadable::Loading,
        }
    }
}

/// `r` is `l` with `f` applied to its ready content: loading stays
/// loading, an error stays the same error.
pub open spec fn maps_to<R, U, E, F: FnOnce(R) -> U>(l: Loadable<R, E>, f: F, r: Loadable<U, E>) -> bool {
    match l {
        Loadable::Loading => r is Loading,
        Loadable::Ready(ready) => r matches Loadable::Ready(u) && f.ensures((ready,), u),
        Loadable::Error(err) => r == Loadable::<U, E>::Error(err),
    }
}

/// `map_ready` and `map` agree: both apply `f` to the ready content only,
/// so for a function that gives one result per argument they give the same
/// loadable.
pub proof fn law_map_ready_is_map<R, U, E, F: FnOnce(R) -> U>(
    l: Loadable<R, E>,
    f: F,
    by_map: Loadable<U, E>,
    by_map_ready: Loadable<U, E>,
)
    requires
        forall|x: R, u1: U, u2: U| f.ensures((x,), u1) && f.ensures((x,), u2) ==> u1 == u2,
        maps_to(l, f, by_map),
        maps_to(l, f, by_map_ready),
    ensures
        by_map == by_map_ready,
{
    if let Loadable::Ready(ready) = l {
        let u1 = by_map->Ready_0;
        let u2 = by_map_ready->Ready_0;
        assert(f.ensures((ready,), u1) && f.ensures((ready,), u2));
    }
}

/// `map_ready` and `map` agree for any function: both leave loading and an
/// error as they are, and on ready content both make one call of `f` on
/// that content and hold its result. Where the two calls give the same
/// result, the two loadables are the same.
pub proof fn law_map_ready_agrees_with_map<R, U, E, F: FnOnce(R) -> U>(
    l: Loadable<R, E>,
    f: F,
    by_map: Loadable<U, E>,
    by_map_ready: Loadable<U, E>,
)
    requires
        maps_to(l, f, by_map),
        maps_to(l, f, by_map_ready),
    ensures
        l is Loading ==> by_map is Loading && by_map_ready is Loading,
        l is Error ==> by_map == by_map_ready && by_map == Loadable::<U, E>::Error(l->Error_0),
        l is Ready ==> {
            &&& by_map is Ready && by_map_ready is Ready
            &&& f.ensures((l->Ready_0,), by_map->Ready_0)
            &&& f.ensures((l->Ready_0,), by_map_ready->Ready_0)
            &&& by_map->Ready_0 == by_map_ready->Ready_0 ==> by_map == by_map_ready
        },
{
}

/// The loadable that a finished load gives.
pub open spec fn loadable_of_result<R, E>(result: Result<R, E>) -> Loadable<R, E> {
    match result {
        Ok(x) => Loadable::Ready(x),
        Err(err) => Loadable::Error(err),
    }
}

impl<R, E> From<Result<R, E>> for Loadable<R, E> {
    fn from(result: Result<R, E>) -> (r: Self) {
        match result {
            Ok(x) => Loadable::Ready(x),
            Err(err) => Loadable::Error(err),
        }
    }
}

impl<R, E> vstd::std_specs::convert::FromSpecImpl<Result<R, E>> for Loadable<R, E> {
    open spec fn obeys_from_spec() -> bool {
        true
    }

    open spec fn from_spec(v: Result<R, E>) -> Self {
        loadable_of_result(v)
    }
}

/// Exactly one of the three states holds.
pub proof fn law_exactly_one_state<R, E>(l: Loadable<R, E>)
    ensures
        (l is Loading) as int + (l is Ready) as int + (l is Error) as int == 1,
{
}

/// A loadable made from a result gives the result back: ready content for
/// `Ok`, the error for `Err`.
pub proof fn law_from_result_round_trip<R, E>(result: Result<R, E>)
    ensures
        result is Ok <==> loadable_of_result(result) is Ready,
        result matches Ok(x) ==> loadable_of_result(result) == Loadable::<R, E>::Ready(x),
        result matches Err(e) ==> loadable_of_result(result) == Loadable::<R, E>::Error(e),
{
}

} // verus!
