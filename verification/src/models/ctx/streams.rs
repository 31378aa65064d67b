//! The streams the user last played: reset on signing out and in, and
//! stored when they change.

use vstd::prelude::*;

use crate::models::ctx::profile::CtxStatus;
use crate::runtime::Effects;
use crate::text::str_eq;
use crate::types::library::text_view;
use crate::types::resource::StreamsBucket;

verus! {

/// What the played streams react to: signing out, a finished sign-in (with
/// the id of the user where it succeeded), and a change of the streams (not
/// yet stored).
pub enum StreamsMsg<'a> {
    Logout,
    AuthResult { request: &'a str, user_id: Option<&'a str> },
    Changed,
}

/// What the played streams ask for: telling that they changed, and storing
/// them for the user.
pub enum StreamsEffect {
    Changed,
    PushToStorage(Option<String>),
}

pub open spec fn streams_effect_view(e: StreamsEffect) -> Option<Option<Seq<char>>> {
    match e {
        StreamsEffect::Changed => None,
        StreamsEffect::PushToStorage(uid) => Some(text_view(uid)),
    }
}

pub open spec fn streams_effects_view(es: Seq<StreamsEffect>) -> Seq<Option<Option<Seq<char>>>> {
    es.map_values(|e: StreamsEffect| streams_effect_view(e))
}

/// The streams become the empty ones of the user `uid`; the change is told
/// where they differ.
pub open spec fn streams_reset(
    before: StreamsBucket,
    after: StreamsBucket,
    uid: Option<Seq<char>>,
    effects: Seq<Option<Option<Seq<char>>>>,
    changed: bool,
) -> bool {
    let differs = text_view(before.uid) != uid || before.items@.len() > 0;
    &&& text_view(after.uid) == uid
    &&& after.items@.len() == 0
    &&& effects == if differs {
        seq![None::<Option<Seq<char>>>]
    } else {
        Seq::empty()
    }
    &&& changed == differs
}

fn reset_streams(streams: &mut StreamsBucket, uid: Option<String>) -> (r: Effects<StreamsEffect>)
    ensures
        streams_reset(*old(streams), *final(streams), text_view(uid), streams_effects_view(r.effect_list()), r.has_changed),
{
    let same_user = match (&streams.uid, &uid) {
        (Some(a), Some(b)) => str_eq(a.as_str(), b.as_str()),
        (None, None) => true,
        _ => false,
    };
    let differs = !same_user || streams.items.len() > 0;
    *streams = StreamsBucket { uid, items: Vec::new() };
    if differs {
        let r = Effects::one(StreamsEffect::Changed);
        assert(streams_effects_view(r.effect_list()) =~= seq![None::<Option<Seq<char>>>]);
        r
    } else {
        let r = Effects::none().unchanged();
        assert(streams_effects_view(r.effect_list()) =~= Seq::<Option<Option<Seq<char>>>>::empty());
        r
    }
}

/// One step of the played streams (see [`update_streams`]): from `before`
/// to `after`, with the effects (`None` for telling that they changed,
/// `Some` for storing them for the user) and whether the model changed.
pub open spec fn streams_step(
    before: StreamsBucket,
    status: CtxStatus,
    msg: StreamsMsg,
    after: StreamsBucket,
    effects: Seq<Option<Option<Seq<char>>>>,
    changed: bool,
) -> bool {
    match msg {
        StreamsMsg::Logout => streams_reset(before, after, None, effects, changed),
        StreamsMsg::AuthResult { request, user_id } => if (status matches CtxStatus::Loading(l) && l@ == request@)
            && user_id is Some {
            streams_reset(before, after, Some(user_id->Some_0@), effects, changed)
        } else {
            after == before && effects.len() == 0 && !changed
        },
        StreamsMsg::Changed => {
            &&& after == before
            &&& effects == seq![Some(text_view(before.uid))]
            &&& !changed
        },
    }
}

/// The reducer of the played streams. Signing out, and a sign-in that ends
/// the one in progress, make them the empty streams of the user then signed
/// in, telling the change where there was one. A change is stored.
pub fn update_streams(streams: &mut StreamsBucket, status: &CtxStatus, msg: StreamsMsg) -> (r: Effects<
    StreamsEffect,
>)
    ensures
        streams_step(*old(streams), *status, msg, *final(streams), streams_effects_view(r.effect_list()), r.has_changed),
{
    match msg {
        StreamsMsg::Logout => reset_streams(streams, None),
        StreamsMsg::AuthResult { request, user_id } => {
            let accepted = match (status, user_id) {
                (CtxStatus::Loading(l), Some(_)) => str_eq(l.as_str(), request),
                _ => false,
            };
            if accepted {
                let uid = match user_id {
                    Some(u) => Some(u.to_string()),
                    None => None,
                };
                reset_streams(streams, uid)
            } else {
                Effects::none().unchanged()
            }
        },
        StreamsMsg::Changed => {
            let uid = match &streams.uid {
                Some(u) => Some(u.clone()),
                None => None,
            };
            let r = Effects::one(StreamsEffect::PushToStorage(uid)).unchanged();
            assert(streams_effects_view(r.effect_list()) =~= seq![Some(text_view(streams.uid))]);
            r
        },
    }
}

} // verus!
