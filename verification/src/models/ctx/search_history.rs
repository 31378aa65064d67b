//! The user's search history: each query searched with when it was last
//! searched, and the reducer that records, clears and resets it.

use vstd::prelude::*;

use crate::models::ctx::profile::CtxStatus;
use crate::runtime::Effects;
use crate::text::str_eq;
use crate::types::library::{text_view, same_text};

verus! {

/// The search history of a user (none when signed out): each query with
/// the time it was last searched, in milliseconds since the Unix epoch. No
/// query occurs twice.
pub struct SearchHistoryBucket {
    pub uid: Option<String>,
    pub items: Vec<(String, i64)>,
}

pub open spec fn history_items_view(items: Seq<(String, i64)>) -> Seq<(Seq<char>, i64)> {
    items.map_values(|e: (String, i64)| (e.0@, e.1))
}

/// The bucket as plain values.
pub open spec fn history_view(bucket: SearchHistoryBucket) -> (Option<Seq<char>>, Seq<(Seq<char>, i64)>) {
    (text_view(bucket.uid), history_items_view(bucket.items@))
}

/// No query occurs twice, as in a map from queries.
pub open spec fn queries_distinct(items: Seq<(Seq<char>, i64)>) -> bool {
    forall|i: int, j: int| 0 <= i < j < items.len() ==> items[i].0 != items[j].0
}

/// The position of the query, `-1` where it is not there.
pub open spec fn query_position(items: Seq<(Seq<char>, i64)>, query: Seq<char>) -> int
    decreases items.len(),
{
    if items.len() == 0 {
        -1
    } else if items.last().0 == query {
        items.len() - 1
    } else {
        query_position(items.drop_last(), query)
    }
}

/// The history with `query` searched at `now`: its time is updated where
/// it was searched before, otherwise it is added.
pub open spec fn searched(items: Seq<(Seq<char>, i64)>, query: Seq<char>, now: i64) -> Seq<(Seq<char>, i64)> {
    let k = query_position(items, query);
    if k >= 0 {
        items.update(k, (query, now))
    } else {
        items.push((query, now))
    }
}

/// What the search history reacts to: signing out, clearing it, a search
/// with its query, a finished sign-in (with the id of the user where it
/// succeeded), and a change of the history.
pub enum SearchHistoryMsg<'a> {
    Logout,
    Clear,
    Search(&'a str),
    AuthResult { request: &'a str, user_id: Option<&'a str> },
    Changed,
}

/// What the search history asks for: telling that it changed, and storing
/// it for the user.
pub enum SearchHistoryEffect {
    Changed,
    PushToStorage(Option<String>),
}

pub open spec fn history_effect_view(e: SearchHistoryEffect) -> Option<Option<Seq<char>>> {
    match e {
        SearchHistoryEffect::Changed => None,
        SearchHistoryEffect::PushToStorage(uid) => Some(text_view(uid)),
    }
}

/// The step of the search history at time `now`: the new history, the
/// effects (`None` for telling that it changed, `Some` for storing it for
/// the user) and whether the model changed. Signing out empties it;
/// clearing removes the queries; a search records its query; a sign-in that
/// ends the one in progress gives the user an empty history; a change
/// stores it.
pub open spec fn spec_update_search_history(
    h: (Option<Seq<char>>, Seq<(Seq<char>, i64)>),
    status: CtxStatus,
    msg: SearchHistoryMsg,
    now: i64,
) -> ((Option<Seq<char>>, Seq<(Seq<char>, i64)>), Seq<Option<Option<Seq<char>>>>, bool) {
    match msg {
        SearchHistoryMsg::Logout => ((None, Seq::empty()), seq![None], true),
        SearchHistoryMsg::Clear => ((h.0, Seq::empty()), seq![None], true),
        SearchHistoryMsg::Search(query) => ((h.0, searched(h.1, query@, now)), seq![None], true),
        SearchHistoryMsg::AuthResult { request, user_id } => match (status, user_id) {
            (CtxStatus::Loading(loading), Some(uid)) => if loading@ == request@ {
                ((Some(uid@), Seq::empty()), seq![None], true)
            } else {
                (h, Seq::empty(), false)
            },
            _ => (h, Seq::empty(), false),
        },
        SearchHistoryMsg::Changed => (h, seq![Some(h.0)], false),
    }
}

proof fn lemma_query_position(items: Seq<(Seq<char>, i64)>, query: Seq<char>)
    ensures
        -1 <= query_position(items, query) < items.len(),
        query_position(items, query) >= 0 ==> items[query_position(items, query)].0 == query,
        query_position(items, query) < 0 ==> forall|i: int| 0 <= i < items.len() ==> items[i].0 != query,
    decreases items.len(),
{
    if items.len() > 0 {
        lemma_query_position(items.drop_last(), query);
        if query_position(items, query) < 0 {
            assert forall|i: int| 0 <= i < items.len() implies items[i].0 != query by {
                if i < items.len() - 1 {
                    assert(items.drop_last()[i] == items[i]);
                }
            }
        }
    }
}

/// Searching keeps the queries distinct.
pub proof fn law_search_keeps_queries_distinct(items: Seq<(Seq<char>, i64)>, query: Seq<char>, now: i64)
    requires
        queries_distinct(items),
    ensures
        queries_distinct(searched(items, query, now)),
        searched(items, query, now).contains((query, now)),
{
    lemma_query_position(items, query);
    let k = query_position(items, query);
    let s = searched(items, query, now);
    if k >= 0 {
        assert(s[k] == (query, now));
    } else {
        assert(s[items.len() as int] == (query, now));
    }
}

fn record_search(items: &mut Vec<(String, i64)>, query: &str, now: i64)
    ensures
        history_items_view(final(items)@) == searched(history_items_view(old(items)@), query@, now),
{
    let ghost v = history_items_view(items@);
    let mut i: usize = items.len();
    assert(v.take(v.len() as int) =~= v);
    while i > 0
        invariant
            i <= items.len(),
            items@ == old(items)@,
            v == history_items_view(items@),
            query_position(v, query@) == query_position(v.take(i as int), query@),
        decreases i,
    {
        assert(v.take(i as int).drop_last() =~= v.take(i - 1));
        assert(v.take(i as int).last() == v[i - 1]);
        if str_eq(items[i - 1].0.as_str(), query) {
            assert(v[i - 1].0 == query@);
            assert(query_position(v, query@) == i - 1);
            items.set(i - 1, (query.to_string(), now));
            assert(history_items_view(items@) =~= v.update(i - 1, (query@, now)));
            return;
        }
        i = i - 1;
    }
    items.push((query.to_string(), now));
    assert(history_items_view(items@) =~= v.push((query@, now)));
}

/// The reducer of the search history at time `now` (see
/// [`spec_update_search_history`]).
pub fn update_search_history(
    history: &mut SearchHistoryBucket,
    status: &CtxStatus,
    msg: SearchHistoryMsg,
    now: i64,
) -> (r: Effects<SearchHistoryEffect>)
    ensures
        (history_view(*final(history)), r.effect_list().map_values(|e: SearchHistoryEffect| history_effect_view(e)), r.has_changed)
            == spec_update_search_history(history_view(*old(history)), *status, msg, now),
        queries_distinct(history_view(*old(history)).1) ==> queries_distinct(history_view(*final(history)).1),
{
    let changed = Effects::one(SearchHistoryEffect::Changed);
    let ghost told = changed.effect_list();
    assert(told.map_values(|e: SearchHistoryEffect| history_effect_view(e)) =~= seq![None::<Option<Seq<char>>>]);
    match msg {
        SearchHistoryMsg::Logout => {
            *history = SearchHistoryBucket { uid: None, items: Vec::new() };
            assert(history_items_view(history.items@) =~= Seq::<(Seq<char>, i64)>::empty());
            changed
        },
        SearchHistoryMsg::Clear => {
            history.items = Vec::new();
            assert(history_items_view(history.items@) =~= Seq::<(Seq<char>, i64)>::empty());
            changed
        },
        SearchHistoryMsg::Search(query) => {
            proof {
                if queries_distinct(history_items_view(history.items@)) {
                    law_search_keeps_queries_distinct(history_items_view(history.items@), query@, now);
                }
            }
            record_search(&mut history.items, query, now);
            changed
        },
        SearchHistoryMsg::AuthResult { request, user_id } => {
            let accepted = match (status, user_id) {
                (CtxStatus::Loading(loading), Some(_)) => str_eq(loading.as_str(), request),
                _ => false,
            };
            if accepted {
                let uid = match user_id {
                    Some(u) => u.to_string(),
                    None => String::new(),
                };
                *history = SearchHistoryBucket { uid: Some(uid), items: Vec::new() };
                assert(history_items_view(history.items@) =~= Seq::<(Seq<char>, i64)>::empty());
                changed
            } else {
                let r = Effects::none().unchanged();
                assert(r.effect_list().map_values(|e: SearchHistoryEffect| history_effect_view(e)) =~= Seq::<
                    Option<Option<Seq<char>>>,
                >::empty());
                r
            }
        },
        SearchHistoryMsg::Changed => {
            let uid = match &history.uid {
                Some(u) => Some(u.clone()),
                None => None,
            };
            let r = Effects::one(SearchHistoryEffect::PushToStorage(uid)).unchanged();
            assert(r.effect_list().map_values(|e: SearchHistoryEffect| history_effect_view(e)) =~= seq![
                Some(text_view(history.uid)),
            ]);
            r
        },
    }
}

} // verus!
