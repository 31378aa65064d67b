use stremio_core::models::ctx::profile::CtxStatus;
use stremio_core::models::ctx::search_history::{
    update_search_history, SearchHistoryBucket, SearchHistoryEffect, SearchHistoryMsg,
};

fn queries(h: &SearchHistoryBucket) -> Vec<(&str, i64)> {
    h.items.iter().map(|(q, t)| (q.as_str(), *t)).collect()
}

#[test]
fn searches_are_recorded_once_with_their_latest_time() {
    let mut h = SearchHistoryBucket { uid: Some("u".into()), items: vec![] };
    let r = update_search_history(&mut h, &CtxStatus::Ready, SearchHistoryMsg::Search("dune"), 10);
    assert!(r.has_changed && matches!(r.effects[..], [SearchHistoryEffect::Changed]));
    update_search_history(&mut h, &CtxStatus::Ready, SearchHistoryMsg::Search("alien"), 20);
    update_search_history(&mut h, &CtxStatus::Ready, SearchHistoryMsg::Search("dune"), 30);
    assert_eq!(queries(&h), vec![("dune", 30), ("alien", 20)]);
    let stored = update_search_history(&mut h, &CtxStatus::Ready, SearchHistoryMsg::Changed, 40);
    assert!(!stored.has_changed);
    assert!(matches!(&stored.effects[..], [SearchHistoryEffect::PushToStorage(Some(u))] if u == "u"));
    update_search_history(&mut h, &CtxStatus::Ready, SearchHistoryMsg::Clear, 50);
    assert!(h.items.is_empty() && h.uid.as_deref() == Some("u"));
}

#[test]
fn signing_out_or_in_resets_the_search_history() {
    let mut h = SearchHistoryBucket { uid: Some("u".into()), items: vec![("dune".into(), 1)] };
    update_search_history(&mut h, &CtxStatus::Ready, SearchHistoryMsg::Logout, 0);
    assert!(h.uid.is_none() && h.items.is_empty());
    let loading = CtxStatus::Loading("login".into());
    let other = update_search_history(&mut h, &loading, SearchHistoryMsg::AuthResult { request: "other", user_id: Some("v") }, 0);
    assert!(!other.has_changed && h.uid.is_none());
    let failed = update_search_history(&mut h, &loading, SearchHistoryMsg::AuthResult { request: "login", user_id: None }, 0);
    assert!(!failed.has_changed);
    update_search_history(&mut h, &loading, SearchHistoryMsg::AuthResult { request: "login", user_id: Some("v") }, 0);
    assert_eq!(h.uid.as_deref(), Some("v"));
}
