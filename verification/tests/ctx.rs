use stremio_core::models::ctx::ctx::{ctx_update, CtxEffect, CtxEvent, CtxMsg, CtxState};
use stremio_core::models::ctx::profile::{Auth, CtxStatus, Profile, ProfileEffect, ProfileMsg};
use stremio_core::models::ctx::{CtxError, OtherError};
use stremio_core::models::ctx::search_history::{SearchHistoryBucket, SearchHistoryEffect, SearchHistoryMsg};
use stremio_core::models::ctx::streams::{update_streams, StreamsEffect, StreamsMsg};
use stremio_core::models::notifications::NotificationsEffect;
use stremio_core::types::resource::StreamsBucket;
use stremio_core::types::addon::{Descriptor, DescriptorFlags, Manifest};
use stremio_core::types::json::JsonMap;
use stremio_core::types::library::{NotificationItem, NotificationsBucket};

fn addon(id: &str) -> Descriptor {
    Descriptor {
        manifest: Manifest { id: id.into(), name: id.into(), types: vec![], configuration_required: false, catalogs: vec![], addon_catalogs: vec![] },
        transport_url: format!("https://{id}.example/addon"),
        flags: DescriptorFlags::default(),
    }
}

fn signed_in_ctx() -> CtxState {
    CtxState {
        profile: Profile {
            auth: Some(Auth { key: "key".into(), user_id: "user".into() }),
            addons: vec![addon("a")],
            addons_locked: false,
            settings: JsonMap::new(),
        },
        notifications: NotificationsBucket {
            uid: Some("user".into()),
            last_updated: Some(5),
            items: vec![("s".into(), vec![NotificationItem { video_id: "v".into(), video_released: 1 }])],
        },
        notification_catalogs: vec![],
        streams: Default::default(),
        search_history: SearchHistoryBucket { uid: Some("user".into()), items: vec![("dune".into(), 1)] },
        status: CtxStatus::Ready,
    }
}

#[test]
fn authenticate_puts_the_request_in_progress() {
    let mut ctx = signed_in_ctx();
    let r = ctx_update(&mut ctx, CtxMsg::Authenticate("login"), &[], 0);
    assert!(!r.has_changed);
    assert!(matches!(&ctx.status, CtxStatus::Loading(l) if l == "login"));
    assert!(matches!(&r.effects[..], [CtxEffect::Authenticate(l)] if l == "login"));
    let r = ctx_update(&mut ctx, CtxMsg::LogoutRequested, &[], 0);
    assert!(matches!(r.effects[..], [CtxEffect::Logout]));
}

#[test]
fn logout_reports_deletes_the_session_and_resets() {
    let mut ctx = signed_in_ctx();
    let defaults = JsonMap::new();
    let r = ctx_update(&mut ctx, CtxMsg::Logout { deleted: false, default_settings: &defaults }, &[], 0);
    assert!(r.has_changed);
    assert!(matches!(&r.effects[0], CtxEffect::UserLoggedOut(Some(u)) if u == "user"));
    assert!(matches!(&r.effects[1], CtxEffect::DeleteSession(k) if k == "key"));
    assert!(matches!(&r.effects[2], CtxEffect::Profile(ProfileEffect::ProfileChanged)));
    assert!(matches!(r.effects[3], CtxEffect::SearchHistory(SearchHistoryEffect::Changed)));
    assert!(matches!(r.effects[4], CtxEffect::Notifications(NotificationsEffect::NotificationsChanged)));
    assert_eq!(r.effects.len(), 5);
    assert!(ctx.search_history.uid.is_none() && ctx.search_history.items.is_empty());
    assert!(ctx.profile.auth.is_none() && ctx.notifications.items.is_empty() && ctx.notifications.uid.is_none());
    let mut deleted = signed_in_ctx();
    let r = ctx_update(&mut deleted, CtxMsg::Logout { deleted: true, default_settings: &defaults }, &[], 0);
    assert!(!r.effects.iter().any(|e| matches!(e, CtxEffect::DeleteSession(_))));
}

#[test]
fn auth_result_signs_in_and_reports_locked_addons() {
    let mut ctx = signed_in_ctx();
    ctx.profile.auth = None;
    ctx.status = CtxStatus::Loading("login".into());
    let defaults = JsonMap::new();
    let official = vec![addon("cinemeta")];
    let result: Result<(Auth, Result<Vec<Descriptor>, CtxError>), CtxError> = Ok((
        Auth { key: "k2".into(), user_id: "u2".into() },
        Err(CtxError::Other(OtherError::UserNotLoggedIn)),
    ));
    let r = ctx_update(
        &mut ctx,
        CtxMsg::AuthResult { request: "login", result: &result, library_missing: false, official_addons: &official, default_settings: &defaults },
        &[],
        0,
    );
    assert!(r.has_changed);
    assert!(matches!(ctx.status, CtxStatus::Ready));
    assert_eq!(ctx.notifications.uid.as_deref(), Some("u2"));
    assert!(ctx.profile.addons_locked);
    let n = r.effects.len();
    assert!(matches!(r.effects[n - 5], CtxEffect::Notifications(NotificationsEffect::PullNotifications)));
    assert!(matches!(r.effects[n - 4], CtxEffect::SearchHistory(SearchHistoryEffect::Changed)));
    assert_eq!(ctx.search_history.uid.as_deref(), Some("u2"));
    assert_eq!(ctx.streams.uid.as_deref(), Some("u2"));
    assert!(r.effects.iter().any(|e| matches!(e, CtxEffect::Streams(StreamsEffect::Changed))));
    assert!(matches!(&r.effects[n - 3], CtxEffect::Event(CtxEvent::UserAuthenticated(l)) if l == "login"));
    assert!(matches!(
        r.effects[n - 2],
        CtxEffect::Error(CtxError::Other(OtherError::UserAddonsAreLocked), CtxEvent::UserAddonsLocked(true))
    ));
    assert!(matches!(r.effects[n - 1], CtxEffect::Event(CtxEvent::UserLibraryMissing(false))));
    let r = ctx_update(&mut ctx, CtxMsg::Profile(ProfileMsg::ProfileChanged), &[], 0);
    assert!(matches!(r.effects[..], [CtxEffect::Profile(ProfileEffect::PushProfileToStorage)]));
}

#[test]
fn searches_go_to_the_search_history() {
    let mut ctx = signed_in_ctx();
    let r = ctx_update(&mut ctx, CtxMsg::SearchHistory(SearchHistoryMsg::Search("alien")), &[], 7);
    assert!(r.has_changed && matches!(r.effects[..], [CtxEffect::SearchHistory(SearchHistoryEffect::Changed)]));
    assert_eq!(ctx.search_history.items.len(), 2);
}

#[test]
fn played_streams_are_reset_for_each_user_and_stored() {
    let mut streams = StreamsBucket { uid: Some("u".into()), items: vec![] };
    let r = update_streams(&mut streams, &CtxStatus::Ready, StreamsMsg::Logout);
    assert!(r.has_changed && streams.uid.is_none());
    let again = update_streams(&mut streams, &CtxStatus::Ready, StreamsMsg::Logout);
    assert!(!again.has_changed && again.effects.is_empty());
    let loading = CtxStatus::Loading("login".into());
    let r = update_streams(&mut streams, &loading, StreamsMsg::AuthResult { request: "login", user_id: Some("v") });
    assert!(r.has_changed && streams.uid.as_deref() == Some("v"));
    let stored = update_streams(&mut streams, &CtxStatus::Ready, StreamsMsg::Changed);
    assert!(matches!(&stored.effects[..], [StreamsEffect::PushToStorage(Some(u))] if u == "v"));
    let mut ctx = signed_in_ctx();
    let r = ctx_update(&mut ctx, CtxMsg::Streams(StreamsMsg::Changed), &[], 0);
    assert!(!r.has_changed && matches!(r.effects[..], [CtxEffect::Streams(StreamsEffect::PushToStorage(None))]));
}
