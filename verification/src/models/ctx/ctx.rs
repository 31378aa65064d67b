//! The context of the user: the profile, the notifications of new videos,
//! the played streams, the search history and the state of signing in, and
//! the reducer that routes each message to them and reports signing in and
//! out.

use vstd::prelude::*;

use crate::models::common::ResourceLoadable;
use crate::models::ctx::profile::{
    streams_after, auth_view, effects_view, optional_auth_view, profile_view, spec_update_profile, update_profile, Auth,
    CtxStatus, Profile, ProfileEffect, ProfileEffectView, ProfileMsg,
};
use crate::models::ctx::{CtxError, OtherError};
use crate::models::notifications::{
    notifications_step, reset, update_notifications, NotificationsEffect, NotificationsMsg,
};
use crate::models::ctx::search_history::{
    history_effect_view, history_view, spec_update_search_history, update_search_history, SearchHistoryBucket,
    SearchHistoryEffect, SearchHistoryMsg,
};
use crate::models::ctx::streams::{
    streams_effect_view, streams_effects_view, streams_reset, streams_step, update_streams, StreamsEffect, StreamsMsg,
};
use crate::text::str_eq;
use crate::types::addon::Descriptor;
use crate::types::json::JsonMap;
use crate::types::library::{text_view, LibraryItem, NotificationsBucket};
use crate::runtime::Effects;
use crate::types::resource::{MetaItem, StreamsBucket};

verus! {

/// The context: the profile, the notifications with the catalogs of new
/// videos they come from, the played streams, the search history, and
/// whether a sign-in is in progress.
pub struct CtxState {
    pub profile: Profile,
    pub notifications: NotificationsBucket,
    pub notification_catalogs: Vec<ResourceLoadable<Vec<MetaItem>>>,
    pub streams: StreamsBucket,
    pub search_history: SearchHistoryBucket,
    pub status: CtxStatus,
}

/// What the context tells about signing in.
pub enum CtxEvent {
    UserAuthenticated(String),
    UserAddonsLocked(bool),
    UserLibraryMissing(bool),
}

/// What the context asks for: signing in with a request, signing out,
/// telling that the user signed out (with the id of that user), deleting
/// the session with its key, an event, an error with the event it stands
/// for, and the effects of the profile and of the notifications.
pub enum CtxEffect {
    Authenticate(String),
    Logout,
    UserLoggedOut(Option<String>),
    DeleteSession(String),
    Event(CtxEvent),
    Error(CtxError, CtxEvent),
    Profile(ProfileEffect),
    Notifications(NotificationsEffect),
    SearchHistory(SearchHistoryEffect),
    Streams(StreamsEffect),
}

pub enum CtxEventView {
    UserAuthenticated(Seq<char>),
    UserAddonsLocked(bool),
    UserLibraryMissing(bool),
}

pub open spec fn event_view(event: CtxEvent) -> CtxEventView {
    match event {
        CtxEvent::UserAuthenticated(request) => CtxEventView::UserAuthenticated(request@),
        CtxEvent::UserAddonsLocked(locked) => CtxEventView::UserAddonsLocked(locked),
        CtxEvent::UserLibraryMissing(missing) => CtxEventView::UserLibraryMissing(missing),
    }
}

/// An effect as plain values.
pub enum CtxEffectView {
    Authenticate(Seq<char>),
    Logout,
    UserLoggedOut(Option<Seq<char>>),
    DeleteSession(Seq<char>),
    Event(CtxEventView),
    Error(CtxError, CtxEventView),
    Profile(ProfileEffectView),
    Notifications(NotificationsEffect),
    SearchHistory(Option<Option<Seq<char>>>),
    Streams(Option<Option<Seq<char>>>),
}

pub open spec fn ctx_effect_view(effect: CtxEffect) -> CtxEffectView {
    match effect {
        CtxEffect::Authenticate(request) => CtxEffectView::Authenticate(request@),
        CtxEffect::Logout => CtxEffectView::Logout,
        CtxEffect::UserLoggedOut(uid) => CtxEffectView::UserLoggedOut(text_view(uid)),
        CtxEffect::DeleteSession(key) => CtxEffectView::DeleteSession(key@),
        CtxEffect::Event(event) => CtxEffectView::Event(event_view(event)),
        CtxEffect::Error(error, event) => CtxEffectView::Error(error, event_view(event)),
        CtxEffect::Profile(effect) => CtxEffectView::Profile(
            crate::models::ctx::profile::effect_view(effect),
        ),
        CtxEffect::Notifications(effect) => CtxEffectView::Notifications(effect),
        CtxEffect::SearchHistory(effect) => CtxEffectView::SearchHistory(history_effect_view(effect)),
        CtxEffect::Streams(effect) => CtxEffectView::Streams(streams_effect_view(effect)),
    }
}

pub open spec fn ctx_effects_view(effects: Seq<CtxEffect>) -> Seq<CtxEffectView> {
    effects.map_values(|e: CtxEffect| ctx_effect_view(e))
}

/// The profile's effects among the context's.
pub open spec fn from_profile(effects: Seq<ProfileEffectView>) -> Seq<CtxEffectView> {
    effects.map_values(|e: ProfileEffectView| CtxEffectView::Profile(e))
}

/// The search history's effects among the context's.
pub open spec fn from_history(effects: Seq<Option<Option<Seq<char>>>>) -> Seq<CtxEffectView> {
    effects.map_values(|e: Option<Option<Seq<char>>>| CtxEffectView::SearchHistory(e))
}

/// The played streams' effects among the context's.
pub open spec fn from_streams(effects: Seq<Option<Option<Seq<char>>>>) -> Seq<CtxEffectView> {
    effects.map_values(|e: Option<Option<Seq<char>>>| CtxEffectView::Streams(e))
}

/// Telling that the played streams changed, where resetting them to the
/// empty ones of `uid` changes them.
pub open spec fn streams_told(streams: StreamsBucket, uid: Option<Seq<char>>) -> Seq<CtxEffectView> {
    if text_view(streams.uid) != uid || streams.items@.len() > 0 {
        seq![CtxEffectView::Streams(None)]
    } else {
        Seq::empty()
    }
}

/// The notifications' effects among the context's.
pub open spec fn from_notifications(effects: Seq<NotificationsEffect>) -> Seq<CtxEffectView> {
    effects.map_values(|e: NotificationsEffect| CtxEffectView::Notifications(e))
}

/// What the context reacts to: the user signs in with a request, asks to
/// sign out, or is signed out (`deleted` where the account was deleted,
/// and with the default settings); a sign-in ends with the account and the
/// user's addons (or why they could not be had), whether the user's library
/// could not be had, the official addons and the default settings; a
/// message of the profile, the notifications, the search history or the
/// played streams alone.
pub enum CtxMsg<'a> {
    Authenticate(&'a str),
    LogoutRequested,
    Logout { deleted: bool, default_settings: &'a JsonMap },
    AuthResult {
        request: &'a str,
        result: &'a Result<(Auth, Result<Vec<Descriptor>, CtxError>), CtxError>,
        library_missing: bool,
        official_addons: &'a [Descriptor],
        default_settings: &'a JsonMap,
    },
    Profile(ProfileMsg<'a>),
    Notifications(NotificationsMsg<'a>),
    SearchHistory(SearchHistoryMsg<'a>),
    Streams(StreamsMsg<'a>),
}

/// The id of the signed-in user.
pub open spec fn uid_of(auth: Option<(Seq<char>, Seq<char>)>) -> Option<Seq<char>> {
    match auth {
        Some(a) => Some(a.1),
        None => None,
    }
}

/// The events of a finished sign-in: that the user is signed in, then
/// whether the addons are locked and whether the library is missing, each
/// as an error where it is so; or the error of the sign-in.
pub open spec fn auth_events(
    request: Seq<char>,
    result: Result<(Auth, Result<Vec<Descriptor>, CtxError>), CtxError>,
    library_missing: bool,
) -> Seq<CtxEffectView> {
    match result {
        Ok((_, addons)) => seq![
            CtxEffectView::Event(CtxEventView::UserAuthenticated(request)),
            if addons is Err {
                CtxEffectView::Error(
                    CtxError::Other(OtherError::UserAddonsAreLocked),
                    CtxEventView::UserAddonsLocked(true),
                )
            } else {
                CtxEffectView::Event(CtxEventView::UserAddonsLocked(false))
            },
            if library_missing {
                CtxEffectView::Error(
                    CtxError::Other(OtherError::UserLibraryIsMissing),
                    CtxEventView::UserLibraryMissing(true),
                )
            } else {
                CtxEffectView::Event(CtxEventView::UserLibraryMissing(false))
            },
        ],
        Err(error) => seq![CtxEffectView::Error(error, CtxEventView::UserAuthenticated(request))],
    }
}

fn uid(profile: &Profile) -> (r: Option<String>)
    ensures
        text_view(r) == uid_of(optional_auth_view(profile.auth)),
{
    match &profile.auth {
        Some(auth) => Some(auth.user_id.clone()),
        None => None,
    }
}

fn wrap_profile_effects(effects: Effects<ProfileEffect>) -> (r: Vec<CtxEffect>)
    ensures
        ctx_effects_view(r@) == from_profile(effects_view(effects.effect_list())),
{
    let items = effects.into_effects();
    let mut out: Vec<CtxEffect> = Vec::new();
    let mut rest: Vec<ProfileEffect> = Vec::new();
    let mut items = items;
    let ghost all = items@;
    // Taken from the back, then put in order.
    while items.len() > 0
        invariant
            items@.len() + rest@.len() == all.len(),
            items@ == all.take(items@.len() as int),
            forall|j: int| 0 <= j < rest@.len() ==> rest@[j] == all[all.len() - 1 - j],
        decreases items.len(),
    {
        let ghost n = items@.len();
        let e = items.pop().unwrap();
        rest.push(e);
        assert(items@ =~= all.take(n - 1));
    }
    while rest.len() > 0
        invariant
            out@.len() + rest@.len() == all.len(),
            forall|j: int| 0 <= j < rest@.len() ==> rest@[j] == all[all.len() - 1 - j],
            forall|j: int|
                0 <= j < out@.len() ==> ctx_effect_view(#[trigger] out@[j]) == CtxEffectView::Profile(
                    crate::models::ctx::profile::effect_view(all[j]),
                ),
        decreases rest.len(),
    {
        let e = rest.pop().unwrap();
        out.push(CtxEffect::Profile(e));
    }
    assert(ctx_effects_view(out@) =~= from_profile(effects_view(all)));
    out
}

fn wrap_notification_effects(effects: Effects<NotificationsEffect>) -> (r: Vec<CtxEffect>)
    ensures
        ctx_effects_view(r@) == from_notifications(effects.effect_list()),
{
    let items = effects.into_effects();
    let mut out: Vec<CtxEffect> = Vec::new();
    let mut rest: Vec<NotificationsEffect> = Vec::new();
    let mut items = items;
    let ghost all = items@;
    while items.len() > 0
        invariant
            items@.len() + rest@.len() == all.len(),
            items@ == all.take(items@.len() as int),
            forall|j: int| 0 <= j < rest@.len() ==> rest@[j] == all[all.len() - 1 - j],
        decreases items.len(),
    {
        let ghost n = items@.len();
        let e = items.pop().unwrap();
        rest.push(e);
        assert(items@ =~= all.take(n - 1));
    }
    while rest.len() > 0
        invariant
            out@.len() + rest@.len() == all.len(),
            forall|j: int| 0 <= j < rest@.len() ==> rest@[j] == all[all.len() - 1 - j],
            forall|j: int|
                0 <= j < out@.len() ==> ctx_effect_view(#[trigger] out@[j]) == CtxEffectView::Notifications(
                    all[j],
                ),
        decreases rest.len(),
    {
        let e = rest.pop().unwrap();
        out.push(CtxEffect::Notifications(e));
    }
    assert(ctx_effects_view(out@) =~= from_notifications(all));
    out
}

fn wrap_history_effects(effects: Effects<SearchHistoryEffect>) -> (r: Vec<CtxEffect>)
    ensures
        ctx_effects_view(r@) == from_history(
            effects.effect_list().map_values(|e: SearchHistoryEffect| history_effect_view(e)),
        ),
{
    let items = effects.into_effects();
    let mut out: Vec<CtxEffect> = Vec::new();
    let mut rest: Vec<SearchHistoryEffect> = Vec::new();
    let mut items = items;
    let ghost all = items@;
    while items.len() > 0
        invariant
            items@.len() + rest@.len() == all.len(),
            items@ == all.take(items@.len() as int),
            forall|j: int| 0 <= j < rest@.len() ==> rest@[j] == all[all.len() - 1 - j],
        decreases items.len(),
    {
        let ghost n = items@.len();
        let e = items.pop().unwrap();
        rest.push(e);
        assert(items@ =~= all.take(n - 1));
    }
    while rest.len() > 0
        invariant
            out@.len() + rest@.len() == all.len(),
            forall|j: int| 0 <= j < rest@.len() ==> rest@[j] == all[all.len() - 1 - j],
            forall|j: int|
                0 <= j < out@.len() ==> ctx_effect_view(#[trigger] out@[j]) == CtxEffectView::SearchHistory(
                    history_effect_view(all[j]),
                ),
        decreases rest.len(),
    {
        let e = rest.pop().unwrap();
        out.push(CtxEffect::SearchHistory(e));
    }
    assert(ctx_effects_view(out@) =~= from_history(all.map_values(|e: SearchHistoryEffect| history_effect_view(e))));
    out
}

fn wrap_streams_effects(effects: Effects<StreamsEffect>) -> (r: Vec<CtxEffect>)
    ensures
        ctx_effects_view(r@) == from_streams(
            effects.effect_list().map_values(|e: StreamsEffect| streams_effect_view(e)),
        ),
{
    let items = effects.into_effects();
    let mut out: Vec<CtxEffect> = Vec::new();
    let mut rest: Vec<StreamsEffect> = Vec::new();
    let mut items = items;
    let ghost all = items@;
    while items.len() > 0
        invariant
            items@.len() + rest@.len() == all.len(),
            items@ == all.take(items@.len() as int),
            forall|j: int| 0 <= j < rest@.len() ==> rest@[j] == all[all.len() - 1 - j],
        decreases items.len(),
    {
        let ghost n = items@.len();
        let e = items.pop().unwrap();
        rest.push(e);
        assert(items@ =~= all.take(n - 1));
    }
    while rest.len() > 0
        invariant
            out@.len() + rest@.len() == all.len(),
            forall|j: int| 0 <= j < rest@.len() ==> rest@[j] == all[all.len() - 1 - j],
            forall|j: int|
                0 <= j < out@.len() ==> ctx_effect_view(#[trigger] out@[j]) == CtxEffectView::Streams(
                    streams_effect_view(all[j]),
                ),
        decreases rest.len(),
    {
        let e = rest.pop().unwrap();
        out.push(CtxEffect::Streams(e));
    }
    assert(ctx_effects_view(out@) =~= from_streams(all.map_values(|e: StreamsEffect| streams_effect_view(e))));
    out
}

fn append(out: &mut Vec<CtxEffect>, more: Vec<CtxEffect>)
    ensures
        ctx_effects_view(final(out)@) == ctx_effects_view(old(out)@) + ctx_effects_view(more@),
{
    let mut more = more;
    let ghost a = out@;
    let ghost b = more@;
    out.append(&mut more);
    assert(out@ =~= a + b);
    assert(ctx_effects_view(out@) =~= ctx_effects_view(a) + ctx_effects_view(b));
}

fn event_copy(event: &CtxEvent) -> (r: CtxEvent)
    ensures
        event_view(r) == event_view(*event),
{
    match event {
        CtxEvent::UserAuthenticated(request) => CtxEvent::UserAuthenticated(request.clone()),
        CtxEvent::UserAddonsLocked(locked) => CtxEvent::UserAddonsLocked(*locked),
        CtxEvent::UserLibraryMissing(missing) => CtxEvent::UserLibraryMissing(*missing),
    }
}

fn signed_in_events(
    request: &str,
    result: &Result<(Auth, Result<Vec<Descriptor>, CtxError>), CtxError>,
    library_missing: bool,
) -> (r: Vec<CtxEffect>)
    ensures
        ctx_effects_view(r@) == auth_events(request@, *result, library_missing),
{
    let authenticated = CtxEvent::UserAuthenticated(request.to_string());
    let mut out: Vec<CtxEffect> = Vec::new();
    match result {
        Ok((_, addons)) => {
            out.push(CtxEffect::Event(authenticated));
            if addons.is_err() {
                out.push(
                    CtxEffect::Error(CtxError::Other(OtherError::UserAddonsAreLocked), CtxEvent::UserAddonsLocked(true)),
                );
            } else {
                out.push(CtxEffect::Event(CtxEvent::UserAddonsLocked(false)));
            }
            if library_missing {
                out.push(
                    CtxEffect::Error(
                        CtxError::Other(OtherError::UserLibraryIsMissing),
                        CtxEvent::UserLibraryMissing(true),
                    ),
                );
            } else {
                out.push(CtxEffect::Event(CtxEvent::UserLibraryMissing(false)));
            }
        },
        Err(error) => {
            out.push(CtxEffect::Error(error.clone(), authenticated));
        },
    }
    assert(ctx_effects_view(out@) =~= auth_events(request@, *result, library_missing));
    out
}

/// The reducer of the context, for the messages of the library `library`
/// at time `now` (milliseconds since the Unix epoch).
///
/// Signing in puts the request in progress and asks to sign in; asking to
/// sign out asks for the sign-out. Signing out tells that the user (by the
/// id before) signed out, deletes the session where there was one and the
/// account was not deleted, signs the profile out, resets the played
/// streams, the search history and the notifications, and ends any sign-in
/// in progress. A finished sign-in updates the profile, then the played
/// streams, the notifications and the search history of the user then
/// signed in, and where it is the one in progress ends it and tells how it
/// went. A message of the profile, the played streams, the search history
/// or the notifications goes to it alone.
pub fn ctx_update(ctx: &mut CtxState, msg: CtxMsg, library: &[LibraryItem], now: i64) -> (r: Effects<CtxEffect>)
    ensures
        match msg {
            CtxMsg::Authenticate(request) => {
                &&& final(ctx).streams == old(ctx).streams
                &&& final(ctx).search_history == old(ctx).search_history
                &&& (final(ctx).status matches CtxStatus::Loading(l) && l@ == request@)
                &&& profile_view(final(ctx).profile) == profile_view(old(ctx).profile)
                &&& final(ctx).notifications == old(ctx).notifications
                &&& final(ctx).notification_catalogs == old(ctx).notification_catalogs
                &&& ctx_effects_view(r.effect_list()) == seq![CtxEffectView::Authenticate(request@)]
                &&& !r.has_changed
            },
            CtxMsg::LogoutRequested => {
                &&& final(ctx).streams == old(ctx).streams
                &&& final(ctx).search_history == old(ctx).search_history
                &&& final(ctx).status == old(ctx).status
                &&& profile_view(final(ctx).profile) == profile_view(old(ctx).profile)
                &&& final(ctx).notifications == old(ctx).notifications
                &&& final(ctx).notification_catalogs == old(ctx).notification_catalogs
                &&& ctx_effects_view(r.effect_list()) == seq![CtxEffectView::Logout]
                &&& !r.has_changed
            },
            CtxMsg::Logout { deleted, default_settings } => {
                let before = profile_view(old(ctx).profile);
                let step = spec_update_profile(before, old(ctx).status, ProfileMsg::Logout { default_settings });
                let session = match before.0 {
                    Some(a) => if !deleted {
                        seq![CtxEffectView::DeleteSession(a.0)]
                    } else {
                        Seq::empty()
                    },
                    None => Seq::empty(),
                };
                &&& (exists|notified: Seq<NotificationsEffect>|
                    {
                        &&& reset(
                            old(ctx).notifications,
                            final(ctx).notifications,
                            final(ctx).notification_catalogs@,
                            None,
                            notified,
                        )
                        &&& ctx_effects_view(r.effect_list()) == seq![
                            CtxEffectView::UserLoggedOut(uid_of(before.0)),
                        ] + session + from_profile(step.1) + streams_told(old(ctx).streams, None) + seq![
                            CtxEffectView::SearchHistory(None),
                        ] + from_notifications(notified)
                    })
                &&& profile_view(final(ctx).profile) == step.0
                &&& final(ctx).streams.uid is None
                &&& final(ctx).streams.items@.len() == 0
                &&& history_view(final(ctx).search_history) == (None::<Seq<char>>, Seq::<(Seq<char>, i64)>::empty())
                &&& final(ctx).status is Ready
                &&& r.has_changed
            },
            CtxMsg::AuthResult { request, result, library_missing, official_addons, default_settings } => {
                let step = spec_update_profile(
                    profile_view(old(ctx).profile),
                    old(ctx).status,
                    ProfileMsg::AuthResult { request, result, official_addons, default_settings },
                );
                let in_progress = old(ctx).status matches CtxStatus::Loading(l) && l@ == request@;
                let accepted = in_progress && result is Ok;
                &&& profile_view(final(ctx).profile) == step.0
                &&& accepted ==> text_view(final(ctx).streams.uid) == Some(result->Ok_0.0.user_id@)
                    && final(ctx).streams.items@.len() == 0
                &&& !accepted ==> final(ctx).streams.items@ == old(ctx).streams.items@ && final(ctx).streams.uid
                    == old(ctx).streams.uid
                &&& accepted ==> (exists|notified: Seq<NotificationsEffect>|
                    {
                        &&& reset(
                            old(ctx).notifications,
                            final(ctx).notifications,
                            final(ctx).notification_catalogs@,
                            Some(result->Ok_0.0.user_id),
                            notified,
                        )
                        &&& ctx_effects_view(r.effect_list()) == from_profile(step.1) + streams_told(
                            old(ctx).streams,
                            Some(result->Ok_0.0.user_id@),
                        ) + from_notifications(notified.push(NotificationsEffect::PullNotifications)) + seq![
                            CtxEffectView::SearchHistory(None),
                        ] + auth_events(request@, *result, library_missing)
                    })
                &&& accepted ==> history_view(final(ctx).search_history) == (
                    Some(result->Ok_0.0.user_id@),
                    Seq::<(Seq<char>, i64)>::empty(),
                )
                &&& !accepted ==> history_view(final(ctx).search_history) == history_view(old(ctx).search_history)
                &&& !accepted ==> final(ctx).notifications == old(ctx).notifications
                    && final(ctx).notification_catalogs == old(ctx).notification_catalogs
                    && ctx_effects_view(r.effect_list()) == from_profile(step.1) + (if in_progress {
                    auth_events(request@, *result, library_missing)
                } else {
                    Seq::empty()
                })
                &&& in_progress ==> final(ctx).status is Ready
                &&& !in_progress ==> final(ctx).status == old(ctx).status
                &&& r.has_changed == (step.2 || accepted)
            },
            CtxMsg::Profile(m) => {
                let step = spec_update_profile(profile_view(old(ctx).profile), old(ctx).status, m);
                &&& profile_view(final(ctx).profile) == step.0
                &&& final(ctx).streams.items@ == streams_after(
                    old(ctx).streams.items@,
                    profile_view(old(ctx).profile),
                    m,
                )
                &&& final(ctx).notifications == old(ctx).notifications
                &&& final(ctx).notification_catalogs == old(ctx).notification_catalogs
                &&& final(ctx).search_history == old(ctx).search_history
                &&& final(ctx).status == old(ctx).status
                &&& ctx_effects_view(r.effect_list()) == from_profile(step.1)
                &&& r.has_changed == step.2
            },
            CtxMsg::Streams(m) => {
                &&& (exists|told: Seq<Option<Option<Seq<char>>>>|
                    {
                        &&& streams_step(old(ctx).streams, old(ctx).status, m, final(ctx).streams, told, r.has_changed)
                        &&& ctx_effects_view(r.effect_list()) == from_streams(told)
                    })
                &&& profile_view(final(ctx).profile) == profile_view(old(ctx).profile)
                &&& final(ctx).search_history == old(ctx).search_history
                &&& final(ctx).notifications == old(ctx).notifications
                &&& final(ctx).notification_catalogs == old(ctx).notification_catalogs
                &&& final(ctx).status == old(ctx).status
            },
            CtxMsg::SearchHistory(m) => {
                let step = spec_update_search_history(history_view(old(ctx).search_history), old(ctx).status, m, now);
                &&& history_view(final(ctx).search_history) == step.0
                &&& ctx_effects_view(r.effect_list()) == from_history(step.1)
                &&& r.has_changed == step.2
                &&& profile_view(final(ctx).profile) == profile_view(old(ctx).profile)
                &&& final(ctx).streams == old(ctx).streams
                &&& final(ctx).notifications == old(ctx).notifications
                &&& final(ctx).notification_catalogs == old(ctx).notification_catalogs
                &&& final(ctx).status == old(ctx).status
            },
            CtxMsg::Notifications(m) => {
                &&& final(ctx).streams == old(ctx).streams
                &&& final(ctx).search_history == old(ctx).search_history
                &&& profile_view(final(ctx).profile) == profile_view(old(ctx).profile)
                &&& final(ctx).status == old(ctx).status
                &&& (exists|notified: Seq<NotificationsEffect>|
                    {
                        &&& notifications_step(
                            old(ctx).notifications,
                            old(ctx).notification_catalogs,
                            library@,
                            old(ctx).status,
                            m,
                            now,
                            final(ctx).notifications,
                            final(ctx).notification_catalogs,
                            notified,
                            r.has_changed,
                        )
                        &&& ctx_effects_view(r.effect_list()) == from_notifications(notified)
                    })
            },
        },
{
    match msg {
        CtxMsg::Authenticate(request) => {
            ctx.status = CtxStatus::Loading(request.to_string());
            let r = Effects::one(CtxEffect::Authenticate(request.to_string())).unchanged();
            assert(ctx_effects_view(r.effect_list()) =~= seq![CtxEffectView::Authenticate(request@)]);
            r
        },
        CtxMsg::LogoutRequested => {
            let r = Effects::one(CtxEffect::Logout).unchanged();
            assert(ctx_effects_view(r.effect_list()) =~= seq![CtxEffectView::Logout]);
            r
        },
        CtxMsg::Logout { deleted, default_settings } => {
            let mut out: Vec<CtxEffect> = Vec::new();
            out.push(CtxEffect::UserLoggedOut(uid(&ctx.profile)));
            match &ctx.profile.auth {
                Some(auth) => if !deleted {
                    out.push(CtxEffect::DeleteSession(auth.key.clone()));
                },
                None => {},
            }
            let ghost first = ctx_effects_view(out@);
            let profile_effects = update_profile(&mut ctx.profile, &mut ctx.streams, &ctx.status, ProfileMsg::Logout { default_settings });
            let changed = profile_effects.has_changed;
            append(&mut out, wrap_profile_effects(profile_effects));
            let streams_effects = update_streams(&mut ctx.streams, &ctx.status, StreamsMsg::Logout);
            let ghost streams_list = streams_effects.effect_list();
            append(&mut out, wrap_streams_effects(streams_effects));
            let history = update_search_history(&mut ctx.search_history, &ctx.status, SearchHistoryMsg::Logout, now);
            let ghost history_list = history.effect_list();
            assert(history_list.map_values(|e: SearchHistoryEffect| history_effect_view(e)) == seq![
                None::<Option<Seq<char>>>,
            ]);
            append(&mut out, wrap_history_effects(history));
            let no_user: Option<String> = None;
            let notified = update_notifications(
                &mut ctx.notifications,
                &mut ctx.notification_catalogs,
                library,
                &ctx.status,
                NotificationsMsg::Logout { uid: &no_user },
                now,
            );
            let ghost notified_list = notified.effect_list();
            append(&mut out, wrap_notification_effects(notified));
            ctx.status = CtxStatus::Ready;
            let r = Effects { effects: out, has_changed: true };
            assert(reset(old(ctx).notifications, ctx.notifications, ctx.notification_catalogs@, None, notified_list));
            assert(first =~= seq![CtxEffectView::UserLoggedOut(uid_of(profile_view(old(ctx).profile).0))] + match profile_view(old(ctx).profile).0 {
                Some(a) => if !deleted {
                    seq![CtxEffectView::DeleteSession(a.0)]
                } else {
                    Seq::empty()
                },
                None => Seq::empty(),
            });
            r
        },
        CtxMsg::AuthResult { request, result, library_missing, official_addons, default_settings } => {
            let in_progress = match &ctx.status {
                CtxStatus::Loading(l) => str_eq(l.as_str(), request),
                CtxStatus::Ready => false,
            };
            let profile_effects = update_profile(
                &mut ctx.profile,
                &mut ctx.streams,
                &ctx.status,
                ProfileMsg::AuthResult { request, result, official_addons, default_settings },
            );
            let changed = profile_effects.has_changed;
            let mut out = wrap_profile_effects(profile_effects);
            let user_id: Option<&str> = match result {
                Ok((auth, _)) => Some(auth.user_id.as_str()),
                Err(_) => None,
            };
            let streams_effects = update_streams(
                &mut ctx.streams,
                &ctx.status,
                StreamsMsg::AuthResult { request, user_id },
            );
            let streams_changed = streams_effects.has_changed;
            append(&mut out, wrap_streams_effects(streams_effects));
            let user = uid(&ctx.profile);
            let notified = update_notifications(
                &mut ctx.notifications,
                &mut ctx.notification_catalogs,
                library,
                &ctx.status,
                NotificationsMsg::AuthResult { request, succeeded: result.is_ok(), uid: &user },
                now,
            );
            let ghost notified_list = notified.effect_list();
            append(&mut out, wrap_notification_effects(notified));
            let history = update_search_history(
                &mut ctx.search_history,
                &ctx.status,
                SearchHistoryMsg::AuthResult { request, user_id },
                now,
            );
            let history_changed = history.has_changed;
            let ghost history_list = history.effect_list();
            append(&mut out, wrap_history_effects(history));
            if in_progress {
                ctx.status = CtxStatus::Ready;
                append(&mut out, signed_in_events(request, result, library_missing));
            }
            let r = Effects { effects: out, has_changed: changed || streams_changed || history_changed };
            proof {
                if in_progress && result is Ok {
                    assert(history_list.map_values(|e: SearchHistoryEffect| history_effect_view(e)) == seq![
                        None::<Option<Seq<char>>>,
                    ]);
                    let notified = notified_list.drop_last();
                    assert(notified_list =~= notified.push(NotificationsEffect::PullNotifications));
                    assert(reset(
                        old(ctx).notifications,
                        ctx.notifications,
                        ctx.notification_catalogs@,
                        Some(result->Ok_0.0.user_id),
                        notified,
                    ));
                }
            }
            r
        },
        CtxMsg::Profile(m) => {
            let profile_effects = update_profile(&mut ctx.profile, &mut ctx.streams, &ctx.status, m);
            let changed = profile_effects.has_changed;
            Effects { effects: wrap_profile_effects(profile_effects), has_changed: changed }
        },
        CtxMsg::Streams(m) => {
            let streams_effects = update_streams(&mut ctx.streams, &ctx.status, m);
            let changed = streams_effects.has_changed;
            let ghost streams_list = streams_effects.effect_list();
            let r = Effects { effects: wrap_streams_effects(streams_effects), has_changed: changed };
            assert(streams_step(
                old(ctx).streams,
                old(ctx).status,
                m,
                ctx.streams,
                streams_effects_view(streams_list),
                r.has_changed,
            ));
            r
        },
        CtxMsg::SearchHistory(m) => {
            let history = update_search_history(&mut ctx.search_history, &ctx.status, m, now);
            let changed = history.has_changed;
            Effects { effects: wrap_history_effects(history), has_changed: changed }
        },
        CtxMsg::Notifications(m) => {
            let notified = update_notifications(
                &mut ctx.notifications,
                &mut ctx.notification_catalogs,
                library,
                &ctx.status,
                m,
                now,
            );
            let changed = notified.has_changed;
            let ghost notified_list = notified.effect_list();
            let r = Effects { effects: wrap_notification_effects(notified), has_changed: changed };
            assert(notifications_step(
                old(ctx).notifications,
                old(ctx).notification_catalogs,
                library@,
                old(ctx).status,
                m,
                now,
                ctx.notifications,
                ctx.notification_catalogs,
                notified_list,
                r.has_changed,
            ));
            r
        },
    }
}

} // verus!
