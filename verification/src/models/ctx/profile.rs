//! The user's profile: the signed-in account, the installed addons and the
//! settings, and the reducer that installs, removes and upgrades addons,
//! updates the settings, signs out and takes the result of a sign-in.

use vstd::prelude::*;

use crate::models::ctx::{CtxError, OtherError};
use crate::runtime::Effects;
use crate::text::str_eq;
use crate::types::addon::{descriptor_view, same_descriptor, Descriptor, DescriptorView};
use crate::types::json::{Entries, JsonMap};
use crate::types::resource::{Stream, StreamsBucket};

verus! {

/// A signed-in account: the key of the session and the user's id.
#[derive(PartialEq, Eq, Debug)]
pub struct Auth {
    pub key: String,
    pub user_id: String,
}

pub open spec fn auth_view(auth: Auth) -> (Seq<char>, Seq<char>) {
    (auth.key@, auth.user_id@)
}

impl Clone for Auth {
    fn clone(&self) -> (r: Self)
        ensures
            auth_view(r) == auth_view(*self),
    {
        Auth { key: self.key.clone(), user_id: self.user_id.clone() }
    }
}

/// The user's profile: the account (none when signed out), the installed
/// addons in their order, whether the addons are locked (they could not be
/// had from the API), and the settings.
pub struct Profile {
    pub auth: Option<Auth>,
    pub addons: Vec<Descriptor>,
    pub addons_locked: bool,
    pub settings: JsonMap,
}

pub type ProfileView = (Option<(Seq<char>, Seq<char>)>, Seq<DescriptorView>, bool, Entries);

pub open spec fn addons_view(addons: Seq<Descriptor>) -> Seq<DescriptorView> {
    addons.map_values(|d: Descriptor| descriptor_view(d))
}

pub open spec fn optional_auth_view(auth: Option<Auth>) -> Option<(Seq<char>, Seq<char>)> {
    match auth {
        Some(a) => Some(auth_view(a)),
        None => None,
    }
}

/// The profile as plain values.
pub open spec fn profile_view(profile: Profile) -> ProfileView {
    (optional_auth_view(profile.auth), addons_view(profile.addons@), profile.addons_locked, profile.settings@)
}

/// Whether a sign-in is in progress, and which one (by its request).
pub enum CtxStatus {
    Loading(String),
    Ready,
}

/// What is done to an addon.
#[derive(Clone, Copy, PartialEq, Eq, Debug, Structural)]
pub enum AddonAction {
    Install,
    Uninstall,
    Upgrade,
}

/// What the reducer asks for: events for the user interface (an addon was
/// installed, removed or upgraded, or why not; the settings were updated),
/// pushing the addons to the API with the session key, and saving the
/// changed profile.
pub enum ProfileEffect {
    AddonDone(AddonAction, String, String),
    AddonFailed(AddonAction, String, String, OtherError),
    PushAddonsToAPI(String, Vec<Descriptor>),
    SettingsUpdated(JsonMap),
    ProfileChanged,
    PushProfileToStorage,
    DeleteAccount(String, String),
    PushUserToAPI(String, String),
    PullUserFromAPI(String),
    NotLoggedIn(SignedInRequest, Vec<String>),
    UserAddonsLocked(bool),
    AddonsPulledFromAPI(Vec<String>),
    AddonsPullFailed(CtxError),
}

/// A request that needs a signed-in user: deleting the account, pushing
/// the user to the API or pulling it, pushing the addons to the API. Where
/// the user is signed out it fails; the addons' transport URLs come with
/// the failure to push them.
#[derive(Clone, Copy, PartialEq, Eq, Debug, Structural)]
pub enum SignedInRequest {
    DeleteAccount,
    PushUser,
    PullUser,
    PushAddons,
}

/// An effect as plain values: the addon's transport URL and id where it
/// names an addon.
pub enum ProfileEffectView {
    AddonDone(AddonAction, Seq<char>, Seq<char>),
    AddonFailed(AddonAction, Seq<char>, Seq<char>, OtherError),
    PushAddonsToAPI(Seq<char>, Seq<DescriptorView>),
    SettingsUpdated(Entries),
    ProfileChanged,
    PushProfileToStorage,
    DeleteAccount(Seq<char>, Seq<char>),
    PushUserToAPI(Seq<char>, Seq<char>),
    PullUserFromAPI(Seq<char>),
    NotLoggedIn(SignedInRequest, Seq<Seq<char>>),
    UserAddonsLocked(bool),
    AddonsPulledFromAPI(Set<Seq<char>>),
    AddonsPullFailed(CtxError),
}

pub open spec fn effect_view(effect: ProfileEffect) -> ProfileEffectView {
    match effect {
        ProfileEffect::AddonDone(a, url, id) => ProfileEffectView::AddonDone(a, url@, id@),
        ProfileEffect::AddonFailed(a, url, id, e) => ProfileEffectView::AddonFailed(a, url@, id@, e),
        ProfileEffect::PushAddonsToAPI(key, addons) => ProfileEffectView::PushAddonsToAPI(
            key@,
            addons_view(addons@),
        ),
        ProfileEffect::SettingsUpdated(settings) => ProfileEffectView::SettingsUpdated(settings@),
        ProfileEffect::ProfileChanged => ProfileEffectView::ProfileChanged,
        ProfileEffect::PushProfileToStorage => ProfileEffectView::PushProfileToStorage,
        ProfileEffect::DeleteAccount(key, password) => ProfileEffectView::DeleteAccount(key@, password@),
        ProfileEffect::PushUserToAPI(key, user_id) => ProfileEffectView::PushUserToAPI(key@, user_id@),
        ProfileEffect::PullUserFromAPI(key) => ProfileEffectView::PullUserFromAPI(key@),
        ProfileEffect::NotLoggedIn(request, urls) => ProfileEffectView::NotLoggedIn(
            request,
            urls_view(urls@),
        ),
        ProfileEffect::UserAddonsLocked(locked) => ProfileEffectView::UserAddonsLocked(locked),
        ProfileEffect::AddonsPulledFromAPI(urls) => ProfileEffectView::AddonsPulledFromAPI(urls_view(urls@).to_set()),
        ProfileEffect::AddonsPullFailed(e) => ProfileEffectView::AddonsPullFailed(e),
    }
}

/// The texts as plain values.
pub open spec fn urls_view(urls: Seq<String>) -> Seq<Seq<char>> {
    urls.map_values(|u: String| u@)
}

/// The transport URLs of the addons.
pub open spec fn addon_urls(addons: Seq<DescriptorView>) -> Seq<Seq<char>> {
    addons.map_values(|d: DescriptorView| d.3)
}

pub open spec fn effects_view(effects: Seq<ProfileEffect>) -> Seq<ProfileEffectView> {
    effects.map_values(|e: ProfileEffect| effect_view(e))
}

/// What the profile reacts to. Signing out and a finished sign-in reset the
/// settings to the default ones, which come with the message; a finished
/// sign-in without the user's addons falls back to the official ones.
pub enum ProfileMsg<'a> {
    Logout { default_settings: &'a JsonMap },
    InstallAddon(&'a Descriptor),
    UninstallAddon(&'a Descriptor),
    UpgradeAddon(&'a Descriptor),
    UpdateSettings(&'a JsonMap),
    ProfileChanged,
    DeleteAccount(&'a str),
    PushUserToAPI,
    PullUserFromAPI,
    PushAddonsToAPI,
    AddonsAPIResult { auth_key: &'a str, result: &'a Result<Vec<Descriptor>, CtxError> },
    AuthResult {
        request: &'a str,
        result: &'a Result<(Auth, Result<Vec<Descriptor>, CtxError>), CtxError>,
        official_addons: &'a [Descriptor],
        default_settings: &'a JsonMap,
    },
}

/// The position of the first addon with the transport URL, `-1` where there
/// is none.
pub open spec fn url_position(addons: Seq<DescriptorView>, url: Seq<char>) -> int
    decreases addons.len(),
{
    if addons.len() == 0 {
        -1
    } else if addons[0].3 == url {
        0
    } else {
        let p = url_position(addons.drop_first(), url);
        if p < 0 {
            -1
        } else {
            p + 1
        }
    }
}

/// Pushing the addons to the API, where the user is signed in.
pub open spec fn push_effects(auth: Option<(Seq<char>, Seq<char>)>, addons: Seq<DescriptorView>) -> Seq<
    ProfileEffectView,
> {
    match auth {
        Some(a) => seq![ProfileEffectView::PushAddonsToAPI(a.0, addons)],
        None => Seq::empty(),
    }
}

/// The outcome of a step: the new profile, the effects, and whether the
/// profile changed.
pub type Outcome = (ProfileView, Seq<ProfileEffectView>, bool);

pub open spec fn failed(p: ProfileView, action: AddonAction, d: DescriptorView, e: OtherError) -> Outcome {
    (p, seq![ProfileEffectView::AddonFailed(action, d.3, d.0, e)], false)
}

/// The addons changed: the event, the push to the API and the change.
pub open spec fn done(p: ProfileView, action: AddonAction, d: DescriptorView, addons: Seq<DescriptorView>) -> Outcome {
    (
        (p.0, addons, p.2, p.3),
        seq![ProfileEffectView::AddonDone(action, d.3, d.0)] + push_effects(p.0, addons) + seq![
            ProfileEffectView::ProfileChanged,
        ],
        true,
    )
}

/// Installing an addon: refused while the addons are locked, for an addon
/// that is installed as it is, and for one that must be configured first;
/// otherwise it replaces the addon with its transport URL, or comes last.
pub open spec fn spec_install(p: ProfileView, d: DescriptorView) -> Outcome {
    if p.2 {
        failed(p, AddonAction::Install, d, OtherError::UserAddonsAreLocked)
    } else if p.1.contains(d) {
        failed(p, AddonAction::Install, d, OtherError::AddonAlreadyInstalled)
    } else if d.4 {
        failed(p, AddonAction::Install, d, OtherError::AddonConfigurationRequired)
    } else {
        let k = url_position(p.1, d.3);
        done(p, AddonAction::Install, d, if k >= 0 { p.1.update(k, d) } else { p.1.push(d) })
    }
}

/// Removing an addon: refused while the addons are locked, for an addon that
/// is not installed (by its transport URL), and where either the installed
/// or the given one is protected.
pub open spec fn spec_uninstall(p: ProfileView, d: DescriptorView) -> Outcome {
    let k = url_position(p.1, d.3);
    if p.2 {
        failed(p, AddonAction::Uninstall, d, OtherError::UserAddonsAreLocked)
    } else if k < 0 {
        failed(p, AddonAction::Uninstall, d, OtherError::AddonNotInstalled)
    } else if p.1[k].5.protected || d.5.protected {
        failed(p, AddonAction::Uninstall, d, OtherError::AddonIsProtected)
    } else {
        done(p, AddonAction::Uninstall, d, p.1.remove(k))
    }
}

/// Upgrading an addon: refused while the addons are locked, for an addon
/// that is installed as it is, for one that must be configured, for one
/// that is not installed (by its transport URL), and where either is
/// protected; otherwise it takes the place of the installed one.
pub open spec fn spec_upgrade(p: ProfileView, d: DescriptorView) -> Outcome {
    let k = url_position(p.1, d.3);
    if p.2 {
        failed(p, AddonAction::Upgrade, d, OtherError::UserAddonsAreLocked)
    } else if p.1.contains(d) {
        failed(p, AddonAction::Upgrade, d, OtherError::AddonAlreadyInstalled)
    } else if d.4 {
        failed(p, AddonAction::Upgrade, d, OtherError::AddonConfigurationRequired)
    } else if k < 0 {
        failed(p, AddonAction::Upgrade, d, OtherError::AddonNotInstalled)
    } else if d.5.protected || p.1[k].5.protected {
        failed(p, AddonAction::Upgrade, d, OtherError::AddonIsProtected)
    } else {
        done(p, AddonAction::Upgrade, d, p.1.update(k, d))
    }
}

/// The transport URLs that one list of addons has and the other has not.
pub open spec fn changed_urls(prev: Seq<DescriptorView>, next: Seq<DescriptorView>) -> Set<Seq<char>> {
    let p = addon_urls(prev).to_set();
    let n = addon_urls(next).to_set();
    n.difference(p).union(p.difference(n))
}

/// The user's addons as the API gave them for the session `auth_key`:
/// taken only for the signed-in session. The addons are unlocked and
/// become the given ones, and the transport URLs that came or went are
/// told; or they are locked and the error is told.
pub open spec fn spec_addons_result(
    p: ProfileView,
    auth_key: Seq<char>,
    result: Result<Vec<Descriptor>, CtxError>,
) -> Outcome {
    if p.0 matches Some(a) && a.0 == auth_key {
        match result {
            Ok(addons) => {
                let next = addons_view(addons@);
                (
                    (p.0, next, false, p.3),
                    seq![
                        ProfileEffectView::UserAddonsLocked(false),
                        ProfileEffectView::AddonsPulledFromAPI(changed_urls(p.1, next)),
                    ] + if next != p.1 {
                        seq![ProfileEffectView::ProfileChanged]
                    } else {
                        Seq::empty()
                    },
                    next != p.1,
                )
            },
            Err(e) => (
                (p.0, p.1, true, p.3),
                seq![ProfileEffectView::UserAddonsLocked(true), ProfileEffectView::AddonsPullFailed(e)],
                false,
            ),
        }
    } else {
        (p, Seq::empty(), false)
    }
}

/// The profile becomes `next`; a change is reported when it differs.
pub open spec fn replaced(p: ProfileView, next: ProfileView) -> Outcome {
    if next != p {
        (next, seq![ProfileEffectView::ProfileChanged], true)
    } else {
        (p, Seq::empty(), false)
    }
}

/// The step of the profile for a message.
pub open spec fn spec_update_profile(p: ProfileView, status: CtxStatus, msg: ProfileMsg) -> Outcome {
    match msg {
        ProfileMsg::Logout { default_settings } => replaced(p, (None, Seq::empty(), false, default_settings@)),
        ProfileMsg::InstallAddon(d) => spec_install(p, descriptor_view(*d)),
        ProfileMsg::UninstallAddon(d) => spec_uninstall(p, descriptor_view(*d)),
        ProfileMsg::UpgradeAddon(d) => spec_upgrade(p, descriptor_view(*d)),
        ProfileMsg::UpdateSettings(settings) => if p.3 != settings@ {
            (
                (p.0, p.1, p.2, settings@),
                seq![ProfileEffectView::SettingsUpdated(settings@), ProfileEffectView::ProfileChanged],
                true,
            )
        } else {
            (p, seq![ProfileEffectView::SettingsUpdated(settings@)], false)
        },
        ProfileMsg::ProfileChanged => (p, seq![ProfileEffectView::PushProfileToStorage], false),
        ProfileMsg::DeleteAccount(password) => (
            p,
            match p.0 {
                Some(a) => seq![ProfileEffectView::DeleteAccount(a.0, password@)],
                None => seq![ProfileEffectView::NotLoggedIn(SignedInRequest::DeleteAccount, Seq::empty())],
            },
            false,
        ),
        ProfileMsg::PushUserToAPI => (
            p,
            match p.0 {
                Some(a) => seq![ProfileEffectView::PushUserToAPI(a.0, a.1)],
                None => seq![ProfileEffectView::NotLoggedIn(SignedInRequest::PushUser, Seq::empty())],
            },
            false,
        ),
        ProfileMsg::PullUserFromAPI => (
            p,
            match p.0 {
                Some(a) => seq![ProfileEffectView::PullUserFromAPI(a.0)],
                None => seq![ProfileEffectView::NotLoggedIn(SignedInRequest::PullUser, Seq::empty())],
            },
            false,
        ),
        ProfileMsg::AddonsAPIResult { auth_key, result } => spec_addons_result(p, auth_key@, *result),
        ProfileMsg::PushAddonsToAPI => (
            p,
            match p.0 {
                Some(a) => seq![ProfileEffectView::PushAddonsToAPI(a.0, p.1)],
                None => seq![
                    ProfileEffectView::NotLoggedIn(
                        SignedInRequest::PushAddons,
                        addon_urls(p.1),
                    ),
                ],
            },
            false,
        ),
        ProfileMsg::AuthResult { request, result, official_addons, default_settings } => match (
            status,
            *result,
        ) {
            (CtxStatus::Loading(loading), Ok((auth, addons_result))) => if loading@ == request@ {
                replaced(
                    p,
                    (
                        Some(auth_view(auth)),
                        match addons_result {
                            Ok(addons) => addons_view(addons@),
                            Err(_) => addons_view(official_addons@),
                        },
                        addons_result is Err,
                        default_settings@,
                    ),
                )
            } else {
                (p, Seq::empty(), false)
            },
            _ => (p, Seq::empty(), false),
        },
    }
}


/// The transport URLs of the addons, in order.
fn transport_urls(addons: &Vec<Descriptor>) -> (r: Vec<String>)
    ensures
        urls_view(r@) == addon_urls(addons_view(addons@)),
{
    let mut out: Vec<String> = Vec::new();
    let mut i: usize = 0;
    while i < addons.len()
        invariant
            i <= addons.len(),
            out@.len() == i,
            forall|j: int| 0 <= j < i ==> (#[trigger] out@[j])@ == addons@[j].transport_url@,
        decreases addons.len() - i,
    {
        out.push(addons[i].transport_url.clone());
        i = i + 1;
    }
    assert(urls_view(out@) =~= addon_urls(addons_view(addons@)));
    out
}

fn has_url(addons: &Vec<Descriptor>, url: &String) -> (r: bool)
    ensures
        r == addon_urls(addons_view(addons@)).contains(url@),
{
    let ghost urls = addon_urls(addons_view(addons@));
    let mut i: usize = 0;
    while i < addons.len()
        invariant
            i <= addons.len(),
            urls == addon_urls(addons_view(addons@)),
            forall|j: int| 0 <= j < i ==> urls[j] != url@,
        decreases addons.len() - i,
    {
        if str_eq(addons[i].transport_url.as_str(), url.as_str()) {
            assert(urls[i as int] == url@);
            return true;
        }
        i = i + 1;
    }
    false
}

proof fn lemma_push_contains<A>(s: Seq<A>, x: A, u: A)
    ensures
        s.push(x).contains(u) <==> (s.contains(u) || u == x),
{
    if s.contains(u) {
        let k = choose|k: int| 0 <= k < s.len() && s[k] == u;
        assert(s.push(x)[k] == u);
    }
    if u == x {
        assert(s.push(x)[s.len() as int] == x);
    }
    if s.push(x).contains(u) {
        let k = choose|k: int| 0 <= k < s.len() + 1 && s.push(x)[k] == u;
        if k < s.len() {
            assert(s[k] == u);
        }
    }
}

/// Adds to `out` the transport URLs of `from` that `other` lacks.
fn push_missing_urls(out: &mut Vec<String>, from: &Vec<Descriptor>, other: &Vec<Descriptor>)
    ensures
        forall|u: Seq<char>|
            urls_view(final(out)@).contains(u) <==> (urls_view(old(out)@).contains(u) || (addon_urls(
                addons_view(from@),
            ).contains(u) && !addon_urls(addons_view(other@)).contains(u))),
{
    let ghost start = urls_view(out@);
    let ghost f = addon_urls(addons_view(from@));
    let ghost o = addon_urls(addons_view(other@));
    let mut i: usize = 0;
    while i < from.len()
        invariant
            i <= from.len(),
            f == addon_urls(addons_view(from@)),
            o == addon_urls(addons_view(other@)),
            forall|u: Seq<char>|
                urls_view(out@).contains(u) <==> (start.contains(u) || (f.take(i as int).contains(u) && !o.contains(u))),
        decreases from.len() - i,
    {
        let ghost before = urls_view(out@);
        assert(f[i as int] == from@[i as int].transport_url@);
        let missing = !has_url(other, &from[i].transport_url);
        if missing {
            out.push(from[i].transport_url.clone());
            assert(urls_view(out@) =~= before.push(f[i as int]));
        } else {
            assert(urls_view(out@) =~= before);
        }
        assert(f.take(i + 1) =~= f.take(i as int).push(f[i as int]));
        assert forall|u: Seq<char>|
            urls_view(out@).contains(u) <==> (start.contains(u) || (f.take(i + 1).contains(u) && !o.contains(u))) by {
            lemma_push_contains(f.take(i as int), f[i as int], u);
            lemma_push_contains(before, f[i as int], u);
        }
        i = i + 1;
    }
    assert(f.take(from.len() as int) =~= f);
}

/// The transport URLs that came or went, each once.
fn changed_transport_urls(prev: &Vec<Descriptor>, next: &Vec<Descriptor>) -> (r: Vec<String>)
    ensures
        urls_view(r@).to_set() == changed_urls(addons_view(prev@), addons_view(next@)),
{
    let mut out: Vec<String> = Vec::new();
    push_missing_urls(&mut out, next, prev);
    push_missing_urls(&mut out, prev, next);
    assert(urls_view(out@).to_set() =~= changed_urls(addons_view(prev@), addons_view(next@)));
    out
}

fn addons_result(profile: &mut Profile, auth_key: &str, result: &Result<Vec<Descriptor>, CtxError>) -> (r:
    Effects<ProfileEffect>)
    ensures
        (profile_view(*final(profile)), effects_view(r.effect_list()), r.has_changed) == spec_addons_result(
            profile_view(*old(profile)),
            auth_key@,
            *result,
        ),
{
    let current = match &profile.auth {
        Some(auth) => str_eq(auth.key.as_str(), auth_key),
        None => false,
    };
    if !current {
        let r = Effects::none().unchanged();
        assert(effects_view(r.effect_list()) =~= Seq::<ProfileEffectView>::empty());
        return r;
    }
    match result {
        Ok(addons) => {
            profile.addons_locked = false;
            let urls = changed_transport_urls(&profile.addons, addons);
            let same = same_addons(&profile.addons, addons);
            let mut effects: Vec<ProfileEffect> = Vec::new();
            effects.push(ProfileEffect::UserAddonsLocked(false));
            effects.push(ProfileEffect::AddonsPulledFromAPI(urls));
            if !same {
                profile.addons = clone_addons(addons);
                effects.push(ProfileEffect::ProfileChanged);
            }
            let r = Effects { effects, has_changed: !same };
            assert(effects_view(r.effect_list()) =~= spec_addons_result(
                profile_view(*old(profile)),
                auth_key@,
                *result,
            ).1);
            r
        },
        Err(e) => {
            profile.addons_locked = true;
            let mut effects: Vec<ProfileEffect> = Vec::new();
            effects.push(ProfileEffect::UserAddonsLocked(true));
            effects.push(ProfileEffect::AddonsPullFailed(e.clone()));
            let r = Effects { effects, has_changed: false };
            assert(effects_view(r.effect_list()) =~= spec_addons_result(
                profile_view(*old(profile)),
                auth_key@,
                *result,
            ).1);
            r
        },
    }
}

/// The position of the first addon with the transport URL.
fn position_of_url(addons: &Vec<Descriptor>, url: &String) -> (r: Option<usize>)
    ensures
        match r {
            Some(k) => k < addons@.len() && k == url_position(addons_view(addons@), url@),
            None => url_position(addons_view(addons@), url@) == -1,
        },
{
    let ghost v = addons_view(addons@);
    let mut k: usize = 0;
    assert(v.skip(0) =~= v);
    while k < addons.len()
        invariant
            k <= addons.len(),
            v == addons_view(addons@),
            url_position(v, url@) == if url_position(v.skip(k as int), url@) < 0 {
                -1
            } else {
                url_position(v.skip(k as int), url@) + k
            },
        decreases addons.len() - k,
    {
        assert(v.skip(k as int)[0] == descriptor_view(addons@[k as int]));
        if str_eq(addons[k].transport_url.as_str(), url.as_str()) {
            return Some(k);
        }
        assert(v.skip(k as int).drop_first() =~= v.skip(k + 1));
        k = k + 1;
    }
    None
}

/// Whether the addon is installed as it is.
fn has_addon(addons: &Vec<Descriptor>, addon: &Descriptor) -> (r: bool)
    ensures
        r == addons_view(addons@).contains(descriptor_view(*addon)),
{
    let ghost v = addons_view(addons@);
    let mut k: usize = 0;
    while k < addons.len()
        invariant
            k <= addons.len(),
            v == addons_view(addons@),
            forall|q: int| 0 <= q < k ==> v[q] != descriptor_view(*addon),
        decreases addons.len() - k,
    {
        if same_descriptor(&addons[k], addon) {
            assert(v[k as int] == descriptor_view(*addon));
            return true;
        }
        k = k + 1;
    }
    false
}

fn clone_addons(addons: &Vec<Descriptor>) -> (r: Vec<Descriptor>)
    ensures
        addons_view(r@) == addons_view(addons@),
{
    let mut out: Vec<Descriptor> = Vec::new();
    let mut i: usize = 0;
    while i < addons.len()
        invariant
            i <= addons.len(),
            addons_view(out@) == addons_view(addons@.take(i as int)),
        decreases addons.len() - i,
    {
        let ghost before = out@;
        out.push(addons[i].clone());
        assert(addons_view(out@) =~= addons_view(before).push(descriptor_view(addons@[i as int])));
        assert(addons_view(addons@.take(i + 1)) =~= addons_view(addons@.take(i as int)).push(
            descriptor_view(addons@[i as int]),
        ));
        i = i + 1;
    }
    assert(addons@.take(addons.len() as int) =~= addons@);
    out
}

fn failure(action: AddonAction, addon: &Descriptor, error: OtherError) -> (r: Effects<ProfileEffect>)
    ensures
        effects_view(r.effect_list()) == seq![
            ProfileEffectView::AddonFailed(action, addon.transport_url@, addon.manifest.id@, error),
        ],
        !r.has_changed,
{
    let r = Effects::one(
        ProfileEffect::AddonFailed(action, addon.transport_url.clone(), addon.manifest.id.clone(), error),
    ).unchanged();
    assert(effects_view(r.effect_list()) =~= seq![
        ProfileEffectView::AddonFailed(action, addon.transport_url@, addon.manifest.id@, error),
    ]);
    r
}

/// The event of a done action, the push of the addons and the change.
fn success(action: AddonAction, addon: &Descriptor, profile: &Profile) -> (r: Effects<ProfileEffect>)
    ensures
        effects_view(r.effect_list()) == seq![
            ProfileEffectView::AddonDone(action, addon.transport_url@, addon.manifest.id@),
        ] + push_effects(optional_auth_view(profile.auth), addons_view(profile.addons@)) + seq![
            ProfileEffectView::ProfileChanged,
        ],
        r.has_changed,
{
    let event = Effects::one(
        ProfileEffect::AddonDone(action, addon.transport_url.clone(), addon.manifest.id.clone()),
    );
    let push = match &profile.auth {
        Some(auth) => Effects::one(
            ProfileEffect::PushAddonsToAPI(auth.key.clone(), clone_addons(&profile.addons)),
        ).unchanged(),
        None => Effects::none().unchanged(),
    };
    let r = event.join(push).join(Effects::one(ProfileEffect::ProfileChanged));
    assert(effects_view(r.effect_list()) =~= effects_view(event.effect_list()) + effects_view(
        push.effect_list(),
    ) + effects_view(seq![ProfileEffect::ProfileChanged]));
    r
}

fn same_auth(a: &Option<Auth>, b: &Option<Auth>) -> (r: bool)
    ensures
        r == (optional_auth_view(*a) == optional_auth_view(*b)),
{
    match (a, b) {
        (Some(x), Some(y)) => str_eq(x.key.as_str(), y.key.as_str()) && str_eq(
            x.user_id.as_str(),
            y.user_id.as_str(),
        ),
        (None, None) => true,
        _ => false,
    }
}

fn same_addons(a: &Vec<Descriptor>, b: &Vec<Descriptor>) -> (r: bool)
    ensures
        r == (addons_view(a@) == addons_view(b@)),
{
    if a.len() != b.len() {
        proof {
            if addons_view(a@) == addons_view(b@) {
                assert(addons_view(a@).len() == a@.len());
            }
        }
        return false;
    }
    let mut i: usize = 0;
    while i < a.len()
        invariant
            i <= a.len(),
            a.len() == b.len(),
            forall|q: int| 0 <= q < i ==> descriptor_view(a@[q]) == #[trigger] descriptor_view(b@[q]),
        decreases a.len() - i,
    {
        if !same_descriptor(&a[i], &b[i]) {
            proof {
                assert(addons_view(a@)[i as int] != addons_view(b@)[i as int]);
            }
            return false;
        }
        i = i + 1;
    }
    assert(addons_view(a@) =~= addons_view(b@));
    true
}

fn same_profile(a: &Profile, b: &Profile) -> (r: bool)
    ensures
        r == (profile_view(*a) == profile_view(*b)),
{
    same_auth(&a.auth, &b.auth) && same_addons(&a.addons, &b.addons) && a.addons_locked
        == b.addons_locked && a.settings.same_as(&b.settings)
}

/// Replaces the profile, reporting a change where it differs.
fn replace_profile(profile: &mut Profile, next: Profile) -> (r: Effects<ProfileEffect>)
    ensures
        (profile_view(*final(profile)), effects_view(r.effect_list()), r.has_changed) == replaced(
            profile_view(*old(profile)),
            profile_view(next),
        ),
{
    if same_profile(profile, &next) {
        let r = Effects::none().unchanged();
        assert(effects_view(r.effect_list()) =~= Seq::<ProfileEffectView>::empty());
        r
    } else {
        *profile = next;
        let r = Effects::one(ProfileEffect::ProfileChanged);
        assert(effects_view(r.effect_list()) =~= seq![ProfileEffectView::ProfileChanged]);
        r
    }
}

fn copy_addons(addons: &[Descriptor]) -> (r: Vec<Descriptor>)
    ensures
        addons_view(r@) == addons_view(addons@),
{
    let mut out: Vec<Descriptor> = Vec::new();
    let mut i: usize = 0;
    while i < addons.len()
        invariant
            i <= addons.len(),
            addons_view(out@) == addons_view(addons@.take(i as int)),
        decreases addons.len() - i,
    {
        let ghost before = out@;
        out.push(addons[i].clone());
        assert(addons_view(out@) =~= addons_view(before).push(descriptor_view(addons@[i as int])));
        assert(addons_view(addons@.take(i + 1)) =~= addons_view(addons@.take(i as int)).push(
            descriptor_view(addons@[i as int]),
        ));
        i = i + 1;
    }
    assert(addons@.take(addons.len() as int) =~= addons@);
    out
}

fn install_addon(profile: &mut Profile, addon: &Descriptor) -> (r: Effects<ProfileEffect>)
    ensures
        (profile_view(*final(profile)), effects_view(r.effect_list()), r.has_changed) == spec_install(
            profile_view(*old(profile)),
            descriptor_view(*addon),
        ),
{
    if profile.addons_locked {
        return failure(AddonAction::Install, addon, OtherError::UserAddonsAreLocked);
    }
    if has_addon(&profile.addons, addon) {
        return failure(AddonAction::Install, addon, OtherError::AddonAlreadyInstalled);
    }
    if addon.manifest.configuration_required {
        return failure(AddonAction::Install, addon, OtherError::AddonConfigurationRequired);
    }
    let ghost before = addons_view(profile.addons@);
    match position_of_url(&profile.addons, &addon.transport_url) {
        Some(k) => {
            profile.addons.remove(k);
            profile.addons.insert(k, addon.clone());
            assert(addons_view(profile.addons@) =~= before.update(k as int, descriptor_view(*addon)));
        },
        None => {
            profile.addons.push(addon.clone());
            assert(addons_view(profile.addons@) =~= before.push(descriptor_view(*addon)));
        },
    }
    success(AddonAction::Install, addon, profile)
}

fn uninstall_addon(profile: &mut Profile, addon: &Descriptor) -> (r: Effects<ProfileEffect>)
    ensures
        (profile_view(*final(profile)), effects_view(r.effect_list()), r.has_changed) == spec_uninstall(
            profile_view(*old(profile)),
            descriptor_view(*addon),
        ),
{
    if profile.addons_locked {
        return failure(AddonAction::Uninstall, addon, OtherError::UserAddonsAreLocked);
    }
    let ghost before = addons_view(profile.addons@);
    match position_of_url(&profile.addons, &addon.transport_url) {
        Some(k) => {
            assert(before[k as int] == descriptor_view(profile.addons@[k as int]));
            if profile.addons[k].flags.protected || addon.flags.protected {
                return failure(AddonAction::Uninstall, addon, OtherError::AddonIsProtected);
            }
            profile.addons.remove(k);
            assert(addons_view(profile.addons@) =~= before.remove(k as int));
            success(AddonAction::Uninstall, addon, profile)
        },
        None => failure(AddonAction::Uninstall, addon, OtherError::AddonNotInstalled),
    }
}

fn upgrade_addon(profile: &mut Profile, addon: &Descriptor) -> (r: Effects<ProfileEffect>)
    ensures
        (profile_view(*final(profile)), effects_view(r.effect_list()), r.has_changed) == spec_upgrade(
            profile_view(*old(profile)),
            descriptor_view(*addon),
        ),
{
    if profile.addons_locked {
        return failure(AddonAction::Upgrade, addon, OtherError::UserAddonsAreLocked);
    }
    if has_addon(&profile.addons, addon) {
        return failure(AddonAction::Upgrade, addon, OtherError::AddonAlreadyInstalled);
    }
    if addon.manifest.configuration_required {
        return failure(AddonAction::Upgrade, addon, OtherError::AddonConfigurationRequired);
    }
    let ghost before = addons_view(profile.addons@);
    match position_of_url(&profile.addons, &addon.transport_url) {
        Some(k) => {
            assert(before[k as int] == descriptor_view(profile.addons@[k as int]));
            if addon.flags.protected || profile.addons[k].flags.protected {
                return failure(AddonAction::Upgrade, addon, OtherError::AddonIsProtected);
            }
            profile.addons.remove(k);
            profile.addons.insert(k, addon.clone());
            assert(addons_view(profile.addons@) =~= before.update(k as int, descriptor_view(*addon)));
            success(AddonAction::Upgrade, addon, profile)
        },
        None => failure(AddonAction::Upgrade, addon, OtherError::AddonNotInstalled),
    }
}

fn update_settings(profile: &mut Profile, settings: &JsonMap) -> (r: Effects<ProfileEffect>)
    ensures
        (profile_view(*final(profile)), effects_view(r.effect_list()), r.has_changed)
            == spec_update_profile(profile_view(*old(profile)), CtxStatus::Ready, ProfileMsg::UpdateSettings(settings)),
{
    let event = Effects::one(ProfileEffect::SettingsUpdated(settings.duplicate()));
    if !profile.settings.same_as(settings) {
        profile.settings = settings.duplicate();
        let r = event.join(Effects::one(ProfileEffect::ProfileChanged));
        assert(effects_view(r.effect_list()) =~= seq![
            ProfileEffectView::SettingsUpdated(settings@),
            ProfileEffectView::ProfileChanged,
        ]);
        r
    } else {
        let r = event.unchanged();
        assert(effects_view(r.effect_list()) =~= seq![ProfileEffectView::SettingsUpdated(settings@)]);
        r
    }
}

fn sign_out(profile: &mut Profile, default_settings: &JsonMap) -> (r: Effects<ProfileEffect>)
    ensures
        (profile_view(*final(profile)), effects_view(r.effect_list()), r.has_changed) == replaced(
            profile_view(*old(profile)),
            (None, Seq::empty(), false, default_settings@),
        ),
{
    let next = Profile { auth: None, addons: Vec::new(), addons_locked: false, settings: default_settings.duplicate() };
    assert(addons_view(next.addons@) =~= Seq::<DescriptorView>::empty());
    assert(profile_view(next) == (
        None::<(Seq<char>, Seq<char>)>,
        Seq::<DescriptorView>::empty(),
        false,
        default_settings@,
    ));
    replace_profile(profile, next)
}

fn signed_in(
    profile: &mut Profile,
    auth: &Auth,
    addons_result: &Result<Vec<Descriptor>, CtxError>,
    official_addons: &[Descriptor],
    default_settings: &JsonMap,
) -> (r: Effects<ProfileEffect>)
    ensures
        (profile_view(*final(profile)), effects_view(r.effect_list()), r.has_changed) == replaced(
            profile_view(*old(profile)),
            (
                Some(auth_view(*auth)),
                match *addons_result {
                    Ok(addons) => addons_view(addons@),
                    Err(_) => addons_view(official_addons@),
                },
                addons_result is Err,
                default_settings@,
            ),
        ),
{
    let (addons, locked) = match addons_result {
        Ok(addons) => (clone_addons(addons), false),
        Err(_) => (copy_addons(official_addons), true),
    };
    let next = Profile {
        auth: Some(auth.clone()),
        addons,
        addons_locked: locked,
        settings: default_settings.duplicate(),
    };
    replace_profile(profile, next)
}

/// The played streams without those that came from the addon at `url`.
pub open spec fn without_streams_of(items: Seq<(String, String, Stream, String)>, url: Seq<char>) -> Seq<
    (String, String, Stream, String),
>
    decreases items.len(),
{
    if items.len() == 0 {
        Seq::empty()
    } else {
        let rest = without_streams_of(items.drop_last(), url);
        if items.last().3@ == url {
            rest
        } else {
            rest.push(items.last())
        }
    }
}

/// The played streams after a step of the profile: an addon that is
/// uninstalled takes its streams with it.
pub open spec fn streams_after(items: Seq<(String, String, Stream, String)>, p: ProfileView, msg: ProfileMsg) -> Seq<
    (String, String, Stream, String),
> {
    match msg {
        ProfileMsg::UninstallAddon(d) => if spec_uninstall(p, descriptor_view(*d)).2 {
            without_streams_of(items, d.transport_url@)
        } else {
            items
        },
        _ => items,
    }
}

fn prune_streams(streams: &mut StreamsBucket, url: &String)
    ensures
        final(streams).items@ == without_streams_of(old(streams).items@, url@),
        final(streams).uid == old(streams).uid,
{
    let ghost all = streams.items@;
    let mut rest: Vec<(String, String, Stream, String)> = Vec::new();
    std::mem::swap(&mut rest, &mut streams.items);
    let mut kept: Vec<(String, String, Stream, String)> = Vec::new();
    let mut i: usize = 0;
    assert(rest@.len() == rest.len());
    assert(rest@ =~= all.skip(0));
    while rest.len() > 0
        invariant
            i + rest@.len() == all.len(),
            all.len() <= usize::MAX,
            rest@ == all.skip(i as int),
            kept@ == without_streams_of(all.take(i as int), url@),
        decreases rest.len(),
    {
        let item = rest.remove(0);
        assert(item == all[i as int]);
        assert(all.take(i + 1).drop_last() =~= all.take(i as int));
        assert(all.take(i + 1).last() == all[i as int]);
        assert(rest@ =~= all.skip(i + 1));
        if !str_eq(item.3.as_str(), url.as_str()) {
            kept.push(item);
        }
        i = i + 1;
    }
    assert(all.take(all.len() as int) =~= all);
    streams.items = kept;
}

/// The reducer of the profile (see [`spec_update_profile`]): the new
/// profile, the effects and whether the profile changed are those of the
/// step, for every message; an uninstalled addon's played streams are
/// removed (see [`streams_after`]).
pub fn update_profile(profile: &mut Profile, streams: &mut StreamsBucket, status: &CtxStatus, msg: ProfileMsg) -> (r:
    Effects<ProfileEffect>)
    ensures
        (profile_view(*final(profile)), effects_view(r.effect_list()), r.has_changed)
            == spec_update_profile(profile_view(*old(profile)), *status, msg),
        final(streams).items@ == streams_after(old(streams).items@, profile_view(*old(profile)), msg),
        final(streams).uid == old(streams).uid,
{
    proof {
        assert(urls_view(Seq::<String>::empty()) =~= Seq::<Seq<char>>::empty());
    }
    match msg {
        ProfileMsg::Logout { default_settings } => sign_out(profile, default_settings),
        ProfileMsg::InstallAddon(addon) => install_addon(profile, addon),
        ProfileMsg::UninstallAddon(addon) => {
            let r = uninstall_addon(profile, addon);
            if r.has_changed {
                prune_streams(streams, &addon.transport_url);
            }
            r
        },
        ProfileMsg::UpgradeAddon(addon) => upgrade_addon(profile, addon),
        ProfileMsg::UpdateSettings(settings) => update_settings(profile, settings),
        ProfileMsg::ProfileChanged => {
            let r = Effects::one(ProfileEffect::PushProfileToStorage).unchanged();
            assert(effects_view(r.effect_list()) =~= seq![ProfileEffectView::PushProfileToStorage]);
            r
        },
        ProfileMsg::DeleteAccount(password) => {
            let effect = match &profile.auth {
                Some(auth) => ProfileEffect::DeleteAccount(auth.key.clone(), password.to_string()),
                None => ProfileEffect::NotLoggedIn(SignedInRequest::DeleteAccount, Vec::new()),
            };
            let r = Effects::one(effect).unchanged();
            assert(effects_view(r.effect_list()) =~= seq![effect_view(effect)]);
            r
        },
        ProfileMsg::PushUserToAPI => {
            let effect = match &profile.auth {
                Some(auth) => ProfileEffect::PushUserToAPI(auth.key.clone(), auth.user_id.clone()),
                None => ProfileEffect::NotLoggedIn(SignedInRequest::PushUser, Vec::new()),
            };
            let r = Effects::one(effect).unchanged();
            assert(effects_view(r.effect_list()) =~= seq![effect_view(effect)]);
            r
        },
        ProfileMsg::PullUserFromAPI => {
            let effect = match &profile.auth {
                Some(auth) => ProfileEffect::PullUserFromAPI(auth.key.clone()),
                None => ProfileEffect::NotLoggedIn(SignedInRequest::PullUser, Vec::new()),
            };
            let r = Effects::one(effect).unchanged();
            assert(effects_view(r.effect_list()) =~= seq![effect_view(effect)]);
            r
        },
        ProfileMsg::PushAddonsToAPI => {
            let effect = match &profile.auth {
                Some(auth) => ProfileEffect::PushAddonsToAPI(auth.key.clone(), clone_addons(&profile.addons)),
                None => ProfileEffect::NotLoggedIn(SignedInRequest::PushAddons, transport_urls(&profile.addons)),
            };
            let r = Effects::one(effect).unchanged();
            assert(effects_view(r.effect_list()) =~= seq![effect_view(effect)]);
            r
        },
        ProfileMsg::AddonsAPIResult { auth_key, result } => addons_result(profile, auth_key, result),
        ProfileMsg::AuthResult { request, result, official_addons, default_settings } => {
            let matches_request = match status {
                CtxStatus::Loading(loading) => str_eq(loading.as_str(), request),
                CtxStatus::Ready => false,
            };
            match result {
                Ok((auth, addons_result)) => {
                    if matches_request {
                        signed_in(profile, auth, addons_result, official_addons, default_settings)
                    } else {
                        let r = Effects::none().unchanged();
                        assert(effects_view(r.effect_list()) =~= Seq::<ProfileEffectView>::empty());
                        r
                    }
                },
                Err(_) => {
                    let r = Effects::none().unchanged();
                    assert(effects_view(r.effect_list()) =~= Seq::<ProfileEffectView>::empty());
                    r
                },
            }
        },
    }
}


proof fn lemma_url_absent(addons: Seq<DescriptorView>, url: Seq<char>, i: int)
    requires
        url_position(addons, url) == -1,
        0 <= i < addons.len(),
    ensures
        addons[i].3 != url,
    decreases addons.len(),
{
    if i > 0 {
        lemma_url_absent(addons.drop_first(), url, i - 1);
    }
}

proof fn lemma_url_appended(addons: Seq<DescriptorView>, d: DescriptorView)
    requires
        url_position(addons, d.3) == -1,
    ensures
        url_position(addons.push(d), d.3) == addons.len(),
    decreases addons.len(),
{
    if addons.len() > 0 {
        lemma_url_appended(addons.drop_first(), d);
        assert(addons.push(d).drop_first() =~= addons.drop_first().push(d));
    }
}

/// Uninstalling an addon undoes installing it: where the addons are not
/// locked and the addon has a transport URL that no installed addon has,
/// needs no configuration and is not protected, installing it and then
/// uninstalling it gives back the profile.
pub proof fn law_uninstall_undoes_install(p: ProfileView, d: DescriptorView)
    requires
        !p.2,
        !d.4,
        !d.5.protected,
        url_position(p.1, d.3) == -1,
    ensures
        spec_uninstall(spec_install(p, d).0, d).0 == p,
{
    if p.1.contains(d) {
        let i = choose|i: int| 0 <= i < p.1.len() && p.1[i] == d;
        lemma_url_absent(p.1, d.3, i);
    }
    lemma_url_appended(p.1, d);
    let q = spec_install(p, d).0;
    assert(q.1 == p.1.push(d));
    assert(q.1.remove(p.1.len() as int) =~= p.1);
}

} // verus!
