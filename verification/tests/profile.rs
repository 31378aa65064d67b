use stremio_core::types::resource::{Stream, StreamSource, StreamsBucket};
use stremio_core::models::ctx::profile::{
    update_profile, AddonAction, Auth, CtxStatus, Profile, ProfileEffect, ProfileMsg, SignedInRequest,
};
use stremio_core::models::ctx::{CtxError, OtherError};
use stremio_core::types::addon::{Descriptor, DescriptorFlags, Manifest};
use stremio_core::types::api::APIError;
use stremio_core::types::json::{JsonMap, JsonValue};

fn addon(id: &str, url: &str, protected: bool, configuration_required: bool) -> Descriptor {
    Descriptor {
        manifest: Manifest {
            id: id.into(),
            name: id.into(),
            types: vec!["movie".to_string()],
            configuration_required,
            catalogs: vec![],
            addon_catalogs: vec![],
        },
        transport_url: url.into(),
        flags: DescriptorFlags { official: false, protected },
    }
}

fn profile(auth: bool, addons: Vec<Descriptor>, locked: bool) -> Profile {
    Profile {
        auth: if auth { Some(Auth { key: "session".into(), user_id: "user".into() }) } else { None },
        addons,
        addons_locked: locked,
        settings: JsonMap::new(),
    }
}

fn ids(profile: &Profile) -> Vec<&str> {
    profile.addons.iter().map(|a| a.manifest.id.as_str()).collect()
}

fn failed_with(effects: &[ProfileEffect], action: AddonAction, expected: OtherError) -> bool {
    matches!(effects, [ProfileEffect::AddonFailed(a, _, _, e)] if *a == action && *e == expected)
}

#[test]
fn install_appends_a_new_addon_and_pushes_it() {
    let mut p = profile(true, vec![addon("a", "https://a.example/addon", false, false)], false);
    let new = addon("b", "https://b.example/addon", false, false);
    let r = update_profile(&mut p, &mut StreamsBucket::default(), &CtxStatus::Ready, ProfileMsg::InstallAddon(&new));
    assert!(r.has_changed);
    assert_eq!(ids(&p), vec!["a", "b"]);
    assert_eq!(r.effects.len(), 3);
    assert!(matches!(&r.effects[0], ProfileEffect::AddonDone(AddonAction::Install, url, id) if url == "https://b.example/addon" && id == "b"));
    assert!(matches!(&r.effects[1], ProfileEffect::PushAddonsToAPI(key, addons) if key == "session" && addons.len() == 2));
    assert!(matches!(r.effects[2], ProfileEffect::ProfileChanged));
}

#[test]
fn install_replaces_the_addon_with_the_same_url_and_skips_the_push_when_signed_out() {
    let mut p = profile(false, vec![addon("a", "https://a.example/addon", false, false), addon("c", "https://c.example/addon", false, false)], false);
    let new = addon("a2", "https://a.example/addon", false, false);
    let r = update_profile(&mut p, &mut StreamsBucket::default(), &CtxStatus::Ready, ProfileMsg::InstallAddon(&new));
    assert!(r.has_changed);
    assert_eq!(ids(&p), vec!["a2", "c"]);
    assert_eq!(r.effects.len(), 2);
    assert!(matches!(r.effects[1], ProfileEffect::ProfileChanged));
}

#[test]
fn install_is_refused_when_installed_locked_or_to_be_configured() {
    let installed = addon("a", "https://a.example/addon", false, false);
    let mut p = profile(true, vec![installed.clone()], false);
    let r = update_profile(&mut p, &mut StreamsBucket::default(), &CtxStatus::Ready, ProfileMsg::InstallAddon(&installed));
    assert!(!r.has_changed);
    assert!(failed_with(&r.effects, AddonAction::Install, OtherError::AddonAlreadyInstalled));
    let configurable = addon("b", "https://b.example/addon", false, true);
    let r = update_profile(&mut p, &mut StreamsBucket::default(), &CtxStatus::Ready, ProfileMsg::InstallAddon(&configurable));
    assert!(failed_with(&r.effects, AddonAction::Install, OtherError::AddonConfigurationRequired));
    let mut locked = profile(true, vec![], true);
    let r = update_profile(&mut locked, &mut StreamsBucket::default(), &CtxStatus::Ready, ProfileMsg::InstallAddon(&installed));
    assert!(failed_with(&r.effects, AddonAction::Install, OtherError::UserAddonsAreLocked));
    assert!(locked.addons.is_empty());
    assert_eq!(ids(&p), vec!["a"]);
}

#[test]
fn uninstall_removes_by_url_unless_protected_or_missing() {
    let mut p = profile(true, vec![addon("a", "https://a.example/addon", false, false), addon("p", "https://p.example/addon", true, false)], false);
    let other = addon("x", "https://x.example/addon", false, false);
    let r = update_profile(&mut p, &mut StreamsBucket::default(), &CtxStatus::Ready, ProfileMsg::UninstallAddon(&other));
    assert!(failed_with(&r.effects, AddonAction::Uninstall, OtherError::AddonNotInstalled));
    let protected = addon("p", "https://p.example/addon", false, false);
    let r = update_profile(&mut p, &mut StreamsBucket::default(), &CtxStatus::Ready, ProfileMsg::UninstallAddon(&protected));
    assert!(failed_with(&r.effects, AddonAction::Uninstall, OtherError::AddonIsProtected));
    let a = addon("a-any", "https://a.example/addon", false, false);
    let r = update_profile(&mut p, &mut StreamsBucket::default(), &CtxStatus::Ready, ProfileMsg::UninstallAddon(&a));
    assert!(r.has_changed);
    assert_eq!(ids(&p), vec!["p"]);
    assert!(matches!(&r.effects[0], ProfileEffect::AddonDone(AddonAction::Uninstall, _, id) if id == "a-any"));
}

#[test]
fn upgrade_takes_the_place_of_the_installed_addon() {
    let mut p = profile(true, vec![addon("a", "https://a.example/addon", false, false), addon("b", "https://b.example/addon", false, false)], false);
    let newer = addon("a-new", "https://a.example/addon", false, false);
    let r = update_profile(&mut p, &mut StreamsBucket::default(), &CtxStatus::Ready, ProfileMsg::UpgradeAddon(&newer));
    assert!(r.has_changed);
    assert_eq!(ids(&p), vec!["a-new", "b"]);
    let missing = addon("z", "https://z.example/addon", false, false);
    let r = update_profile(&mut p, &mut StreamsBucket::default(), &CtxStatus::Ready, ProfileMsg::UpgradeAddon(&missing));
    assert!(failed_with(&r.effects, AddonAction::Upgrade, OtherError::AddonNotInstalled));
    let r = update_profile(&mut p, &mut StreamsBucket::default(), &CtxStatus::Ready, ProfileMsg::UpgradeAddon(&newer));
    assert!(failed_with(&r.effects, AddonAction::Upgrade, OtherError::AddonAlreadyInstalled));
}

#[test]
fn settings_are_updated_and_reported_only_when_they_change() {
    let mut p = profile(false, vec![], false);
    let mut settings = JsonMap::new();
    settings.insert("interface_language".to_string(), JsonValue::Text("eng".to_string()));
    let r = update_profile(&mut p, &mut StreamsBucket::default(), &CtxStatus::Ready, ProfileMsg::UpdateSettings(&settings));
    assert!(r.has_changed);
    assert_eq!(r.effects.len(), 2);
    assert!(p.settings.same_as(&settings));
    let r = update_profile(&mut p, &mut StreamsBucket::default(), &CtxStatus::Ready, ProfileMsg::UpdateSettings(&settings));
    assert!(!r.has_changed);
    assert!(matches!(r.effects[..], [ProfileEffect::SettingsUpdated(_)]));
}

#[test]
fn logout_resets_the_profile_and_profile_changed_persists_it() {
    let mut p = profile(true, vec![addon("a", "https://a.example/addon", false, false)], true);
    let defaults = JsonMap::new();
    let r = update_profile(&mut p, &mut StreamsBucket::default(), &CtxStatus::Ready, ProfileMsg::Logout { default_settings: &defaults });
    assert!(r.has_changed);
    assert!(p.auth.is_none() && p.addons.is_empty() && !p.addons_locked);
    let r = update_profile(&mut p, &mut StreamsBucket::default(), &CtxStatus::Ready, ProfileMsg::Logout { default_settings: &defaults });
    assert!(!r.has_changed && r.effects.is_empty());
    let r = update_profile(&mut p, &mut StreamsBucket::default(), &CtxStatus::Ready, ProfileMsg::ProfileChanged);
    assert!(!r.has_changed);
    assert!(matches!(r.effects[..], [ProfileEffect::PushProfileToStorage]));
}

#[test]
fn auth_result_signs_in_with_the_user_addons_or_the_official_ones() {
    let official = vec![addon("cinemeta", "https://cinemeta.example/addon", true, false)];
    let defaults = JsonMap::new();
    let auth = Auth { key: "k".into(), user_id: "u".into() };
    let user_addons = vec![addon("mine", "https://mine.example/addon", false, false)];
    let ok: Result<(Auth, Result<Vec<Descriptor>, CtxError>), CtxError> = Ok((auth.clone(), Ok(user_addons)));
    let mut p = profile(false, vec![], false);
    let other_request = CtxStatus::Loading("other".into());
    let r = update_profile(&mut p, &mut StreamsBucket::default(), &other_request, ProfileMsg::AuthResult { request: "login", result: &ok, official_addons: &official, default_settings: &defaults });
    assert!(!r.has_changed && p.auth.is_none());
    let status = CtxStatus::Loading("login".into());
    let r = update_profile(&mut p, &mut StreamsBucket::default(), &status, ProfileMsg::AuthResult { request: "login", result: &ok, official_addons: &official, default_settings: &defaults });
    assert!(r.has_changed);
    assert_eq!(p.auth.as_ref().map(|a| a.key.as_str()), Some("k"));
    assert_eq!(ids(&p), vec!["mine"]);
    assert!(!p.addons_locked);
    let no_addons: Result<(Auth, Result<Vec<Descriptor>, CtxError>), CtxError> =
        Ok((auth, Err(CtxError::API(APIError { message: "down".into(), code: 1 }))));
    let mut q = profile(false, vec![], false);
    let r = update_profile(&mut q, &mut StreamsBucket::default(), &status, ProfileMsg::AuthResult { request: "login", result: &no_addons, official_addons: &official, default_settings: &defaults });
    assert!(r.has_changed);
    assert_eq!(ids(&q), vec!["cinemeta"]);
    assert!(q.addons_locked);
    let failed: Result<(Auth, Result<Vec<Descriptor>, CtxError>), CtxError> = Err(CtxError::Other(OtherError::UserNotLoggedIn));
    let mut s = profile(false, vec![], false);
    let r = update_profile(&mut s, &mut StreamsBucket::default(), &status, ProfileMsg::AuthResult { request: "login", result: &failed, official_addons: &official, default_settings: &defaults });
    assert!(!r.has_changed && s.auth.is_none());
}

#[test]
fn requests_to_the_api_need_a_signed_in_user() {
    let mut signed_in = profile(true, vec![addon("a", "https://a.example/addon", false, false)], false);
    let r = update_profile(&mut signed_in, &mut StreamsBucket::default(), &CtxStatus::Ready, ProfileMsg::DeleteAccount("secret"));
    assert!(matches!(&r.effects[..], [ProfileEffect::DeleteAccount(k, p)] if k == "session" && p == "secret"));
    let r = update_profile(&mut signed_in, &mut StreamsBucket::default(), &CtxStatus::Ready, ProfileMsg::PushUserToAPI);
    assert!(matches!(&r.effects[..], [ProfileEffect::PushUserToAPI(k, u)] if k == "session" && u == "user"));
    let r = update_profile(&mut signed_in, &mut StreamsBucket::default(), &CtxStatus::Ready, ProfileMsg::PullUserFromAPI);
    assert!(matches!(&r.effects[..], [ProfileEffect::PullUserFromAPI(k)] if k == "session"));
    let r = update_profile(&mut signed_in, &mut StreamsBucket::default(), &CtxStatus::Ready, ProfileMsg::PushAddonsToAPI);
    assert!(matches!(&r.effects[..], [ProfileEffect::PushAddonsToAPI(k, a)] if k == "session" && a.len() == 1));
    assert!(!r.has_changed);
    let mut signed_out = profile(false, vec![addon("a", "https://a.example/addon", false, false)], false);
    let r = update_profile(&mut signed_out, &mut StreamsBucket::default(), &CtxStatus::Ready, ProfileMsg::PushAddonsToAPI);
    assert!(matches!(&r.effects[..], [ProfileEffect::NotLoggedIn(SignedInRequest::PushAddons, urls)] if urls == &vec!["https://a.example/addon".to_string()]));
    let r = update_profile(&mut signed_out, &mut StreamsBucket::default(), &CtxStatus::Ready, ProfileMsg::DeleteAccount("secret"));
    assert!(matches!(&r.effects[..], [ProfileEffect::NotLoggedIn(SignedInRequest::DeleteAccount, urls)] if urls.is_empty()));
}

#[test]
fn addons_from_the_api_replace_the_users_and_unlock_them() {
    let mut p = profile(true, vec![addon("a", "https://a.example/addon", false, false), addon("b", "https://b.example/addon", false, false)], true);
    let api: Result<Vec<Descriptor>, CtxError> =
        Ok(vec![addon("b", "https://b.example/addon", false, false), addon("c", "https://c.example/addon", false, false)]);
    let other = update_profile(&mut p, &mut StreamsBucket::default(), &CtxStatus::Ready, ProfileMsg::AddonsAPIResult { auth_key: "old-session", result: &api });
    assert!(other.effects.is_empty() && p.addons_locked);
    let r = update_profile(&mut p, &mut StreamsBucket::default(), &CtxStatus::Ready, ProfileMsg::AddonsAPIResult { auth_key: "session", result: &api });
    assert!(r.has_changed && !p.addons_locked);
    assert_eq!(ids(&p), vec!["b", "c"]);
    assert!(matches!(r.effects[0], ProfileEffect::UserAddonsLocked(false)));
    match &r.effects[1] {
        ProfileEffect::AddonsPulledFromAPI(urls) => {
            let mut urls = urls.clone();
            urls.sort();
            assert_eq!(urls, vec!["https://a.example/addon".to_string(), "https://c.example/addon".to_string()]);
        }
        _ => panic!("the pulled addons are told"),
    }
    assert!(matches!(r.effects[2], ProfileEffect::ProfileChanged));
    let again = update_profile(&mut p, &mut StreamsBucket::default(), &CtxStatus::Ready, ProfileMsg::AddonsAPIResult { auth_key: "session", result: &api });
    assert!(!again.has_changed && again.effects.len() == 2);
    assert!(matches!(&again.effects[1], ProfileEffect::AddonsPulledFromAPI(urls) if urls.is_empty()));
    let failed: Result<Vec<Descriptor>, CtxError> = Err(CtxError::Other(OtherError::UserNotLoggedIn));
    let r = update_profile(&mut p, &mut StreamsBucket::default(), &CtxStatus::Ready, ProfileMsg::AddonsAPIResult { auth_key: "session", result: &failed });
    assert!(!r.has_changed && p.addons_locked);
    assert!(matches!(r.effects[..], [ProfileEffect::UserAddonsLocked(true), ProfileEffect::AddonsPullFailed(_)]));
    assert_eq!(ids(&p), vec!["b", "c"]);
}

#[test]
fn uninstalling_undoes_installing() {
    let mut p = profile(true, vec![addon("a", "https://a.example/addon", false, false)], false);
    let new = addon("n", "https://n.example/addon", false, false);
    update_profile(&mut p, &mut StreamsBucket::default(), &CtxStatus::Ready, ProfileMsg::InstallAddon(&new));
    assert_eq!(ids(&p), vec!["a", "n"]);
    update_profile(&mut p, &mut StreamsBucket::default(), &CtxStatus::Ready, ProfileMsg::UninstallAddon(&new));
    assert_eq!(ids(&p), vec!["a"]);
    assert!(p.auth.is_some() && !p.addons_locked);
}

fn played(meta: &str, addon_url: &str) -> (String, String, Stream, String) {
    (
        meta.to_string(),
        format!("{meta}:1:1"),
        Stream { source: StreamSource::Url { url: "https://video.example/v.mp4".into() }, name: None, description: None },
        addon_url.to_string(),
    )
}

#[test]
fn uninstalling_an_addon_forgets_its_played_streams() {
    let mut p = profile(true, vec![addon("a", "https://a.example/addon", false, false), addon("p", "https://p.example/addon", true, false)], false);
    let mut streams = StreamsBucket {
        uid: None,
        items: vec![played("m1", "https://a.example/addon"), played("m2", "https://p.example/addon"), played("m3", "https://a.example/addon")],
    };
    let protected = addon("p", "https://p.example/addon", false, false);
    update_profile(&mut p, &mut streams, &CtxStatus::Ready, ProfileMsg::UninstallAddon(&protected));
    assert_eq!(streams.items.len(), 3);
    let a = addon("a", "https://a.example/addon", false, false);
    update_profile(&mut p, &mut streams, &CtxStatus::Ready, ProfileMsg::UninstallAddon(&a));
    let metas: Vec<&str> = streams.items.iter().map(|s| s.0.as_str()).collect();
    assert_eq!(metas, vec!["m2"]);
}
