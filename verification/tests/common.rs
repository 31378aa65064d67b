use std::cmp::Ordering;

use stremio_core::models::common::compare_with_priorities;
use stremio_core::models::common::resource_loadable::{
    resource_update, resources_update, resources_update_with_vector_content, ResourceAction,
    ResourceError, ResourceLoadable, ResourcesAction,
};
use stremio_core::models::common::Loadable;
use stremio_core::models::ctx::error::{CtxError, OtherError};
use stremio_core::runtime::environment;
use stremio_core::runtime::EnvError;
use stremio_core::types::addon::{ResourcePath, ResourceRequest};
use stremio_core::types::api::APIError;

fn request(base: &str, id: &str) -> ResourceRequest {
    ResourceRequest {
        base: base.to_string(),
        path: ResourcePath {
            resource: "meta".to_string(),
            content_type: "movie".to_string(),
            id: id.to_string(),
            extra: vec![],
        },
    }
}

#[test]
fn compare_with_priorities_documented_example() {
    let priorities = vec![("movie".to_string(), 4), ("series".to_string(), 3)];
    assert_eq!(Ordering::Greater, compare_with_priorities("movie", "series", &priorities));
    assert_eq!(Ordering::Less, compare_with_priorities("series", "movie", &priorities));
    assert_eq!(Ordering::Equal, compare_with_priorities("movie", "movie", &priorities));
}

#[test]
fn compare_with_priorities_unprioritized_and_minimum() {
    let priorities = vec![("movie".to_string(), 4), ("other".to_string(), i32::MIN)];
    assert_eq!(Ordering::Greater, compare_with_priorities("movie", "tv", &priorities));
    assert_eq!(Ordering::Less, compare_with_priorities("tv", "movie", &priorities));
    assert_eq!(Ordering::Less, compare_with_priorities("other", "tv", &priorities));
    assert_eq!(Ordering::Greater, compare_with_priorities("tv", "other", &priorities));
    // without priorities, in reverse alphabetical order
    assert_eq!(Ordering::Greater, compare_with_priorities("a", "b", &priorities));
    // the last pair for a key wins
    let repeated = vec![("movie".to_string(), 1), ("movie".to_string(), 9), ("series".to_string(), 5)];
    assert_eq!(Ordering::Greater, compare_with_priorities("movie", "series", &repeated));
}

#[test]
fn loadable_accessors_and_maps() {
    let ready: Loadable<u32, String> = Loadable::Ready(3);
    let err: Loadable<u32, String> = Loadable::Error("e".to_string());
    let loading: Loadable<u32, String> = Loadable::default();
    assert!(ready.is_ready() && !ready.is_err() && !ready.is_loading());
    assert!(err.is_err() && loading.is_loading());
    assert_eq!(ready.ready(), Some(&3));
    assert_eq!(err.err(), Some(&"e".to_string()));
    assert_eq!(loading.ready(), None);
    assert_eq!(ready.clone().map(|x| x + 1), Loadable::Ready(4));
    assert_eq!(err.clone().map_ready(|x| x + 1), Loadable::Error("e".to_string()));
    assert_eq!(ready.as_ref(), Loadable::Ready(&3));
    assert_eq!(ready.expect("ready"), 3);
    assert_eq!(err.expect_err("err"), "e".to_string());
    loading.expect_loading("loading");
    let from_ok: Loadable<u32, String> = Loadable::from(Ok(1));
    let from_err: Loadable<u32, String> = Loadable::from(Err("x".to_string()));
    assert_eq!(from_ok, Loadable::Ready(1));
    assert_eq!(from_err, Loadable::Error("x".to_string()));
}

#[test]
fn resource_update_requests_then_takes_the_answer() {
    let first = request("https://a", "tt1");
    let mut resource: ResourceLoadable<u32> = ResourceLoadable { request: first.clone(), content: None };
    let effects = resource_update(&mut resource, ResourceAction::ResourceRequested { request: &first });
    assert!(effects.has_changed);
    assert_eq!(effects.into_effects(), vec![first.clone()]);
    assert_eq!(resource.content, Some(Loadable::Loading));
    // asking again for the same request while loading changes nothing
    let again = resource_update(&mut resource, ResourceAction::ResourceRequested { request: &first });
    assert!(!again.has_changed && again.is_empty());
    let effects = resource_update(
        &mut resource,
        ResourceAction::ResourceRequestResult { request: &first, result: Ok(Ok(7)) },
    );
    assert!(effects.has_changed);
    assert_eq!(resource.content, Some(Loadable::Ready(7)));
    // a second answer is not taken
    let late = resource_update(
        &mut resource,
        ResourceAction::ResourceRequestResult { request: &first, result: Ok(Ok(8)) },
    );
    assert!(!late.has_changed);
    assert_eq!(resource.content, Some(Loadable::Ready(7)));
}

#[test]
fn resources_update_answers_and_errors() {
    let a = request("https://a", "tt1");
    let b = request("https://b", "tt1");
    let mut resources: Vec<ResourceLoadable<Vec<u32>>> = vec![];
    let effects = resources_update_with_vector_content(
        &mut resources,
        ResourcesAction::ResourcesRequested { requests: &[a.clone(), b.clone()] },
    );
    assert!(effects.has_changed);
    assert_eq!(effects.into_effects(), vec![a.clone(), b.clone()]);
    assert_eq!(resources.len(), 2);
    let answered = resources_update_with_vector_content(
        &mut resources,
        ResourcesAction::ResourceRequestResult { request: &a, result: Ok(Ok(vec![])) },
    );
    assert!(answered.has_changed);
    assert_eq!(resources[0].content, Some(Loadable::Error(ResourceError::EmptyContent)));
    let failed = resources_update_with_vector_content(
        &mut resources,
        ResourcesAction::ResourceRequestResult {
            request: &b,
            result: Err(EnvError::Fetch("offline".to_string())),
        },
    );
    assert!(failed.has_changed);
    assert_eq!(
        resources[1].content,
        Some(Loadable::Error(ResourceError::Env(EnvError::Fetch("offline".to_string()))))
    );

    let mut single: Vec<ResourceLoadable<u32>> = vec![];
    resources_update(&mut single, ResourcesAction::ResourcesRequested { requests: &[a.clone()] });
    resources_update(
        &mut single,
        ResourcesAction::ResourceRequestResult { request: &a, result: Ok(Err("bad".to_string())) },
    );
    assert_eq!(
        single[0].content,
        Some(Loadable::Error(ResourceError::UnexpectedResponse("bad".to_string())))
    );
}

#[test]
fn error_texts_and_codes() {
    assert_eq!(ResourceError::EmptyContent.to_display_string(), "EmptyContent");
    assert_eq!(
        ResourceError::UnexpectedResponse("x".to_string()).to_display_string(),
        "UnexpectedResponse: x"
    );
    assert_eq!(
        ResourceError::Env(EnvError::Fetch("down".to_string())).to_display_string(),
        "Env: Failed to fetch: down"
    );
    let downgrade = EnvError::StorageSchemaVersionDowngrade(9, 7);
    assert_eq!(downgrade.message(), "Downgrade storage schema version from 9 to 7 is not allowed");
    assert_eq!(downgrade.code(), 5);
    assert_eq!(EnvError::Other("x".to_string()).code(), 1001);
    assert_eq!(
        EnvError::StorageSchemaVersionUpgrade(Box::new(EnvError::StorageUnavailable)).message(),
        "Upgrade storage schema version failed caused by: Storage is not available"
    );
    assert_eq!(OtherError::UserNotLoggedIn.message(), "User is not logged in");
    assert_eq!(OtherError::UserLibraryIsMissing.code(), 8);
    let api = APIError { message: "m".to_string(), code: 3 };
    assert_eq!(CtxError::from(api.clone()), CtxError::API(api));
    assert_eq!(CtxError::from(OtherError::AddonIsProtected), CtxError::Other(OtherError::AddonIsProtected));
    assert_eq!(
        environment::EnvError::StorageSchemaVersionDowngrade(3, 1).message(),
        "Downgrade storage schema version from 3 to 1 is not allowed."
    );
    assert_eq!(environment::EnvError::Serde("s".to_string()).code(), 5);
}
