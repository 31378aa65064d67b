use vstd::prelude::*;
use vstd::string::StringExecFns;

use crate::models::common::eq_update::eq_update;
use crate::models::common::loadable::Loadable;
use crate::runtime::env::env_error_message;
use crate::runtime::{Effects, EnvError};
use crate::types::addon::{ResourceRequest, ResourceRequestView};

verus! {

/// Why a resource could not be loaded.
#[derive(PartialEq, Debug)]
pub enum ResourceError {
    EmptyContent,
    UnexpectedResponse(String),
    Env(EnvError),
}

impl Clone for ResourceError {
    fn clone(&self) -> (r: Self)
        ensures
            r == *self,
    {
        match self {
            ResourceError::EmptyContent => ResourceError::EmptyContent,
            ResourceError::UnexpectedResponse(message) => ResourceError::UnexpectedResponse(
                message.clone(),
            ),
            ResourceError::Env(error) => ResourceError::Env(error.duplicate()),
        }
    }
}

/// The text shown for a resource error.
pub open spec fn resource_error_text(error: ResourceError) -> Seq<char> {
    match error {
        ResourceError::EmptyContent => "EmptyContent"@,
        ResourceError::UnexpectedResponse(message) => "UnexpectedResponse: "@ + message@,
        ResourceError::Env(error) => "Env: "@ + env_error_message(error),
    }
}

impl ResourceError {
    /// The text shown for the error.
    pub fn to_display_string(&self) -> (r: String)
        ensures
            r@ == resource_error_text(*self),
    {
        match self {
            ResourceError::EmptyContent => String::from_str("EmptyContent"),
            ResourceError::UnexpectedResponse(message) => {
                let mut s = String::from_str("UnexpectedResponse: ");
                s.append(message.as_str());
                s
            },
            ResourceError::Env(error) => {
                let mut s = String::from_str("Env: ");
                let m = error.message();
                s.append(m.as_str());
                s
            },
        }
    }
}

/// A resource request together with the state of its content; no content
/// means that nothing was requested yet.
#[derive(PartialEq, Debug)]
pub struct ResourceLoadable<T> {
    pub request: ResourceRequest,
    pub content: Option<Loadable<T, ResourceError>>,
}

/// What happened to a single resource: it was requested, or the answer to
/// a request arrived (as the content converted from the response, or the
/// conversion's error message, or the environment's error).
pub enum ResourceAction<'a, T> {
    ResourceRequested { request: &'a ResourceRequest },
    ResourceRequestResult {
        request: &'a ResourceRequest,
        result: Result<Result<T, String>, EnvError>,
    },
}

/// What happened to a list of resources: the requests that an aggregated
/// request plans were made, or the answer to one request arrived.
pub enum ResourcesAction<'a, T> {
    ResourcesRequested { requests: &'a [ResourceRequest] },
    ResourceRequestResult {
        request: &'a ResourceRequest,
        result: Result<Result<T, String>, EnvError>,
    },
}

/// The content that a finished request gives.
pub open spec fn content_of_result<T>(result: Result<Result<T, String>, EnvError>) -> Loadable<
    T,
    ResourceError,
> {
    match result {
        Ok(Ok(content)) => Loadable::Ready(content),
        Ok(Err(message)) => Loadable::Error(ResourceError::UnexpectedResponse(message)),
        Err(error) => Loadable::Error(ResourceError::Env(error)),
    }
}

/// The content that a finished request for a list gives: an empty list is
/// an error.
pub open spec fn vector_content_of_result<T>(result: Result<Result<Vec<T>, String>, EnvError>) -> Loadable<
    Vec<T>,
    ResourceError,
> {
    match result {
        Ok(Ok(content)) => if content@.len() == 0 {
            Loadable::Error(ResourceError::EmptyContent)
        } else {
            Loadable::Ready(content)
        },
        Ok(Err(message)) => Loadable::Error(ResourceError::UnexpectedResponse(message)),
        Err(error) => Loadable::Error(ResourceError::Env(error)),
    }
}

pub open spec fn requests_of(effects: Seq<ResourceRequest>) -> Seq<ResourceRequestView> {
    effects.map_values(|r: ResourceRequest| r@)
}

/// The content of a finished request.
pub fn resource_content_from_result<T>(result: Result<Result<T, String>, EnvError>) -> (r: Loadable<
    T,
    ResourceError,
>)
    ensures
        r == content_of_result(result),
{
    match result {
        Ok(Ok(content)) => Loadable::Ready(content),
        Ok(Err(message)) => Loadable::Error(ResourceError::UnexpectedResponse(message)),
        Err(error) => Loadable::Error(ResourceError::Env(error)),
    }
}

/// The content of a finished request for a list.
pub fn resource_vector_content_from_result<T>(
    result: Result<Result<Vec<T>, String>, EnvError>,
) -> (r: Loadable<Vec<T>, ResourceError>)
    ensures
        r == vector_content_of_result(result),
{
    match result {
        Ok(Ok(content)) => if content.len() == 0 {
            Loadable::Error(ResourceError::EmptyContent)
        } else {
            Loadable::Ready(content)
        },
        Ok(Err(message)) => Loadable::Error(ResourceError::UnexpectedResponse(message)),
        Err(error) => Loadable::Error(ResourceError::Env(error)),
    }
}

/// Whether the content is still loading.
pub open spec fn is_loading_content<T>(content: Option<Loadable<T, ResourceError>>) -> bool {
    content matches Some(Loadable::Loading)
}

/// A request is taken over by a resource that holds another request or has
/// no content yet.
pub open spec fn takes_request<T>(resource: ResourceLoadable<T>, request: ResourceRequestView) -> bool {
    !(resource.request@ == request) || resource.content is None
}

/// An answer is taken by a resource that holds its request and is loading.
pub open spec fn accepts_result<T>(resource: ResourceLoadable<T>, request: ResourceRequestView) -> bool {
    resource.request@ == request && is_loading_content(resource.content)
}

fn loading<T>(content: &Option<Loadable<T, ResourceError>>) -> (r: bool)
    ensures
        r == is_loading_content(*content),
{
    matches!(content, Some(Loadable::Loading))
}

/// The reducer of a single resource.
///
/// A request for another resource, or the first request, is taken over: the
/// content becomes loading and the request is to be fetched. An answer to
/// the current request, while it is loading, becomes the content. Anything
/// else leaves the resource unchanged.
pub fn resource_update<T>(resource: &mut ResourceLoadable<T>, action: ResourceAction<T>) -> (r:
    Effects<ResourceRequest>)
    ensures
        match action {
            ResourceAction::ResourceRequested { request } => if takes_request(*old(resource), request@) {
                &&& final(resource).request@ == request@
                &&& final(resource).content == Some(Loadable::<T, ResourceError>::Loading)
                &&& requests_of(r.effect_list()) == seq![request@]
                &&& r.has_changed
            } else {
                &&& *final(resource) == *old(resource)
                &&& r.effect_list().len() == 0
                &&& !r.has_changed
            },
            ResourceAction::ResourceRequestResult { request, result } => if accepts_result(*old(resource), request@) {
                &&& final(resource).request == old(resource).request
                &&& final(resource).content == Some(content_of_result(result))
                &&& r.effect_list().len() == 0
                &&& r.has_changed
            } else {
                &&& *final(resource) == *old(resource)
                &&& r.effect_list().len() == 0
                &&& !r.has_changed
            },
        },
{
    match action {
        ResourceAction::ResourceRequested { request } => {
            if !resource.request.same_as(request) || resource.content.is_none() {
                resource.request = request.duplicate();
                resource.content = Some(Loadable::Loading);
                let effects = Effects::one(request.duplicate());
                assert(requests_of(effects.effect_list()) =~= seq![request@]);
                effects
            } else {
                Effects::none().unchanged()
            }
        },
        ResourceAction::ResourceRequestResult { request, result } => {
            if resource.request.same_as(request) && loading(&resource.content) {
                resource.content = Some(resource_content_from_result(result));
                Effects::none()
            } else {
                Effects::none().unchanged()
            }
        },
    }
}

/// The reducer of a single resource whose content is a list: as
/// [`resource_update`], except that an empty list is an error.
pub fn resource_update_with_vector_content<T>(
    resource: &mut ResourceLoadable<Vec<T>>,
    action: ResourceAction<Vec<T>>,
) -> (r: Effects<ResourceRequest>)
    ensures
        match action {
            ResourceAction::ResourceRequested { request } => if takes_request(*old(resource), request@) {
                &&& final(resource).request@ == request@
                &&& final(resource).content == Some(Loadable::<Vec<T>, ResourceError>::Loading)
                &&& requests_of(r.effect_list()) == seq![request@]
                &&& r.has_changed
            } else {
                &&& *final(resource) == *old(resource)
                &&& r.effect_list().len() == 0
                &&& !r.has_changed
            },
            ResourceAction::ResourceRequestResult { request, result } => if accepts_result(*old(resource), request@) {
                &&& final(resource).request == old(resource).request
                &&& final(resource).content == Some(vector_content_of_result(result))
                &&& r.effect_list().len() == 0
                &&& r.has_changed
            } else {
                &&& *final(resource) == *old(resource)
                &&& r.effect_list().len() == 0
                &&& !r.has_changed
            },
        },
{
    match action {
        ResourceAction::ResourceRequestResult { request, result } => {
            if resource.request.same_as(request) && loading(&resource.content) {
                resource.content = Some(resource_vector_content_from_result(result));
                Effects::none()
            } else {
                Effects::none().unchanged()
            }
        },
        ResourceAction::ResourceRequested { request } => resource_update(
            resource,
            ResourceAction::ResourceRequested { request },
        ),
    }
}

/// Once a resource has taken a request, asking for the same request again
/// changes nothing, and the answer to that request is taken.
pub proof fn law_request_then_answer<T>(
    resource: ResourceLoadable<T>,
    request: ResourceRequestView,
)
    requires
        resource.request@ == request,
        resource.content == Some(Loadable::<T, ResourceError>::Loading),
    ensures
        !takes_request(resource, request),
        accepts_result(resource, request),
{
}

/// Once an answer has been taken, a second answer to the same request is
/// not taken: the first answer stays.
pub proof fn law_answer_taken_once<T>(
    resource: ResourceLoadable<T>,
    request: ResourceRequestView,
    result: Result<Result<T, String>, EnvError>,
)
    requires
        resource.content == Some(content_of_result(result)),
    ensures
        !accepts_result(resource, request),
{
}

// ---------------------------------------------------------------------------
// Lists of resources
// ---------------------------------------------------------------------------

/// The first resource that takes an answer to `request`, if any.
pub open spec fn first_accepting<T>(resources: Seq<ResourceLoadable<T>>, request: ResourceRequestView) -> Option<
    int,
>
    decreases resources.len(),
{
    if resources.len() == 0 {
        None
    } else {
        match first_accepting(resources.drop_last(), request) {
            Some(i) => Some(i),
            None => if accepts_result(resources.last(), request) {
                Some(resources.len() - 1)
            } else {
                None
            },
        }
    }
}

/// The first resource that already holds `request` with some content, if
/// any; it is reused when the request is planned again.
pub open spec fn first_reusable<T>(resources: Seq<ResourceLoadable<T>>, request: ResourceRequestView) -> Option<
    int,
>
    decreases resources.len(),
{
    if resources.len() == 0 {
        None
    } else {
        match first_reusable(resources.drop_last(), request) {
            Some(i) => Some(i),
            None => if resources.last().request@ == request && resources.last().content is Some {
                Some(resources.len() - 1)
            } else {
                None
            },
        }
    }
}

/// `b` is a copy of the content `a`, ready content copied by its `clone`.
pub open spec fn content_cloned<T: Clone>(
    a: Option<Loadable<T, ResourceError>>,
    b: Option<Loadable<T, ResourceError>>,
) -> bool {
    match (a, b) {
        (None, None) => true,
        (Some(Loadable::Loading), Some(Loadable::Loading)) => true,
        (Some(Loadable::Ready(x)), Some(Loadable::Ready(y))) => cloned::<T>(x, y),
        (Some(Loadable::Error(x)), Some(Loadable::Error(y))) => x == y,
        _ => false,
    }
}

/// The planned requests that no resource can serve yet, in order: these
/// are fetched.
pub open spec fn planned_fetches<T>(
    resources: Seq<ResourceLoadable<T>>,
    planned: Seq<ResourceRequest>,
) -> Seq<ResourceRequestView>
    decreases planned.len(),
{
    if planned.len() == 0 {
        Seq::empty()
    } else {
        planned_fetches(resources, planned.drop_last()) + if first_reusable(
            resources,
            planned.last()@,
        ) is None {
            seq![planned.last()@]
        } else {
            Seq::empty()
        }
    }
}

/// `next` holds one resource per planned request, in order: a copy of the
/// reusable resource where there is one, a loading one otherwise.
pub open spec fn planned_resources<T: Clone>(
    resources: Seq<ResourceLoadable<T>>,
    planned: Seq<ResourceRequest>,
    next: Seq<ResourceLoadable<T>>,
) -> bool {
    &&& next.len() == planned.len()
    &&& forall|k: int|
        0 <= k < planned.len() ==> {
            &&& (#[trigger] next[k]).request@ == planned[k]@
            &&& match first_reusable(resources, planned[k]@) {
                Some(j) => content_cloned(resources[j].content, next[k].content),
                None => next[k].content == Some(Loadable::<T, ResourceError>::Loading),
            }
        }
}

proof fn lemma_first_reusable_bounds<T>(resources: Seq<ResourceLoadable<T>>, request: ResourceRequestView)
    ensures
        first_reusable(resources, request) matches Some(j) ==> 0 <= j < resources.len()
            && resources[j].request@ == request && resources[j].content is Some,
        first_reusable(resources, request) is None ==> forall|j: int|
            0 <= j < resources.len() ==> !(#[trigger] resources[j].request@ == request
                && resources[j].content is Some),
    decreases resources.len(),
{
    if resources.len() > 0 {
        lemma_first_reusable_bounds(resources.drop_last(), request);
        assert forall|j: int| 0 <= j < resources.len() - 1 implies resources[j] == resources.drop_last()[j] by {}
    }
}

pub(crate) fn find_reusable<T>(resources: &Vec<ResourceLoadable<T>>, request: &ResourceRequest) -> (r: Option<usize>)
    ensures
        r matches Some(j) ==> first_reusable(resources@, request@) == Some(j as int),
        r is None ==> first_reusable(resources@, request@) is None,
{
    let mut i: usize = 0;
    while i < resources.len()
        invariant
            i <= resources.len(),
            first_reusable(resources@.take(i as int), request@) is None,
        decreases resources.len() - i,
    {
        assert(resources@.take(i + 1).drop_last() =~= resources@.take(i as int));
        if resources[i].request.same_as(request) && resources[i].content.is_some() {
            proof {
                lemma_first_reusable_prefix(resources@, request@, (i + 1) as int);
            }
            return Some(i);
        }
        i = i + 1;
    }
    assert(resources@.take(resources.len() as int) =~= resources@);
    None
}

proof fn lemma_first_reusable_prefix<T>(
    resources: Seq<ResourceLoadable<T>>,
    request: ResourceRequestView,
    n: int,
)
    requires
        0 < n <= resources.len(),
        first_reusable(resources.take(n), request) == Some(n - 1),
    ensures
        first_reusable(resources, request) == Some(n - 1),
    decreases resources.len(),
{
    if resources.len() > n {
        assert(resources.drop_last().take(n) =~= resources.take(n));
        lemma_first_reusable_prefix(resources.drop_last(), request, n);
    } else {
        assert(resources.take(n) =~= resources);
    }
}

pub(crate) fn clone_resource<T: Clone>(resource: &ResourceLoadable<T>) -> (r: ResourceLoadable<T>)
    ensures
        r.request@ == resource.request@,
        content_cloned(resource.content, r.content),
{
    let content = match &resource.content {
        None => None,
        Some(Loadable::Loading) => Some(Loadable::Loading),
        Some(Loadable::Ready(x)) => Some(Loadable::Ready(x.clone())),
        Some(Loadable::Error(e)) => Some(Loadable::Error(e.clone())),
    };
    ResourceLoadable { request: resource.request.duplicate(), content }
}

fn find_accepting<T>(resources: &Vec<ResourceLoadable<T>>, request: &ResourceRequest) -> (r: Option<usize>)
    ensures
        r matches Some(i) ==> first_accepting(resources@, request@) == Some(i as int) && i
            < resources.len(),
        r is None ==> first_accepting(resources@, request@) is None,
{
    let mut i: usize = 0;
    while i < resources.len()
        invariant
            i <= resources.len(),
            first_accepting(resources@.take(i as int), request@) is None,
        decreases resources.len() - i,
    {
        assert(resources@.take(i + 1).drop_last() =~= resources@.take(i as int));
        if resources[i].request.same_as(request) && loading(&resources[i].content) {
            proof {
                lemma_first_accepting_prefix(resources@, request@, (i + 1) as int);
            }
            return Some(i);
        }
        i = i + 1;
    }
    assert(resources@.take(resources.len() as int) =~= resources@);
    None
}

proof fn lemma_first_accepting_prefix<T>(
    resources: Seq<ResourceLoadable<T>>,
    request: ResourceRequestView,
    n: int,
)
    requires
        0 < n <= resources.len(),
        first_accepting(resources.take(n), request) == Some(n - 1),
    ensures
        first_accepting(resources, request) == Some(n - 1),
    decreases resources.len(),
{
    if resources.len() > n {
        assert(resources.drop_last().take(n) =~= resources.take(n));
        lemma_first_accepting_prefix(resources.drop_last(), request, n);
    } else {
        assert(resources.take(n) =~= resources);
    }
}

/// What a list of resources becomes when the answer to `request` arrives:
/// the first resource that takes it gets the content.
pub open spec fn answered<T>(
    resources: Seq<ResourceLoadable<T>>,
    request: ResourceRequestView,
    content: Loadable<T, ResourceError>,
    next: Seq<ResourceLoadable<T>>,
) -> bool {
    match first_accepting(resources, request) {
        Some(i) => next.len() == resources.len() && next[i].request == resources[i].request
            && next[i].content == Some(content) && forall|j: int|
            0 <= j < resources.len() && j != i ==> next[j] == resources[j],
        None => next == resources,
    }
}

fn requested_resources<T: Clone + PartialEq>(
    resources: &mut Vec<ResourceLoadable<T>>,
    planned: &[ResourceRequest],
) -> (r: Effects<ResourceRequest>)
    ensures
        requests_of(r.effect_list()) == planned_fetches(old(resources)@, planned@),
        r.has_changed ==> planned_resources(old(resources)@, planned@, final(resources)@),
        !r.has_changed ==> final(resources)@ == old(resources)@,
{
    let mut next: Vec<ResourceLoadable<T>> = Vec::new();
    let mut fetches: Vec<ResourceRequest> = Vec::new();
    let mut k: usize = 0;
    while k < planned.len()
        invariant
            k <= planned.len(),
            next@.len() == k,
            requests_of(fetches@) == planned_fetches(resources@, planned@.take(k as int)),
            forall|q: int|
                0 <= q < k ==> {
                    &&& (#[trigger] next@[q]).request@ == planned@[q]@
                    &&& match first_reusable(resources@, planned@[q]@) {
                        Some(j) => content_cloned(resources@[j].content, next@[q].content),
                        None => next@[q].content == Some(Loadable::<T, ResourceError>::Loading),
                    }
                },
        decreases planned.len() - k,
    {
        let request = &planned[k];
        assert(planned@.take(k + 1).drop_last() =~= planned@.take(k as int));
        assert(planned@.take(k + 1).last() == planned@[k as int]);
        proof {
            lemma_first_reusable_bounds(resources@, request@);
        }
        let ghost before = fetches@;
        match find_reusable(resources, request) {
            Some(j) => {
                next.push(clone_resource(&resources[j]));
                assert(requests_of(fetches@) =~= requests_of(before) + Seq::<ResourceRequestView>::empty());
            },
            None => {
                next.push(ResourceLoadable { request: request.duplicate(), content: Some(Loadable::Loading) });
                fetches.push(request.duplicate());
                assert(requests_of(fetches@) =~= requests_of(before) + seq![request@]);
            },
        }
        k = k + 1;
    }
    assert(planned@.take(planned.len() as int) =~= planned@);
    let changes = eq_update(resources, next);
    Effects::many(fetches).unchanged().join(changes)
}

/// The reducer of a list of resources.
///
/// When the requests that an aggregated request plans are made, the list
/// becomes one resource per planned request: the first resource that
/// already holds the request with some content is kept (copied), and every
/// other request starts loading and is fetched. When an answer arrives, the
/// first resource that holds the request and is loading takes it.
pub fn resources_update<T: Clone + PartialEq>(
    resources: &mut Vec<ResourceLoadable<T>>,
    action: ResourcesAction<T>,
) -> (r: Effects<ResourceRequest>)
    ensures
        match action {
            ResourcesAction::ResourcesRequested { requests } => {
                &&& requests_of(r.effect_list()) == planned_fetches(old(resources)@, requests@)
                &&& r.has_changed ==> planned_resources(old(resources)@, requests@, final(resources)@)
                &&& !r.has_changed ==> final(resources)@ == old(resources)@
            },
            ResourcesAction::ResourceRequestResult { request, result } => {
                &&& answered(old(resources)@, request@, content_of_result(result), final(resources)@)
                &&& r.effect_list().len() == 0
                &&& r.has_changed == first_accepting(old(resources)@, request@) is Some
            },
        },
{
    match action {
        ResourcesAction::ResourcesRequested { requests } => requested_resources(resources, requests),
        ResourcesAction::ResourceRequestResult { request, result } => {
            match find_accepting(resources, request) {
                Some(i) => {
                    resources[i].content = Some(resource_content_from_result(result));
                    Effects::none()
                },
                None => Effects::none().unchanged(),
            }
        },
    }
}

/// The reducer of a list of resources whose contents are lists: as
/// [`resources_update`], except that an empty list is an error.
pub fn resources_update_with_vector_content<T: Clone + PartialEq>(
    resources: &mut Vec<ResourceLoadable<Vec<T>>>,
    action: ResourcesAction<Vec<T>>,
) -> (r: Effects<ResourceRequest>)
    ensures
        match action {
            ResourcesAction::ResourcesRequested { requests } => {
                &&& requests_of(r.effect_list()) == planned_fetches(old(resources)@, requests@)
                &&& r.has_changed ==> planned_resources(old(resources)@, requests@, final(resources)@)
                &&& !r.has_changed ==> final(resources)@ == old(resources)@
            },
            ResourcesAction::ResourceRequestResult { request, result } => {
                &&& answered(
                    old(resources)@,
                    request@,
                    vector_content_of_result(result),
                    final(resources)@,
                )
                &&& r.effect_list().len() == 0
                &&& r.has_changed == first_accepting(old(resources)@, request@) is Some
            },
        },
{
    match action {
        ResourcesAction::ResourceRequestResult { request, result } => {
            match find_accepting(resources, request) {
                Some(i) => {
                    resources[i].content = Some(resource_vector_content_from_result(result));
                    Effects::none()
                },
                None => Effects::none().unchanged(),
            }
        },
        ResourcesAction::ResourcesRequested { requests } => requested_resources(resources, requests),
    }
}

} // verus!
