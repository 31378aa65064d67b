//! The live TV channels that the user watched last, each with its program:
//! one meta request per channel, refreshed when its program runs out or
//! grows old, and a row of items for the home board.

use vstd::prelude::*;

use crate::models::common::resource_loadable::{
    accepts_result, content_of_result, requests_of, resource_update, ResourceAction,
};
use crate::models::common::{Loadable, ResourceError, ResourceLoadable};
use crate::runtime::{Effects, EnvError};
use crate::types::addon::{ResourceRequest, ResourceRequestView};
use crate::types::library::LibraryItem;
use crate::types::resource::{
    preview_view, same_preview, same_videos, video_view, videos_view, MetaItem, MetaItemPreview,
    PreviewView,
    Video, VideoView,
};

verus! {

/// A loaded channel program older than this is fetched again.
pub const STALE_AFTER_MILLIS: i64 = 900000;

/// A failed or missing channel program, or one whose shows have all ended,
/// is fetched again once this long has passed since the last request.
pub const RETRY_AFTER_MILLIS: i64 = 60000;

/// A watched channel with its request and its shows.
#[derive(Clone, PartialEq, Eq, Debug)]
pub struct Item {
    pub channel: MetaItemPreview,
    pub request: ResourceRequest,
    pub shows: Vec<Video>,
}

/// The row of watched channels. `catalog` holds one meta resource per
/// watched channel, most recently watched first; `active` tells whether the
/// row has been loaded; `requested_at` holds when each request was made, in
/// milliseconds since the Unix epoch.
pub struct LiveTvContinueWatching {
    pub items: Vec<Item>,
    pub catalog: Vec<ResourceLoadable<MetaItem>>,
    pub active: bool,
    pub requested_at: Vec<(ResourceRequest, i64)>,
}

/// The latest end of the shows that end after they start.
pub open spec fn coverage_end(videos: Seq<Video>) -> Option<i64>
    decreases videos.len(),
{
    if videos.len() == 0 {
        None
    } else {
        let rest = coverage_end(videos.drop_last());
        match videos.last().epg_info {
            Some(e) => if e.start_time < e.end_time {
                match rest {
                    Some(m) => if m < e.end_time {
                        Some(e.end_time)
                    } else {
                        Some(m)
                    },
                    None => Some(e.end_time),
                }
            } else {
                rest
            },
            None => rest,
        }
    }
}

/// Whether a channel's resource is to be fetched again, `elapsed`
/// milliseconds after its last request (none when it was never requested):
/// never while it loads; a loaded program when it is a quarter of an hour
/// old, or a minute old with all its shows ended; anything else when it is
/// a minute old.
pub open spec fn is_stale(
    content: Option<Loadable<MetaItem, ResourceError>>,
    elapsed: Option<int>,
    now: i64,
) -> bool {
    match content {
        Some(Loadable::Loading) => false,
        Some(Loadable::Ready(meta)) => match elapsed {
            None => true,
            Some(e) => e >= STALE_AFTER_MILLIS || (e >= RETRY_AFTER_MILLIS && (coverage_end(
                meta.videos@,
            ) matches Some(end) && end <= now)),
        },
        _ => match elapsed {
            None => true,
            Some(e) => e >= RETRY_AFTER_MILLIS,
        },
    }
}

fn latest_end(videos: &Vec<Video>) -> (r: Option<i64>)
    ensures
        r == coverage_end(videos@),
{
    let mut best: Option<i64> = None;
    let mut i: usize = 0;
    while i < videos.len()
        invariant
            i <= videos.len(),
            best == coverage_end(videos@.take(i as int)),
        decreases videos.len() - i,
    {
        assert(videos@.take(i + 1).drop_last() =~= videos@.take(i as int));
        assert(videos@.take(i + 1).last() == videos@[i as int]);
        match videos[i].epg_info {
            Some(e) => {
                if e.start_time < e.end_time {
                    best = match best {
                        Some(m) => if m < e.end_time {
                            Some(e.end_time)
                        } else {
                            Some(m)
                        },
                        None => Some(e.end_time),
                    };
                }
            },
            None => {},
        }
        i = i + 1;
    }
    assert(videos@.take(videos.len() as int) =~= videos@);
    best
}

/// Whether the resource is to be fetched again.
fn stale(content: &Option<Loadable<MetaItem, ResourceError>>, elapsed: Option<i128>, now: i64) -> (r:
    bool)
    ensures
        r == is_stale(
            *content,
            match elapsed {
                Some(e) => Some(e as int),
                None => None,
            },
            now,
        ),
{
    match content {
        Some(Loadable::Loading) => false,
        Some(Loadable::Ready(meta)) => match elapsed {
            None => true,
            Some(e) => {
                if e >= STALE_AFTER_MILLIS as i128 {
                    true
                } else if e >= RETRY_AFTER_MILLIS as i128 {
                    match latest_end(&meta.videos) {
                        Some(end) => end <= now,
                        None => false,
                    }
                } else {
                    false
                }
            },
        },
        _ => match elapsed {
            None => true,
            Some(e) => e >= RETRY_AFTER_MILLIS as i128,
        },
    }
}

/// When each request was made, as plain values.
pub type RequestedAt = Seq<(ResourceRequestView, i64)>;

pub open spec fn requested_at_view(entries: Seq<(ResourceRequest, i64)>) -> RequestedAt {
    entries.map_values(|e: (ResourceRequest, i64)| (e.0@, e.1))
}

pub open spec fn requests_view(requests: Seq<ResourceRequest>) -> Seq<ResourceRequestView> {
    requests.map_values(|r: ResourceRequest| r@)
}

/// The entries whose request is among the planned ones, in their order.
pub open spec fn keep_planned(at: RequestedAt, planned: Seq<ResourceRequestView>) -> RequestedAt
    decreases at.len(),
{
    if at.len() == 0 {
        Seq::empty()
    } else {
        let rest = keep_planned(at.drop_last(), planned);
        if planned.contains(at.last().0) {
            rest.push(at.last())
        } else {
            rest
        }
    }
}

/// The entries of the other requests, in their order.
pub open spec fn without_request(at: RequestedAt, request: ResourceRequestView) -> RequestedAt
    decreases at.len(),
{
    if at.len() == 0 {
        Seq::empty()
    } else {
        let rest = without_request(at.drop_last(), request);
        if at.last().0 != request {
            rest.push(at.last())
        } else {
            rest
        }
    }
}

/// When the request was made: its first entry.
pub open spec fn requested_time(at: RequestedAt, request: ResourceRequestView) -> Option<i64>
    decreases at.len(),
{
    if at.len() == 0 {
        None
    } else if at[0].0 == request {
        Some(at[0].1)
    } else {
        requested_time(at.drop_first(), request)
    }
}

/// The position of the first resource that holds the request, `-1` where
/// there is none.
pub open spec fn resource_position(resources: Seq<ResourceLoadable<MetaItem>>, request: ResourceRequestView) -> int
    decreases resources.len(),
{
    if resources.len() == 0 {
        -1
    } else if resources[0].request@ == request {
        0
    } else {
        let p = resource_position(resources.drop_first(), request);
        if p < 0 {
            -1
        } else {
            p + 1
        }
    }
}

/// One request of the row, served from the resources of before: the first
/// resource that holds it is taken out of them (the last one moves into its
/// place) and kept unless it is stale; a stale or missing resource is
/// requested anew, now. The result is the resources left, the request
/// times, the content that the request gets and whether it is fetched.
pub open spec fn refresh_step(
    previous: Seq<ResourceLoadable<MetaItem>>,
    at: RequestedAt,
    request: ResourceRequestView,
    now: i64,
) -> (Seq<ResourceLoadable<MetaItem>>, RequestedAt, Option<Loadable<MetaItem, ResourceError>>, bool) {
    let k = resource_position(previous, request);
    if k >= 0 {
        let resource = previous[k];
        let rest = previous.update(k, previous.last()).drop_last();
        let elapsed = match requested_time(at, request) {
            Some(t) => Some(now - t),
            None => None,
        };
        if is_stale(resource.content, elapsed, now) {
            (rest, without_request(at, request).push((request, now)), Some(Loadable::Loading), true)
        } else {
            (rest, at, resource.content, false)
        }
    } else {
        (previous, without_request(at, request).push((request, now)), Some(Loadable::Loading), true)
    }
}

/// The requests of the row served one after the other: the resources left,
/// the request times, and for each request its content and whether it is
/// fetched.
pub open spec fn refresh(
    previous: Seq<ResourceLoadable<MetaItem>>,
    at: RequestedAt,
    requests: Seq<ResourceRequestView>,
    now: i64,
) -> (Seq<ResourceLoadable<MetaItem>>, RequestedAt, Seq<Option<Loadable<MetaItem, ResourceError>>>, Seq<bool>)
    decreases requests.len(),
{
    if requests.len() == 0 {
        (previous, at, Seq::empty(), Seq::empty())
    } else {
        let before = refresh(previous, at, requests.drop_last(), now);
        let step = refresh_step(before.0, before.1, requests.last(), now);
        (step.0, step.1, before.2.push(step.2), before.3.push(step.3))
    }
}

/// The requests that are fetched, in their order.
pub open spec fn fetched_requests(requests: Seq<ResourceRequestView>, fetched: Seq<bool>) -> Seq<ResourceRequestView>
    decreases requests.len(),
{
    if requests.len() == 0 || fetched.len() == 0 {
        Seq::empty()
    } else {
        let rest = fetched_requests(requests.drop_last(), fetched.drop_last());
        if fetched.last() {
            rest.push(requests.last())
        } else {
            rest
        }
    }
}

proof fn lemma_resource_position(resources: Seq<ResourceLoadable<MetaItem>>, request: ResourceRequestView)
    ensures
        resource_position(resources, request) < resources.len(),
        resource_position(resources, request) >= 0 ==> resources[resource_position(resources, request)].request@
            == request,
    decreases resources.len(),
{
    if resources.len() > 0 && resources[0].request@ != request {
        lemma_resource_position(resources.drop_first(), request);
    }
}

/// The position of the first resource that holds the request.
fn position_of(resources: &Vec<ResourceLoadable<MetaItem>>, request: &ResourceRequest) -> (r: Option<usize>)
    ensures
        match r {
            Some(k) => k < resources@.len() && k == resource_position(resources@, request@),
            None => resource_position(resources@, request@) == -1,
        },
{
    let mut k: usize = 0;
    assert(resources@.skip(0) =~= resources@);
    while k < resources.len()
        invariant
            k <= resources.len(),
            resource_position(resources@, request@) == if resource_position(resources@.skip(k as int), request@) < 0 {
                -1
            } else {
                resource_position(resources@.skip(k as int), request@) + k
            },
        decreases resources.len() - k,
    {
        assert(resources@.skip(k as int)[0] == resources@[k as int]);
        if resources[k].request.same_as(request) {
            return Some(k);
        }
        assert(resources@.skip(k as int).drop_first() =~= resources@.skip(k + 1));
        k = k + 1;
    }
    None
}

/// When the request was made.
fn time_of(at: &Vec<(ResourceRequest, i64)>, request: &ResourceRequest) -> (r: Option<i64>)
    ensures
        r == requested_time(requested_at_view(at@), request@),
{
    let ghost v = requested_at_view(at@);
    let mut k: usize = 0;
    assert(v.skip(0) =~= v);
    while k < at.len()
        invariant
            k <= at.len(),
            v == requested_at_view(at@),
            requested_time(v, request@) == requested_time(v.skip(k as int), request@),
        decreases at.len() - k,
    {
        assert(v.skip(k as int)[0] == (at@[k as int].0@, at@[k as int].1));
        if at[k].0.same_as(request) {
            return Some(at[k].1);
        }
        assert(v.skip(k as int).drop_first() =~= v.skip(k + 1));
        k = k + 1;
    }
    None
}

/// Whether the request is among the planned ones.
fn is_planned(planned: &[ResourceRequest], request: &ResourceRequest) -> (r: bool)
    ensures
        r == requests_view(planned@).contains(request@),
{
    let ghost pv = requests_view(planned@);
    let mut k: usize = 0;
    while k < planned.len()
        invariant
            k <= planned.len(),
            pv == requests_view(planned@),
            forall|q: int| 0 <= q < k ==> pv[q] != request@,
        decreases planned.len() - k,
    {
        if planned[k].same_as(request) {
            assert(pv[k as int] == request@);
            return true;
        }
        k = k + 1;
    }
    false
}

/// The entries whose request is planned.
fn keep_planned_entries(at: Vec<(ResourceRequest, i64)>, planned: &[ResourceRequest]) -> (r: Vec<
    (ResourceRequest, i64),
>)
    ensures
        requested_at_view(r@) == keep_planned(requested_at_view(at@), requests_view(planned@)),
{
    let ghost v = requested_at_view(at@);
    let mut rest = at;
    let mut out: Vec<(ResourceRequest, i64)> = Vec::new();
    let mut n: usize = 0;
    assert(rest@ =~= at@.skip(0));
    assert(at@.len() == rest.len());
    while rest.len() > 0
        invariant
            n + rest@.len() == at@.len(),
            at@.len() <= usize::MAX,
            rest@ == at@.skip(n as int),
            v == requested_at_view(at@),
            requested_at_view(out@) == keep_planned(v.take(n as int), requests_view(planned@)),
        decreases rest.len(),
    {
        let entry = rest.remove(0);
        assert(entry == at@[n as int]);
        assert(v.take(n + 1).drop_last() =~= v.take(n as int));
        assert(v.take(n + 1).last() == (entry.0@, entry.1));
        if is_planned(planned, &entry.0) {
            let ghost before = out@;
            out.push(entry);
            assert(requested_at_view(out@) =~= requested_at_view(before).push(v[n as int]));
        }
        n = n + 1;
        assert(rest@ =~= at@.skip(n as int));
    }
    assert(v.take(n as int) =~= v);
    out
}

/// The entries of the other requests.
fn remove_request(at: Vec<(ResourceRequest, i64)>, request: &ResourceRequest) -> (r: Vec<
    (ResourceRequest, i64),
>)
    ensures
        requested_at_view(r@) == without_request(requested_at_view(at@), request@),
{
    let ghost v = requested_at_view(at@);
    let mut rest = at;
    let mut out: Vec<(ResourceRequest, i64)> = Vec::new();
    let mut n: usize = 0;
    assert(rest@ =~= at@.skip(0));
    assert(at@.len() == rest.len());
    while rest.len() > 0
        invariant
            n + rest@.len() == at@.len(),
            at@.len() <= usize::MAX,
            rest@ == at@.skip(n as int),
            v == requested_at_view(at@),
            requested_at_view(out@) == without_request(v.take(n as int), request@),
        decreases rest.len(),
    {
        let entry = rest.remove(0);
        assert(entry == at@[n as int]);
        assert(v.take(n + 1).drop_last() =~= v.take(n as int));
        assert(v.take(n + 1).last() == (entry.0@, entry.1));
        if !entry.0.same_as(request) {
            let ghost before = out@;
            out.push(entry);
            assert(requested_at_view(out@) =~= requested_at_view(before).push(v[n as int]));
        }
        n = n + 1;
        assert(rest@ =~= at@.skip(n as int));
    }
    assert(v.take(n as int) =~= v);
    out
}

/// The resources of the row after the planned requests are served from the
/// resources of before (see [`refresh`]), with the request times of the
/// planned requests only; the fetched requests are the effects, and the
/// model has changed exactly when one is fetched.
pub open spec fn refreshed(
    catalog: Seq<ResourceLoadable<MetaItem>>,
    requested_at: Seq<(ResourceRequest, i64)>,
    requests: Seq<ResourceRequest>,
    now: i64,
) -> (Seq<ResourceLoadable<MetaItem>>, RequestedAt, Seq<Option<Loadable<MetaItem, ResourceError>>>, Seq<bool>) {
    refresh(
        catalog,
        keep_planned(requested_at_view(requested_at), requests_view(requests)),
        requests_view(requests),
        now,
    )
}

/// Serves the planned requests from the resources of before.
fn refresh_catalog(
    catalog: &mut Vec<ResourceLoadable<MetaItem>>,
    requested_at: &mut Vec<(ResourceRequest, i64)>,
    requests: &[ResourceRequest],
    now: i64,
) -> (r: Effects<ResourceRequest>)
    ensures
        final(catalog)@.len() == requests@.len(),
        forall|q: int|
            0 <= q < requests@.len() ==> {
                &&& (#[trigger] final(catalog)@[q]).request@ == requests@[q]@
                &&& final(catalog)@[q].content == refreshed(old(catalog)@, old(requested_at)@, requests@, now).2[q]
            },
        requested_at_view(final(requested_at)@) == refreshed(
            old(catalog)@,
            old(requested_at)@,
            requests@,
            now,
        ).1,
        requests_of(r.effect_list()) == fetched_requests(
            requests_view(requests@),
            refreshed(old(catalog)@, old(requested_at)@, requests@, now).3,
        ),
        r.has_changed == (fetched_requests(
            requests_view(requests@),
            refreshed(old(catalog)@, old(requested_at)@, requests@, now).3,
        ).len() > 0),
{
    let ghost rv = requests_view(requests@);
    let ghost at0 = keep_planned(requested_at_view(requested_at@), rv);
    let ghost catalog0 = catalog@;
    let mut taken: Vec<(ResourceRequest, i64)> = Vec::new();
    std::mem::swap(&mut taken, requested_at);
    let mut at = keep_planned_entries(taken, requests);
    let mut previous: Vec<ResourceLoadable<MetaItem>> = Vec::new();
    std::mem::swap(&mut previous, catalog);
    let mut next: Vec<ResourceLoadable<MetaItem>> = Vec::new();
    let mut effects: Effects<ResourceRequest> = Effects::none().unchanged();
    let ghost mut contents: Seq<Option<Loadable<MetaItem, ResourceError>>> = Seq::empty();
    let ghost mut fetched: Seq<bool> = Seq::empty();
    let mut i: usize = 0;
    assert(rv.take(0) =~= Seq::<ResourceRequestView>::empty());
    while i < requests.len()
        invariant
            i <= requests.len(),
            rv == requests_view(requests@),
            refresh(catalog0, at0, rv.take(i as int), now) == (previous@, requested_at_view(at@), contents, fetched),
            next@.len() == i,
            contents.len() == i,
            fetched.len() == i,
            forall|q: int|
                0 <= q < i ==> {
                    &&& (#[trigger] next@[q]).request@ == rv[q]
                    &&& next@[q].content == contents[q]
                },
            requests_of(effects.effect_list()) == fetched_requests(rv.take(i as int), fetched),
            effects.has_changed == (fetched_requests(rv.take(i as int), fetched).len() > 0),
        decreases requests.len() - i,
    {
        let request = &requests[i];
        let ghost request_view = request@;
        assert(rv[i as int] == request_view);
        assert(rv.take(i + 1).drop_last() =~= rv.take(i as int));
        assert(rv.take(i + 1).last() == request_view);
        let ghost step = refresh_step(previous@, requested_at_view(at@), request_view, now);
        let ghost fetched_before = fetched_requests(rv.take(i as int), fetched);
        let ghost fetched_flags = fetched;
        let ghost effects_before = effects.effect_list();
        proof {
            lemma_resource_position(previous@, request_view);
        }
        match position_of(&previous, request) {
            Some(k) => {
                let ghost prev_view = previous@;
                let mut resource = previous.swap_remove(k);
                let elapsed: Option<i128> = match time_of(&at, request) {
                    Some(t) => Some(now as i128 - t as i128),
                    None => None,
                };
                if stale(&resource.content, elapsed, now) {
                    resource.content = None;
                    at = remove_request(at, request);
                    let ghost removed = at@;
                    at.push((request.duplicate(), now));
                    assert(requested_at_view(at@) =~= requested_at_view(removed).push((request_view, now)));
                    let fetch = resource_update(&mut resource, ResourceAction::ResourceRequested { request });
                    effects = effects.join(fetch);
                    assert(requests_of(effects.effect_list()) =~= requests_of(effects_before) + requests_of(
                        fetch.effect_list(),
                    ));
                    proof {
                        contents = contents.push(Some(Loadable::Loading));
                        fetched = fetched.push(true);
                    }
                } else {
                    proof {
                        contents = contents.push(resource.content);
                        fetched = fetched.push(false);
                    }
                }
                next.push(resource);
            },
            None => {
                at = remove_request(at, request);
                let ghost removed = at@;
                at.push((request.duplicate(), now));
                assert(requested_at_view(at@) =~= requested_at_view(removed).push((request_view, now)));
                let mut resource = ResourceLoadable { request: request.duplicate(), content: None };
                let fetch = resource_update(&mut resource, ResourceAction::ResourceRequested { request });
                effects = effects.join(fetch);
                assert(requests_of(effects.effect_list()) =~= requests_of(effects_before) + requests_of(
                    fetch.effect_list(),
                ));
                next.push(resource);
                proof {
                    contents = contents.push(Some(Loadable::Loading));
                    fetched = fetched.push(true);
                }
            },
        }
        proof {
            assert(rv.take(i + 1).len() == fetched.len());
            assert(fetched.drop_last() =~= fetched_flags);
        }
        i = i + 1;
    }
    assert(rv.take(requests.len() as int) =~= rv);
    *catalog = next;
    *requested_at = at;
    effects
}

/// An item of the row as plain values: channel, request and shows.
pub type ItemView = (PreviewView, ResourceRequestView, Seq<VideoView>);

pub open spec fn item_view(item: Item) -> ItemView {
    (preview_view(item.channel), item.request@, videos_view(item.shows@))
}

pub open spec fn row_view(items: Seq<Item>) -> Seq<ItemView> {
    items.map_values(|item: Item| item_view(item))
}

/// The videos that are shows of a live channel, in their order.
pub open spec fn epg_shows(videos: Seq<VideoView>) -> Seq<VideoView>
    decreases videos.len(),
{
    if videos.len() == 0 {
        Seq::empty()
    } else {
        let rest = epg_shows(videos.drop_last());
        if videos.last().5 is Some {
            rest.push(videos.last())
        } else {
            rest
        }
    }
}

/// The position of the first library item with the id, `-1` where there is
/// none.
pub open spec fn library_position(library: Seq<LibraryItem>, id: Seq<char>) -> int
    decreases library.len(),
{
    if library.len() == 0 {
        -1
    } else if library[0].id@ == id {
        0
    } else {
        let p = library_position(library.drop_first(), id);
        if p < 0 {
            -1
        } else {
            p + 1
        }
    }
}

/// The preview of a channel whose program is not loaded: from the library
/// item with its id where there is one, from the request otherwise.
pub open spec fn fallback_view(library: Seq<LibraryItem>, request: ResourceRequestView) -> PreviewView {
    let k = library_position(library, request.id);
    if k >= 0 {
        let item = library[k];
        (
            item.id@,
            item.content_type@,
            item.name@,
            match item.poster {
                Some(p) => Some(p@),
                None => None,
            },
            None,
        )
    } else {
        (request.id, request.content_type, Seq::empty(), None, None)
    }
}

/// The shows of the first item of the row with the request, none where
/// there is no such item.
pub open spec fn previous_shows(items: Seq<Item>, request: ResourceRequestView) -> Seq<VideoView>
    decreases items.len(),
{
    if items.len() == 0 {
        Seq::empty()
    } else if items[0].request@ == request {
        videos_view(items[0].shows@)
    } else {
        previous_shows(items.drop_first(), request)
    }
}

/// The item of a channel's resource: the loaded program's preview and shows;
/// while it is not loaded, the fallback preview and the shows that the row
/// had for it.
pub open spec fn spec_item(resource: ResourceLoadable<MetaItem>, previous: Seq<Item>, library: Seq<LibraryItem>) -> ItemView {
    match resource.content {
        Some(Loadable::Ready(meta)) => (
            preview_view(meta.preview),
            resource.request@,
            epg_shows(videos_view(meta.videos@)),
        ),
        _ => (fallback_view(library, resource.request@), resource.request@, previous_shows(previous, resource.request@)),
    }
}

/// The row of the catalog, given the row of before.
pub open spec fn spec_row(
    catalog: Seq<ResourceLoadable<MetaItem>>,
    previous: Seq<Item>,
    library: Seq<LibraryItem>,
) -> Seq<ItemView> {
    catalog.map_values(|resource: ResourceLoadable<MetaItem>| spec_item(resource, previous, library))
}

fn clone_text(value: &Option<String>) -> (r: Option<String>)
    ensures
        r == *value,
{
    match value {
        Some(s) => Some(s.clone()),
        None => None,
    }
}

/// The shows of a program.
fn shows_of(videos: &Vec<Video>) -> (r: Vec<Video>)
    ensures
        videos_view(r@) == epg_shows(videos_view(videos@)),
{
    let mut out: Vec<Video> = Vec::new();
    let mut i: usize = 0;
    while i < videos.len()
        invariant
            i <= videos.len(),
            videos_view(out@) == epg_shows(videos_view(videos@.take(i as int))),
        decreases videos.len() - i,
    {
        assert(videos_view(videos@.take(i + 1)).drop_last() =~= videos_view(videos@.take(i as int)));
        assert(videos_view(videos@.take(i + 1)).last() == video_view(videos@[i as int]));
        if videos[i].epg_info.is_some() {
            let ghost before = out@;
            out.push(videos[i].clone());
            assert(videos_view(out@) =~= videos_view(before).push(video_view(videos@[i as int])));
        }
        i = i + 1;
    }
    assert(videos@.take(videos.len() as int) =~= videos@);
    out
}

/// A copy of the videos.
fn copy_videos(videos: &Vec<Video>) -> (r: Vec<Video>)
    ensures
        videos_view(r@) == videos_view(videos@),
{
    let mut out: Vec<Video> = Vec::new();
    let mut i: usize = 0;
    while i < videos.len()
        invariant
            i <= videos.len(),
            videos_view(out@) == videos_view(videos@.take(i as int)),
        decreases videos.len() - i,
    {
        let ghost before = out@;
        out.push(videos[i].clone());
        assert(videos_view(out@) =~= videos_view(before).push(video_view(videos@[i as int])));
        assert(videos_view(videos@.take(i + 1)) =~= videos_view(videos@.take(i as int)).push(
            video_view(videos@[i as int]),
        ));
        i = i + 1;
    }
    assert(videos@.take(videos.len() as int) =~= videos@);
    out
}

/// The preview of a channel whose program is not loaded.
fn fallback_preview(library: &[LibraryItem], request: &ResourceRequest) -> (r: MetaItemPreview)
    ensures
        preview_view(r) == fallback_view(library@, request@),
{
    let mut k: usize = 0;
    assert(library@.skip(0) =~= library@);
    while k < library.len()
        invariant
            k <= library.len(),
            library_position(library@, request@.id) == if library_position(library@.skip(k as int), request@.id) < 0 {
                -1
            } else {
                library_position(library@.skip(k as int), request@.id) + k
            },
        decreases library.len() - k,
    {
        assert(library@.skip(k as int)[0] == library@[k as int]);
        if crate::text::str_eq(library[k].id.as_str(), request.path.id.as_str()) {
            let item = &library[k];
            return MetaItemPreview {
                id: item.id.clone(),
                content_type: item.content_type.clone(),
                name: item.name.clone(),
                poster: clone_text(&item.poster),
                default_video_id: None,
            };
        }
        assert(library@.skip(k as int).drop_first() =~= library@.skip(k + 1));
        k = k + 1;
    }
    MetaItemPreview {
        id: request.path.id.clone(),
        content_type: request.path.content_type.clone(),
        name: String::new(),
        poster: None,
        default_video_id: None,
    }
}

/// The shows that the row had for the request.
fn shows_before(items: &Vec<Item>, request: &ResourceRequest) -> (r: Vec<Video>)
    ensures
        videos_view(r@) == previous_shows(items@, request@),
{
    let mut k: usize = 0;
    assert(items@.skip(0) =~= items@);
    while k < items.len()
        invariant
            k <= items.len(),
            previous_shows(items@, request@) == previous_shows(items@.skip(k as int), request@),
        decreases items.len() - k,
    {
        assert(items@.skip(k as int)[0] == items@[k as int]);
        if items[k].request.same_as(request) {
            return copy_videos(&items[k].shows);
        }
        assert(items@.skip(k as int).drop_first() =~= items@.skip(k + 1));
        k = k + 1;
    }
    Vec::new()
}

/// Whether two rows have the same value.
fn same_row(a: &Vec<Item>, b: &Vec<Item>) -> (r: bool)
    ensures
        r == (row_view(a@) == row_view(b@)),
{
    if a.len() != b.len() {
        proof {
            if row_view(a@) == row_view(b@) {
                assert(row_view(a@).len() == a@.len());
            }
        }
        return false;
    }
    let mut i: usize = 0;
    while i < a.len()
        invariant
            i <= a.len(),
            a.len() == b.len(),
            forall|q: int| 0 <= q < i ==> item_view(a@[q]) == #[trigger] item_view(b@[q]),
        decreases a.len() - i,
    {
        if !(same_preview(&a[i].channel, &b[i].channel) && a[i].request.same_as(&b[i].request)
            && same_videos(&a[i].shows, &b[i].shows)) {
            proof {
                assert(row_view(a@)[i as int] == item_view(a@[i as int]));
                assert(row_view(b@)[i as int] == item_view(b@[i as int]));
            }
            return false;
        }
        i = i + 1;
    }
    assert(row_view(a@) =~= row_view(b@));
    true
}

/// The reducer of the row: an item per resource of the catalog (see
/// [`spec_item`]); the model has changed exactly when the row differs.
pub fn items_update(
    items: &mut Vec<Item>,
    catalog: &[ResourceLoadable<MetaItem>],
    library: &[LibraryItem],
) -> (r: Effects<ResourceRequest>)
    ensures
        row_view(final(items)@) == spec_row(catalog@, old(items)@, library@),
        r.effect_list().len() == 0,
        r.has_changed == (row_view(old(items)@) != row_view(final(items)@)),
{
    let mut next: Vec<Item> = Vec::new();
    let mut i: usize = 0;
    while i < catalog.len()
        invariant
            i <= catalog.len(),
            row_view(next@) == spec_row(catalog@.take(i as int), items@, library@),
        decreases catalog.len() - i,
    {
        let resource = &catalog[i];
        let item = match &resource.content {
            Some(Loadable::Ready(meta)) => Item {
                channel: meta.preview.clone(),
                request: resource.request.duplicate(),
                shows: shows_of(&meta.videos),
            },
            _ => Item {
                channel: fallback_preview(library, &resource.request),
                request: resource.request.duplicate(),
                shows: shows_before(items, &resource.request),
            },
        };
        let ghost before = next@;
        assert(item_view(item) == spec_item(catalog@[i as int], items@, library@));
        next.push(item);
        assert(row_view(next@) =~= row_view(before).push(item_view(item)));
        assert(spec_row(catalog@.take(i + 1), items@, library@) =~= spec_row(
            catalog@.take(i as int),
            items@,
            library@,
        ).push(spec_item(catalog@[i as int], items@, library@)));
        i = i + 1;
    }
    assert(catalog@.take(catalog.len() as int) =~= catalog@);
    let changed = !same_row(items, &next);
    *items = next;
    if changed {
        Effects::none()
    } else {
        Effects::none().unchanged()
    }
}

/// `next_*` are the catalog, request times and row after the planned
/// requests are served (see [`refreshed`]) and the row is rebuilt over the
/// new catalog; the fetched requests are the effects, and the model has
/// changed exactly when a request is fetched or the row differs.
pub open spec fn is_refreshed(
    catalog: Seq<ResourceLoadable<MetaItem>>,
    requested_at: Seq<(ResourceRequest, i64)>,
    items: Seq<Item>,
    requests: Seq<ResourceRequest>,
    now: i64,
    library: Seq<LibraryItem>,
    next_catalog: Seq<ResourceLoadable<MetaItem>>,
    next_requested_at: Seq<(ResourceRequest, i64)>,
    next_items: Seq<Item>,
    effects: Seq<ResourceRequest>,
    has_changed: bool,
) -> bool {
    let plan = refreshed(catalog, requested_at, requests, now);
    let fetched = fetched_requests(requests_view(requests), plan.3);
    &&& next_catalog.len() == requests.len()
    &&& forall|q: int|
        0 <= q < requests.len() ==> {
            &&& (#[trigger] next_catalog[q]).request@ == requests[q]@
            &&& next_catalog[q].content == plan.2[q]
        }
    &&& requested_at_view(next_requested_at) == plan.1
    &&& requests_of(effects) == fetched
    &&& row_view(next_items) == spec_row(next_catalog, items, library)
    &&& has_changed == (fetched.len() > 0 || row_view(items) != row_view(next_items))
}

/// Serves the planned requests and rebuilds the row.
pub fn catalog_and_items_update(
    catalog: &mut Vec<ResourceLoadable<MetaItem>>,
    items: &mut Vec<Item>,
    requested_at: &mut Vec<(ResourceRequest, i64)>,
    requests: &[ResourceRequest],
    library: &[LibraryItem],
    now: i64,
) -> (r: Effects<ResourceRequest>)
    ensures
        is_refreshed(
            old(catalog)@,
            old(requested_at)@,
            old(items)@,
            requests@,
            now,
            library@,
            final(catalog)@,
            final(requested_at)@,
            final(items)@,
            r.effect_list(),
            r.has_changed,
        ),
{
    let effects = refresh_catalog(catalog, requested_at, requests, now);
    let items_effects = items_update(items, catalog.as_slice(), library);
    let r = effects.join(items_effects);
    assert(r.effect_list() =~= effects.effect_list());
    r
}

/// What the row reacts to. `requests` are the meta requests of the watched
/// live channels, most recently watched first, and `now` is the current
/// time in milliseconds since the Unix epoch.
pub enum LiveTvContinueWatchingMsg<'a> {
    /// The home board shows the row.
    Load { requests: &'a [ResourceRequest], now: i64 },
    /// The view is left.
    Unload,
    /// The items of the library or the installed addons changed.
    Changed { requests: &'a [ResourceRequest], now: i64 },
    /// The answer to a request.
    ResourceRequestResult(&'a ResourceRequest, Result<Result<MetaItem, String>, EnvError>),
}

impl LiveTvContinueWatching {
    /// An empty row, not loaded.
    pub fn new() -> (r: Self)
        ensures
            r.items@.len() == 0,
            r.catalog@.len() == 0,
            !r.active,
            r.requested_at@.len() == 0,
    {
        LiveTvContinueWatching {
            items: Vec::new(),
            catalog: Vec::new(),
            active: false,
            requested_at: Vec::new(),
        }
    }

    /// The reducer of the row. Loading activates it and serves the planned
    /// requests; a change of the library or the addons does the same while
    /// it is active; leaving deactivates and clears it; an answer goes to
    /// the first resource with its request (taken where that resource is
    /// loading) and the row is rebuilt.
    pub fn update(&mut self, msg: LiveTvContinueWatchingMsg, library: &[LibraryItem]) -> (r: Effects<
        ResourceRequest,
    >)
        ensures
            match msg {
                LiveTvContinueWatchingMsg::Load { requests, now } => {
                    &&& final(self).active
                    &&& is_refreshed(
                        old(self).catalog@,
                        old(self).requested_at@,
                        old(self).items@,
                        requests@,
                        now,
                        library@,
                        final(self).catalog@,
                        final(self).requested_at@,
                        final(self).items@,
                        r.effect_list(),
                        r.has_changed,
                    )
                },
                LiveTvContinueWatchingMsg::Changed { requests, now } => if old(self).active {
                    &&& final(self).active
                    &&& is_refreshed(
                        old(self).catalog@,
                        old(self).requested_at@,
                        old(self).items@,
                        requests@,
                        now,
                        library@,
                        final(self).catalog@,
                        final(self).requested_at@,
                        final(self).items@,
                        r.effect_list(),
                        r.has_changed,
                    )
                } else {
                    &&& !final(self).active
                    &&& final(self).catalog@ == old(self).catalog@
                    &&& final(self).items@ == old(self).items@
                    &&& final(self).requested_at@ == old(self).requested_at@
                    &&& r.effect_list().len() == 0
                    &&& !r.has_changed
                },
                LiveTvContinueWatchingMsg::Unload => {
                    &&& !final(self).active
                    &&& final(self).catalog@.len() == 0
                    &&& final(self).items@.len() == 0
                    &&& final(self).requested_at@.len() == 0
                    &&& r.effect_list().len() == 0
                    &&& r.has_changed == (old(self).catalog@.len() != 0 || old(self).items@.len() != 0)
                },
                LiveTvContinueWatchingMsg::ResourceRequestResult(request, result) => {
                    let k = resource_position(old(self).catalog@, request@);
                    &&& final(self).active == old(self).active
                    &&& final(self).requested_at@ == old(self).requested_at@
                    &&& r.effect_list().len() == 0
                    &&& if k >= 0 {
                        let resource = old(self).catalog@[k];
                        let taken = accepts_result(resource, request@);
                        &&& final(self).catalog@ == old(self).catalog@.update(
                            k,
                            if taken {
                                ResourceLoadable {
                                    request: resource.request,
                                    content: Some(content_of_result(result)),
                                }
                            } else {
                                resource
                            },
                        )
                        &&& row_view(final(self).items@) == spec_row(
                            final(self).catalog@,
                            old(self).items@,
                            library@,
                        )
                        &&& r.has_changed == (taken || row_view(old(self).items@) != row_view(
                            final(self).items@,
                        ))
                    } else {
                        &&& final(self).catalog@ == old(self).catalog@
                        &&& final(self).items@ == old(self).items@
                        &&& !r.has_changed
                    }
                },
            },
    {
        match msg {
            LiveTvContinueWatchingMsg::Load { requests, now } => {
                self.active = true;
                catalog_and_items_update(
                    &mut self.catalog,
                    &mut self.items,
                    &mut self.requested_at,
                    requests,
                    library,
                    now,
                )
            },
            LiveTvContinueWatchingMsg::Changed { requests, now } => {
                if self.active {
                    catalog_and_items_update(
                        &mut self.catalog,
                        &mut self.items,
                        &mut self.requested_at,
                        requests,
                        library,
                        now,
                    )
                } else {
                    Effects::none().unchanged()
                }
            },
            LiveTvContinueWatchingMsg::Unload => {
                let changed = self.catalog.len() != 0 || self.items.len() != 0;
                self.active = false;
                self.requested_at = Vec::new();
                self.catalog = Vec::new();
                self.items = Vec::new();
                if changed {
                    Effects::none()
                } else {
                    Effects::none().unchanged()
                }
            },
            LiveTvContinueWatchingMsg::ResourceRequestResult(request, result) => {
                proof {
                    lemma_resource_position(self.catalog@, request@);
                }
                match position_of(&self.catalog, request) {
                    Some(k) => {
                        let mut resource = self.catalog.remove(k);
                        let effects = resource_update(
                            &mut resource,
                            ResourceAction::ResourceRequestResult { request, result },
                        );
                        self.catalog.insert(k, resource);
                        let items_effects = items_update(&mut self.items, self.catalog.as_slice(), library);
                        let r = effects.join(items_effects);
                        assert(r.effect_list() =~= Seq::<ResourceRequest>::empty());
                        r
                    },
                    None => Effects::none().unchanged(),
                }
            },
        }
    }
}

} // verus!

verus! {

/// The time since the request was made, none where it never was.
pub open spec fn elapsed_since(at: RequestedAt, request: ResourceRequestView, now: i64) -> Option<int> {
    match requested_time(at, request) {
        Some(t) => Some(now - t),
        None => None,
    }
}

proof fn lemma_requested_time_push(at: RequestedAt, entry: (ResourceRequestView, i64), request: ResourceRequestView)
    ensures
        requested_time(at.push(entry), request) == match requested_time(at, request) {
            Some(t) => Some(t),
            None => if entry.0 == request {
                Some(entry.1)
            } else {
                None
            },
        },
    decreases at.len(),
{
    let pushed = at.push(entry);
    if at.len() > 0 {
        assert(pushed[0] == at[0]);
        if at[0].0 != request {
            assert(pushed.drop_first() =~= at.drop_first().push(entry));
            lemma_requested_time_push(at.drop_first(), entry, request);
            assert(requested_time(pushed, request) == requested_time(pushed.drop_first(), request));
            assert(requested_time(at, request) == requested_time(at.drop_first(), request));
        }
    } else {
        assert(pushed.drop_first() =~= Seq::<(ResourceRequestView, i64)>::empty());
        assert(requested_time(pushed.drop_first(), request) is None);
        assert(requested_time(at, request) is None);
        assert(pushed[0] == entry);
    }
}

proof fn lemma_requested_time_without(at: RequestedAt, removed: ResourceRequestView, request: ResourceRequestView)
    ensures
        requested_time(without_request(at, removed), request) == if request == removed {
            None
        } else {
            requested_time(at, request)
        },
    decreases at.len(),
{
    if at.len() > 0 {
        let init = at.drop_last();
        let last = at.last();
        lemma_requested_time_without(init, removed, request);
        assert(at =~= init.push(last));
        lemma_requested_time_push(init, last, request);
        if last.0 != removed {
            lemma_requested_time_push(without_request(init, removed), last, request);
        }
    }
}

/// A request made anew is timed now; the others keep their time.
proof fn lemma_requested_time_renewed(
    at: RequestedAt,
    renewed: ResourceRequestView,
    now: i64,
    request: ResourceRequestView,
)
    ensures
        requested_time(without_request(at, renewed).push((renewed, now)), request) == if request
            == renewed {
            Some(now)
        } else {
            requested_time(at, request)
        },
{
    lemma_requested_time_without(at, renewed, request);
    lemma_requested_time_push(without_request(at, renewed), (renewed, now), request);
}

/// A resource requested just now is never stale.
proof fn lemma_fresh_is_not_stale(content: Option<Loadable<MetaItem, ResourceError>>, now: i64)
    ensures
        !is_stale(content, Some(0), now),
{
}


/// Every request timed in `at` is planned.
pub open spec fn keys_planned(at: RequestedAt, planned: Seq<ResourceRequestView>) -> bool {
    forall|i: int| 0 <= i < at.len() ==> planned.contains(#[trigger] at[i].0)
}

proof fn lemma_keep_planned_keys(at: RequestedAt, planned: Seq<ResourceRequestView>)
    ensures
        keys_planned(keep_planned(at, planned), planned),
    decreases at.len(),
{
    if at.len() > 0 {
        lemma_keep_planned_keys(at.drop_last(), planned);
        let rest = keep_planned(at.drop_last(), planned);
        if planned.contains(at.last().0) {
            assert forall|i: int| 0 <= i < rest.push(at.last()).len() implies planned.contains(
                #[trigger] rest.push(at.last())[i].0,
            ) by {
                if i < rest.len() {
                    assert(rest.push(at.last())[i] == rest[i]);
                }
            }
        }
    }
}

proof fn lemma_without_keeps_keys(at: RequestedAt, planned: Seq<ResourceRequestView>, removed: ResourceRequestView)
    requires
        keys_planned(at, planned),
    ensures
        keys_planned(without_request(at, removed), planned),
    decreases at.len(),
{
    if at.len() > 0 {
        assert(keys_planned(at.drop_last(), planned)) by {
            assert forall|i: int| 0 <= i < at.drop_last().len() implies planned.contains(
                #[trigger] at.drop_last()[i].0,
            ) by {
                assert(at.drop_last()[i] == at[i]);
            }
        }
        lemma_without_keeps_keys(at.drop_last(), planned, removed);
        let rest = without_request(at.drop_last(), removed);
        assert(planned.contains(at[at.len() - 1].0));
        if at.last().0 != removed {
            assert forall|i: int| 0 <= i < rest.push(at.last()).len() implies planned.contains(
                #[trigger] rest.push(at.last())[i].0,
            ) by {
                if i < rest.len() {
                    assert(rest.push(at.last())[i] == rest[i]);
                }
            }
        }
    }
}

proof fn lemma_keep_planned_identity(at: RequestedAt, planned: Seq<ResourceRequestView>)
    requires
        keys_planned(at, planned),
    ensures
        keep_planned(at, planned) == at,
    decreases at.len(),
{
    if at.len() > 0 {
        assert(keys_planned(at.drop_last(), planned)) by {
            assert forall|i: int| 0 <= i < at.drop_last().len() implies planned.contains(
                #[trigger] at.drop_last()[i].0,
            ) by {
                assert(at.drop_last()[i] == at[i]);
            }
        }
        lemma_keep_planned_identity(at.drop_last(), planned);
        assert(planned.contains(at[at.len() - 1].0));
        assert(at.drop_last().push(at.last()) =~= at);
    }
}

/// A resource's content is not stale for its request at the time.
pub open spec fn content_fresh(
    content: Option<Loadable<MetaItem, ResourceError>>,
    request: ResourceRequestView,
    at: RequestedAt,
    now: i64,
) -> bool {
    !is_stale(content, elapsed_since(at, request, now), now)
}

/// While the requests are served the first time, every content handed out
/// stays fresh, and only planned requests are timed.
proof fn lemma_first_pass(
    previous: Seq<ResourceLoadable<MetaItem>>,
    at: RequestedAt,
    requests: Seq<ResourceRequestView>,
    now: i64,
    n: int,
)
    requires
        keys_planned(at, requests),
        0 <= n <= requests.len(),
    ensures
        keys_planned(refresh(previous, at, requests.take(n), now).1, requests),
        refresh(previous, at, requests.take(n), now).2.len() == n,
        forall|i: int|
            0 <= i < n ==> content_fresh(
                #[trigger] refresh(previous, at, requests.take(n), now).2[i],
                requests[i],
                refresh(previous, at, requests.take(n), now).1,
                now,
            ),
    decreases n,
{
    if n > 0 {
        lemma_first_pass(previous, at, requests, now, n - 1);
        let taken = requests.take(n);
        assert(taken.drop_last() =~= requests.take(n - 1));
        assert(taken.last() == requests[n - 1]);
        let before = refresh(previous, at, requests.take(n - 1), now);
        let r = requests[n - 1];
        let step = refresh_step(before.0, before.1, r, now);
        let after = refresh(previous, at, taken, now);
        assert(after == (step.0, step.1, before.2.push(step.2), before.3.push(step.3)));
        if step.3 {
            lemma_without_keeps_keys(before.1, requests, r);
            let renewed = without_request(before.1, r);
            assert(requests.contains(requests[n - 1]));
            assert forall|i: int| 0 <= i < step.1.len() implies requests.contains(#[trigger] step.1[i].0) by {
                if i < renewed.len() {
                    assert(step.1[i] == renewed[i]);
                }
            }
            assert forall|i: int| 0 <= i < n implies content_fresh(#[trigger] after.2[i], requests[i], after.1, now) by {
                lemma_requested_time_renewed(before.1, r, now, requests[i]);
                if i < n - 1 {
                    assert(after.2[i] == before.2[i]);
                    if requests[i] == r {
                        lemma_fresh_is_not_stale(after.2[i], now);
                    }
                }
            }
        } else {
            assert forall|i: int| 0 <= i < n implies content_fresh(#[trigger] after.2[i], requests[i], after.1, now) by {
                if i < n - 1 {
                    assert(after.2[i] == before.2[i]);
                }
            }
        }
    }
}


/// The requests of the resources, in order.
pub open spec fn resource_requests(resources: Seq<ResourceLoadable<MetaItem>>) -> Seq<ResourceRequestView> {
    resources.map_values(|resource: ResourceLoadable<MetaItem>| resource.request@)
}

proof fn lemma_position_found(resources: Seq<ResourceLoadable<MetaItem>>, request: ResourceRequestView, i: int)
    requires
        0 <= i < resources.len(),
        resources[i].request@ == request,
    ensures
        resource_position(resources, request) >= 0,
    decreases i,
{
    if resources[0].request@ != request {
        assert(resources.drop_first()[i - 1] == resources[i]);
        lemma_position_found(resources.drop_first(), request, i - 1);
    }
}

/// Taking an item out by moving the last one into its place leaves the
/// other items.
proof fn lemma_swap_remove_multiset<A>(s: Seq<A>, k: int)
    requires
        0 <= k < s.len(),
    ensures
        s.update(k, s.last()).drop_last().to_multiset() =~= s.to_multiset().remove(s[k]),
{
    broadcast use vstd::seq_lib::group_to_multiset_ensures;

    let t = s.update(k, s.last());
    assert(t.drop_last() =~= t.remove(t.len() - 1));
    if k == s.len() - 1 {
        assert(t =~= s);
    } else {
        assert(t[t.len() - 1] == s.last());
        assert(t.to_multiset() == s.to_multiset().insert(s.last()).remove(s[k]));
        assert(t.remove(t.len() - 1).to_multiset() == t.to_multiset().remove(s.last()));
    }
}

/// Serving the requests again over the resources of a refresh: every
/// request finds a resource of its own, fresh, so nothing is fetched and
/// the request times stay.
proof fn lemma_second_pass(
    catalog: Seq<ResourceLoadable<MetaItem>>,
    at: RequestedAt,
    requests: Seq<ResourceRequestView>,
    now: i64,
    n: int,
)
    requires
        0 <= n <= requests.len(),
        resource_requests(catalog) == requests,
        forall|i: int|
            0 <= i < catalog.len() ==> content_fresh(
                (#[trigger] catalog[i]).content,
                catalog[i].request@,
                at,
                now,
            ),
    ensures
        refresh(catalog, at, requests.take(n), now).1 == at,
        refresh(catalog, at, requests.take(n), now).3.len() == n,
        forall|i: int| 0 <= i < n ==> !#[trigger] refresh(catalog, at, requests.take(n), now).3[i],
        resource_requests(refresh(catalog, at, requests.take(n), now).0).to_multiset() == requests.skip(
            n,
        ).to_multiset(),
        forall|i: int|
            0 <= i < refresh(catalog, at, requests.take(n), now).0.len() ==> content_fresh(
                (#[trigger] refresh(catalog, at, requests.take(n), now).0[i]).content,
                refresh(catalog, at, requests.take(n), now).0[i].request@,
                at,
                now,
            ),
    decreases n,
{
    broadcast use vstd::seq_lib::group_to_multiset_ensures;

    if n == 0 {
        assert(requests.take(0) =~= Seq::<ResourceRequestView>::empty());
        assert(requests.skip(0) =~= requests);
    } else {
        lemma_second_pass(catalog, at, requests, now, n - 1);
        let taken = requests.take(n);
        assert(taken.drop_last() =~= requests.take(n - 1));
        assert(taken.last() == requests[n - 1]);
        let before = refresh(catalog, at, requests.take(n - 1), now);
        let previous = before.0;
        let r = requests[n - 1];
        let remaining = requests.skip(n - 1);
        assert(remaining[0] == r);
        assert(remaining.contains(r));
        assert(remaining.to_multiset().count(r) > 0);
        let rr = resource_requests(previous);
        assert(rr.to_multiset().count(r) > 0);
        assert(rr.contains(r));
        let i = choose|i: int| 0 <= i < rr.len() && rr[i] == r;
        assert(previous[i].request@ == r);
        lemma_position_found(previous, r, i);
        lemma_resource_position(previous, r);
        let k = resource_position(previous, r);
        assert(content_fresh(previous[k].content, previous[k].request@, at, now));
        let rest = previous.update(k, previous.last()).drop_last();
        assert(resource_requests(rest) =~= rr.update(k, rr.last()).drop_last());
        lemma_swap_remove_multiset(rr, k);
        assert(remaining.remove(0) =~= requests.skip(n));
        let after = refresh(catalog, at, taken, now);
        assert forall|j: int| 0 <= j < after.0.len() implies content_fresh(
            (#[trigger] after.0[j]).content,
            after.0[j].request@,
            at,
            now,
        ) by {
            if j == k {
                assert(after.0[j] == previous[previous.len() - 1]);
            } else {
                assert(after.0[j] == previous[j]);
            }
        }
        assert forall|j: int| 0 <= j < n implies !#[trigger] after.3[j] by {
            if j < n - 1 {
                assert(after.3[j] == before.3[j]);
            }
        }
    }
}

proof fn lemma_nothing_fetched(requests: Seq<ResourceRequestView>, fetched: Seq<bool>)
    requires
        forall|i: int| 0 <= i < fetched.len() ==> !#[trigger] fetched[i],
    ensures
        fetched_requests(requests, fetched).len() == 0,
    decreases requests.len(),
{
    if requests.len() > 0 && fetched.len() > 0 {
        assert(fetched.last() == fetched[fetched.len() - 1]);
        assert forall|i: int| 0 <= i < fetched.drop_last().len() implies !#[trigger] fetched.drop_last()[i] by {
            assert(fetched.drop_last()[i] == fetched[i]);
        }
        lemma_nothing_fetched(requests.drop_last(), fetched.drop_last());
    }
}

/// Refreshing the row twice with the same requests at the same moment:
/// the second refresh fetches nothing and keeps the request times. Right
/// after a refresh no resource is stale, whatever the row held before.
pub proof fn law_refresh_settles(
    catalog: Seq<ResourceLoadable<MetaItem>>,
    requested_at: Seq<(ResourceRequest, i64)>,
    items: Seq<Item>,
    requests: Seq<ResourceRequest>,
    now: i64,
    library: Seq<LibraryItem>,
    catalog1: Seq<ResourceLoadable<MetaItem>>,
    requested_at1: Seq<(ResourceRequest, i64)>,
    items1: Seq<Item>,
    effects1: Seq<ResourceRequest>,
    changed1: bool,
    catalog2: Seq<ResourceLoadable<MetaItem>>,
    requested_at2: Seq<(ResourceRequest, i64)>,
    items2: Seq<Item>,
    effects2: Seq<ResourceRequest>,
    changed2: bool,
)
    requires
        is_refreshed(
            catalog,
            requested_at,
            items,
            requests,
            now,
            library,
            catalog1,
            requested_at1,
            items1,
            effects1,
            changed1,
        ),
        is_refreshed(
            catalog1,
            requested_at1,
            items1,
            requests,
            now,
            library,
            catalog2,
            requested_at2,
            items2,
            effects2,
            changed2,
        ),
    ensures
        effects2.len() == 0,
        requested_at_view(requested_at2) == requested_at_view(requested_at1),
{
    let rv = requests_view(requests);
    let at0 = keep_planned(requested_at_view(requested_at), rv);
    lemma_keep_planned_keys(requested_at_view(requested_at), rv);
    lemma_first_pass(catalog, at0, rv, now, rv.len() as int);
    assert(rv.take(rv.len() as int) =~= rv);
    let first = refresh(catalog, at0, rv, now);
    let at1 = requested_at_view(requested_at1);
    assert(at1 == first.1);
    lemma_keep_planned_identity(at1, rv);
    assert(resource_requests(catalog1) =~= rv);
    assert forall|i: int| 0 <= i < catalog1.len() implies content_fresh(
        (#[trigger] catalog1[i]).content,
        catalog1[i].request@,
        at1,
        now,
    ) by {
        assert(catalog1[i].content == first.2[i]);
        assert(catalog1[i].request@ == rv[i]);
    }
    lemma_second_pass(catalog1, at1, rv, now, rv.len() as int);
    let second = refresh(catalog1, at1, rv, now);
    lemma_nothing_fetched(rv, second.3);
    assert(requests_of(effects2).len() == effects2.len());
}

} // verus!
