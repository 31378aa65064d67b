//! An explicit check of whether a single movie has sources to play.

use vstd::prelude::*;

use crate::models::common::{Loadable, ResourceError, ResourceLoadable};
use crate::runtime::Effects;
use crate::types::addon::{ResourcePath, ResourceRequest};
use crate::types::resource::{MetaItem, Stream, StreamSource};
use vstd::string::StringExecFns;

verus! {

/// The outcome of a source check.
#[derive(Clone, Copy, Debug, PartialEq, Eq, Structural)]
pub enum SourceStatus {
    Unknown,
    Checking,
    SourcesFound,
    ExternalOnly,
    NoSources,
    CheckFailed,
    NoProvider,
    ChooseVideo,
}

/// The movie that is checked, and its selected video.
#[derive(Clone, PartialEq, Eq, Debug)]
pub struct Selected {
    pub meta_path: ResourcePath,
    pub stream_path: Option<ResourcePath>,
    pub guess_stream: bool,
}

/// The id of the checked movie and the outcome of the check.
#[derive(Debug)]
pub struct Preview<'a> {
    pub id: Option<&'a str>,
    pub status: SourceStatus,
}

/// A single-movie check of the meta items and streams that addons give.
/// Meta items are of type `M`.
pub struct SourcePreview<M> {
    pub selected: Option<Selected>,
    pub meta_items: Vec<ResourceLoadable<M>>,
    pub meta_streams: Vec<ResourceLoadable<Vec<Stream>>>,
    pub streams: Vec<ResourceLoadable<Vec<Stream>>>,
    pub generation: u64,
}

/// A resource is pending while nothing was requested or it is loading.
pub open spec fn spec_pending<T>(resource: ResourceLoadable<T>) -> bool {
    resource.content is None || resource.content == Some(Loadable::<T, ResourceError>::Loading)
}

/// A resource failed when it holds an error other than empty content.
pub open spec fn spec_failed<T>(resource: ResourceLoadable<T>) -> bool {
    resource.content matches Some(Loadable::Error(error)) && !(error is EmptyContent)
}

pub open spec fn any_pending<T>(resources: Seq<ResourceLoadable<T>>) -> bool {
    exists|i: int| 0 <= i < resources.len() && #[trigger] spec_pending(resources[i])
}

pub open spec fn any_failed<T>(resources: Seq<ResourceLoadable<T>>) -> bool {
    exists|i: int| 0 <= i < resources.len() && #[trigger] spec_failed(resources[i])
}

pub open spec fn is_ready_content<T>(resource: ResourceLoadable<T>) -> bool {
    resource.content matches Some(Loadable::Ready(_))
}

pub open spec fn any_ready<T>(resources: Seq<ResourceLoadable<T>>) -> bool {
    exists|i: int| 0 <= i < resources.len() && #[trigger] is_ready_content(resources[i])
}

pub open spec fn ready_content(resource: ResourceLoadable<Vec<Stream>>) -> Seq<Stream> {
    match resource.content {
        Some(Loadable::Ready(streams)) => streams@,
        _ => Seq::empty(),
    }
}

/// The streams of all ready resources, in order.
pub open spec fn ready_streams(resources: Seq<ResourceLoadable<Vec<Stream>>>) -> Seq<Stream>
    decreases resources.len(),
{
    if resources.len() == 0 {
        Seq::empty()
    } else {
        ready_streams(resources.drop_last()) + ready_content(resources.last())
    }
}

pub open spec fn is_external(stream: Stream) -> bool {
    stream.source is External
}

pub open spec fn has_playable(streams: Seq<Stream>) -> bool {
    exists|i: int| 0 <= i < streams.len() && !is_external(#[trigger] streams[i])
}

/// The streams that count: the embedded video sources when there are any,
/// the addons' streams otherwise.
pub open spec fn counted_streams<M>(preview: SourcePreview<M>) -> Seq<ResourceLoadable<Vec<Stream>>> {
    if preview.meta_streams@.len() == 0 {
        preview.streams@
    } else {
        preview.meta_streams@
    }
}

/// The outcome of the check.
pub open spec fn spec_status<M>(preview: SourcePreview<M>) -> SourceStatus {
    let streams = counted_streams(preview);
    let flat = ready_streams(streams);
    let has_meta = any_ready(preview.meta_items@);
    if preview.selected is None {
        SourceStatus::Unknown
    } else if has_playable(flat) {
        SourceStatus::SourcesFound
    } else if any_pending(preview.meta_items@) || any_pending(streams) {
        SourceStatus::Checking
    } else if any_failed(streams) || (!has_meta && any_failed(preview.meta_items@)) {
        SourceStatus::CheckFailed
    } else if flat.len() > 0 {
        SourceStatus::ExternalOnly
    } else if preview.meta_items@.len() == 0 || (has_meta && preview.selected->0.stream_path is Some
        && streams.len() == 0) {
        SourceStatus::NoProvider
    } else if has_meta && preview.selected->0.stream_path is None {
        SourceStatus::ChooseVideo
    } else {
        SourceStatus::NoSources
    }
}

/// Whether a resource is pending.
pub fn pending<T>(resource: &ResourceLoadable<T>) -> (r: bool)
    ensures
        r == spec_pending(*resource),
{
    matches!(resource.content, None | Some(Loadable::Loading))
}

/// Whether a resource failed.
pub fn failed<T>(resource: &ResourceLoadable<T>) -> (r: bool)
    ensures
        r == spec_failed(*resource),
{
    match &resource.content {
        Some(Loadable::Error(error)) => !matches!(error, ResourceError::EmptyContent),
        _ => false,
    }
}

fn some_pending<T>(resources: &Vec<ResourceLoadable<T>>) -> (r: bool)
    ensures
        r == any_pending(resources@),
{
    let mut i: usize = 0;
    while i < resources.len()
        invariant
            i <= resources.len(),
            forall|j: int| 0 <= j < i ==> !#[trigger] spec_pending(resources@[j]),
        decreases resources.len() - i,
    {
        if pending(&resources[i]) {
            return true;
        }
        i = i + 1;
    }
    false
}

fn some_failed<T>(resources: &Vec<ResourceLoadable<T>>) -> (r: bool)
    ensures
        r == any_failed(resources@),
{
    let mut i: usize = 0;
    while i < resources.len()
        invariant
            i <= resources.len(),
            forall|j: int| 0 <= j < i ==> !#[trigger] spec_failed(resources@[j]),
        decreases resources.len() - i,
    {
        if failed(&resources[i]) {
            return true;
        }
        i = i + 1;
    }
    false
}

fn some_ready<T>(resources: &Vec<ResourceLoadable<T>>) -> (r: bool)
    ensures
        r == any_ready(resources@),
{
    let mut i: usize = 0;
    while i < resources.len()
        invariant
            i <= resources.len(),
            forall|j: int| 0 <= j < i ==> !#[trigger] is_ready_content(resources@[j]),
        decreases resources.len() - i,
    {
        if matches!(resources[i].content, Some(Loadable::Ready(_))) {
            assert(is_ready_content(resources@[i as int]));
            return true;
        }
        i = i + 1;
    }
    false
}

/// Scans the ready streams: whether one is playable, and whether there are
/// any.
fn scan_streams(resources: &Vec<ResourceLoadable<Vec<Stream>>>) -> (r: (bool, bool))
    ensures
        r.0 == has_playable(ready_streams(resources@)),
        !r.0 ==> r.1 == (ready_streams(resources@).len() > 0),
{
    let mut any = false;
    let mut i: usize = 0;
    while i < resources.len()
        invariant
            i <= resources.len(),
            !has_playable(ready_streams(resources@.take(i as int))),
            any == (ready_streams(resources@.take(i as int)).len() > 0),
        decreases resources.len() - i,
    {
        assert(resources@.take(i + 1).drop_last() =~= resources@.take(i as int));
        let ghost before = ready_streams(resources@.take(i as int));
        if let Some(Loadable::Ready(streams)) = &resources[i].content {
            assert(resources@.take(i + 1).last() == resources@[i as int]);
            assert(ready_streams(resources@.take(i + 1)) == before + streams@);
            let mut j: usize = 0;
            while j < streams.len()
                invariant
                    i < resources.len(),
                    before == ready_streams(resources@.take(i as int)),
                    ready_streams(resources@.take(i + 1)) == before + streams@,
                    j <= streams.len(),
                    forall|k: int| 0 <= k < j ==> is_external(#[trigger] streams@[k]),
                    any == (before.len() > 0 || j > 0),
                decreases streams.len() - j,
            {
                if !matches!(streams[j].source, StreamSource::External { .. }) {
                    proof {
                        let flat = ready_streams(resources@);
                        lemma_ready_streams_prefix(resources@, (i + 1) as int);
                        let all = ready_streams(resources@.take(i + 1));
                        assert(all == before + streams@);
                        assert(all[before.len() + j] == streams@[j as int]);
                        assert(flat[before.len() + j] == streams@[j as int]);
                    }
                    return (true, true);
                }
                any = true;
                j = j + 1;
            }
            assert(!has_playable(ready_streams(resources@.take(i + 1)))) by {
                let all = ready_streams(resources@.take(i + 1));
                assert(all == before + streams@);
                assert forall|k: int| 0 <= k < all.len() implies is_external(#[trigger] all[k]) by {
                    if k >= before.len() {
                        assert(all[k] == streams@[k - before.len()]);
                    } else {
                        assert(all[k] == before[k]);
                    }
                }
            }
        } else {
            assert(ready_streams(resources@.take(i + 1)) =~= before);
        }
        i = i + 1;
    }
    assert(resources@.take(resources.len() as int) =~= resources@);
    (false, any)
}

proof fn lemma_ready_streams_prefix(resources: Seq<ResourceLoadable<Vec<Stream>>>, n: int)
    requires
        0 <= n <= resources.len(),
    ensures
        ready_streams(resources).len() >= ready_streams(resources.take(n)).len(),
        forall|k: int|
            0 <= k < ready_streams(resources.take(n)).len() ==> ready_streams(resources)[k]
                == #[trigger] ready_streams(resources.take(n))[k],
    decreases resources.len(),
{
    if n < resources.len() {
        assert(resources.drop_last().take(n) =~= resources.take(n));
        lemma_ready_streams_prefix(resources.drop_last(), n);
    } else {
        assert(resources.take(n) =~= resources);
    }
}

impl<M> SourcePreview<M> {
    /// A check that has not started.
    pub fn new() -> (r: Self)
        ensures
            r.selected is None,
            r.meta_items@.len() == 0,
            r.meta_streams@.len() == 0,
            r.streams@.len() == 0,
    {
        SourcePreview {
            selected: None,
            meta_items: Vec::new(),
            meta_streams: Vec::new(),
            streams: Vec::new(),
            generation: 0,
        }
    }

    /// The generation of the check: it changes whenever the check is
    /// cleared, so that late answers to an earlier check are told apart.
    pub open spec fn spec_generation(&self) -> u64 {
        self.generation
    }

    /// The outcome of the check.
    pub fn status(&self) -> (r: SourceStatus)
        ensures
            r == spec_status(*self),
    {
        if self.selected.is_none() {
            return SourceStatus::Unknown;
        }
        let streams = if self.meta_streams.len() == 0 {
            &self.streams
        } else {
            &self.meta_streams
        };
        let (playable, external) = scan_streams(streams);
        if playable {
            return SourceStatus::SourcesFound;
        }
        if some_pending(&self.meta_items) || some_pending(streams) {
            return SourceStatus::Checking;
        }
        let has_meta = some_ready(&self.meta_items);
        if some_failed(streams) || (!has_meta && some_failed(&self.meta_items)) {
            return SourceStatus::CheckFailed;
        }
        if external {
            return SourceStatus::ExternalOnly;
        }
        let stream_path_known = match &self.selected {
            Some(selected) => selected.stream_path.is_some(),
            None => false,
        };
        if self.meta_items.len() == 0 || (has_meta && stream_path_known && streams.len() == 0) {
            return SourceStatus::NoProvider;
        }
        if has_meta && !stream_path_known {
            return SourceStatus::ChooseVideo;
        }
        SourceStatus::NoSources
    }

    /// The checked movie's id and the outcome of the check.
    pub fn preview(&self) -> (r: Preview<'_>)
        ensures
            r.status == spec_status(*self),
            match self.selected {
                Some(selected) => r.id matches Some(id) && id@ == selected.meta_path.id@,
                None => r.id is None,
            },
    {
        let id = match &self.selected {
            Some(selected) => Some(selected.meta_path.id.as_str()),
            None => None,
        };
        Preview { id, status: self.status() }
    }

    /// Forgets the checked movie and everything loaded for it, and starts a
    /// new generation.
    pub fn clear(&mut self)
        ensures
            final(self).selected is None,
            final(self).meta_items@.len() == 0,
            final(self).meta_streams@.len() == 0,
            final(self).streams@.len() == 0,
            final(self).spec_generation() == (if old(self).spec_generation() == u64::MAX {
                0
            } else {
                (old(self).spec_generation() + 1) as u64
            }),
    {
        self.generation = if self.generation == u64::MAX {
            0
        } else {
            self.generation + 1
        };
        self.selected = None;
        self.meta_items = Vec::new();
        self.meta_streams = Vec::new();
        self.streams = Vec::new();
    }

    /// Tags the requests of a step with the current generation, so that
    /// their answers can be matched to this check.
    pub fn isolate(&self, effects: Effects<ResourceRequest>) -> (r: Effects<(u64, ResourceRequest)>)
        ensures
            r.has_changed == effects.has_changed,
            r.effect_list().len() == effects.effect_list().len(),
            forall|i: int|
                0 <= i < r.effect_list().len() ==> (#[trigger] r.effect_list()[i]).0
                    == self.spec_generation() && r.effect_list()[i].1 == effects.effect_list()[i],
    {
        let changed = effects.has_changed;
        let requests = effects.into_effects();
        let mut tagged: Vec<(u64, ResourceRequest)> = Vec::new();
        let mut rest = requests;
        let ghost all = rest@;
        while rest.len() > 0
            invariant
                tagged@.len() + rest@.len() == all.len(),
                rest@ == all.subrange(tagged@.len() as int, all.len() as int),
                forall|i: int|
                    0 <= i < tagged@.len() ==> (#[trigger] tagged@[i]).0 == self.generation
                        && tagged@[i].1 == all[i],
            decreases rest.len(),
        {
            let request = rest.remove(0);
            tagged.push((self.generation, request));
            assert(rest@ =~= all.subrange(tagged@.len() as int, all.len() as int));
        }
        let tagged_effects = Effects::many(tagged);
        if changed {
            tagged_effects
        } else {
            tagged_effects.unchanged()
        }
    }
}

/// A meta resource has finished: it is loaded or it failed.
pub open spec fn finished<T>(resource: ResourceLoadable<T>) -> bool {
    resource.content matches Some(Loadable::Ready(_)) || resource.content matches Some(Loadable::Error(_))
}

/// The first meta item that has loaded.
pub open spec fn first_ready_meta(meta_items: Seq<ResourceLoadable<MetaItem>>) -> Option<MetaItem>
    decreases meta_items.len(),
{
    if meta_items.len() == 0 {
        None
    } else {
        match meta_items[0].content {
            Some(Loadable::Ready(meta)) => Some(meta),
            _ => first_ready_meta(meta_items.drop_first()),
        }
    }
}

/// The video to guess for a meta item: its default video, or the meta item
/// itself when it has no videos.
pub open spec fn guessed_video(meta: MetaItem) -> Option<Seq<char>> {
    match meta.preview.default_video_id {
        Some(id) => Some(id@),
        None => if meta.videos@.len() == 0 {
            Some(meta.preview.id@)
        } else {
            None
        },
    }
}

/// Every meta resource has finished.
pub open spec fn all_finished(meta_items: Seq<ResourceLoadable<MetaItem>>) -> bool {
    forall|i: int| 0 <= i < meta_items.len() ==> #[trigger] finished(meta_items[i])
}

/// The guess for the first loaded meta item, once every meta resource has
/// finished.
pub open spec fn ready_guess(meta_items: Seq<ResourceLoadable<MetaItem>>) -> Option<Seq<char>> {
    if all_finished(meta_items) {
        match first_ready_meta(meta_items) {
            Some(meta) => guessed_video(meta),
            None => None,
        }
    } else {
        None
    }
}

/// The video id that a selection gets when it asks for a guess and has no
/// stream yet (see [`ready_guess`]).
pub open spec fn spec_guess(selected: Option<Selected>, meta_items: Seq<ResourceLoadable<MetaItem>>) -> Option<
    Seq<char>,
> {
    match selected {
        Some(s) => if s.stream_path is None && s.guess_stream {
            ready_guess(meta_items)
        } else {
            None
        },
        None => None,
    }
}

fn clone_text(value: &Option<String>) -> (r: Option<String>)
    ensures
        match r {
            Some(s) => value matches Some(v) && s@ == v@,
            None => value is None,
        },
{
    match value {
        Some(s) => Some(s.clone()),
        None => None,
    }
}

/// The guessed video of the loaded meta items, once all have finished.
fn guess_video(meta_items: &[ResourceLoadable<MetaItem>]) -> (r: Option<String>)
    ensures
        match r {
            Some(id) => ready_guess(meta_items@) == Some(id@),
            None => ready_guess(meta_items@) is None,
        },
{
    let mut i: usize = 0;
    while i < meta_items.len()
        invariant
            i <= meta_items.len(),
            forall|j: int| 0 <= j < i ==> #[trigger] finished(meta_items@[j]),
        decreases meta_items.len() - i,
    {
        let done = match &meta_items[i].content {
            Some(Loadable::Ready(_)) => true,
            Some(Loadable::Error(_)) => true,
            _ => false,
        };
        if !done {
            assert(!finished(meta_items@[i as int]));
            return None;
        }
        i = i + 1;
    }
    let mut k: usize = 0;
    assert(all_finished(meta_items@));
    assert(meta_items@.skip(0) =~= meta_items@);
    while k < meta_items.len()
        invariant
            k <= meta_items.len(),
            all_finished(meta_items@),
            first_ready_meta(meta_items@) == first_ready_meta(meta_items@.skip(k as int)),
        decreases meta_items.len() - k,
    {
        assert(meta_items@.skip(k as int)[0] == meta_items@[k as int]);
        match &meta_items[k].content {
            Some(Loadable::Ready(meta)) => {
                return match clone_text(&meta.preview.default_video_id) {
                    Some(id) => Some(id),
                    None => if meta.videos.len() == 0 {
                        Some(meta.preview.id.clone())
                    } else {
                        None
                    },
                };
            },
            _ => {},
        }
        assert(meta_items@.skip(k as int).drop_first() =~= meta_items@.skip(k + 1));
        k = k + 1;
    }
    None
}

/// Where the selection asks for a guess and no stream is chosen, and every
/// meta resource has finished, the stream path becomes the guessed video
/// (see [`spec_guess`]) of the meta item's type and the selection stops
/// asking; otherwise nothing changes.
pub fn selected_guess_stream_update<A>(
    selected: &mut Option<Selected>,
    meta_items: &[ResourceLoadable<MetaItem>],
) -> (r: Effects<A>)
    ensures
        r.effect_list().len() == 0,
        match spec_guess(*old(selected), meta_items@) {
            Some(video_id) => {
                &&& *final(selected) matches Some(s)
                &&& s.meta_path == (*old(selected))->0.meta_path
                &&& !s.guess_stream
                &&& s.stream_path matches Some(p)
                &&& p.resource@ == "stream"@
                &&& p.content_type@ == s.meta_path.content_type@
                &&& p.id@ == video_id
                &&& p.extra@.len() == 0
                &&& r.has_changed
            },
            None => *final(selected) == *old(selected) && !r.has_changed,
        },
{
    let asks = match selected {
        Some(s) => s.stream_path.is_none() && s.guess_stream,
        None => false,
    };
    if !asks {
        return Effects::none().unchanged();
    }
    match guess_video(meta_items) {
        Some(video_id) => {
            match selected {
                Some(s) => {
                    let content_type = s.meta_path.content_type.clone();
                    s.stream_path = Some(
                        ResourcePath {
                            resource: String::from_str("stream"),
                            content_type,
                            id: video_id,
                            extra: Vec::new(),
                        },
                    );
                    s.guess_stream = false;
                },
                None => {},
            }
            Effects::none()
        },
        None => Effects::none().unchanged(),
    }
}

} // verus!
