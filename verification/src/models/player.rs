//! The player's use of IntroDB: which episode to ask about, when to ask,
//! and what intro and outro to show from the answer.

use vstd::prelude::*;
use vstd::string::StrSliceExecFns;

use crate::models::common::resource_loadable::{
    requests_of, resource_update_with_vector_content, takes_request, ResourceAction, ResourceError,
    ResourceLoadable,
};
use crate::models::common::Loadable;
use crate::types::addon::{ResourcePath, ResourceRequest, ResourceRequestView};
use crate::types::library::{LibraryItem, LibraryItemState, LibraryItemStateView, LibraryItemView};
use crate::types::resource::{
    same_stream_value, same_video_value, stream_view, streams_view, video_view, MetaItem, Stream,
    Video, VideoView,
};
use crate::models::ctx::CtxError;
use crate::runtime::Effects;
use crate::order::{int_order, lex_order, law_lex_order_antisymmetric, text_order, then_order};
use crate::sorted::{insertion_sort, sort_with, sorted_by, ItemOrder};
use crate::text::{is_tt_digits, str_eq, tt_digits};
use crate::types::player::{
    IntroData, IntroDbRequest, IntroDbResponse, IntroOutro, IntroSegment, SegmentRange, SeriesInfo,
};

verus! {

/// The IMDb ids that IntroDB accepts: `tt` and seven to twelve digits.
pub open spec fn spec_is_introdb_imdb_id(imdb_id: Seq<char>) -> bool {
    is_tt_digits(imdb_id, 7, 12)
}

/// Whether IntroDB accepts `imdb_id`.
pub fn is_introdb_imdb_id(imdb_id: &str) -> (r: bool)
    ensures
        r == spec_is_introdb_imdb_id(imdb_id@),
{
    tt_digits(imdb_id, 7, 12)
}

/// The part of `id` before its first `:` (all of it when there is none).
pub open spec fn before_colon(id: Seq<char>) -> Seq<char>
    decreases id.len(),
{
    if id.len() == 0 {
        id
    } else if id[0] == ':' {
        Seq::empty()
    } else {
        seq![id[0]] + before_colon(id.drop_first())
    }
}

proof fn lemma_before_colon(id: Seq<char>, k: int)
    requires
        0 <= k <= id.len(),
        forall|j: int| 0 <= j < k ==> id[j] != ':',
        k == id.len() || id[k] == ':',
    ensures
        before_colon(id) == id.subrange(0, k),
    decreases id.len(),
{
    if id.len() > 0 && k > 0 {
        lemma_before_colon(id.drop_first(), k - 1);
        assert(seq![id[0]] + id.drop_first().subrange(0, k - 1) =~= id.subrange(0, k));
    } else if id.len() > 0 {
        assert(id.subrange(0, 0) =~= Seq::<char>::empty());
    } else {
        assert(id.subrange(0, 0) =~= id);
    }
}

fn imdb_part(id: &str) -> (r: &str)
    ensures
        r@ == before_colon(id@),
{
    let n = id.unicode_len();
    let mut k: usize = 0;
    let mut found = false;
    while !found && k < n
        invariant
            n == id@.len(),
            k <= n,
            forall|j: int| 0 <= j < k ==> id@[j] != ':',
            found ==> k < n && id@[k as int] == ':',
        decreases n - k + (if found {
            0int
        } else {
            1int
        }),
    {
        if id.get_char(k) == ':' {
            found = true;
        } else {
            k = k + 1;
        }
    }
    proof {
        lemma_before_colon(id@, k as int);
    }
    id.substring_char(0, k)
}

pub open spec fn request_view(request: IntroDbRequest) -> (Seq<char>, u32, u32) {
    (request.imdb_id@, request.season, request.episode)
}

/// The episode to ask IntroDB about: the item id of the played meta (up to
/// its first `:`) when IntroDB accepts it, with the season and episode.
pub open spec fn spec_intro_db_request(meta_id: Option<Seq<char>>, series_info: Option<SeriesInfo>) -> Option<
    (Seq<char>, u32, u32),
> {
    match (meta_id, series_info) {
        (Some(id), Some(info)) => if spec_is_introdb_imdb_id(before_colon(id)) {
            Some((before_colon(id), info.season, info.episode))
        } else {
            None
        },
        _ => None,
    }
}

pub open spec fn optional_text(s: Option<&str>) -> Option<Seq<char>> {
    match s {
        Some(s) => Some(s@),
        None => None,
    }
}

pub open spec fn optional_request(r: Option<IntroDbRequest>) -> Option<(Seq<char>, u32, u32)> {
    match r {
        Some(r) => Some(request_view(r)),
        None => None,
    }
}

/// The episode to ask IntroDB about, for the played meta id and series
/// info.
pub fn intro_db_request(meta_id: Option<&str>, series_info: Option<SeriesInfo>) -> (r: Option<
    IntroDbRequest,
>)
    ensures
        optional_request(r) == spec_intro_db_request(optional_text(meta_id), series_info),
{
    match (meta_id, series_info) {
        (Some(id), Some(info)) => {
            let imdb_id = imdb_part(id);
            if is_introdb_imdb_id(imdb_id) {
                Some(
                    IntroDbRequest {
                        imdb_id: imdb_id.to_owned(),
                        season: info.season,
                        episode: info.episode,
                    },
                )
            } else {
                None
            }
        },
        _ => None,
    }
}

fn same_request(a: &IntroDbRequest, b: &IntroDbRequest) -> (r: bool)
    ensures
        r == (request_view(*a) == request_view(*b)),
{
    str_eq(a.imdb_id.as_str(), b.imdb_id.as_str()) && a.season == b.season && a.episode
        == b.episode
}

/// An episode is asked about unless the state already holds a request for it.
pub open spec fn needs_fetch(
    state: Option<(IntroDbRequest, Loadable<IntroDbResponse, CtxError>)>,
    request: (Seq<char>, u32, u32),
) -> bool {
    match state {
        None => true,
        Some(state) => request_view(state.0) != request,
    }
}

/// The reducer of the IntroDB state of the player.
///
/// An episode that IntroDB accepts is asked about (and its answer starts
/// loading) unless the state already holds a request for that episode;
/// without such an episode the state is cleared.
pub fn intro_db_update(
    meta_id: Option<&str>,
    series_info: Option<SeriesInfo>,
    intro_db: &mut Option<(IntroDbRequest, Loadable<IntroDbResponse, CtxError>)>,
) -> (r: Effects<IntroDbRequest>)
    ensures
        match spec_intro_db_request(optional_text(meta_id), series_info) {
            Some(request) => if needs_fetch(*old(intro_db), request) {
                &&& *final(intro_db) matches Some(state) && request_view(state.0) == request
                    && state.1 is Loading
                &&& r.effect_list().len() == 1
                &&& request_view(r.effect_list()[0]) == request
                &&& r.has_changed
            } else {
                &&& *final(intro_db) == *old(intro_db)
                &&& r.effect_list().len() == 0
                &&& !r.has_changed
            },
            None => {
                &&& *final(intro_db) is None
                &&& r.effect_list().len() == 0
                &&& r.has_changed == (*old(intro_db) is Some)
            },
        },
{
    match intro_db_request(meta_id, series_info) {
        Some(request) => {
            let fetch = match intro_db {
                None => true,
                Some((current, _)) => !same_request(current, &request),
            };
            if fetch {
                let effect = IntroDbRequest {
                    imdb_id: request.imdb_id.clone(),
                    season: request.season,
                    episode: request.episode,
                };
                *intro_db = Some((request, Loadable::Loading));
                Effects::one(effect)
            } else {
                Effects::none().unchanged()
            }
        },
        None => {
            if intro_db.is_some() {
                *intro_db = None;
                Effects::none()
            } else {
                Effects::none().unchanged()
            }
        },
    }
}

/// `intro` in any ASCII case.
pub open spec fn is_intro_name(name: Seq<char>) -> bool {
    name.len() == 5 && crate::text::ascii_lower(name[0]) == 'i' && crate::text::ascii_lower(name[1])
        == 'n' && crate::text::ascii_lower(name[2]) == 't' && crate::text::ascii_lower(name[3])
        == 'r' && crate::text::ascii_lower(name[4]) == 'o'
}

/// The first segment named `intro` (in any ASCII case).
pub open spec fn first_intro(segments: Seq<IntroSegment>) -> Option<IntroData>
    decreases segments.len(),
{
    if segments.len() == 0 {
        None
    } else if is_intro_name(segments[0].segment@) {
        Some(IntroData { from: segments[0].from, to: segments[0].to, duration: None })
    } else {
        first_intro(segments.drop_first())
    }
}

pub open spec fn segments_view(segments: Seq<IntroSegment>) -> Seq<(Seq<char>, u64, u64)> {
    segments.map_values(|s: IntroSegment| (s.segment@, s.from, s.to))
}

pub open spec fn intro_outro_view(value: IntroOutro) -> (Option<IntroData>, Option<u64>, Seq<
    (Seq<char>, u64, u64),
>) {
    (value.intro, value.outro, segments_view(value.segments@))
}

/// What the player shows for an IntroDB answer: the intro, the start of the
/// outro, and all segments; nothing when the answer holds none of these.
pub open spec fn spec_intro_outro(response: IntroDbResponse) -> Option<
    (Option<IntroData>, Option<u64>, Seq<(Seq<char>, u64, u64)>),
> {
    let intro = first_intro(response.segments@);
    let outro = match response.outro {
        Some(segment) => Some(segment.from),
        None => None,
    };
    if intro is None && outro is None && response.segments@.len() == 0 {
        None
    } else {
        Some((intro, outro, segments_view(response.segments@)))
    }
}

fn is_intro(name: &str) -> (r: bool)
    ensures
        r == is_intro_name(name@),
{
    if name.unicode_len() != 5 {
        return false;
    }
    let a = name.get_char(0);
    let b = name.get_char(1);
    let c = name.get_char(2);
    let d = name.get_char(3);
    let e = name.get_char(4);
    (a == 'i' || a == 'I') && (b == 'n' || b == 'N') && (c == 't' || c == 'T') && (d == 'r' || d
        == 'R') && (e == 'o' || e == 'O')
}

fn clone_segments(segments: &Vec<IntroSegment>) -> (r: Vec<IntroSegment>)
    ensures
        segments_view(r@) == segments_view(segments@),
{
    let mut out: Vec<IntroSegment> = Vec::new();
    let mut i: usize = 0;
    while i < segments.len()
        invariant
            i <= segments.len(),
            out@.len() == i,
            forall|j: int|
                0 <= j < i ==> (#[trigger] out@[j]).segment@ == segments@[j].segment@
                    && out@[j].from == segments@[j].from && out@[j].to == segments@[j].to,
        decreases segments.len() - i,
    {
        let s = &segments[i];
        out.push(IntroSegment { segment: s.segment.clone(), from: s.from, to: s.to });
        i = i + 1;
    }
    assert(segments_view(out@) =~= segments_view(segments@));
    out
}

fn find_intro(segments: &Vec<IntroSegment>) -> (r: Option<IntroData>)
    ensures
        r == first_intro(segments@),
{
    let mut i: usize = 0;
    assert(segments@.skip(0) =~= segments@);
    while i < segments.len()
        invariant
            i <= segments.len(),
            first_intro(segments@) == first_intro(segments@.skip(i as int)),
        decreases segments.len() - i,
    {
        assert(segments@.skip(i as int)[0] == segments@[i as int]);
        if is_intro(segments[i].segment.as_str()) {
            return Some(IntroData { from: segments[i].from, to: segments[i].to, duration: None });
        }
        assert(segments@.skip(i as int).drop_first() =~= segments@.skip(i + 1));
        i = i + 1;
    }
    assert(segments@.skip(i as int).len() == 0);
    None
}

/// What the player shows for an IntroDB answer.
pub fn intro_outro(response: &IntroDbResponse) -> (r: Option<IntroOutro>)
    ensures
        match r {
            Some(value) => spec_intro_outro(*response) == Some(intro_outro_view(value)),
            None => spec_intro_outro(*response) is None,
        },
{
    let intro = find_intro(&response.segments);
    let outro = match response.outro {
        Some(segment) => Some(segment.from),
        None => None,
    };
    if intro.is_none() && outro.is_none() && response.segments.len() == 0 {
        None
    } else {
        Some(IntroOutro { intro, outro, segments: clone_segments(&response.segments) })
    }
}

fn same_intro_outro(a: &IntroOutro, b: &IntroOutro) -> (r: bool)
    ensures
        r == (intro_outro_view(*a) == intro_outro_view(*b)),
{
    if a.intro != b.intro || a.outro != b.outro || a.segments.len() != b.segments.len() {
        proof {
            if intro_outro_view(*a) == intro_outro_view(*b) {
                assert(segments_view(a.segments@).len() == a.segments@.len());
            }
        }
        return false;
    }
    let mut i: usize = 0;
    while i < a.segments.len()
        invariant
            i <= a.segments.len(),
            a.segments.len() == b.segments.len(),
            forall|j: int|
                0 <= j < i ==> #[trigger] segments_view(a.segments@)[j] == segments_view(
                    b.segments@,
                )[j],
        decreases a.segments.len() - i,
    {
        let x = &a.segments[i];
        let y = &b.segments[i];
        if !str_eq(x.segment.as_str(), y.segment.as_str()) || x.from != y.from || x.to != y.to {
            proof {
                if intro_outro_view(*a) == intro_outro_view(*b) {
                    assert(segments_view(a.segments@)[i as int] == segments_view(b.segments@)[i as int]);
                }
            }
            return false;
        }
        i = i + 1;
    }
    assert(segments_view(a.segments@) =~= segments_view(b.segments@));
    true
}

pub open spec fn optional_intro_outro(value: Option<IntroOutro>) -> Option<
    (Option<IntroData>, Option<u64>, Seq<(Seq<char>, u64, u64)>),
> {
    match value {
        Some(v) => Some(intro_outro_view(v)),
        None => None,
    }
}

/// What the player shows for its IntroDB state: the intro and outro of a
/// loaded answer, nothing otherwise.
pub open spec fn spec_next_intro_outro(
    intro_db: Option<(IntroDbRequest, Loadable<IntroDbResponse, CtxError>)>,
) -> Option<(Option<IntroData>, Option<u64>, Seq<(Seq<char>, u64, u64)>)> {
    match intro_db {
        Some((_, Loadable::Ready(response))) => spec_intro_outro(response),
        _ => None,
    }
}

/// The reducer of the player's intro and outro: they follow the IntroDB
/// state; the model changes when what is shown changes.
pub fn intro_outro_update<A>(
    intro_outro_state: &mut Option<IntroOutro>,
    intro_db: &Option<(IntroDbRequest, Loadable<IntroDbResponse, CtxError>)>,
) -> (r: Effects<A>)
    ensures
        optional_intro_outro(*final(intro_outro_state)) == spec_next_intro_outro(*intro_db),
        r.effect_list().len() == 0,
        r.has_changed == (optional_intro_outro(*old(intro_outro_state)) != spec_next_intro_outro(
            *intro_db,
        )),
{
    let next = match intro_db {
        Some((_, Loadable::Ready(response))) => intro_outro(response),
        _ => None,
    };
    let same = match (&*intro_outro_state, &next) {
        (None, None) => true,
        (Some(a), Some(b)) => same_intro_outro(a, b),
        _ => false,
    };
    if same {
        Effects::none().unchanged()
    } else {
        *intro_outro_state = next;
        Effects::none()
    }
}

} // verus!

verus! {

/// `outro` in any ASCII case.
pub open spec fn is_outro_name(name: Seq<char>) -> bool {
    name.len() == 5 && crate::text::ascii_lower(name[0]) == 'o' && crate::text::ascii_lower(name[1])
        == 'u' && crate::text::ascii_lower(name[2]) == 't' && crate::text::ascii_lower(name[3])
        == 'r' && crate::text::ascii_lower(name[4]) == 'o'
}

fn is_outro(name: &str) -> (r: bool)
    ensures
        r == is_outro_name(name@),
{
    if name.unicode_len() != 5 {
        return false;
    }
    let a = name.get_char(0);
    let b = name.get_char(1);
    let c = name.get_char(2);
    let d = name.get_char(3);
    let e = name.get_char(4);
    (a == 'o' || a == 'O') && (b == 'u' || b == 'U') && (c == 't' || c == 'T') && (d == 'r' || d
        == 'R') && (e == 'o' || e == 'O')
}

/// The range of a segment of an IntroDB answer: where the segment is
/// confident enough and has both times, the start before the end.
pub open spec fn spec_intro_db_segment(confident: bool, from: Option<u64>, to: Option<u64>) -> Option<
    SegmentRange,
> {
    match (from, to) {
        (Some(f), Some(t)) => if confident && f < t {
            Some(SegmentRange { from: f, to: t })
        } else {
            None
        },
        _ => None,
    }
}

/// The range of a segment of an IntroDB answer, as
/// [`spec_intro_db_segment`] gives it.
pub fn intro_db_segment(confident: bool, from: Option<u64>, to: Option<u64>) -> (r: Option<
    SegmentRange,
>)
    ensures
        r == spec_intro_db_segment(confident, from, to),
{
    match (from, to) {
        (Some(f), Some(t)) => if confident && f < t {
            Some(SegmentRange { from: f, to: t })
        } else {
            None
        },
        _ => None,
    }
}

/// The outro of the named ranges: the last range named `outro`.
pub open spec fn named_outro(entries: Seq<(String, Option<SegmentRange>)>) -> Option<SegmentRange>
    decreases entries.len(),
{
    if entries.len() == 0 {
        None
    } else if is_outro_name(entries.last().0@) && entries.last().1 is Some {
        entries.last().1
    } else {
        named_outro(entries.drop_last())
    }
}

/// The segments of the named ranges other than the outro, in order.
pub open spec fn named_segments(entries: Seq<(String, Option<SegmentRange>)>) -> Seq<IntroSegment>
    decreases entries.len(),
{
    if entries.len() == 0 {
        Seq::empty()
    } else {
        let rest = named_segments(entries.drop_last());
        match entries.last().1 {
            Some(range) => if is_outro_name(entries.last().0@) {
                rest
            } else {
                rest.push(IntroSegment { segment: entries.last().0, from: range.from, to: range.to })
            },
            None => rest,
        }
    }
}

/// Segments by start, then by name.
pub struct SegmentsByStart;

impl ItemOrder<IntroSegment> for SegmentsByStart {
    open spec fn order(&self, a: IntroSegment, b: IntroSegment) -> int {
        then_order(
            int_order(a.from as int, b.from as int),
            lex_order(vstd::utf8::encode_utf8(a.segment@), vstd::utf8::encode_utf8(b.segment@)),
        )
    }

    fn compare(&self, a: &IntroSegment, b: &IntroSegment) -> (r: std::cmp::Ordering) {
        if a.from < b.from {
            std::cmp::Ordering::Less
        } else if a.from > b.from {
            std::cmp::Ordering::Greater
        } else {
            text_order(a.segment.as_str(), b.segment.as_str())
        }
    }

    proof fn order_antisymmetric(&self, a: IntroSegment, b: IntroSegment) {
        law_lex_order_antisymmetric(
            vstd::utf8::encode_utf8(a.segment@),
            vstd::utf8::encode_utf8(b.segment@),
        );
    }
}

/// An IntroDB answer from its named ranges (in the order of the answer):
/// the last range named `outro` (in any ASCII case) is the outro, and the
/// other ranges are the segments, by start and then by name.
pub fn intro_db_response(entries: Vec<(String, Option<SegmentRange>)>) -> (r: IntroDbResponse)
    ensures
        r.outro == named_outro(entries@),
        r.segments@ == insertion_sort(SegmentsByStart, named_segments(entries@)),
        r.segments@.to_multiset() == named_segments(entries@).to_multiset(),
        sorted_by(SegmentsByStart, r.segments@),
{
    let ghost all = entries@;
    assert(all.len() == entries.len());
    let mut rest = entries;
    let mut segments: Vec<IntroSegment> = Vec::new();
    let mut outro: Option<SegmentRange> = None;
    let mut i: usize = 0;
    assert(rest@ =~= all.subrange(0, all.len() as int));
    while rest.len() > 0
        invariant
            i + rest@.len() == all.len(),
            all.len() <= usize::MAX,
            rest@ =~= all.subrange(i as int, all.len() as int),
            outro == named_outro(all.take(i as int)),
            segments@ == named_segments(all.take(i as int)),
        decreases rest.len(),
    {
        let ghost before = rest@;
        let entry = rest.remove(0);
        assert(entry == all[i as int]);
        assert(all.take(i + 1).drop_last() =~= all.take(i as int));
        assert(all.take(i + 1).last() == all[i as int]);
        assert(rest@ =~= all.subrange(i + 1, all.len() as int));
        let (name, range) = entry;
        match range {
            Some(r) => {
                if is_outro(name.as_str()) {
                    outro = Some(r);
                } else {
                    segments.push(IntroSegment { segment: name, from: r.from, to: r.to });
                }
            },
            None => {},
        }
        i = i + 1;
    }
    assert(all.take(all.len() as int) =~= all);
    let sorted = sort_with(&SegmentsByStart, segments);
    IntroDbResponse { segments: sorted, outro }
}

} // verus!

verus! {

/// The stream being played, the requests for it and for its meta item, and
/// the path of its subtitles.
pub struct Selected {
    pub stream: Stream,
    pub stream_request: Option<ResourceRequest>,
    pub meta_request: Option<ResourceRequest>,
    pub subtitles_path: Option<ResourcePath>,
}

/// What is known of the played file: its OpenSubtitles hash, size and name.
#[derive(Clone, PartialEq, Eq, Debug)]
pub struct VideoParams {
    pub hash: Option<String>,
    pub size: Option<u64>,
    pub filename: Option<String>,
}

/// What is reported with playback events about the library item, the
/// device and the player.
#[derive(Clone, Default, PartialEq, Eq, Debug)]
pub struct AnalyticsContext {
    pub id: Option<String>,
    pub content_type: Option<String>,
    pub name: Option<String>,
    pub video_id: Option<String>,
    pub time: Option<u64>,
    pub duration: Option<u64>,
    pub device_type: Option<String>,
    pub device_name: Option<String>,
    pub player_duration: Option<u64>,
    pub player_video_width: u64,
    pub player_video_height: u64,
    pub has_trakt: bool,
}

/// The id of the video that the played stream was requested for.
pub open spec fn played_video_id(selected: Option<Selected>) -> Option<Seq<char>> {
    match selected {
        Some(s) => match s.stream_request {
            Some(request) => Some(request.path.id@),
            None => None,
        },
        None => None,
    }
}

/// The meta item, once loaded.
pub open spec fn loaded_meta(meta_item: Option<ResourceLoadable<MetaItem>>) -> Option<MetaItem> {
    match meta_item {
        Some(resource) => match resource.content {
            Some(Loadable::Ready(meta)) => Some(meta),
            _ => None,
        },
        None => None,
    }
}

/// The position of the first video with the id.
pub open spec fn video_position(videos: Seq<Video>, id: Seq<char>) -> Option<int>
    decreases videos.len(),
{
    if videos.len() == 0 {
        None
    } else if videos[0].id@ == id {
        Some(0)
    } else {
        match video_position(videos.drop_first(), id) {
            Some(p) => Some(p + 1),
            None => None,
        }
    }
}

proof fn lemma_video_position(videos: Seq<Video>, id: Seq<char>, k: int)
    requires
        0 <= k <= videos.len(),
        forall|j: int| 0 <= j < k ==> (#[trigger] videos[j]).id@ != id,
    ensures
        k < videos.len() && videos[k].id@ == id ==> video_position(videos, id) == Some(k),
        k == videos.len() ==> video_position(videos, id) is None,
    decreases k,
{
    if k > 0 {
        assert forall|j: int| 0 <= j < k - 1 implies (#[trigger] videos.drop_first()[j]).id@ != id by {
            assert(videos.drop_first()[j] == videos[j + 1]);
        }
        lemma_video_position(videos.drop_first(), id, k - 1);
        if k < videos.len() {
            assert(videos.drop_first()[k - 1] == videos[k]);
        }
    } else if videos.len() > 0 {
    }
}

fn find_video(videos: &Vec<Video>, id: &str) -> (r: Option<usize>)
    ensures
        match r {
            Some(p) => video_position(videos@, id@) == Some(p as int) && p < videos.len(),
            None => video_position(videos@, id@) is None,
        },
{
    let mut i: usize = 0;
    while i < videos.len()
        invariant
            i <= videos.len(),
            forall|j: int| 0 <= j < i ==> (#[trigger] videos@[j]).id@ != id@,
        decreases videos.len() - i,
    {
        if str_eq(videos[i].id.as_str(), id) {
            proof {
                lemma_video_position(videos@, id@, i as int);
            }
            return Some(i);
        }
        i = i + 1;
    }
    proof {
        lemma_video_position(videos@, id@, i as int);
    }
    None
}

fn loaded<'a>(meta_item: &'a Option<ResourceLoadable<MetaItem>>) -> (r: Option<&'a MetaItem>)
    ensures
        match r {
            Some(m) => loaded_meta(*meta_item) == Some(*m),
            None => loaded_meta(*meta_item) is None,
        },
{
    match meta_item {
        Some(resource) => match &resource.content {
            Some(Loadable::Ready(meta)) => Some(meta),
            _ => None,
        },
        None => None,
    }
}

fn played_id<'a>(selected: &'a Option<Selected>) -> (r: Option<&'a String>)
    ensures
        match r {
            Some(id) => played_video_id(*selected) == Some(id@),
            None => played_video_id(*selected) is None,
        },
{
    match selected {
        Some(s) => match &s.stream_request {
            Some(request) => Some(&request.path.id),
            None => None,
        },
        None => None,
    }
}

/// The season and episode of the played video.
pub open spec fn spec_series_info(
    selected: Option<Selected>,
    meta_item: Option<ResourceLoadable<MetaItem>>,
) -> Option<SeriesInfo> {
    match (played_video_id(selected), loaded_meta(meta_item)) {
        (Some(id), Some(meta)) => match video_position(meta.videos@, id) {
            Some(p) => meta.videos@[p].series_info,
            None => None,
        },
        _ => None,
    }
}

/// The reducer of the season and episode of the played video.
pub fn series_info_update<A>(
    series_info: &mut Option<SeriesInfo>,
    selected: &Option<Selected>,
    meta_item: &Option<ResourceLoadable<MetaItem>>,
) -> (r: Effects<A>)
    ensures
        *final(series_info) == spec_series_info(*selected, *meta_item),
        r.effect_list().len() == 0,
        r.has_changed == (*old(series_info) != *final(series_info)),
{
    let next = match (played_id(selected), loaded(meta_item)) {
        (Some(id), Some(meta)) => match find_video(&meta.videos, id.as_str()) {
            Some(p) => meta.videos[p].series_info,
            None => None,
        },
        _ => None,
    };
    if *series_info == next {
        Effects::none().unchanged()
    } else {
        *series_info = next;
        Effects::none()
    }
}

/// The season of a video, zero when it has none.
pub open spec fn season_of(video: Video) -> u32 {
    match video.series_info {
        Some(info) => info.season,
        None => 0,
    }
}

/// The video after the played one, unless it starts a season of specials
/// after a regular season; it comes with the played stream, where there is
/// one.
pub open spec fn spec_next_video(
    stream: Option<Stream>,
    selected: Option<Selected>,
    meta_item: Option<ResourceLoadable<MetaItem>>,
) -> Option<VideoView> {
    match (played_video_id(selected), loaded_meta(meta_item)) {
        (Some(id), Some(meta)) => match video_position(meta.videos@, id) {
            Some(p) => if p + 1 < meta.videos@.len() {
                let current = meta.videos@[p];
                let next = meta.videos@[p + 1];
                if season_of(next) != 0 || season_of(current) == season_of(next) {
                    let v = video_view(next);
                    match stream {
                        Some(s) => Some((v.0, v.1, v.2, v.3, seq![stream_view(s)], v.5)),
                        None => Some(v),
                    }
                } else {
                    None
                }
            } else {
                None
            },
            None => None,
        },
        _ => None,
    }
}

pub open spec fn optional_video_view(video: Option<Video>) -> Option<VideoView> {
    match video {
        Some(v) => Some(video_view(v)),
        None => None,
    }
}

fn same_video(a: &Option<Video>, b: &Option<Video>) -> (r: bool)
    ensures
        r == (optional_video_view(*a) == optional_video_view(*b)),
{
    match (a, b) {
        (Some(x), Some(y)) => same_video_value(x, y),
        (None, None) => true,
        _ => false,
    }
}

/// The reducer of the video after the played one.
pub fn next_video_update<A>(
    video: &mut Option<Video>,
    stream: &Option<Stream>,
    selected: &Option<Selected>,
    meta_item: &Option<ResourceLoadable<MetaItem>>,
) -> (r: Effects<A>)
    ensures
        optional_video_view(*final(video)) == spec_next_video(*stream, *selected, *meta_item),
        r.effect_list().len() == 0,
        r.has_changed == (optional_video_view(*old(video)) != optional_video_view(*final(video))),
{
    let next: Option<Video> = match (played_id(selected), loaded(meta_item)) {
        (Some(id), Some(meta)) => match find_video(&meta.videos, id.as_str()) {
            Some(p) => if p + 1 < meta.videos.len() {
                let current = &meta.videos[p];
                let following = &meta.videos[p + 1];
                let current_season = match current.series_info {
                    Some(info) => info.season,
                    None => 0,
                };
                let next_season = match following.series_info {
                    Some(info) => info.season,
                    None => 0,
                };
                if next_season != 0 || current_season == next_season {
                    let mut next_video = following.clone();
                    match stream {
                        Some(s) => {
                            next_video.streams = vec![s.clone()];
                            assert(streams_view(next_video.streams@) =~= seq![stream_view(*s)]);
                        },
                        None => {},
                    }
                    Some(next_video)
                } else {
                    None
                }
            } else {
                None
            },
            None => None,
        },
        _ => None,
    };
    if same_video(video, &next) {
        *video = next;
        Effects::none().unchanged()
    } else {
        *video = next;
        Effects::none()
    }
}

/// The request for the streams of the next video: the request of the
/// played stream, for the next video's id.
pub open spec fn next_streams_request(selected: Option<Selected>, next_video: Option<Video>) -> Option<
    ResourceRequestView,
> {
    match (selected, next_video) {
        (Some(s), Some(v)) => match s.stream_request {
            Some(request) => Some(ResourceRequestView { id: v.id@, ..request@ }),
            None => None,
        },
        _ => None,
    }
}

/// The reducer of the streams of the next video: they are requested for
/// the next video, as a resource takes a request.
pub fn next_streams_update(
    next_streams: &mut Option<ResourceLoadable<Vec<Stream>>>,
    next_video: &Option<Video>,
    selected: &Option<Selected>,
) -> (r: Effects<ResourceRequest>)
    ensures
        match next_streams_request(*selected, *next_video) {
            Some(request) => {
                let taken = match *old(next_streams) {
                    Some(resource) => takes_request(resource, request),
                    None => true,
                };
                if taken {
                    &&& (*final(next_streams)) is Some
                    &&& (*final(next_streams))->0.request@ == request
                    &&& (*final(next_streams))->0.content == Some(
                        Loadable::<Vec<Stream>, ResourceError>::Loading,
                    )
                    &&& requests_of(r.effect_list()) == seq![request]
                    &&& r.has_changed
                } else {
                    &&& *final(next_streams) == *old(next_streams)
                    &&& r.effect_list().len() == 0
                    &&& !r.has_changed
                }
            },
            None => {
                &&& *final(next_streams) == *old(next_streams)
                &&& r.effect_list().len() == 0
                &&& !r.has_changed
            },
        },
{
    let stream_request = match selected {
        Some(s) => match &s.stream_request {
            Some(request) => request,
            None => return Effects::none().unchanged(),
        },
        None => return Effects::none().unchanged(),
    };
    match next_video {
        Some(video) => {
            let mut request = stream_request.duplicate();
            request.path.id = video.id.clone();
            match next_streams {
                Some(resource) => resource_update_with_vector_content(
                    resource,
                    ResourceAction::ResourceRequested { request: &request },
                ),
                None => {
                    let mut resource = ResourceLoadable { request: request.duplicate(), content: None };
                    let effects = resource_update_with_vector_content(
                        &mut resource,
                        ResourceAction::ResourceRequested { request: &request },
                    );
                    *next_streams = Some(resource);
                    effects
                },
            }
        },
        None => Effects::none().unchanged(),
    }
}

/// The reducer of the library item's state when another video of it is
/// played: the played time restarts (at 1 where a next video follows, else
/// at 0) and the item is to be stored.
pub fn library_item_state_update(
    library_item: &mut Option<LibraryItem>,
    next_video: Option<&Video>,
    selected: &Option<Selected>,
) -> (r: Effects<LibraryItem>)
    ensures
        match (*old(library_item), played_video_id(*selected)) {
            (Some(item), Some(id)) => match item.state.video_id {
                Some(state_video) => if id != state_video@ {
                    &&& *final(library_item) == Some(LibraryItem {
                        state: LibraryItemState {
                            time_offset: if next_video is Some {
                                1
                            } else {
                                0
                            },
                            ..item.state
                        },
                        ..item
                    })
                    &&& r.effect_list() == seq![(*final(library_item))->0]
                    &&& r.has_changed
                } else {
                    *final(library_item) == *old(library_item) && r.effect_list().len() == 0
                        && !r.has_changed
                },
                None => *final(library_item) == *old(library_item) && r.effect_list().len() == 0
                    && !r.has_changed,
            },
            _ => *final(library_item) == *old(library_item) && r.effect_list().len() == 0
                && !r.has_changed,
        },
{
    match library_item {
        Some(item) => match played_id(selected) {
            Some(id) => {
                let differs = match &item.state.video_id {
                    Some(state_video) => !str_eq(id.as_str(), state_video.as_str()),
                    None => false,
                };
                if differs {
                    item.state.time_offset = if next_video.is_some() {
                        1
                    } else {
                        0
                    };
                    Effects::one(item.clone())
                } else {
                    Effects::none().unchanged()
                }
            },
            None => Effects::none().unchanged(),
        },
        None => Effects::none().unchanged(),
    }
}

/// The item after the player reports that `video_id` is at `time` of
/// `duration` (milliseconds) at time `now`: it was last watched now. For
/// another video than the item's, the video becomes the item's and its
/// watched time starts over (added to the overall one) and it is no longer
/// flagged watched; for the same video, the time since the offset is added
/// to the watched and the overall time (saturating). A time past the offset
/// becomes the offset, with the duration.
pub open spec fn spec_time_progress(
    item: LibraryItemView,
    video_id: Seq<char>,
    time: u64,
    duration: u64,
    now: i64,
) -> LibraryItemView {
    let s = item.state;
    let progressed = if s.video_id != Some(video_id) {
        LibraryItemStateView {
            last_watched: Some(now),
            video_id: Some(video_id),
            overall_time_watched: s.overall_time_watched.saturating_add(s.time_watched),
            time_watched: 0,
            flagged_watched: 0,
            ..s
        }
    } else {
        let watched = time.saturating_sub(s.time_offset);
        LibraryItemStateView {
            last_watched: Some(now),
            time_watched: s.time_watched.saturating_add(watched),
            overall_time_watched: s.overall_time_watched.saturating_add(watched),
            ..s
        }
    };
    LibraryItemView {
        state: if time > s.time_offset {
            LibraryItemStateView { time_offset: time, duration, ..progressed }
        } else {
            progressed
        },
        ..item
    }
}

/// The item after its watched time was held against the watched threshold
/// (`above_threshold`: the watched time exceeds the threshold share of the
/// duration), and whether the item is now to be reported watched. An item
/// not yet flagged watched that is above the threshold is flagged and
/// counted as watched once more. A temporary item never watched is removed,
/// and a removed item is temporary.
pub open spec fn spec_time_watched(item: LibraryItemView, above_threshold: bool) -> (LibraryItemView, bool) {
    let reached = item.state.flagged_watched == 0 && above_threshold;
    let state = if reached {
        LibraryItemStateView {
            flagged_watched: 1,
            times_watched: item.state.times_watched.saturating_add(1),
            ..item.state
        }
    } else {
        item.state
    };
    let removed = if item.temp && state.times_watched == 0 {
        true
    } else {
        item.removed
    };
    (LibraryItemView { state, removed, temp: removed || item.temp, ..item }, reached)
}

/// Applies [`spec_time_progress`] to the library item of the player.
pub fn time_changed_progress(item: &mut LibraryItem, video_id: &str, time: u64, duration: u64, now: i64)
    ensures
        final(item)@ == spec_time_progress(old(item)@, video_id@, time, duration, now),
{
    let same = match &item.state.video_id {
        Some(current) => str_eq(current.as_str(), video_id),
        None => false,
    };
    let offset = item.state.time_offset;
    item.state.last_watched = Some(now);
    if !same {
        item.state.video_id = Some(video_id.to_string());
        item.state.overall_time_watched = item.state.overall_time_watched.saturating_add(item.state.time_watched);
        item.state.time_watched = 0;
        item.state.flagged_watched = 0;
    } else {
        let watched = time.saturating_sub(offset);
        item.state.time_watched = item.state.time_watched.saturating_add(watched);
        item.state.overall_time_watched = item.state.overall_time_watched.saturating_add(watched);
    }
    if time > offset {
        item.state.time_offset = time;
        item.state.duration = duration;
    }
}

/// Applies [`spec_time_watched`] to the library item of the player, and
/// tells whether the item is to be reported watched.
pub fn time_changed_watched(item: &mut LibraryItem, above_threshold: bool) -> (r: bool)
    ensures
        (final(item)@, r) == spec_time_watched(old(item)@, above_threshold),
{
    let reached = item.state.flagged_watched == 0 && above_threshold;
    if reached {
        item.state.flagged_watched = 1;
        item.state.times_watched = item.state.times_watched.saturating_add(1);
    }
    if item.temp && item.state.times_watched == 0 {
        item.removed = true;
    }
    if item.removed {
        item.temp = true;
    }
    reached
}

/// The library item of the player after a seek to `time` of `duration` at
/// time `now`: last watched now, at the new offset and duration, and
/// nothing else changed (seeking adds no watched time).
pub fn seek_progress(item: &mut LibraryItem, time: u64, duration: u64, now: i64)
    ensures
        final(item)@ == (LibraryItemView {
            state: LibraryItemStateView {
                last_watched: Some(now),
                time_offset: time,
                duration,
                ..old(item)@.state
            },
            ..old(item)@
        }),
{
    item.state.last_watched = Some(now);
    item.state.time_offset = time;
    item.state.duration = duration;
}

/// A copy of the text.
fn copy_text(value: &Option<String>) -> (r: Option<String>)
    ensures
        r == *value,
{
    match value {
        Some(s) => Some(s.clone()),
        None => None,
    }
}

/// The context with nothing known.
pub open spec fn empty_context() -> AnalyticsContext {
    AnalyticsContext {
        id: None,
        content_type: None,
        name: None,
        video_id: None,
        time: None,
        duration: None,
        device_type: None,
        device_name: None,
        player_duration: None,
        player_video_width: 0,
        player_video_height: 0,
        has_trakt: false,
    }
}

/// The context reported with an event: the player's, or one with nothing
/// known.
pub open spec fn reported_context(context: Option<AnalyticsContext>) -> AnalyticsContext {
    match context {
        Some(c) => c,
        None => empty_context(),
    }
}

fn context_of(context: &Option<AnalyticsContext>) -> (r: AnalyticsContext)
    ensures
        r == reported_context(*context),
{
    match context {
        Some(c) => AnalyticsContext {
            id: copy_text(&c.id),
            content_type: copy_text(&c.content_type),
            name: copy_text(&c.name),
            video_id: copy_text(&c.video_id),
            time: c.time,
            duration: c.duration,
            device_type: copy_text(&c.device_type),
            device_name: copy_text(&c.device_name),
            player_duration: c.player_duration,
            player_video_width: c.player_video_width,
            player_video_height: c.player_video_height,
            has_trakt: c.has_trakt,
        },
        None => AnalyticsContext {
            id: None,
            content_type: None,
            name: None,
            video_id: None,
            time: None,
            duration: None,
            device_type: None,
            device_name: None,
            player_duration: None,
            player_video_width: 0,
            player_video_height: 0,
            has_trakt: false,
        },
    }
}

/// The state of playback: whether a stream is selected, the library item
/// played, the context reported with events, whether the stream has loaded
/// (and when loading began, in milliseconds since the Unix epoch), whether
/// it is paused, whether it ended, and whether a next video follows.
pub struct PlaybackState {
    pub selected: bool,
    pub library_item: Option<LibraryItem>,
    pub analytics_context: Option<AnalyticsContext>,
    pub loaded: bool,
    pub load_time: Option<i64>,
    pub paused: Option<bool>,
    pub ended: bool,
    pub has_next_video: bool,
}

/// What the player reports: the stream started playing (with how long it
/// took to load, `-1` where unknown), it was paused or resumed, it ended or
/// moves to the next video (with whether binge watching is on and whether
/// a next video follows); and storing the library item.
pub enum PlaybackEffect {
    PlayerPlaying { load_time: i64, context: AnalyticsContext },
    TraktPaused(AnalyticsContext),
    TraktPlaying(AnalyticsContext),
    PlayerEnded { context: AnalyticsContext, is_binge_enabled: bool, is_playing_next_video: bool },
    PlayerNextVideo { context: AnalyticsContext, is_binge_enabled: bool, is_playing_next_video: bool },
    UpdateLibraryItem(LibraryItem),
}

/// What playback reacts to, at time `now`.
pub enum PlaybackMsg {
    PausedChanged(bool),
    Ended,
    NextVideo,
}

/// The time loading took, `-1` where its start is unknown.
pub open spec fn load_duration(load_time: Option<i64>, now: i64) -> i64 {
    match load_time {
        Some(t) => (now - t) as i64,
        None => -1i64,
    }
}

/// Storing the library item, where there is one.
pub open spec fn store_item(item: Option<LibraryItem>) -> Seq<PlaybackEffect> {
    match item {
        Some(i) => seq![PlaybackEffect::UpdateLibraryItem(i)],
        None => Seq::empty(),
    }
}

/// The reducer of playback events, with binge watching on or off, at time
/// `now`. A change of pause, with a stream selected, records it; the first
/// one marks the stream loaded and reports that it plays, later ones report
/// the pause or the resumption; the library item is stored. The end, with a
/// stream selected, is recorded and reported. Moving to the next video
/// starts the library item over (at 1 where a next video follows, else at
/// 0), reports the move and stores the item. None of them counts as a
/// change of the model.
pub fn playback_update(state: &mut PlaybackState, msg: PlaybackMsg, binge_watching: bool, now: i64) -> (r:
    Effects<PlaybackEffect>)
    requires
        match old(state).load_time {
            Some(t) => i64::MIN <= now - t <= i64::MAX,
            None => true,
        },
    ensures
        !r.has_changed,
        match msg {
            PlaybackMsg::PausedChanged(paused) => if old(state).selected {
                let context = reported_context(old(state).analytics_context);
                &&& *final(state) == (PlaybackState { paused: Some(paused), loaded: true, ..*old(state) })
                &&& r.effect_list() == seq![
                    if !old(state).loaded {
                        PlaybackEffect::PlayerPlaying {
                            load_time: load_duration(old(state).load_time, now),
                            context,
                        }
                    } else if paused {
                        PlaybackEffect::TraktPaused(context)
                    } else {
                        PlaybackEffect::TraktPlaying(context)
                    },
                ] + store_item(old(state).library_item)
            } else {
                *final(state) == *old(state) && r.effect_list().len() == 0
            },
            PlaybackMsg::Ended => if old(state).selected {
                &&& *final(state) == (PlaybackState { ended: true, ..*old(state) })
                &&& r.effect_list() == seq![
                    PlaybackEffect::PlayerEnded {
                        context: reported_context(old(state).analytics_context),
                        is_binge_enabled: binge_watching,
                        is_playing_next_video: old(state).has_next_video,
                    },
                ]
            } else {
                *final(state) == *old(state) && r.effect_list().len() == 0
            },
            PlaybackMsg::NextVideo => {
                let item = match old(state).library_item {
                    Some(i) => Some(
                        LibraryItem {
                            state: LibraryItemState {
                                time_offset: if old(state).has_next_video {
                                    1
                                } else {
                                    0
                                },
                                ..i.state
                            },
                            ..i
                        },
                    ),
                    None => None,
                };
                &&& *final(state) == (PlaybackState { library_item: item, ..*old(state) })
                &&& r.effect_list() == seq![
                    PlaybackEffect::PlayerNextVideo {
                        context: reported_context(old(state).analytics_context),
                        is_binge_enabled: binge_watching,
                        is_playing_next_video: old(state).has_next_video,
                    },
                ] + store_item(item)
            },
        },
{
    match msg {
        PlaybackMsg::PausedChanged(paused) => {
            if !state.selected {
                return Effects::none().unchanged();
            }
            state.paused = Some(paused);
            let context = context_of(&state.analytics_context);
            let event = if !state.loaded {
                state.loaded = true;
                let load_time = match state.load_time {
                    Some(t) => now - t,
                    None => -1,
                };
                PlaybackEffect::PlayerPlaying { load_time, context }
            } else if paused {
                PlaybackEffect::TraktPaused(context)
            } else {
                PlaybackEffect::TraktPlaying(context)
            };
            let mut effects: Vec<PlaybackEffect> = Vec::new();
            effects.push(event);
            match &state.library_item {
                Some(item) => effects.push(PlaybackEffect::UpdateLibraryItem(item.clone())),
                None => {},
            }
            let r = Effects { effects, has_changed: false };
            assert(r.effect_list() =~= seq![event] + store_item(state.library_item));
            r
        },
        PlaybackMsg::Ended => {
            if !state.selected {
                return Effects::none().unchanged();
            }
            state.ended = true;
            Effects::one(
                PlaybackEffect::PlayerEnded {
                    context: context_of(&state.analytics_context),
                    is_binge_enabled: binge_watching,
                    is_playing_next_video: state.has_next_video,
                },
            ).unchanged()
        },
        PlaybackMsg::NextVideo => {
            let mut effects: Vec<PlaybackEffect> = Vec::new();
            effects.push(
                PlaybackEffect::PlayerNextVideo {
                    context: context_of(&state.analytics_context),
                    is_binge_enabled: binge_watching,
                    is_playing_next_video: state.has_next_video,
                },
            );
            let next = state.has_next_video;
            match &mut state.library_item {
                Some(item) => {
                    item.state.time_offset = if next {
                        1
                    } else {
                        0
                    };
                    effects.push(PlaybackEffect::UpdateLibraryItem(item.clone()));
                },
                None => {},
            }
            let r = Effects { effects, has_changed: false };
            assert(r.effect_list() =~= seq![r.effect_list()[0]] + store_item(state.library_item));
            r
        },
    }
}

/// The library item after the player is left: where it was played past the
/// credits (`past_credits`: the offset exceeds the credits share of the
/// duration), it starts over; with a next video it moves on to that video,
/// adding the watched time to the overall one, at offset 1 and not flagged
/// watched. Otherwise it is unchanged.
pub open spec fn spec_item_state(item: Option<LibraryItem>, next_video: Option<Video>, past_credits: bool) -> Option<
    LibraryItemView,
> {
    match item {
        Some(i) => Some(
            if past_credits {
                match next_video {
                    Some(v) => LibraryItemView {
                        state: LibraryItemStateView {
                            time_offset: 1,
                            video_id: Some(v.id@),
                            overall_time_watched: i.state.overall_time_watched.saturating_add(i.state.time_watched),
                            time_watched: 0,
                            flagged_watched: 0,
                            ..i@.state
                        },
                        ..i@
                    },
                    None => LibraryItemView { state: LibraryItemStateView { time_offset: 0, ..i@.state }, ..i@ },
                }
            } else {
                i@
            },
        ),
        None => None,
    }
}

pub open spec fn optional_item_view(item: Option<LibraryItem>) -> Option<LibraryItemView> {
    match item {
        Some(i) => Some(i@),
        None => None,
    }
}

/// Applies [`spec_item_state`] to the library item of the player.
pub fn item_state_update(library_item: &mut Option<LibraryItem>, next_video: Option<&Video>, past_credits: bool)
    ensures
        optional_item_view(*final(library_item)) == spec_item_state(
            *old(library_item),
            match next_video {
                Some(v) => Some(*v),
                None => None,
            },
            past_credits,
        ),
{
    match library_item {
        Some(item) => if past_credits {
            item.state.time_offset = 0;
            match next_video {
                Some(v) => {
                    item.state.video_id = Some(v.id.clone());
                    item.state.overall_time_watched = item.state.overall_time_watched.saturating_add(
                        item.state.time_watched,
                    );
                    item.state.time_watched = 0;
                    item.state.flagged_watched = 0;
                    item.state.time_offset = 1;
                },
                None => {},
            }
        },
        None => {},
    }
}

} // verus!
