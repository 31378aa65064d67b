//! The program guide of live TV channels: for the selected local day, each
//! channel of the guide catalog with the shows that run on that day.

use std::cmp::Ordering;
use vstd::prelude::*;

use crate::models::calendar::{chrono_midnight_millis, days_from_civil, lemma_days_from_civil_bounds, valid_date, FullDate};
use crate::models::common::{Loadable, ResourceLoadable};
use crate::order::{int_order, ordering_value};
use crate::runtime::Effects;
use crate::sorted::{
    insert_position, insertion_sort, lemma_insert_position_bounds, lemma_insertion_sort_multiset,
    sort_with, ItemOrder,
};
use crate::text::str_eq;
use crate::types::addon::ResourceRequest;
use crate::types::resource::{
    preview_view, same_preview, same_videos, video_view, videos_view, EpgInfo, MetaItem,
    MetaItemPreview, PreviewView, Video, VideoView,
};

verus! {

/// Milliseconds in a day.
pub const DAY_MILLIS: i64 = 86400000;

/// Milliseconds in a minute.
pub const MINUTE_MILLIS: i64 = 60000;

/// The selection of the guide: its catalog request (none for the first
/// guide catalog), its local date (none for today) and the user's offset
/// from UTC in minutes (east positive).
#[derive(Clone, PartialEq, Eq, Debug)]
pub struct Selected {
    pub request: Option<ResourceRequest>,
    pub date: Option<FullDate>,
    pub utc_offset: i32,
}

/// A channel with its program for the selected date, shows ordered by start
/// time.
#[derive(Clone, PartialEq, Eq, Debug)]
pub struct ChannelGuide {
    pub channel: MetaItemPreview,
    pub shows: Vec<Video>,
}

/// A page of the guide catalog.
pub type CatalogPage = ResourceLoadable<Vec<MetaItem>>;

/// The UTC window `[start, end)` of a local date, in milliseconds since the
/// Unix epoch.
pub open spec fn day_window(date: FullDate, utc_offset: i32) -> (int, int) {
    let start = days_from_civil(date.year as int, date.month as int, date.day as int) * DAY_MILLIS
        - utc_offset * MINUTE_MILLIS;
    (start, start + DAY_MILLIS)
}

/// The UTC window `[start, end)` of the user's local `date`: local midnight,
/// moved by the offset, and a day after it.
pub fn local_day_window(date: &FullDate, utc_offset: i32) -> (r: (i64, i64))
    requires
        valid_date(date.year, date.month, date.day),
    ensures
        r.0 == day_window(*date, utc_offset).0,
        r.1 == day_window(*date, utc_offset).1,
        r.1 - r.0 == DAY_MILLIS,
{
    let midnight = chrono_midnight_millis(date.year, date.month, date.day);
    proof {
        lemma_days_from_civil_bounds(date.year, date.month, date.day);
    }
    let offset: i64 = utc_offset as i64;
    let start = midnight - offset * MINUTE_MILLIS;
    (start, start + DAY_MILLIS)
}

/// Whether a show runs at some time of the window `[start, end)`.
pub open spec fn overlaps(video: VideoView, start: int, end: int) -> bool {
    video.5 matches Some(e) && e.start_time < end && e.end_time > start
}

/// The shows that run in the window, in their order.
pub open spec fn overlapping(videos: Seq<VideoView>, start: int, end: int) -> Seq<VideoView>
    decreases videos.len(),
{
    if videos.len() == 0 {
        Seq::empty()
    } else {
        let rest = overlapping(videos.drop_last(), start, end);
        if overlaps(videos.last(), start, end) {
            rest.push(videos.last())
        } else {
            rest
        }
    }
}

/// A channel of the guide as plain values: its preview and its shows.
pub type GuideView = (PreviewView, Seq<VideoView>);

pub open spec fn guide_view(guide: ChannelGuide) -> GuideView {
    (preview_view(guide.channel), videos_view(guide.shows@))
}

pub open spec fn guides_view(guides: Seq<ChannelGuide>) -> Seq<GuideView> {
    guides.map_values(|g: ChannelGuide| guide_view(g))
}

/// `k` is the first channel of `guides` with the id.
pub open spec fn first_channel(guides: Seq<GuideView>, id: Seq<char>, k: int) -> bool {
    &&& 0 <= k < guides.len()
    &&& guides[k].0.0 == id
    &&& forall|q: int| 0 <= q < k ==> guides[q].0.0 != id
}

/// The position of the first channel with the id, `-1` where there is none.
pub open spec fn channel_index(guides: Seq<GuideView>, id: Seq<char>) -> int {
    if exists|k: int| first_channel(guides, id, k) {
        choose|k: int| first_channel(guides, id, k)
    } else {
        -1
    }
}

proof fn lemma_channel_index(guides: Seq<GuideView>, id: Seq<char>, k: int)
    requires
        first_channel(guides, id, k),
    ensures
        channel_index(guides, id) == k,
{
    let c = choose|c: int| first_channel(guides, id, c);
    assert(first_channel(guides, id, c));
    if c < k {
        assert(guides[c].0.0 != id);
    }
    if k < c {
        assert(guides[k].0.0 != id);
    }
}

/// One meta item of the catalog, added to the guide: its shows that run in
/// the window go to the channel with its id, a new channel at the end where
/// there is none yet.
pub open spec fn guide_step(guides: Seq<GuideView>, meta: MetaItem, start: int, end: int) -> Seq<
    GuideView,
> {
    let shows = overlapping(videos_view(meta.videos@), start, end);
    let k = channel_index(guides, meta.preview.id@);
    if k >= 0 {
        guides.update(k, (guides[k].0, guides[k].1 + shows))
    } else {
        guides.push((preview_view(meta.preview), shows))
    }
}

/// The meta items, added to the guide one after the other: the channels in
/// the order of their first appearance, each with the shows of all its meta
/// items that run in the window.
pub open spec fn guide_of(metas: Seq<MetaItem>, start: int, end: int) -> Seq<GuideView>
    decreases metas.len(),
{
    if metas.len() == 0 {
        Seq::empty()
    } else {
        guide_step(guide_of(metas.drop_last(), start, end), metas.last(), start, end)
    }
}

/// No two channels of a guide have the same id.
pub open spec fn distinct_channels(guides: Seq<GuideView>) -> bool {
    forall|i: int, j: int|
        0 <= i < j < guides.len() ==> (#[trigger] guides[i]).0.0 != (#[trigger] guides[j]).0.0
}

/// Each channel appears once in the guide, however many meta items of the
/// pages carry it: their shows are merged into it.
pub proof fn law_channels_are_distinct(metas: Seq<MetaItem>, start: int, end: int)
    ensures
        distinct_channels(guide_of(metas, start, end)),
    decreases metas.len(),
{
    if metas.len() > 0 {
        let before = guide_of(metas.drop_last(), start, end);
        law_channels_are_distinct(metas.drop_last(), start, end);
        let meta = metas.last();
        let id = meta.preview.id@;
        let k = channel_index(before, id);
        let after = guide_of(metas, start, end);
        if k >= 0 {
            let c = choose|c: int| first_channel(before, id, c);
            assert(first_channel(before, id, c));
            assert forall|i: int, j: int| 0 <= i < j < after.len() implies (#[trigger] after[i]).0.0
                != (#[trigger] after[j]).0.0 by {
                assert(after[i].0 == before[i].0);
                assert(after[j].0 == before[j].0);
            }
        } else {
            assert forall|q: int| 0 <= q < before.len() implies before[q].0.0 != id by {
                if before[q].0.0 == id {
                    lemma_first_match_exists(before, id, q);
                }
            }
            assert forall|i: int, j: int| 0 <= i < j < after.len() implies (#[trigger] after[i]).0.0
                != (#[trigger] after[j]).0.0 by {
                if j == before.len() {
                    assert(after[j].0.0 == id);
                    assert(after[i] == before[i]);
                } else {
                    assert(after[i] == before[i]);
                    assert(after[j] == before[j]);
                }
            }
        }
    }
}

/// Where some channel has the id, a first one has it.
proof fn lemma_first_match_exists(guides: Seq<GuideView>, id: Seq<char>, q: int)
    requires
        0 <= q < guides.len(),
        guides[q].0.0 == id,
    ensures
        exists|c: int| first_channel(guides, id, c),
    decreases q,
{
    if forall|p: int| 0 <= p < q ==> guides[p].0.0 != id {
        assert(first_channel(guides, id, q));
    } else {
        let p = choose|p: int| 0 <= p < q && guides[p].0.0 == id;
        lemma_first_match_exists(guides, id, p);
    }
}

/// The meta items of a page that has loaded.
pub open spec fn page_metas(page: CatalogPage) -> Seq<MetaItem> {
    match page.content {
        Some(Loadable::Ready(items)) => items@,
        _ => Seq::empty(),
    }
}

/// The meta items of the pages that have loaded, page after page.
pub open spec fn ready_metas(catalog: Seq<CatalogPage>) -> Seq<MetaItem>
    decreases catalog.len(),
{
    if catalog.len() == 0 {
        Seq::empty()
    } else {
        ready_metas(catalog.drop_last()) + page_metas(catalog.last())
    }
}

/// Whether a show with the id is among the shows.
pub open spec fn has_show(shows: Seq<VideoView>, id: Seq<char>) -> bool {
    exists|k: int| 0 <= k < shows.len() && shows[k].0 == id
}

/// The shows, each id kept at its first appearance only.
pub open spec fn unique_by_id(shows: Seq<VideoView>) -> Seq<VideoView>
    decreases shows.len(),
{
    if shows.len() == 0 {
        Seq::empty()
    } else {
        let rest = unique_by_id(shows.drop_last());
        if has_show(rest, shows.last().0) {
            rest
        } else {
            rest.push(shows.last())
        }
    }
}

/// Start times as `-1`, `0` or `1`; a show without one comes first.
pub open spec fn start_order(a: Option<EpgInfo>, b: Option<EpgInfo>) -> int {
    match (a, b) {
        (None, None) => 0,
        (None, Some(_)) => -1,
        (Some(_), None) => 1,
        (Some(x), Some(y)) => int_order(x.start_time as int, y.start_time as int),
    }
}

/// Each show starts at or before the next one.
pub open spec fn shows_sorted(shows: Seq<VideoView>) -> bool {
    forall|i: int, j: int|
        0 <= i && j == i + 1 && j < shows.len() ==> start_order(#[trigger] shows[i].5, #[trigger] shows[j].5)
            <= 0
}

/// Where a show goes among shows ordered by start time: before the first
/// show that starts after it, at the end where there is none.
pub open spec fn show_position(shows: Seq<VideoView>, show: VideoView) -> int
    decreases shows.len(),
{
    if shows.len() == 0 {
        0
    } else if start_order(show.5, shows[0].5) < 0 {
        0
    } else {
        1 + show_position(shows.drop_first(), show)
    }
}

/// The shows ordered by start time; shows that start at the same time keep
/// their order.
pub open spec fn shows_by_start(shows: Seq<VideoView>) -> Seq<VideoView>
    decreases shows.len(),
{
    if shows.len() == 0 {
        Seq::empty()
    } else {
        let sorted = shows_by_start(shows.drop_last());
        sorted.insert(show_position(sorted, shows.last()), shows.last())
    }
}

/// The order of shows by their start time.
pub struct ByStart;

fn compare_start(a: &Option<EpgInfo>, b: &Option<EpgInfo>) -> (r: Ordering)
    ensures
        ordering_value(r) == start_order(*a, *b),
{
    match (a, b) {
        (None, None) => Ordering::Equal,
        (None, Some(_)) => Ordering::Less,
        (Some(_), None) => Ordering::Greater,
        (Some(x), Some(y)) => if x.start_time < y.start_time {
            Ordering::Less
        } else if x.start_time == y.start_time {
            Ordering::Equal
        } else {
            Ordering::Greater
        },
    }
}

impl ItemOrder<Video> for ByStart {
    open spec fn order(&self, a: Video, b: Video) -> int {
        start_order(a.epg_info, b.epg_info)
    }

    fn compare(&self, a: &Video, b: &Video) -> (r: Ordering) {
        compare_start(&a.epg_info, &b.epg_info)
    }

    proof fn order_antisymmetric(&self, a: Video, b: Video) {
    }
}

proof fn lemma_show_position(sorted: Seq<Video>, x: Video)
    ensures
        insert_position(ByStart, sorted, x) == show_position(videos_view(sorted), video_view(x)),
    decreases sorted.len(),
{
    if sorted.len() > 0 {
        assert(videos_view(sorted)[0] == video_view(sorted[0]));
        assert(videos_view(sorted).drop_first() =~= videos_view(sorted.drop_first()));
        lemma_show_position(sorted.drop_first(), x);
    }
}

/// Sorting the videos by start time sorts their views by start time.
proof fn lemma_sorted_views(s: Seq<Video>)
    ensures
        videos_view(insertion_sort(ByStart, s)) == shows_by_start(videos_view(s)),
    decreases s.len(),
{
    if s.len() == 0 {
        assert(videos_view(insertion_sort(ByStart, s)) =~= Seq::<VideoView>::empty());
    } else {
        let rest = s.drop_last();
        lemma_sorted_views(rest);
        let sorted = insertion_sort(ByStart, rest);
        lemma_show_position(sorted, s.last());
        lemma_insertion_sort_multiset(ByStart, rest);
        let p = insert_position(ByStart, sorted, s.last());
        assert(0 <= p <= sorted.len()) by {
            lemma_insert_position_bounds(ByStart, sorted, s.last());
        }
        assert(videos_view(s).drop_last() =~= videos_view(rest));
        assert(videos_view(s).last() == video_view(s.last()));
        assert(videos_view(sorted.insert(p, s.last())) =~= videos_view(sorted).insert(
            p,
            video_view(s.last()),
        ));
    }
}

/// The channels of the guide for the selection and the catalog: none
/// without a selected date; otherwise the channels of the loaded meta items
/// (in the order of first appearance), each with the shows that run on the
/// local day, a show of several pages once, ordered by start time.
pub open spec fn spec_guide(selected: Option<Selected>, catalog: Seq<CatalogPage>) -> Seq<GuideView> {
    match selected {
        Some(s) => match s.date {
            Some(date) => {
                let (start, end) = day_window(date, s.utc_offset);
                guide_of(ready_metas(catalog), start, end)
            },
            None => Seq::empty(),
        },
        None => Seq::empty(),
    }
}

/// The channels have the previews of the guide, in its order, and each has
/// the shows of its channel, each id once, ordered by start time (shows
/// that start together in their order).
pub open spec fn guides_match(channels: Seq<ChannelGuide>, guides: Seq<GuideView>) -> bool {
    &&& channels.len() == guides.len()
    &&& forall|i: int|
        0 <= i < channels.len() ==> {
            &&& preview_view(#[trigger] channels[i].channel) == guides[i].0
            &&& videos_view(channels[i].shows@) == shows_by_start(unique_by_id(guides[i].1))
            &&& shows_sorted(videos_view(channels[i].shows@))
        }
}

/// The selected date, where there is one, is a date of the calendar.
pub open spec fn selected_date_valid(selected: Option<Selected>) -> bool {
    selected matches Some(s) && s.date matches Some(d) ==> valid_date(d.year, d.month, d.day)
}

/// The shows of the videos that run in the window `[start, end)`, in their
/// order.
fn overlapping_shows(videos: &Vec<Video>, start: i64, end: i64) -> (r: Vec<Video>)
    ensures
        videos_view(r@) == overlapping(videos_view(videos@), start as int, end as int),
{
    let mut out: Vec<Video> = Vec::new();
    let mut i: usize = 0;
    while i < videos.len()
        invariant
            i <= videos.len(),
            videos_view(out@) == overlapping(videos_view(videos@.take(i as int)), start as int, end as int),
        decreases videos.len() - i,
    {
        let ghost prefix = videos@.take(i as int);
        let ghost next = videos@.take(i + 1);
        assert(videos_view(next).drop_last() =~= videos_view(prefix));
        assert(videos_view(next).last() == video_view(videos@[i as int]));
        let runs = match videos[i].epg_info {
            Some(e) => e.start_time < end && e.end_time > start,
            None => false,
        };
        if runs {
            let ghost before = out@;
            out.push(videos[i].clone());
            assert(videos_view(out@) =~= videos_view(before).push(video_view(videos@[i as int])));
        }
        i = i + 1;
    }
    assert(videos@.take(videos.len() as int) =~= videos@);
    out
}

/// Adds one meta item to the channels of the guide.
fn add_meta(guides: &mut Vec<ChannelGuide>, meta: &MetaItem, start: i64, end: i64)
    ensures
        guides_view(final(guides)@) == guide_step(
            guides_view(old(guides)@),
            *meta,
            start as int,
            end as int,
        ),
{
    let ghost g = guides_view(guides@);
    let mut shows = overlapping_shows(&meta.videos, start, end);
    let ghost shows_view = videos_view(shows@);
    let mut k: usize = 0;
    let mut found = false;
    while k < guides.len()
        invariant_except_break
            k <= guides.len(),
            guides@ == old(guides)@,
            g == guides_view(old(guides)@),
            !found,
            forall|q: int| 0 <= q < k ==> g[q].0.0 != meta.preview.id@,
        ensures
            guides@ == old(guides)@,
            g == guides_view(old(guides)@),
            found ==> k < guides.len() && first_channel(g, meta.preview.id@, k as int),
            !found ==> forall|q: int| 0 <= q < guides.len() ==> g[q].0.0 != meta.preview.id@,
        decreases guides.len() - k,
    {
        assert(g[k as int] == guide_view(guides@[k as int]));
        if str_eq(guides[k].channel.id.as_str(), meta.preview.id.as_str()) {
            found = true;
            break;
        }
        k = k + 1;
    }
    if found {
        proof {
            lemma_channel_index(g, meta.preview.id@, k as int);
        }
        let mut channel = guides.remove(k);
        let ghost old_shows = channel.shows@;
        channel.shows.append(&mut shows);
        assert(videos_view(channel.shows@) =~= videos_view(old_shows) + shows_view);
        guides.insert(k, channel);
        assert(guides_view(guides@) =~= g.update(k as int, (g[k as int].0, g[k as int].1 + shows_view)));
    } else {
        proof {
            if exists|c: int| first_channel(g, meta.preview.id@, c) {
                let c = choose|c: int| first_channel(g, meta.preview.id@, c);
                assert(g[c].0.0 == meta.preview.id@);
            }
        }
        let channel = ChannelGuide { channel: meta.preview.clone(), shows };
        guides.push(channel);
        assert(guides_view(guides@) =~= g.push((preview_view(meta.preview), shows_view)));
    }
}

/// The channels of the loaded meta items, with the shows that run in the
/// window, merged per channel in the order of first appearance.
fn merge_channels(catalog: &[CatalogPage], start: i64, end: i64) -> (r: Vec<ChannelGuide>)
    ensures
        guides_view(r@) == guide_of(ready_metas(catalog@), start as int, end as int),
{
    let mut guides: Vec<ChannelGuide> = Vec::new();
    let mut i: usize = 0;
    assert(guides_view(guides@) =~= Seq::<GuideView>::empty());
    while i < catalog.len()
        invariant
            i <= catalog.len(),
            guides_view(guides@) == guide_of(ready_metas(catalog@.take(i as int)), start as int, end as int),
        decreases catalog.len() - i,
    {
        let ghost before = ready_metas(catalog@.take(i as int));
        assert(catalog@.take(i + 1).drop_last() =~= catalog@.take(i as int));
        assert(ready_metas(catalog@.take(i + 1)) == before + page_metas(catalog@[i as int]));
        match &catalog[i].content {
            Some(Loadable::Ready(items)) => {
                let mut j: usize = 0;
                assert(before + items@.take(0) =~= before);
                while j < items.len()
                    invariant
                        j <= items.len(),
                        guides_view(guides@) == guide_of(before + items@.take(j as int), start as int, end as int),
                    decreases items.len() - j,
                {
                    add_meta(&mut guides, &items[j], start, end);
                    assert((before + items@.take(j + 1)).drop_last() =~= before + items@.take(j as int));
                    assert((before + items@.take(j + 1)).last() == items@[j as int]);
                    j = j + 1;
                }
                assert(items@.take(items.len() as int) =~= items@);
            },
            _ => {
                assert(before + Seq::<MetaItem>::empty() =~= before);
            },
        }
        i = i + 1;
    }
    assert(catalog@.take(catalog.len() as int) =~= catalog@);
    guides
}

/// The shows, each id kept at its first appearance only.
fn unique_shows(shows: &Vec<Video>) -> (r: Vec<Video>)
    ensures
        videos_view(r@) == unique_by_id(videos_view(shows@)),
{
    let mut out: Vec<Video> = Vec::new();
    let mut i: usize = 0;
    while i < shows.len()
        invariant
            i <= shows.len(),
            videos_view(out@) == unique_by_id(videos_view(shows@.take(i as int))),
        decreases shows.len() - i,
    {
        let ghost prefix = shows@.take(i as int);
        let ghost next = shows@.take(i + 1);
        assert(videos_view(next).drop_last() =~= videos_view(prefix));
        assert(videos_view(next).last() == video_view(shows@[i as int]));
        let mut k: usize = 0;
        let mut seen = false;
        while k < out.len()
            invariant_except_break
                k <= out.len(),
                i < shows.len(),
                !seen,
                forall|q: int| 0 <= q < k ==> videos_view(out@)[q].0 != shows@[i as int].id@,
            ensures
                i < shows.len(),
                seen ==> has_show(videos_view(out@), shows@[i as int].id@),
                !seen ==> forall|q: int| 0 <= q < out.len() ==> videos_view(out@)[q].0 != shows@[i as int].id@,
            decreases out.len() - k,
        {
            assert(videos_view(out@)[k as int] == video_view(out@[k as int]));
            if str_eq(out[k].id.as_str(), shows[i].id.as_str()) {
                seen = true;
                break;
            }
            k = k + 1;
        }
        if !seen {
            let ghost before = out@;
            out.push(shows[i].clone());
            assert(videos_view(out@) =~= videos_view(before).push(video_view(shows@[i as int])));
        }
        i = i + 1;
    }
    assert(shows@.take(shows.len() as int) =~= shows@);
    out
}

/// Each channel with its shows kept once per id and ordered by start time.
fn finish_channels(merged: &Vec<ChannelGuide>) -> (r: Vec<ChannelGuide>)
    ensures
        guides_match(r@, guides_view(merged@)),
{
    let ghost g = guides_view(merged@);
    let mut out: Vec<ChannelGuide> = Vec::new();
    let mut i: usize = 0;
    while i < merged.len()
        invariant
            i <= merged.len(),
            g == guides_view(merged@),
            out@.len() == i,
            forall|q: int|
                0 <= q < i ==> {
                    &&& preview_view(#[trigger] out@[q].channel) == g[q].0
                    &&& videos_view(out@[q].shows@) == shows_by_start(unique_by_id(g[q].1))
                    &&& shows_sorted(videos_view(out@[q].shows@))
                },
        decreases merged.len() - i,
    {
        assert(g[i as int] == guide_view(merged@[i as int]));
        let unique = unique_shows(&merged[i].shows);
        let ghost unique_view = unique@;
        let sorted = sort_with(&ByStart, unique);
        proof {
            lemma_sorted_views(unique_view);
            assert forall|a: int, b: int|
                0 <= a && b == a + 1 && b < videos_view(sorted@).len() implies start_order(
                #[trigger] videos_view(sorted@)[a].5,
                #[trigger] videos_view(sorted@)[b].5,
            ) <= 0 by {
                assert(ByStart.order(sorted@[a], sorted@[b]) <= 0);
            }
        }
        let channel = ChannelGuide { channel: merged[i].channel.clone(), shows: sorted };
        out.push(channel);
        i = i + 1;
    }
    out
}

/// Whether two guides have the same value.
fn same_guides(a: &Vec<ChannelGuide>, b: &Vec<ChannelGuide>) -> (r: bool)
    ensures
        r == (guides_view(a@) == guides_view(b@)),
{
    if a.len() != b.len() {
        proof {
            if guides_view(a@) == guides_view(b@) {
                assert(guides_view(a@).len() == a@.len());
            }
        }
        return false;
    }
    let mut i: usize = 0;
    while i < a.len()
        invariant
            i <= a.len(),
            a.len() == b.len(),
            forall|q: int| 0 <= q < i ==> guide_view(a@[q]) == #[trigger] guide_view(b@[q]),
        decreases a.len() - i,
    {
        if !(same_preview(&a[i].channel, &b[i].channel) && same_videos(&a[i].shows, &b[i].shows)) {
            proof {
                assert(guides_view(a@)[i as int] == guide_view(a@[i as int]));
                assert(guides_view(b@)[i as int] == guide_view(b@[i as int]));
            }
            return false;
        }
        i = i + 1;
    }
    assert(guides_view(a@) =~= guides_view(b@));
    true
}

/// The reducer of the channels: the guide of the selected local day over
/// the loaded pages of the catalog. The model has changed exactly when the
/// channels differ from before.
pub fn channels_update<A>(
    channels: &mut Vec<ChannelGuide>,
    selected: &Option<Selected>,
    catalog: &[CatalogPage],
) -> (r: Effects<A>)
    requires
        selected_date_valid(*selected),
    ensures
        r.effect_list().len() == 0,
        guides_match(final(channels)@, spec_guide(*selected, catalog@)),
        r.has_changed == (guides_view(old(channels)@) != guides_view(final(channels)@)),
{
    let next = match selected {
        Some(s) => match &s.date {
            Some(date) => {
                let (start, end) = local_day_window(date, s.utc_offset);
                let merged = merge_channels(catalog, start, end);
                finish_channels(&merged)
            },
            None => Vec::new(),
        },
        None => Vec::new(),
    };
    let changed = !same_guides(channels, &next);
    *channels = next;
    if changed {
        Effects::none()
    } else {
        Effects::none().unchanged()
    }
}

} // verus!
