//! The "continue watching" row: library items in progress or with new
//! videos, newest first.

use vstd::prelude::*;

use crate::constants::CATALOG_PREVIEW_SIZE;
use crate::models::library_with_filters::{find_notified, notified_videos};
use crate::order::int_order;
use crate::runtime::Effects;
use crate::sorted::{insertion_sort, sort_with, ItemOrder};
use crate::text::str_eq;
use crate::types::library::{
    spec_in_continue_watching, LibraryItem, LibraryItemView, NotificationItem,
    NotificationsBucket,
};
use crate::types::resource::{same_stream_value, stream_view, Stream, StreamView, StreamsBucket};

verus! {

/// An item of the row: the library item, the stream last played for the
/// video being watched, and how many new videos it has.
#[derive(PartialEq, Eq, Debug)]
pub struct Item {
    pub library_item: LibraryItem,
    pub stream: Option<Stream>,
    pub notifications: usize,
}

/// The "continue watching" row.
#[derive(PartialEq, Eq, Debug)]
pub struct ContinueWatchingPreview {
    pub items: Vec<Item>,
}

/// The release time of the newest of the videos.
pub open spec fn newest_release(videos: Seq<NotificationItem>) -> i64
    decreases videos.len(),
{
    if videos.len() <= 1 {
        if videos.len() == 1 {
            videos[0].video_released
        } else {
            0
        }
    } else {
        let rest = newest_release(videos.drop_last());
        if videos.last().video_released > rest {
            videos.last().video_released
        } else {
            rest
        }
    }
}

/// The time by which an item is placed in the row: the release of its
/// newest notified video, or when it was last modified.
pub open spec fn row_time(item: LibraryItem, notifications: NotificationsBucket) -> i64 {
    match notified_videos(item.id@, notifications.items@) {
        Some(videos) => if videos.len() > 0 {
            newest_release(videos)
        } else {
            item.mtime
        },
        None => item.mtime,
    }
}

/// The number of new videos of an item.
pub open spec fn row_count(item: LibraryItem, notifications: NotificationsBucket) -> nat {
    match notified_videos(item.id@, notifications.items@) {
        Some(videos) => videos.len(),
        None => 0,
    }
}

/// An item that goes into the row, with its time and its number of new
/// videos.
pub struct Candidate {
    pub time: i64,
    pub notifications: usize,
    pub library_item: LibraryItem,
}

/// The library items in progress or with new videos, in library order.
pub open spec fn candidates(library: Seq<LibraryItem>, notifications: NotificationsBucket) -> Seq<
    Candidate,
>
    decreases library.len(),
{
    if library.len() == 0 {
        Seq::empty()
    } else {
        let rest = candidates(library.drop_last(), notifications);
        let item = library.last();
        if spec_in_continue_watching(item) || row_count(item, notifications) > 0 {
            rest.push(
                Candidate {
                    time: row_time(item, notifications),
                    notifications: row_count(item, notifications) as usize,
                    library_item: item,
                },
            )
        } else {
            rest
        }
    }
}

/// Newest first.
pub struct NewestFirst;

impl ItemOrder<Candidate> for NewestFirst {
    open spec fn order(&self, a: Candidate, b: Candidate) -> int {
        int_order(b.time as int, a.time as int)
    }

    fn compare(&self, a: &Candidate, b: &Candidate) -> (r: std::cmp::Ordering) {
        if b.time < a.time {
            std::cmp::Ordering::Less
        } else if b.time == a.time {
            std::cmp::Ordering::Equal
        } else {
            std::cmp::Ordering::Greater
        }
    }

    proof fn order_antisymmetric(&self, a: Candidate, b: Candidate) {
    }
}

/// The stream last played for a meta item id and video id: the last entry
/// for them, as a map collected from the entries would hold it.
pub open spec fn played_stream(
    meta_id: Seq<char>,
    video_id: Seq<char>,
    items: Seq<(String, String, Stream, String)>,
) -> Option<Stream>
    decreases items.len(),
{
    if items.len() == 0 {
        None
    } else if items.last().0@ == meta_id && items.last().1@ == video_id {
        Some(items.last().2)
    } else {
        played_stream(meta_id, video_id, items.drop_last())
    }
}

/// The stream of the video being watched, if any was played.
pub open spec fn item_stream(item: LibraryItem, streams: StreamsBucket) -> Option<Stream> {
    match item.state.video_id {
        Some(video_id) => played_stream(item.id@, video_id@, streams.items@),
        None => None,
    }
}

pub open spec fn optional_stream_view(stream: Option<Stream>) -> Option<StreamView> {
    match stream {
        Some(s) => Some(stream_view(s)),
        None => None,
    }
}

/// An item of the row as plain values.
pub open spec fn row_item_view(item: Item) -> (LibraryItemView, Option<StreamView>, usize) {
    (item.library_item@, optional_stream_view(item.stream), item.notifications)
}

pub open spec fn row_view(items: Seq<Item>) -> Seq<(LibraryItemView, Option<StreamView>, usize)> {
    items.map_values(|i: Item| row_item_view(i))
}

/// The row item of a candidate.
pub open spec fn row_item(candidate: Candidate, streams: StreamsBucket) -> Item {
    Item {
        library_item: candidate.library_item,
        stream: item_stream(candidate.library_item, streams),
        notifications: candidate.notifications,
    }
}

/// The row: the candidates newest first (candidates of the same time in
/// library order), at most [`CATALOG_PREVIEW_SIZE`] of them, each with its
/// stream.
pub open spec fn is_row(
    library: Seq<LibraryItem>,
    notifications: NotificationsBucket,
    streams: StreamsBucket,
    row: Seq<Item>,
) -> bool {
    let sorted = insertion_sort(NewestFirst, candidates(library, notifications));
    &&& row.len() == if sorted.len() < CATALOG_PREVIEW_SIZE {
        sorted.len()
    } else {
        CATALOG_PREVIEW_SIZE as nat
    }
    &&& forall|i: int| 0 <= i < row.len() ==> #[trigger] row[i] == row_item(sorted[i], streams)
}

fn newest(videos: &Vec<NotificationItem>) -> (r: i64)
    ensures
        r == newest_release(videos@),
{
    let mut best: i64 = 0;
    let mut i: usize = 0;
    while i < videos.len()
        invariant
            i <= videos.len(),
            best == newest_release(videos@.take(i as int)),
        decreases videos.len() - i,
    {
        assert(videos@.take(i + 1).drop_last() =~= videos@.take(i as int));
        if i == 0 || videos[i].video_released > best {
            best = videos[i].video_released;
        }
        i = i + 1;
    }
    assert(videos@.take(videos.len() as int) =~= videos@);
    best
}

fn collect_candidates(library: &[LibraryItem], notifications: &NotificationsBucket) -> (r: Vec<
    Candidate,
>)
    ensures
        r@ == candidates(library@, *notifications),
{
    let mut out: Vec<Candidate> = Vec::new();
    let mut i: usize = 0;
    while i < library.len()
        invariant
            i <= library.len(),
            out@ == candidates(library@.take(i as int), *notifications),
        decreases library.len() - i,
    {
        assert(library@.take(i + 1).drop_last() =~= library@.take(i as int));
        let item = &library[i];
        let (time, count) = match find_notified(item.id.as_str(), notifications) {
            Some(videos) => if videos.len() > 0 {
                (newest(videos), videos.len())
            } else {
                (item.mtime, 0)
            },
            None => (item.mtime, 0),
        };
        if item.is_in_continue_watching() || count > 0 {
            out.push(Candidate { time, notifications: count, library_item: item.clone() });
        }
        i = i + 1;
    }
    assert(library@.take(library.len() as int) =~= library@);
    out
}

fn find_stream(item: &LibraryItem, streams: &StreamsBucket) -> (r: Option<Stream>)
    ensures
        r == item_stream(*item, *streams),
{
    let video_id = match &item.state.video_id {
        Some(v) => v,
        None => return None,
    };
    let items = &streams.items;
    let mut i: usize = items.len();
    assert(items@.take(items@.len() as int) =~= items@);
    while i > 0
        invariant
            i <= items.len(),
            items == streams.items,
            item.state.video_id == Some(*video_id),
            item_stream(*item, *streams) == played_stream(item.id@, video_id@, items@.take(i as int)),
        decreases i,
    {
        assert(items@.take(i as int).drop_last() =~= items@.take(i - 1));
        assert(items@.take(i as int).last() == items@[i - 1]);
        if str_eq(items[i - 1].0.as_str(), item.id.as_str()) && str_eq(
            items[i - 1].1.as_str(),
            video_id.as_str(),
        ) {
            return Some(items[i - 1].2.clone());
        }
        i = i - 1;
    }
    None
}

fn same_stream(a: &Option<Stream>, b: &Option<Stream>) -> (r: bool)
    ensures
        r == (optional_stream_view(*a) == optional_stream_view(*b)),
{
    match (a, b) {
        (Some(x), Some(y)) => same_stream_value(x, y),
        (None, None) => true,
        _ => false,
    }
}

fn same_row(a: &Vec<Item>, b: &Vec<Item>) -> (r: bool)
    ensures
        r == (row_view(a@) == row_view(b@)),
{
    if a.len() != b.len() {
        assert(row_view(a@).len() != row_view(b@).len());
        return false;
    }
    let mut i: usize = 0;
    while i < a.len()
        invariant
            i <= a.len(),
            a.len() == b.len(),
            forall|j: int| 0 <= j < i ==> row_item_view(a@[j]) == #[trigger] row_item_view(b@[j]),
        decreases a.len() - i,
    {
        let x = &a[i];
        let y = &b[i];
        if !(x.library_item.same_as(&y.library_item) && same_stream(&x.stream, &y.stream)
            && x.notifications == y.notifications) {
            assert(row_view(a@)[i as int] != row_view(b@)[i as int]);
            return false;
        }
        i = i + 1;
    }
    assert(row_view(a@) =~= row_view(b@));
    true
}

/// The reducer of the row: it becomes the row of the library (see
/// [`is_row`]), and a change is reported exactly when it differs from the
/// current one.
pub fn library_items_update<A>(
    items: &mut Vec<Item>,
    library: &[LibraryItem],
    streams: &StreamsBucket,
    notifications: &NotificationsBucket,
) -> (r: Effects<A>)
    ensures
        is_row(library@, *notifications, *streams, final(items)@),
        r.effect_list().len() == 0,
        r.has_changed == (row_view(old(items)@) != row_view(final(items)@)),
{
    let found = collect_candidates(library, notifications);
    let sorted = sort_with(&NewestFirst, found);
    let mut next: Vec<Item> = Vec::new();
    let mut i: usize = 0;
    while i < sorted.len() && i < CATALOG_PREVIEW_SIZE
        invariant
            i <= sorted.len(),
            i <= CATALOG_PREVIEW_SIZE,
            next@.len() == i,
            forall|j: int| 0 <= j < i ==> #[trigger] next@[j] == row_item(sorted@[j], *streams),
        decreases sorted.len() - i,
    {
        let c = &sorted[i];
        next.push(
            Item {
                library_item: c.library_item.clone(),
                stream: find_stream(&c.library_item, streams),
                notifications: c.notifications,
            },
        );
        i = i + 1;
    }
    if same_row(items, &next) {
        *items = next;
        Effects::none().unchanged()
    } else {
        *items = next;
        Effects::none()
    }
}

impl ContinueWatchingPreview {
    /// The row of the library; nothing is reported as changed.
    pub fn new(
        library: &[LibraryItem],
        streams: &StreamsBucket,
        notifications: &NotificationsBucket,
    ) -> (r: (Self, Effects<()>))
        ensures
            is_row(library@, *notifications, *streams, r.0.items@),
            !r.1.has_changed,
            r.1.effect_list().len() == 0,
    {
        let mut items: Vec<Item> = Vec::new();
        let effects = library_items_update(&mut items, library, streams, notifications);
        (ContinueWatchingPreview { items }, effects.unchanged())
    }
}

} // verus!
