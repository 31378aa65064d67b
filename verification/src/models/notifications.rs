//! Dismissing the notifications of new videos of a library item.

use std::cmp::Ordering;
use vstd::prelude::*;

use crate::models::common::resource_loadable::{
    answered, first_accepting, resources_update_with_vector_content, vector_content_of_result, ResourceError,
    ResourcesAction,
};
use crate::models::common::{Loadable, ResourceLoadable};
use crate::models::ctx::profile::CtxStatus;
use crate::runtime::EnvError;
use crate::types::addon::ResourceRequest;
use crate::models::library_with_filters::{find_notified, notified_videos};
use crate::order::int_order;
use crate::runtime::Effects;
use crate::sorted::{insertion_sort, sort_with, ItemOrder};
use crate::text::str_eq;
use crate::types::library::{
    same_text, spec_should_pull_notifications, text_view, LibraryItem, LibraryItemState, NotificationItem, NotificationsBucket,
};
use crate::types::resource::{MetaItem, Video};

verus! {

/// What dismissing notifications asks for: storing the notifications,
/// storing a library item, and telling that the notifications of an item
/// were dismissed.
#[derive(PartialEq, Debug)]
pub enum NotificationsEffect {
    NotificationsChanged,
    UpdateLibraryItem(LibraryItem),
    NotificationsDismissed(String),
    PullNotifications,
    DismissNotificationItem(String),
    Fetch(ResourceRequest),
    PushNotificationsToStorage(Vec<String>),
}

/// The entries of other items than `id`.
pub open spec fn without_item(items: Seq<(String, Vec<NotificationItem>)>, id: Seq<char>) -> Seq<
    (String, Vec<NotificationItem>),
>
    decreases items.len(),
{
    if items.len() == 0 {
        Seq::empty()
    } else {
        let rest = without_item(items.drop_last(), id);
        if items.last().0@ == id {
            rest
        } else {
            rest.push(items.last())
        }
    }
}

/// The first library item with the id.
pub open spec fn library_item_of(library: Seq<LibraryItem>, id: Seq<char>) -> Option<LibraryItem>
    decreases library.len(),
{
    if library.len() == 0 {
        None
    } else if library[0].id@ == id {
        Some(library[0])
    } else {
        library_item_of(library.drop_first(), id)
    }
}

fn find_library_item<'a>(library: &'a [LibraryItem], id: &str) -> (r: Option<&'a LibraryItem>)
    ensures
        match r {
            Some(item) => library_item_of(library@, id@) == Some(*item),
            None => library_item_of(library@, id@) is None,
        },
{
    let mut i: usize = 0;
    assert(library@.skip(0) =~= library@);
    while i < library.len()
        invariant
            i <= library.len(),
            library_item_of(library@, id@) == library_item_of(library@.skip(i as int), id@),
        decreases library.len() - i,
    {
        assert(library@.skip(i as int)[0] == library@[i as int]);
        assert(library@.skip(i as int).drop_first() =~= library@.skip(i + 1));
        if str_eq(library[i].id.as_str(), id) {
            return Some(&library[i]);
        }
        i = i + 1;
    }
    None
}

/// Dismisses the notifications of the item `id`, at time `now`
/// (milliseconds since the Unix epoch). Where the item had notifications,
/// they are removed and the notifications are to be stored; the library
/// item, last watched now, is to be stored; and the dismissal is told.
/// Otherwise nothing happens.
pub fn dismiss_notification_item(
    library: &[LibraryItem],
    notifications: &mut NotificationsBucket,
    id: &str,
    now: i64,
) -> (r: Effects<NotificationsEffect>)
    ensures
        final(notifications).uid == old(notifications).uid,
        final(notifications).last_updated == old(notifications).last_updated,
        item_ids_distinct(old(notifications).items@) ==> item_ids_distinct(final(notifications).items@),
        notified_videos(id@, old(notifications).items@) is None ==> {
            &&& final(notifications).items@ == old(notifications).items@
            &&& !r.has_changed
            &&& r.effect_list().len() == 0
        },
        notified_videos(id@, old(notifications).items@) is Some ==> {
            &&& final(notifications).items@ == without_item(old(notifications).items@, id@)
            &&& r.has_changed
            &&& r.effect_list().len() > 0
            &&& r.effect_list().drop_last() == seq![NotificationsEffect::NotificationsChanged] + match library_item_of(
                library@,
                id@,
            ) {
                Some(item) => seq![
                    NotificationsEffect::UpdateLibraryItem(
                        LibraryItem {
                            state: LibraryItemState { last_watched: Some(now), ..item.state },
                            ..item
                        },
                    ),
                ],
                None => Seq::empty(),
            }
            &&& (r.effect_list().last() matches NotificationsEffect::NotificationsDismissed(d) && d@ == id@)
        },
{
    let mut present = false;
    let mut kept: Vec<(String, Vec<NotificationItem>)> = Vec::new();
    let mut rest: Vec<(String, Vec<NotificationItem>)> = Vec::new();
    std::mem::swap(&mut rest, &mut notifications.items);
    let ghost all = rest@;
    assert(all.len() == rest.len());
    let mut i: usize = 0;
    assert(rest@ =~= all.subrange(0, all.len() as int));
    while rest.len() > 0
        invariant
            i + rest@.len() == all.len(),
            all.len() <= usize::MAX,
            rest@ =~= all.subrange(i as int, all.len() as int),
            kept@ == without_item(all.take(i as int), id@),
            present == (notified_videos(id@, all.take(i as int)) is Some),
        decreases rest.len(),
    {
        let entry = rest.remove(0);
        assert(entry == all[i as int]);
        assert(all.take(i + 1).drop_last() =~= all.take(i as int));
        assert(all.take(i + 1).last() == all[i as int]);
        assert(rest@ =~= all.subrange(i + 1, all.len() as int));
        if str_eq(entry.0.as_str(), id) {
            present = true;
        } else {
            kept.push(entry);
        }
        i = i + 1;
    }
    assert(all.take(all.len() as int) =~= all);
    if !present {
        assert(kept@ =~= all) by {
            lemma_without_absent(all, id@);
        }
        notifications.items = kept;
        return Effects::none().unchanged();
    }
    notifications.items = kept;
    proof {
        if item_ids_distinct(all) {
            lemma_without_item_distinct(all, id@);
        }
    }
    let changed = Effects::one(NotificationsEffect::NotificationsChanged);
    let library_effects = match find_library_item(library, id) {
        Some(item) => {
            let mut item = item.clone();
            item.state.last_watched = Some(now);
            Effects::one(NotificationsEffect::UpdateLibraryItem(item)).unchanged()
        },
        None => Effects::none().unchanged(),
    };
    let dismissed = Effects::one(NotificationsEffect::NotificationsDismissed(id.to_string()));
    changed.join(library_effects).join(dismissed)
}

/// Once an item's notifications are dismissed, none are left for it: a
/// second dismissal finds nothing.
pub proof fn law_dismissed_item_has_no_notifications(items: Seq<(String, Vec<NotificationItem>)>, id: Seq<char>)
    ensures
        notified_videos(id, without_item(items, id)) is None,
    decreases items.len(),
{
    if items.len() > 0 {
        law_dismissed_item_has_no_notifications(items.drop_last(), id);
        let rest = without_item(items.drop_last(), id);
        if items.last().0@ != id {
            assert(rest.push(items.last()).drop_last() =~= rest);
        }
    }
}


/// No item has two entries, as in a map from item ids.
pub open spec fn item_ids_distinct(items: Seq<(String, Vec<NotificationItem>)>) -> bool {
    forall|i: int, j: int| 0 <= i < j < items.len() ==> items[i].0@ != items[j].0@
}

/// No two library items share an id, as in a map from item ids.
pub open spec fn library_ids_distinct(library: Seq<LibraryItem>) -> bool {
    forall|i: int, j: int| 0 <= i < j < library.len() ==> library[i].id@ != library[j].id@
}

pub open spec fn entry_ids_distinct(entries: Seq<EntryView>) -> bool {
    forall|i: int, j: int| 0 <= i < j < entries.len() ==> entries[i].0 != entries[j].0
}

proof fn lemma_next_items_distinct(
    library: Seq<LibraryItem>,
    catalogs: Seq<ResourceLoadable<Vec<MetaItem>>>,
    current: Seq<(String, Vec<NotificationItem>)>,
    now: i64,
)
    requires
        library_ids_distinct(library),
    ensures
        entry_ids_distinct(next_notification_items(library, catalogs, current, now)),
        forall|k: int|
            0 <= k < next_notification_items(library, catalogs, current, now).len() ==> exists|i: int|
                0 <= i < library.len() && (#[trigger] next_notification_items(library, catalogs, current, now)[k]).0
                    == library[i].id@,
    decreases library.len(),
{
    if library.len() > 0 {
        let earlier_library = library.drop_last();
        assert(library_ids_distinct(earlier_library)) by {
            assert forall|i: int, j: int| 0 <= i < j < earlier_library.len() implies earlier_library[i].id@
                != earlier_library[j].id@ by {
                assert(earlier_library[i] == library[i] && earlier_library[j] == library[j]);
            }
        }
        lemma_next_items_distinct(earlier_library, catalogs, current, now);
        let earlier = next_notification_items(earlier_library, catalogs, current, now);
        let next = next_notification_items(library, catalogs, current, now);
        match item_notifications(library.last(), catalogs, current, now) {
            Some(entry) => {
                assert(next == earlier.push(entry));
                assert(entry.0 == library.last().id@);
                assert forall|k: int| 0 <= k < earlier.len() implies earlier[k].0 != entry.0 by {
                    let i = choose|i: int| 0 <= i < earlier_library.len() && earlier[k].0 == earlier_library[i].id@;
                    assert(earlier_library[i] == library[i]);
                }
                assert forall|k: int| 0 <= k < next.len() implies exists|i: int|
                    0 <= i < library.len() && (#[trigger] next[k]).0 == library[i].id@ by {
                    if k < earlier.len() {
                        let i = choose|i: int| 0 <= i < earlier_library.len() && earlier[k].0 == earlier_library[i].id@;
                        assert(earlier_library[i] == library[i]);
                    } else {
                        assert(next[k].0 == library[library.len() - 1].id@);
                    }
                }
            },
            None => {
                assert forall|k: int| 0 <= k < next.len() implies exists|i: int|
                    0 <= i < library.len() && (#[trigger] next[k]).0 == library[i].id@ by {
                    let i = choose|i: int| 0 <= i < earlier_library.len() && earlier[k].0 == earlier_library[i].id@;
                    assert(earlier_library[i] == library[i]);
                }
            },
        }
    }
}

proof fn lemma_without_item_distinct(items: Seq<(String, Vec<NotificationItem>)>, id: Seq<char>)
    requires
        item_ids_distinct(items),
    ensures
        item_ids_distinct(without_item(items, id)),
        forall|k: int|
            0 <= k < without_item(items, id).len() ==> exists|i: int|
                0 <= i < items.len() && (#[trigger] without_item(items, id)[k]).0@ == items[i].0@,
    decreases items.len(),
{
    if items.len() > 0 {
        let earlier_items = items.drop_last();
        assert(item_ids_distinct(earlier_items)) by {
            assert forall|i: int, j: int| 0 <= i < j < earlier_items.len() implies earlier_items[i].0@
                != earlier_items[j].0@ by {
                assert(earlier_items[i] == items[i] && earlier_items[j] == items[j]);
            }
        }
        lemma_without_item_distinct(earlier_items, id);
        let rest = without_item(earlier_items, id);
        let all = without_item(items, id);
        if items.last().0@ != id {
            assert(all == rest.push(items.last()));
            assert forall|k: int| 0 <= k < rest.len() implies rest[k].0@ != items.last().0@ by {
                let i = choose|i: int| 0 <= i < earlier_items.len() && rest[k].0@ == earlier_items[i].0@;
                assert(earlier_items[i] == items[i]);
            }
        }
        assert forall|k: int| 0 <= k < all.len() implies exists|i: int|
            0 <= i < items.len() && (#[trigger] all[k]).0@ == items[i].0@ by {
            if k < rest.len() {
                assert(all[k] == rest[k]);
                let i = choose|i: int| 0 <= i < earlier_items.len() && rest[k].0@ == earlier_items[i].0@;
                assert(earlier_items[i] == items[i]);
            } else {
                assert(all[k] == items[items.len() - 1]);
            }
        }
    }
}

proof fn lemma_without_absent(items: Seq<(String, Vec<NotificationItem>)>, id: Seq<char>)
    requires
        notified_videos(id, items) is None,
    ensures
        without_item(items, id) == items,
    decreases items.len(),
{
    if items.len() > 0 {
        lemma_without_absent(items.drop_last(), id);
        assert(items.drop_last().push(items.last()) =~= items);
    }
}

/// A notification as plain values: the video's id and its release time.
pub type NotificationView = (Seq<char>, i64);

/// The notifications of an item as plain values: the item's id and its
/// new videos.
pub type EntryView = (Seq<char>, Seq<NotificationView>);

pub open spec fn notification_view(n: NotificationItem) -> NotificationView {
    (n.video_id@, n.video_released)
}

pub open spec fn notifications_view(ns: Seq<NotificationItem>) -> Seq<NotificationView> {
    ns.map_values(|n: NotificationItem| notification_view(n))
}

pub open spec fn entries_view(items: Seq<(String, Vec<NotificationItem>)>) -> Seq<EntryView> {
    items.map_values(|e: (String, Vec<NotificationItem>)| (e.0@, notifications_view(e.1@)))
}

/// Whether a video released at `released` is a new video for an item last
/// watched at `last_watched`, at time `now`: it came out after the item was
/// last watched and is not in the future. For an item never watched every
/// released video counts.
pub open spec fn is_new_release(last_watched: Option<i64>, released: i64, now: i64) -> bool {
    match last_watched {
        Some(watched) => watched < released && released <= now,
        None => true,
    }
}

/// The first meta item with the id and with videos among `metas`.
pub open spec fn meta_with_videos(metas: Seq<MetaItem>, id: Seq<char>) -> Option<MetaItem>
    decreases metas.len(),
{
    if metas.len() == 0 {
        None
    } else if metas[0].preview.id@ == id && metas[0].videos@.len() > 0 {
        Some(metas[0])
    } else {
        meta_with_videos(metas.drop_first(), id)
    }
}

/// The first meta item with the id and with videos in the loaded catalogs,
/// in their order.
pub open spec fn catalog_meta(catalogs: Seq<ResourceLoadable<Vec<MetaItem>>>, id: Seq<char>) -> Option<MetaItem>
    decreases catalogs.len(),
{
    if catalogs.len() == 0 {
        None
    } else {
        let found = match catalogs[0].content {
            Some(Loadable::Ready(metas)) => meta_with_videos(metas@, id),
            _ => None,
        };
        if found is Some {
            found
        } else {
            catalog_meta(catalogs.drop_first(), id)
        }
    }
}

/// The ids of the notifications.
pub open spec fn video_ids(ns: Seq<NotificationView>) -> Seq<Seq<char>> {
    ns.map_values(|n: NotificationView| n.0)
}

/// The new videos among `videos` for an item last watched at `watched`:
/// those with a release time that is new, the first of each id, in order.
pub open spec fn new_videos(videos: Seq<Video>, watched: i64, now: i64) -> Seq<NotificationView>
    decreases videos.len(),
{
    if videos.len() == 0 {
        Seq::empty()
    } else {
        let earlier = new_videos(videos.drop_last(), watched, now);
        let v = videos.last();
        match v.released {
            Some(released) => if is_new_release(Some(watched), released, now) && !video_ids(
                earlier,
            ).contains(v.id@) {
                earlier.push((v.id@, released))
            } else {
                earlier
            },
            None => earlier,
        }
    }
}

/// The notifications among `ns` that are still new.
pub open spec fn still_new(ns: Seq<NotificationItem>, last_watched: Option<i64>, now: i64) -> Seq<
    NotificationView,
>
    decreases ns.len(),
{
    if ns.len() == 0 {
        Seq::empty()
    } else {
        let earlier = still_new(ns.drop_last(), last_watched, now);
        if is_new_release(last_watched, ns.last().video_released, now) {
            earlier.push(notification_view(ns.last()))
        } else {
            earlier
        }
    }
}

/// The notifications of a library item: none where new videos are not
/// looked for. Where the catalogs have the item's meta item with videos,
/// its new videos, where there are any. Otherwise the item's current
/// notifications, where it has some, without those no longer new.
pub open spec fn item_notifications(
    item: LibraryItem,
    catalogs: Seq<ResourceLoadable<Vec<MetaItem>>>,
    current: Seq<(String, Vec<NotificationItem>)>,
    now: i64,
) -> Option<EntryView> {
    if !spec_should_pull_notifications(item) {
        None
    } else {
        match catalog_meta(catalogs, item.id@) {
            Some(meta) => match item.state.last_watched {
                Some(watched) => {
                    let found = new_videos(meta.videos@, watched, now);
                    if found.len() > 0 {
                        Some((item.id@, found))
                    } else {
                        None
                    }
                },
                None => None,
            },
            None => match notified_videos(item.id@, current) {
                Some(ns) => if ns.len() > 0 {
                    Some((item.id@, still_new(ns, item.state.last_watched, now)))
                } else {
                    None
                },
                None => None,
            },
        }
    }
}

/// The notifications of the library, item by item in its order.
pub open spec fn next_notification_items(
    library: Seq<LibraryItem>,
    catalogs: Seq<ResourceLoadable<Vec<MetaItem>>>,
    current: Seq<(String, Vec<NotificationItem>)>,
    now: i64,
) -> Seq<EntryView>
    decreases library.len(),
{
    if library.len() == 0 {
        Seq::empty()
    } else {
        let earlier = next_notification_items(library.drop_last(), catalogs, current, now);
        match item_notifications(library.last(), catalogs, current, now) {
            Some(entry) => earlier.push(entry),
            None => earlier,
        }
    }
}

fn find_meta_with_videos<'a>(metas: &'a Vec<MetaItem>, id: &str) -> (r: Option<&'a MetaItem>)
    ensures
        match r {
            Some(m) => meta_with_videos(metas@, id@) == Some(*m),
            None => meta_with_videos(metas@, id@) is None,
        },
{
    let mut i: usize = 0;
    assert(metas@.skip(0) =~= metas@);
    while i < metas.len()
        invariant
            i <= metas.len(),
            meta_with_videos(metas@, id@) == meta_with_videos(metas@.skip(i as int), id@),
        decreases metas.len() - i,
    {
        assert(metas@.skip(i as int)[0] == metas@[i as int]);
        assert(metas@.skip(i as int).drop_first() =~= metas@.skip(i + 1));
        if str_eq(metas[i].preview.id.as_str(), id) && metas[i].videos.len() > 0 {
            return Some(&metas[i]);
        }
        i = i + 1;
    }
    None
}

fn find_catalog_meta<'a>(catalogs: &'a [ResourceLoadable<Vec<MetaItem>>], id: &str) -> (r: Option<&'a MetaItem>)
    ensures
        match r {
            Some(m) => catalog_meta(catalogs@, id@) == Some(*m),
            None => catalog_meta(catalogs@, id@) is None,
        },
{
    let mut i: usize = 0;
    assert(catalogs@.skip(0) =~= catalogs@);
    while i < catalogs.len()
        invariant
            i <= catalogs.len(),
            catalog_meta(catalogs@, id@) == catalog_meta(catalogs@.skip(i as int), id@),
        decreases catalogs.len() - i,
    {
        assert(catalogs@.skip(i as int)[0] == catalogs@[i as int]);
        assert(catalogs@.skip(i as int).drop_first() =~= catalogs@.skip(i + 1));
        if let Some(Loadable::Ready(metas)) = &catalogs[i].content {
            if let Some(m) = find_meta_with_videos(metas, id) {
                return Some(m);
            }
        }
        i = i + 1;
    }
    None
}

fn has_video_id(ns: &Vec<NotificationItem>, id: &str) -> (r: bool)
    ensures
        r == video_ids(notifications_view(ns@)).contains(id@),
{
    let ghost ids = video_ids(notifications_view(ns@));
    let mut i: usize = 0;
    while i < ns.len()
        invariant
            i <= ns.len(),
            ids == video_ids(notifications_view(ns@)),
            forall|j: int| 0 <= j < i ==> ids[j] != id@,
        decreases ns.len() - i,
    {
        if str_eq(ns[i].video_id.as_str(), id) {
            assert(ids[i as int] == id@);
            return true;
        }
        i = i + 1;
    }
    false
}

fn collect_new_videos(videos: &Vec<Video>, watched: i64, now: i64) -> (r: Vec<NotificationItem>)
    ensures
        notifications_view(r@) == new_videos(videos@, watched, now),
{
    let mut out: Vec<NotificationItem> = Vec::new();
    let mut i: usize = 0;
    assert(notifications_view(out@) =~= new_videos(videos@.take(0), watched, now));
    while i < videos.len()
        invariant
            i <= videos.len(),
            notifications_view(out@) == new_videos(videos@.take(i as int), watched, now),
        decreases videos.len() - i,
    {
        assert(videos@.take(i + 1).drop_last() =~= videos@.take(i as int));
        assert(videos@.take(i + 1).last() == videos@[i as int]);
        let v = &videos[i];
        if let Some(released) = v.released {
            if watched < released && released <= now && !has_video_id(&out, v.id.as_str()) {
                out.push(NotificationItem { video_id: v.id.clone(), video_released: released });
                assert(notifications_view(out@) =~= new_videos(videos@.take(i as int), watched, now).push(
                    (v.id@, released),
                ));
            }
        }
        i = i + 1;
    }
    assert(videos@.take(videos.len() as int) =~= videos@);
    out
}

fn keep_still_new(ns: &Vec<NotificationItem>, last_watched: Option<i64>, now: i64) -> (r: Vec<NotificationItem>)
    ensures
        notifications_view(r@) == still_new(ns@, last_watched, now),
{
    let mut out: Vec<NotificationItem> = Vec::new();
    let mut i: usize = 0;
    assert(notifications_view(out@) =~= still_new(ns@.take(0), last_watched, now));
    while i < ns.len()
        invariant
            i <= ns.len(),
            notifications_view(out@) == still_new(ns@.take(i as int), last_watched, now),
        decreases ns.len() - i,
    {
        assert(ns@.take(i + 1).drop_last() =~= ns@.take(i as int));
        assert(ns@.take(i + 1).last() == ns@[i as int]);
        let n = &ns[i];
        let keep = match last_watched {
            Some(watched) => watched < n.video_released && n.video_released <= now,
            None => true,
        };
        if keep {
            out.push(NotificationItem { video_id: n.video_id.clone(), video_released: n.video_released });
            assert(notifications_view(out@) =~= still_new(ns@.take(i as int), last_watched, now).push(
                notification_view(ns@[i as int]),
            ));
        }
        i = i + 1;
    }
    assert(ns@.take(ns.len() as int) =~= ns@);
    out
}

fn notifications_of(
    item: &LibraryItem,
    catalogs: &[ResourceLoadable<Vec<MetaItem>>],
    current: &NotificationsBucket,
    now: i64,
) -> (r: Option<(String, Vec<NotificationItem>)>)
    ensures
        match r {
            Some(e) => item_notifications(*item, catalogs@, current.items@, now) == Some(
                (e.0@, notifications_view(e.1@)),
            ),
            None => item_notifications(*item, catalogs@, current.items@, now) is None,
        },
{
    if !item.should_pull_notifications() {
        return None;
    }
    match find_catalog_meta(catalogs, item.id.as_str()) {
        Some(meta) => match item.state.last_watched {
            Some(watched) => {
                let found = collect_new_videos(&meta.videos, watched, now);
                if found.len() > 0 {
                    Some((item.id.clone(), found))
                } else {
                    None
                }
            },
            None => None,
        },
        None => match find_notified(item.id.as_str(), current) {
            Some(ns) => if ns.len() > 0 {
                Some((item.id.clone(), keep_still_new(ns, item.state.last_watched, now)))
            } else {
                None
            },
            None => None,
        },
    }
}

fn same_notifications(a: &Vec<NotificationItem>, b: &Vec<NotificationItem>) -> (r: bool)
    ensures
        r == (notifications_view(a@) == notifications_view(b@)),
{
    if a.len() != b.len() {
        assert(notifications_view(a@).len() != notifications_view(b@).len());
        return false;
    }
    let mut i: usize = 0;
    while i < a.len()
        invariant
            i <= a.len(),
            a.len() == b.len(),
            forall|j: int| 0 <= j < i ==> notification_view(a@[j]) == #[trigger] notification_view(b@[j]),
        decreases a.len() - i,
    {
        if !(str_eq(a[i].video_id.as_str(), b[i].video_id.as_str()) && a[i].video_released == b[i].video_released) {
            assert(notifications_view(a@)[i as int] != notifications_view(b@)[i as int]);
            return false;
        }
        i = i + 1;
    }
    assert(notifications_view(a@) =~= notifications_view(b@));
    true
}

fn same_entries(a: &Vec<(String, Vec<NotificationItem>)>, b: &Vec<(String, Vec<NotificationItem>)>) -> (r: bool)
    ensures
        r == (entries_view(a@) == entries_view(b@)),
{
    if a.len() != b.len() {
        assert(entries_view(a@).len() != entries_view(b@).len());
        return false;
    }
    let mut i: usize = 0;
    while i < a.len()
        invariant
            i <= a.len(),
            a.len() == b.len(),
            forall|j: int| 0 <= j < i ==> entries_view(a@)[j] == #[trigger] entries_view(b@)[j],
        decreases a.len() - i,
    {
        if !(str_eq(a[i].0.as_str(), b[i].0.as_str()) && same_notifications(&a[i].1, &b[i].1)) {
            assert(entries_view(a@)[i as int] != entries_view(b@)[i as int]);
            return false;
        }
        i = i + 1;
    }
    assert(entries_view(a@) =~= entries_view(b@));
    true
}

/// Recomputes the notifications of the library at time `now` (milliseconds
/// since the Unix epoch) from the loaded catalogs of new videos, as
/// [`next_notification_items`] gives them. The model has changed exactly
/// when the notifications differ from the current ones.
pub fn update_notification_items(
    notifications: &mut NotificationsBucket,
    catalogs: &[ResourceLoadable<Vec<MetaItem>>],
    library: &[LibraryItem],
    now: i64,
) -> (r: Effects<NotificationsEffect>)
    ensures
        entries_view(final(notifications).items@) == next_notification_items(
            library@,
            catalogs@,
            old(notifications).items@,
            now,
        ),
        r.has_changed == (entries_view(old(notifications).items@) != entries_view(final(notifications).items@)),
        r.effect_list().len() == 0,
        final(notifications).uid == old(notifications).uid,
        final(notifications).last_updated == old(notifications).last_updated,
        library_ids_distinct(library@) ==> item_ids_distinct(final(notifications).items@),
{
    let mut next: Vec<(String, Vec<NotificationItem>)> = Vec::new();
    let mut i: usize = 0;
    assert(entries_view(next@) =~= next_notification_items(library@.take(0), catalogs@, notifications.items@, now));
    while i < library.len()
        invariant
            i <= library.len(),
            entries_view(next@) == next_notification_items(library@.take(i as int), catalogs@, notifications.items@, now),
        decreases library.len() - i,
    {
        assert(library@.take(i + 1).drop_last() =~= library@.take(i as int));
        assert(library@.take(i + 1).last() == library@[i as int]);
        let ghost before = entries_view(next@);
        match notifications_of(&library[i], catalogs, notifications, now) {
            Some(entry) => {
                next.push(entry);
                assert(entries_view(next@) =~= before.push((entry.0@, notifications_view(entry.1@))));
            },
            None => {},
        }
        i = i + 1;
    }
    assert(library@.take(library.len() as int) =~= library@);
    let changed = !same_entries(&notifications.items, &next);
    proof {
        if library_ids_distinct(library@) {
            lemma_next_items_distinct(library@, catalogs@, notifications.items@, now);
            let ev = entries_view(next@);
            assert forall|i: int, j: int| 0 <= i < j < next@.len() implies next@[i].0@ != next@[j].0@ by {
                assert(ev[i].0 == next@[i].0@ && ev[j].0 == next@[j].0@);
            }
        }
    }
    notifications.items = next;
    if changed {
        Effects::none()
    } else {
        Effects::none().unchanged()
    }
}

/// How long after asking for new videos they are asked for again: six
/// hours, in milliseconds.
pub const PULL_INTERVAL_MILLIS: i64 = 21600000;

/// The bucket as plain values.
pub open spec fn bucket_view(bucket: NotificationsBucket) -> (Option<Seq<char>>, Option<i64>, Seq<EntryView>) {
    (text_view(bucket.uid), bucket.last_updated, entries_view(bucket.items@))
}

/// Whether new videos are to be asked for at time `now`: never asked for,
/// or the interval has passed since.
pub open spec fn pull_due(last_updated: Option<i64>, now: i64) -> bool {
    match last_updated {
        Some(t) => t + PULL_INTERVAL_MILLIS <= now,
        None => true,
    }
}

/// Whether some item of the library has new videos looked for.
pub open spec fn any_pulled(library: Seq<LibraryItem>) -> bool {
    exists|i: int| 0 <= i < library.len() && spec_should_pull_notifications(#[trigger] library[i])
}

/// The effects are the fetches of the requests, in order.
pub open spec fn fetches_of(effects: Seq<NotificationsEffect>, requests: Seq<ResourceRequest>) -> bool {
    &&& effects.len() == requests.len()
    &&& forall|i: int|
        0 <= i < effects.len() ==> (#[trigger] effects[i] matches NotificationsEffect::Fetch(q) && q@
            == requests[i]@)
}

/// The catalogs are one loading resource per request, in order.
pub open spec fn loading_all(catalogs: Seq<ResourceLoadable<Vec<MetaItem>>>, requests: Seq<ResourceRequest>) -> bool {
    &&& catalogs.len() == requests.len()
    &&& forall|i: int|
        0 <= i < catalogs.len() ==> (#[trigger] catalogs[i]).request@ == requests[i]@ && catalogs[i].content
            == Some(Loadable::<Vec<MetaItem>, ResourceError>::Loading)
}

/// What the notifications react to. The user asks for new videos, and the
/// asking itself comes with the catalog requests planned for the items
/// that [`pulled_items`] gives; the user dismisses the
/// notifications of an item, and the dismissal itself; the user signs out,
/// or a sign-in ends, with the id of the user then signed in; the answer to
/// a catalog request arrives; the notifications changed.
pub enum NotificationsMsg<'a> {
    PullNotificationsRequested,
    PullNotifications { requests: &'a [ResourceRequest] },
    DismissRequested(&'a str),
    Logout { uid: &'a Option<String> },
    AuthResult { request: &'a str, succeeded: bool, uid: &'a Option<String> },
    ResourceRequestResult {
        request: &'a ResourceRequest,
        result: Result<Result<Vec<MetaItem>, String>, EnvError>,
    },
    DismissNotificationItem(&'a str),
    NotificationsChanged,
}

/// The texts as plain values.
pub open spec fn texts_view(texts: Seq<String>) -> Seq<Seq<char>> {
    texts.map_values(|s: String| s@)
}

/// The ids of the items with notifications, in order.
pub open spec fn entry_ids(items: Seq<(String, Vec<NotificationItem>)>) -> Seq<Seq<char>> {
    items.map_values(|e: (String, Vec<NotificationItem>)| e.0@)
}

/// After a sign-out or a sign-in: the catalogs are emptied and the bucket
/// is that of the user, empty; the change is told where the bucket changed.
pub open spec fn reset(
    old_bucket: NotificationsBucket,
    new_bucket: NotificationsBucket,
    catalogs: Seq<ResourceLoadable<Vec<MetaItem>>>,
    uid: Option<String>,
    effects: Seq<NotificationsEffect>,
) -> bool {
    let next = (text_view(uid), None::<i64>, Seq::<EntryView>::empty());
    &&& catalogs.len() == 0
    &&& bucket_view(new_bucket) == next
    &&& effects == if bucket_view(old_bucket) != next {
        seq![NotificationsEffect::NotificationsChanged]
    } else {
        Seq::empty()
    }
}

fn fetch_all(requests: &[ResourceRequest]) -> (r: (Vec<ResourceLoadable<Vec<MetaItem>>>, Vec<NotificationsEffect>))
    ensures
        loading_all(r.0@, requests@),
        fetches_of(r.1@, requests@),
{
    let mut catalogs: Vec<ResourceLoadable<Vec<MetaItem>>> = Vec::new();
    let mut effects: Vec<NotificationsEffect> = Vec::new();
    let mut i: usize = 0;
    while i < requests.len()
        invariant
            i <= requests.len(),
            catalogs@.len() == i && effects@.len() == i,
            forall|j: int|
                0 <= j < i ==> (#[trigger] catalogs@[j]).request@ == requests@[j]@ && catalogs@[j].content
                    == Some(Loadable::<Vec<MetaItem>, ResourceError>::Loading),
            forall|j: int|
                0 <= j < i ==> (#[trigger] effects@[j] matches NotificationsEffect::Fetch(q) && q@
                    == requests@[j]@),
        decreases requests.len() - i,
    {
        catalogs.push(ResourceLoadable { request: requests[i].duplicate(), content: Some(Loadable::Loading) });
        effects.push(NotificationsEffect::Fetch(requests[i].duplicate()));
        i = i + 1;
    }
    (catalogs, effects)
}

fn has_pulled_item(library: &[LibraryItem]) -> (r: bool)
    ensures
        r == any_pulled(library@),
{
    let mut i: usize = 0;
    while i < library.len()
        invariant
            i <= library.len(),
            forall|j: int| 0 <= j < i ==> !spec_should_pull_notifications(#[trigger] library@[j]),
        decreases library.len() - i,
    {
        if library[i].should_pull_notifications() {
            return true;
        }
        i = i + 1;
    }
    false
}

fn ids_of(items: &Vec<(String, Vec<NotificationItem>)>) -> (r: Vec<String>)
    ensures
        texts_view(r@) == entry_ids(items@),
{
    let mut out: Vec<String> = Vec::new();
    let mut i: usize = 0;
    while i < items.len()
        invariant
            i <= items.len(),
            out@.len() == i,
            forall|j: int| 0 <= j < i ==> (#[trigger] out@[j])@ == items@[j].0@,
        decreases items.len() - i,
    {
        out.push(items[i].0.clone());
        i = i + 1;
    }
    assert(texts_view(out@) =~= entry_ids(items@));
    out
}

fn reset_bucket(
    notifications: &mut NotificationsBucket,
    catalogs: &mut Vec<ResourceLoadable<Vec<MetaItem>>>,
    uid: &Option<String>,
) -> (r: Effects<NotificationsEffect>)
    ensures
        reset(*old(notifications), *final(notifications), final(catalogs)@, *uid, r.effect_list()),
        !r.has_changed,
{
    *catalogs = Vec::new();
    let next = NotificationsBucket { uid: clone_uid(uid), last_updated: None, items: Vec::new() };
    assert(entries_view(next.items@) =~= Seq::<EntryView>::empty());
    let same = same_text(&notifications.uid, &next.uid) && notifications.last_updated.is_none()
        && same_entries(&notifications.items, &next.items);
    if same {
        *notifications = next;
        Effects::none().unchanged()
    } else {
        *notifications = next;
        Effects::one(NotificationsEffect::NotificationsChanged).unchanged()
    }
}

fn clone_uid(uid: &Option<String>) -> (r: Option<String>)
    ensures
        text_view(r) == text_view(*uid),
{
    match uid {
        Some(s) => Some(s.clone()),
        None => None,
    }
}

/// One step of the notifications (see [`update_notifications`]): from the
/// bucket and catalogs `before` to those `after`, with the effects and
/// whether the model changed.
pub open spec fn notifications_step(
    before: NotificationsBucket,
    before_catalogs: Vec<ResourceLoadable<Vec<MetaItem>>>,
    library: Seq<LibraryItem>,
    status: CtxStatus,
    msg: NotificationsMsg,
    now: i64,
    after: NotificationsBucket,
    after_catalogs: Vec<ResourceLoadable<Vec<MetaItem>>>,
    effects: Seq<NotificationsEffect>,
    changed: bool,
) -> bool {
    match msg {
        NotificationsMsg::PullNotificationsRequested => {
            &&& after == before
            &&& after_catalogs == before_catalogs
            &&& effects == seq![NotificationsEffect::PullNotifications]
            &&& !changed
        },
        NotificationsMsg::PullNotifications { requests } => {
            let pulled = pull_due(before.last_updated, now) && any_pulled(library);
            &&& pulled ==> loading_all(after_catalogs@, requests@) && fetches_of(effects, requests@)
                && after.last_updated == Some(now)
            &&& !pulled ==> after_catalogs == before_catalogs && effects.len() == 0
                && after.last_updated == before.last_updated
            &&& after.uid == before.uid
            &&& entries_view(after.items@) == next_notification_items(
                library,
                after_catalogs@,
                before.items@,
                now,
            )
            &&& !changed
        },
        NotificationsMsg::DismissRequested(id) => {
            &&& after == before
            &&& after_catalogs == before_catalogs
            &&& effects.len() == 1
            &&& (effects[0] matches NotificationsEffect::DismissNotificationItem(d) && d@ == id@)
            &&& !changed
        },
        NotificationsMsg::Logout { uid } => {
            &&& reset(before, after, after_catalogs@, *uid, effects)
            &&& !changed
        },
        NotificationsMsg::AuthResult { request, succeeded, uid } => {
            let accepted = succeeded && (status matches CtxStatus::Loading(l) && l@ == request@);
            &&& accepted ==> effects.len() > 0 && effects.last()
                == NotificationsEffect::PullNotifications && reset(
                before,
                after,
                after_catalogs@,
                *uid,
                effects.drop_last(),
            )
            &&& !accepted ==> after == before && after_catalogs
                == before_catalogs && effects.len() == 0
            &&& !changed
        },
        NotificationsMsg::ResourceRequestResult { request, result } => {
            let taken = first_accepting(before_catalogs@, request@) is Some;
            &&& answered(before_catalogs@, request@, vector_content_of_result(result), after_catalogs@)
            &&& after.uid == before.uid
            &&& after.last_updated == before.last_updated
            &&& taken ==> entries_view(after.items@) == next_notification_items(
                library,
                after_catalogs@,
                before.items@,
                now,
            )
            &&& !taken ==> after.items == before.items
            &&& effects == if entries_view(after.items@) != entries_view(
                before.items@,
            ) {
                seq![NotificationsEffect::NotificationsChanged]
            } else {
                Seq::empty()
            }
            &&& changed == (taken || entries_view(after.items@) != entries_view(
                before.items@,
            ))
        },
        NotificationsMsg::DismissNotificationItem(id) => {
            &&& after_catalogs == before_catalogs
            &&& after.uid == before.uid
            &&& after.last_updated == before.last_updated
            &&& notified_videos(id@, before.items@) is None ==> {
                &&& after.items@ == before.items@
                &&& !changed
                &&& effects.len() == 0
            }
            &&& notified_videos(id@, before.items@) is Some ==> {
                &&& after.items@ == without_item(before.items@, id@)
                &&& changed
                &&& effects.len() > 0
                &&& effects.drop_last() == seq![NotificationsEffect::NotificationsChanged]
                    + match library_item_of(library, id@) {
                    Some(item) => seq![
                        NotificationsEffect::UpdateLibraryItem(
                            LibraryItem {
                                state: LibraryItemState { last_watched: Some(now), ..item.state },
                                ..item
                            },
                        ),
                    ],
                    None => Seq::empty(),
                }
                &&& (effects.last() matches NotificationsEffect::NotificationsDismissed(d) && d@
                    == id@)
            }
        },
        NotificationsMsg::NotificationsChanged => {
            &&& after == before
            &&& after_catalogs == before_catalogs
            &&& effects.len() == 1
            &&& (effects[0] matches NotificationsEffect::PushNotificationsToStorage(ids) && texts_view(ids@)
                == entry_ids(before.items@))
            &&& !changed
        },
    }
}

/// The reducer of the notifications of new videos, at time `now`
/// (milliseconds since the Unix epoch).
///
/// Asking for new videos, where it is due and some item has new videos
/// looked for, replaces the catalogs with the planned requests, all
/// loading, fetches them all and records the time; either way the
/// notifications are then recomputed. An answer to a catalog request is
/// taken by the catalogs, and where they changed the notifications are
/// recomputed and, where those changed, the change is told. Signing out,
/// and a sign-in that ends for the request in progress, empty the catalogs
/// and the bucket of the user then signed in; a sign-in then asks for new
/// videos. A change of the notifications stores them.
pub fn update_notifications(
    notifications: &mut NotificationsBucket,
    catalogs: &mut Vec<ResourceLoadable<Vec<MetaItem>>>,
    library: &[LibraryItem],
    status: &CtxStatus,
    msg: NotificationsMsg,
    now: i64,
) -> (r: Effects<NotificationsEffect>)
    ensures
        notifications_step(
            *old(notifications),
            *old(catalogs),
            library@,
            *status,
            msg,
            now,
            *final(notifications),
            *final(catalogs),
            r.effect_list(),
            r.has_changed,
        ),
{
    match msg {
        NotificationsMsg::PullNotificationsRequested => {
            Effects::one(NotificationsEffect::PullNotifications).unchanged()
        },
        NotificationsMsg::PullNotifications { requests } => {
            let due = match notifications.last_updated {
                Some(t) => (t as i128) + (PULL_INTERVAL_MILLIS as i128) <= (now as i128),
                None => true,
            };
            let mut effects: Vec<NotificationsEffect> = Vec::new();
            if due && has_pulled_item(library) {
                let (next, fetches) = fetch_all(requests);
                *catalogs = next;
                effects = fetches;
                notifications.last_updated = Some(now);
            }
            update_notification_items(notifications, catalogs, library, now);
            Effects::many(effects).unchanged()
        },
        NotificationsMsg::DismissRequested(id) => {
            Effects::one(NotificationsEffect::DismissNotificationItem(id.to_string())).unchanged()
        },
        NotificationsMsg::Logout { uid } => reset_bucket(notifications, catalogs, uid),
        NotificationsMsg::AuthResult { request, succeeded, uid } => {
            let accepted = match status {
                CtxStatus::Loading(l) => succeeded && str_eq(l.as_str(), request),
                CtxStatus::Ready => false,
            };
            if accepted {
                let reset = reset_bucket(notifications, catalogs, uid);
                let r = reset.join(Effects::one(NotificationsEffect::PullNotifications).unchanged());
                assert(r.effect_list().drop_last() =~= reset.effect_list());
                r
            } else {
                Effects::none().unchanged()
            }
        },
        NotificationsMsg::ResourceRequestResult { request, result } => {
            let catalog_effects = resources_update_with_vector_content(
                catalogs,
                ResourcesAction::ResourceRequestResult { request, result },
            );
            let items_changed = if catalog_effects.has_changed {
                update_notification_items(notifications, catalogs, library, now).has_changed
            } else {
                false
            };
            let told = if items_changed {
                Effects::one(NotificationsEffect::NotificationsChanged)
            } else {
                Effects::none().unchanged()
            };
            Effects { effects: Vec::new(), has_changed: catalog_effects.has_changed }.join(told)
        },
        NotificationsMsg::DismissNotificationItem(id) => dismiss_notification_item(library, notifications, id, now),
        NotificationsMsg::NotificationsChanged => {
            Effects::one(NotificationsEffect::PushNotificationsToStorage(ids_of(&notifications.items))).unchanged()
        },
    }
}

/// The items whose new videos are looked for, as their modification time,
/// id and type, in library order.
pub open spec fn pull_candidates(library: Seq<LibraryItem>) -> Seq<(i64, String, String)>
    decreases library.len(),
{
    if library.len() == 0 {
        Seq::empty()
    } else {
        let item = library.last();
        pull_candidates(library.drop_last()) + if spec_should_pull_notifications(item) {
            seq![(item.mtime, item.id, item.content_type)]
        } else {
            Seq::empty()
        }
    }
}

/// The order of the most recently modified first.
pub struct NewestModified;

impl ItemOrder<(i64, String, String)> for NewestModified {
    open spec fn order(&self, a: (i64, String, String), b: (i64, String, String)) -> int {
        int_order(b.0 as int, a.0 as int)
    }

    fn compare(&self, a: &(i64, String, String), b: &(i64, String, String)) -> (r: Ordering) {
        if b.0 < a.0 {
            Ordering::Less
        } else if b.0 == a.0 {
            Ordering::Equal
        } else {
            Ordering::Greater
        }
    }

    proof fn order_antisymmetric(&self, a: (i64, String, String), b: (i64, String, String)) {
    }
}

/// The id and type of each candidate.
pub open spec fn ids_and_types(candidates: Seq<(i64, String, String)>) -> Seq<(String, String)> {
    candidates.map_values(|c: (i64, String, String)| (c.1, c.2))
}

/// The ids and types of the items whose new videos are looked for, the
/// most recently modified first: what the catalogs of new videos are asked
/// about.
pub fn pulled_items(library: &[LibraryItem]) -> (r: Vec<(String, String)>)
    ensures
        r@ == ids_and_types(insertion_sort(NewestModified, pull_candidates(library@))),
{
    let mut candidates: Vec<(i64, String, String)> = Vec::new();
    let mut i: usize = 0;
    while i < library.len()
        invariant
            i <= library.len(),
            candidates@ == pull_candidates(library@.take(i as int)),
        decreases library.len() - i,
    {
        assert(library@.take(i + 1).drop_last() =~= library@.take(i as int));
        assert(library@.take(i + 1).last() == library@[i as int]);
        let item = &library[i];
        if item.should_pull_notifications() {
            candidates.push((item.mtime, item.id.clone(), item.content_type.clone()));
        }
        assert(candidates@ =~= pull_candidates(library@.take(i + 1)));
        i = i + 1;
    }
    assert(library@.take(library.len() as int) =~= library@);
    let sorted = sort_with(&NewestModified, candidates);
    let mut out: Vec<(String, String)> = Vec::new();
    let mut rest = sorted;
    let ghost all = rest@;
    let mut back: Vec<(String, String)> = Vec::new();
    while rest.len() > 0
        invariant
            rest@.len() + back@.len() == all.len(),
            rest@ == all.take(rest@.len() as int),
            forall|j: int| 0 <= j < back@.len() ==> back@[j] == (all[all.len() - 1 - j].1, all[all.len() - 1 - j].2),
        decreases rest.len(),
    {
        let ghost n = rest@.len();
        let (_, id, content_type) = rest.pop().unwrap();
        back.push((id, content_type));
        assert(rest@ =~= all.take(n - 1));
    }
    while back.len() > 0
        invariant
            out@.len() + back@.len() == all.len(),
            forall|j: int| 0 <= j < back@.len() ==> back@[j] == (all[all.len() - 1 - j].1, all[all.len() - 1 - j].2),
            forall|j: int| 0 <= j < out@.len() ==> out@[j] == (all[j].1, all[j].2),
        decreases back.len(),
    {
        let pair = back.pop().unwrap();
        out.push(pair);
    }
    assert(out@ =~= ids_and_types(all));
    out
}


/// Whether video `i` came out after `watched` and not after `now`.
pub open spec fn released_between(videos: Seq<Video>, i: int, watched: i64, now: i64) -> bool {
    videos[i].released matches Some(r) && watched < r && r <= now
}

proof fn lemma_new_videos_step(videos: Seq<Video>, watched: i64, now: i64)
    requires
        videos.len() > 0,
    ensures
        ({
            let earlier = new_videos(videos.drop_last(), watched, now);
            let v = videos.last();
            let pushed = released_between(videos, videos.len() - 1, watched, now) && !video_ids(earlier).contains(
                v.id@,
            );
            &&& pushed ==> new_videos(videos, watched, now) == earlier.push((v.id@, v.released->Some_0))
            &&& !pushed ==> new_videos(videos, watched, now) == earlier
        }),
        forall|i: int|
            0 <= i < videos.len() - 1 ==> videos.drop_last()[i] == videos[i] && (released_between(
                videos.drop_last(),
                i,
                watched,
                now,
            ) == released_between(videos, i, watched, now)),
{
}

proof fn lemma_new_videos_complete(videos: Seq<Video>, watched: i64, now: i64)
    ensures
        forall|i: int|
            0 <= i < videos.len() && released_between(videos, i, watched, now) ==> exists|k: int|
                0 <= k < new_videos(videos, watched, now).len() && (#[trigger] new_videos(videos, watched, now)[k]).0
                    == videos[i].id@,
    decreases videos.len(),
{
    if videos.len() > 0 {
        let vs = videos.drop_last();
        lemma_new_videos_complete(vs, watched, now);
        lemma_new_videos_step(videos, watched, now);
        let earlier = new_videos(vs, watched, now);
        let all = new_videos(videos, watched, now);
        let n = videos.len() - 1;
        let v = videos.last();
        assert forall|k: int| 0 <= k < earlier.len() implies all[k] == earlier[k] by {}
        assert forall|i: int| 0 <= i < videos.len() && released_between(videos, i, watched, now) implies exists|k: int|
            0 <= k < all.len() && (#[trigger] all[k]).0 == videos[i].id@ by {
            if i < n {
                assert(released_between(vs, i, watched, now));
                let k = choose|k: int| 0 <= k < earlier.len() && (#[trigger] earlier[k]).0 == vs[i].id@;
                assert(all[k] == earlier[k]);
            } else if !video_ids(earlier).contains(v.id@) {
                assert(all[earlier.len() as int].0 == v.id@);
            } else {
                let k = choose|k: int| 0 <= k < video_ids(earlier).len() && video_ids(earlier)[k] == v.id@;
                assert(earlier[k].0 == v.id@);
                assert(all[k] == earlier[k]);
            }
        }
    }
}

/// The video `i` is the first new release with its id.
pub open spec fn first_new_release(videos: Seq<Video>, i: int, watched: i64, now: i64) -> bool {
    &&& 0 <= i < videos.len()
    &&& released_between(videos, i, watched, now)
    &&& forall|j: int| 0 <= j < i && videos[j].id@ == videos[i].id@ ==> !released_between(videos, j, watched, now)
}

/// The notification `n` is of video `i`, the first new release with its
/// id, with its release time.
pub open spec fn notifies_of(videos: Seq<Video>, i: int, watched: i64, now: i64, n: NotificationView) -> bool {
    &&& first_new_release(videos, i, watched, now)
    &&& videos[i].id@ == n.0
    &&& videos[i].released == Some(n.1)
}

/// The notification `n` is of some video, the first new release with its
/// id, with its release time.
pub open spec fn has_source(videos: Seq<Video>, watched: i64, now: i64, n: NotificationView) -> bool {
    exists|i: int| notifies_of(videos, i, watched, now, n)
}

proof fn lemma_new_videos_sound(videos: Seq<Video>, watched: i64, now: i64)
    ensures
        forall|k: int|
            0 <= k < new_videos(videos, watched, now).len() ==> has_source(
                videos,
                watched,
                now,
                #[trigger] new_videos(videos, watched, now)[k],
            ),
    decreases videos.len(),
{
    if videos.len() > 0 {
        let vs = videos.drop_last();
        lemma_new_videos_sound(vs, watched, now);
        lemma_new_videos_complete(vs, watched, now);
        lemma_new_videos_step(videos, watched, now);
        let earlier = new_videos(vs, watched, now);
        let all = new_videos(videos, watched, now);
        let n = videos.len() - 1;
        let v = videos.last();
        assert forall|k: int| 0 <= k < earlier.len() implies all[k] == earlier[k] by {}
        assert forall|k: int| 0 <= k < all.len() implies has_source(videos, watched, now, #[trigger] all[k]) by {
            if k < earlier.len() {
                let i = choose|i: int| notifies_of(vs, i, watched, now, earlier[k]);
                assert(all[k] == earlier[k]);
                assert forall|j: int| 0 <= j < i && videos[j].id@ == videos[i].id@ implies !released_between(
                    videos,
                    j,
                    watched,
                    now,
                ) by {
                    assert(vs[j] == videos[j]);
                }
                assert(notifies_of(videos, i, watched, now, all[k]));
            } else {
                assert(k == earlier.len());
                assert forall|j: int| 0 <= j < n && videos[j].id@ == videos[n].id@ implies !released_between(
                    videos,
                    j,
                    watched,
                    now,
                ) by {
                    if released_between(videos, j, watched, now) {
                        assert(released_between(vs, j, watched, now));
                        let m = choose|m: int| 0 <= m < earlier.len() && (#[trigger] earlier[m]).0 == vs[j].id@;
                        assert(video_ids(earlier)[m] == v.id@);
                    }
                }
                assert(notifies_of(videos, n, watched, now, all[k]));
            }
        }
    }
}

proof fn lemma_new_videos_distinct(videos: Seq<Video>, watched: i64, now: i64)
    ensures
        forall|k1: int, k2: int|
            0 <= k1 < k2 < new_videos(videos, watched, now).len() ==> new_videos(videos, watched, now)[k1].0
                != new_videos(videos, watched, now)[k2].0,
    decreases videos.len(),
{
    if videos.len() > 0 {
        let vs = videos.drop_last();
        lemma_new_videos_distinct(vs, watched, now);
        lemma_new_videos_step(videos, watched, now);
        let earlier = new_videos(vs, watched, now);
        let v = videos.last();
        if released_between(videos, videos.len() - 1, watched, now) && !video_ids(earlier).contains(v.id@) {
            assert forall|k: int| 0 <= k < earlier.len() implies earlier[k].0 != v.id@ by {
                if earlier[k].0 == v.id@ {
                    assert(video_ids(earlier)[k] == v.id@);
                }
            }
        }
    }
}

/// The new videos of an item last watched at `watched` are, at time `now`,
/// exactly the videos released after `watched` and not after `now`, one
/// notification per video id: every such video's id is notified; each
/// notification is of the first such video with that id, with its release
/// time; and no id is notified twice.
pub proof fn law_new_videos_are_the_new_releases(videos: Seq<Video>, watched: i64, now: i64)
    ensures
        forall|i: int|
            0 <= i < videos.len() && released_between(videos, i, watched, now) ==> exists|k: int|
                0 <= k < new_videos(videos, watched, now).len() && (#[trigger] new_videos(videos, watched, now)[k]).0
                    == videos[i].id@,
        forall|k: int|
            0 <= k < new_videos(videos, watched, now).len() ==> has_source(
                videos,
                watched,
                now,
                #[trigger] new_videos(videos, watched, now)[k],
            ),
        forall|k1: int, k2: int|
            0 <= k1 < k2 < new_videos(videos, watched, now).len() ==> new_videos(videos, watched, now)[k1].0
                != new_videos(videos, watched, now)[k2].0,
{
    lemma_new_videos_complete(videos, watched, now);
    lemma_new_videos_sound(videos, watched, now);
    lemma_new_videos_distinct(videos, watched, now);
}

/// The current notifications that are kept for an item last watched at
/// `last_watched` are, at time `now`, exactly those of videos released
/// after it (any, for an item never watched) and not after `now`, in their
/// order.
pub proof fn law_still_new_keeps_the_new_releases(ns: Seq<NotificationItem>, last_watched: Option<i64>, now: i64)
    ensures
        still_new(ns, last_watched, now) == notifications_view(ns).filter(
            |n: NotificationView|
                match last_watched {
                    Some(w) => w < n.1 && n.1 <= now,
                    None => true,
                },
        ),
    decreases ns.len(),
{
    reveal(Seq::filter);
    let pred = |n: NotificationView|
        match last_watched {
            Some(w) => w < n.1 && n.1 <= now,
            None => true,
        };
    if ns.len() > 0 {
        law_still_new_keeps_the_new_releases(ns.drop_last(), last_watched, now);
        assert(notifications_view(ns).drop_last() =~= notifications_view(ns.drop_last()));
        assert(notifications_view(ns).last() == notification_view(ns.last()));
    } else {
        assert(notifications_view(ns) =~= Seq::<NotificationView>::empty());
    }
}


/// The meta items of the loaded catalogs.
pub open spec fn loaded_metas(catalog: ResourceLoadable<Vec<MetaItem>>) -> Seq<MetaItem> {
    match catalog.content {
        Some(Loadable::Ready(metas)) => metas@,
        _ => Seq::empty(),
    }
}

proof fn lemma_meta_with_videos(metas: Seq<MetaItem>, id: Seq<char>)
    ensures
        meta_with_videos(metas, id) matches Some(m) ==> metas.contains(m) && m.preview.id@ == id && m.videos@.len()
            > 0,
        meta_with_videos(metas, id) is None ==> forall|j: int|
            0 <= j < metas.len() ==> !((#[trigger] metas[j]).preview.id@ == id && metas[j].videos@.len() > 0),
    decreases metas.len(),
{
    if metas.len() > 0 {
        lemma_meta_with_videos(metas.drop_first(), id);
        if let Some(m) = meta_with_videos(metas, id) {
            if !(metas[0].preview.id@ == id && metas[0].videos@.len() > 0) {
                let j = choose|j: int| 0 <= j < metas.drop_first().len() && metas.drop_first()[j] == m;
                assert(metas[j + 1] == m);
            } else {
                assert(metas[0] == m);
            }
        } else {
            assert forall|j: int| 0 <= j < metas.len() implies !((#[trigger] metas[j]).preview.id@ == id
                && metas[j].videos@.len() > 0) by {
                if j > 0 {
                    assert(metas.drop_first()[j - 1] == metas[j]);
                }
            }
        }
    }
}

/// The meta item looked up for an item is one with the item's id and with
/// videos from a loaded catalog; none is found only where no loaded catalog
/// has such a meta item.
pub proof fn law_catalog_meta_is_a_loaded_meta_with_videos(
    catalogs: Seq<ResourceLoadable<Vec<MetaItem>>>,
    id: Seq<char>,
)
    ensures
        catalog_meta(catalogs, id) matches Some(m) ==> m.preview.id@ == id && m.videos@.len() > 0 && exists|c: int|
            0 <= c < catalogs.len() && loaded_metas(#[trigger] catalogs[c]).contains(m),
        catalog_meta(catalogs, id) is None ==> forall|c: int, j: int|
            0 <= c < catalogs.len() && 0 <= j < loaded_metas(catalogs[c]).len() ==> !((#[trigger] loaded_metas(
                #[trigger] catalogs[c],
            )[j]).preview.id@ == id && loaded_metas(catalogs[c])[j].videos@.len() > 0),
    decreases catalogs.len(),
{
    if catalogs.len() > 0 {
        law_catalog_meta_is_a_loaded_meta_with_videos(catalogs.drop_first(), id);
        lemma_meta_with_videos(loaded_metas(catalogs[0]), id);
        let found = match catalogs[0].content {
            Some(Loadable::Ready(metas)) => meta_with_videos(metas@, id),
            _ => None,
        };
        assert(loaded_metas(catalogs[0]).len() == 0 ==> found is None);
        if found is None {
            if loaded_metas(catalogs[0]).len() > 0 {
                assert(found == meta_with_videos(loaded_metas(catalogs[0]), id));
            }
        } else {
            assert(found == meta_with_videos(loaded_metas(catalogs[0]), id));
        }
        if let Some(m) = catalog_meta(catalogs, id) {
            if found is None {
                let c = choose|c: int|
                    0 <= c < catalogs.drop_first().len() && loaded_metas(#[trigger] catalogs.drop_first()[c]).contains(m);
                assert(catalogs[c + 1] == catalogs.drop_first()[c]);
            }
        } else {
            assert forall|c: int, j: int|
                0 <= c < catalogs.len() && 0 <= j < loaded_metas(catalogs[c]).len() implies !((#[trigger] loaded_metas(
                #[trigger] catalogs[c],
            )[j]).preview.id@ == id && loaded_metas(catalogs[c])[j].videos@.len() > 0) by {
                if c > 0 {
                    assert(catalogs.drop_first()[c - 1] == catalogs[c]);
                }
            }
        }
    }
}

/// The notifications of a library item. New videos are looked for only
/// for an item that has notifications on, is neither of type `other` nor a
/// movie, has no default video, and is kept and not temporary. Where the
/// catalogs have the item's meta item, the item has notifications exactly
/// when it was watched and some video came out since, and they are its new
/// videos; otherwise its current notifications, where there are some, are
/// kept as far as they are still new. An entry is always the item's.
pub proof fn law_item_notifications(
    item: LibraryItem,
    catalogs: Seq<ResourceLoadable<Vec<MetaItem>>>,
    current: Seq<(String, Vec<NotificationItem>)>,
    now: i64,
)
    ensures
        spec_should_pull_notifications(item) == (!item.state.no_notif && item.content_type@ != "other"@
            && item.content_type@ != "movie"@ && item.default_video_id is None && !item.removed && !item.temp),
        !spec_should_pull_notifications(item) ==> item_notifications(item, catalogs, current, now) is None,
        item_notifications(item, catalogs, current, now) matches Some(e) ==> e.0 == item.id@,
        spec_should_pull_notifications(item) && catalog_meta(catalogs, item.id@) is Some ==> {
            let m = catalog_meta(catalogs, item.id@)->Some_0;
            &&& item_notifications(item, catalogs, current, now) is Some <==> (item.state.last_watched is Some
                && exists|i: int|
                0 <= i < m.videos@.len() && released_between(m.videos@, i, item.state.last_watched->Some_0, now))
            &&& item_notifications(item, catalogs, current, now) matches Some(e) ==> e.1 == new_videos(
                m.videos@,
                item.state.last_watched->Some_0,
                now,
            )
        },
        spec_should_pull_notifications(item) && catalog_meta(catalogs, item.id@) is None ==> {
            &&& item_notifications(item, catalogs, current, now) is Some <==> (notified_videos(item.id@, current) matches Some(
                ns,
            ) && ns.len() > 0)
            &&& item_notifications(item, catalogs, current, now) matches Some(e) ==> e.1 == still_new(
                notified_videos(item.id@, current)->Some_0,
                item.state.last_watched,
                now,
            )
        },
{
    if let Some(m) = catalog_meta(catalogs, item.id@) {
        if let Some(w) = item.state.last_watched {
            law_new_videos_are_the_new_releases(m.videos@, w, now);
            let found = new_videos(m.videos@, w, now);
            if exists|i: int| 0 <= i < m.videos@.len() && released_between(m.videos@, i, w, now) {
                let i = choose|i: int| 0 <= i < m.videos@.len() && released_between(m.videos@, i, w, now);
                let k = choose|k: int| 0 <= k < found.len() && (#[trigger] found[k]).0 == m.videos@[i].id@;
            }
            if found.len() > 0 {
                assert(has_source(m.videos@, w, now, found[0]));
                let i = choose|i: int| notifies_of(m.videos@, i, w, now, found[0]);
            }
        }
    }
}

/// An entry of the library's notifications comes from a library item.
pub open spec fn entry_of_item(
    library: Seq<LibraryItem>,
    catalogs: Seq<ResourceLoadable<Vec<MetaItem>>>,
    current: Seq<(String, Vec<NotificationItem>)>,
    now: i64,
    e: EntryView,
) -> bool {
    exists|i: int| 0 <= i < library.len() && item_notifications(library[i], catalogs, current, now) == Some(e)
}

/// The notifications of the library are those of its items: every item
/// with notifications has its entry, and every entry is an item's.
pub proof fn law_library_notifications_are_the_items(
    library: Seq<LibraryItem>,
    catalogs: Seq<ResourceLoadable<Vec<MetaItem>>>,
    current: Seq<(String, Vec<NotificationItem>)>,
    now: i64,
)
    ensures
        forall|i: int|
            0 <= i < library.len() && #[trigger] item_notifications(library[i], catalogs, current, now) is Some
                ==> next_notification_items(library, catalogs, current, now).contains(
                item_notifications(library[i], catalogs, current, now)->Some_0,
            ),
        forall|k: int|
            0 <= k < next_notification_items(library, catalogs, current, now).len() ==> entry_of_item(
                library,
                catalogs,
                current,
                now,
                #[trigger] next_notification_items(library, catalogs, current, now)[k],
            ),
    decreases library.len(),
{
    if library.len() > 0 {
        let lib = library.drop_last();
        law_library_notifications_are_the_items(lib, catalogs, current, now);
        let earlier = next_notification_items(lib, catalogs, current, now);
        let all = next_notification_items(library, catalogs, current, now);
        let n = library.len() - 1;
        assert forall|k: int| 0 <= k < earlier.len() implies all[k] == earlier[k] by {}
        assert forall|i: int|
            0 <= i < library.len() && #[trigger] item_notifications(library[i], catalogs, current, now) is Some
                implies all.contains(item_notifications(library[i], catalogs, current, now)->Some_0) by {
            if i < n {
                assert(lib[i] == library[i]);
                let e = item_notifications(library[i], catalogs, current, now)->Some_0;
                let k = choose|k: int| 0 <= k < earlier.len() && earlier[k] == e;
                assert(all[k] == e);
            } else {
                assert(all[earlier.len() as int] == item_notifications(library[n], catalogs, current, now)->Some_0);
            }
        }
        assert forall|k: int| 0 <= k < all.len() implies entry_of_item(library, catalogs, current, now, #[trigger] all[k]) by {
            if k < earlier.len() {
                assert(entry_of_item(lib, catalogs, current, now, earlier[k]));
                let i = choose|i: int| 0 <= i < lib.len() && item_notifications(lib[i], catalogs, current, now) == Some(earlier[k]);
                assert(lib[i] == library[i]);
                assert(item_notifications(library[i], catalogs, current, now) == Some(all[k]));
            } else {
                assert(item_notifications(library[n], catalogs, current, now) == Some(all[k]));
            }
        }
    }
}

} // verus!
