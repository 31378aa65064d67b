use vstd::prelude::*;

verus! {

/// The watch state of a library item. Times are milliseconds since the
/// Unix epoch.
#[derive(PartialEq, Eq, Debug, Default)]
pub struct LibraryItemState {
    pub last_watched: Option<i64>,
    pub time_watched: u64,
    pub time_offset: u64,
    pub overall_time_watched: u64,
    pub times_watched: u32,
    pub flagged_watched: u32,
    pub duration: u64,
    pub video_id: Option<String>,
    pub no_notif: bool,
}

/// An item of the user's library. Times are milliseconds since the Unix
/// epoch.
#[derive(PartialEq, Eq, Debug)]
pub struct LibraryItem {
    pub id: String,
    pub name: String,
    pub content_type: String,
    pub poster: Option<String>,
    pub removed: bool,
    pub temp: bool,
    pub ctime: Option<i64>,
    pub mtime: i64,
    pub state: LibraryItemState,
    pub default_video_id: Option<String>,
}

fn clone_text(value: &Option<String>) -> (r: Option<String>)
    ensures
        r == *value,
{
    match value {
        Some(s) => Some(s.clone()),
        None => None,
    }
}

impl Clone for LibraryItemState {
    fn clone(&self) -> (r: Self)
        ensures
            r == *self,
    {
        LibraryItemState {
            last_watched: self.last_watched,
            time_watched: self.time_watched,
            time_offset: self.time_offset,
            overall_time_watched: self.overall_time_watched,
            times_watched: self.times_watched,
            flagged_watched: self.flagged_watched,
            duration: self.duration,
            video_id: clone_text(&self.video_id),
            no_notif: self.no_notif,
        }
    }
}

impl Clone for LibraryItem {
    fn clone(&self) -> (r: Self)
        ensures
            r == *self,
    {
        LibraryItem {
            id: self.id.clone(),
            name: self.name.clone(),
            content_type: self.content_type.clone(),
            poster: clone_text(&self.poster),
            removed: self.removed,
            temp: self.temp,
            ctime: self.ctime,
            mtime: self.mtime,
            state: self.state.clone(),
            default_video_id: clone_text(&self.default_video_id),
        }
    }
}

/// Whether new videos of the item are looked for: notifications are on,
/// it is neither of type `other` nor a movie, it has no default video, and
/// it is kept and not temporary.
pub open spec fn spec_should_pull_notifications(item: LibraryItem) -> bool {
    &&& !item.state.no_notif
    &&& item.content_type@ != "other"@
    &&& item.content_type@ != "movie"@
    &&& item.default_video_id is None
    &&& !item.removed
    &&& !item.temp
}

/// Whether the item counts as watched: it was watched at least once.
pub open spec fn spec_watched(item: LibraryItem) -> bool {
    item.state.times_watched > 0
}

/// Whether the item is shown in "continue watching": it is not of type
/// `other`, it is kept (or temporary), and playback has progressed.
pub open spec fn spec_in_continue_watching(item: LibraryItem) -> bool {
    &&& item.content_type@ != "other"@
    &&& (!item.removed || item.temp)
    &&& item.state.time_offset > 0
}

impl LibraryItem {
    pub fn watched(&self) -> (r: bool)
        ensures
            r == spec_watched(*self),
    {
        self.state.times_watched > 0
    }

    pub fn should_pull_notifications(&self) -> (r: bool)
        ensures
            r == spec_should_pull_notifications(*self),
    {
        !self.state.no_notif && !crate::text::str_eq(self.content_type.as_str(), "other")
            && !crate::text::str_eq(self.content_type.as_str(), "movie") && self.default_video_id.is_none()
            && !self.removed && !self.temp
    }

    pub fn is_in_continue_watching(&self) -> (r: bool)
        ensures
            r == spec_in_continue_watching(*self),
    {
        !crate::text::str_eq(self.content_type.as_str(), "other") && (!self.removed || self.temp)
            && self.state.time_offset > 0
    }
}

/// A library item state as plain values.
pub struct LibraryItemStateView {
    pub last_watched: Option<i64>,
    pub time_watched: u64,
    pub time_offset: u64,
    pub overall_time_watched: u64,
    pub times_watched: u32,
    pub flagged_watched: u32,
    pub duration: u64,
    pub video_id: Option<Seq<char>>,
    pub no_notif: bool,
}

/// A library item as plain values.
pub struct LibraryItemView {
    pub id: Seq<char>,
    pub name: Seq<char>,
    pub content_type: Seq<char>,
    pub poster: Option<Seq<char>>,
    pub removed: bool,
    pub temp: bool,
    pub ctime: Option<i64>,
    pub mtime: i64,
    pub state: LibraryItemStateView,
    pub default_video_id: Option<Seq<char>>,
}

pub open spec fn text_view(value: Option<String>) -> Option<Seq<char>> {
    match value {
        Some(s) => Some(s@),
        None => None,
    }
}

impl View for LibraryItemState {
    type V = LibraryItemStateView;

    open spec fn view(&self) -> LibraryItemStateView {
        LibraryItemStateView {
            last_watched: self.last_watched,
            time_watched: self.time_watched,
            time_offset: self.time_offset,
            overall_time_watched: self.overall_time_watched,
            times_watched: self.times_watched,
            flagged_watched: self.flagged_watched,
            duration: self.duration,
            video_id: text_view(self.video_id),
            no_notif: self.no_notif,
        }
    }
}

impl View for LibraryItem {
    type V = LibraryItemView;

    open spec fn view(&self) -> LibraryItemView {
        LibraryItemView {
            id: self.id@,
            name: self.name@,
            content_type: self.content_type@,
            poster: text_view(self.poster),
            removed: self.removed,
            temp: self.temp,
            ctime: self.ctime,
            mtime: self.mtime,
            state: self.state@,
            default_video_id: text_view(self.default_video_id),
        }
    }
}

pub open spec fn items_view(items: Seq<LibraryItem>) -> Seq<LibraryItemView> {
    items.map_values(|i: LibraryItem| i@)
}

pub fn same_text(a: &Option<String>, b: &Option<String>) -> (r: bool)
    ensures
        r == (text_view(*a) == text_view(*b)),
{
    match (a, b) {
        (Some(x), Some(y)) => crate::text::str_eq(x.as_str(), y.as_str()),
        (None, None) => true,
        _ => false,
    }
}

impl LibraryItem {
    /// Whether two items hold the same values.
    pub fn same_as(&self, other: &LibraryItem) -> (r: bool)
        ensures
            r == (self@ == other@),
    {
        let a = &self.state;
        let b = &other.state;
        crate::text::str_eq(self.id.as_str(), other.id.as_str())
            && crate::text::str_eq(self.name.as_str(), other.name.as_str())
            && crate::text::str_eq(self.content_type.as_str(), other.content_type.as_str())
            && same_text(&self.poster, &other.poster) && self.removed == other.removed
            && self.temp == other.temp && self.ctime == other.ctime && self.mtime == other.mtime
            && a.last_watched == b.last_watched && a.time_watched == b.time_watched
            && a.time_offset == b.time_offset && a.overall_time_watched == b.overall_time_watched
            && a.times_watched == b.times_watched && a.flagged_watched == b.flagged_watched
            && a.duration == b.duration && same_text(&a.video_id, &b.video_id)
            && a.no_notif == b.no_notif && same_text(&self.default_video_id, &other.default_video_id)
    }
}

/// Whether two lists of items hold the same values.
pub fn same_items(a: &[LibraryItem], b: &[LibraryItem]) -> (r: bool)
    ensures
        r == (items_view(a@) == items_view(b@)),
{
    if a.len() != b.len() {
        assert(items_view(a@).len() != items_view(b@).len());
        return false;
    }
    let mut i: usize = 0;
    while i < a.len()
        invariant
            i <= a.len(),
            a.len() == b.len(),
            forall|j: int| 0 <= j < i ==> a@[j]@ == #[trigger] b@[j]@,
        decreases a.len() - i,
    {
        if !a[i].same_as(&b[i]) {
            assert(items_view(a@)[i as int] != items_view(b@)[i as int]);
            return false;
        }
        i = i + 1;
    }
    assert(items_view(a@) =~= items_view(b@));
    true
}

/// A notification of a new video of a library item; the release time is
/// in milliseconds since the Unix epoch.
#[derive(PartialEq, Eq, Debug)]
pub struct NotificationItem {
    pub video_id: String,
    pub video_released: i64,
}

/// The notifications of the library: the user they belong to (none when
/// signed out), when new videos were last asked for, and for each item id
/// the new videos that the user was notified of.
#[derive(PartialEq, Eq, Debug, Default)]
pub struct NotificationsBucket {
    pub uid: Option<String>,
    pub last_updated: Option<i64>,
    pub items: Vec<(String, Vec<NotificationItem>)>,
}

} // verus!
