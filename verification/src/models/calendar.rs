//! The calendar of releases: the selected month, its neighbours, the shape
//! of the month and the videos released on each of its days.

use vstd::prelude::*;

use chrono::Datelike;
use vstd::arithmetic::div_mod::{lemma_fundamental_div_mod, lemma_fundamental_div_mod_converse};

use crate::models::common::{eq_update, Loadable, ResourceLoadable};
use crate::models::common::resource_loadable::{
    answered, first_accepting, planned_fetches, requests_of, resources_update_with_vector_content,
    vector_content_of_result, ResourcesAction,
};
use crate::runtime::{Effects, EnvError};
use crate::models::live_tv_guide::DAY_MILLIS;
use crate::types::addon::ResourceRequest;
use crate::types::resource::{
    meta_item_view, same_meta_item, same_video_value, video_view, MetaItem, MetaItemView, Video,
    VideoView,
};

verus! {

/// The earliest and latest years of the dates that `chrono` represents.
pub const MIN_YEAR: i32 = -262143;

pub const MAX_YEAR: i32 = 262142;

/// A month of a year.
#[derive(Clone, Copy, Default, PartialEq, Eq, Debug, Structural)]
pub struct YearMonthDate {
    pub month: u32,
    pub year: i32,
}

/// A calendar date (in UTC where it is a release date).
#[derive(Clone, Copy, Default, PartialEq, Eq, Debug, Structural)]
pub struct FullDate {
    pub day: u32,
    pub month: u32,
    pub year: i32,
}

impl FullDate {
    pub fn new(year: i32, month: u32, day: u32) -> (r: Self)
        ensures
            r == (FullDate { day, month, year }),
    {
        FullDate { day, month, year }
    }
}

/// The months before and after the selected one.
#[derive(Clone, Copy, Default, PartialEq, Eq, Debug, Structural)]
pub struct Selectable {
    pub prev: YearMonthDate,
    pub next: YearMonthDate,
}

/// The shape of the selected month: today's day when today falls in it,
/// its number of days, and the weekday of its first day (0 for Monday).
#[derive(Clone, Copy, Default, PartialEq, Eq, Debug, Structural)]
pub struct MonthInfo {
    pub today: Option<u32>,
    pub days: u32,
    pub first_weekday: u32,
}

/// A video of a meta item that is released on a day.
#[derive(Clone, PartialEq, Eq, Debug)]
pub struct ContentItem {
    pub meta_item: MetaItem,
    pub video: Video,
}

/// A day of the calendar with the videos released on it.
#[derive(Clone, PartialEq, Eq, Debug)]
pub struct Item {
    pub date: FullDate,
    pub items: Vec<ContentItem>,
}

pub open spec fn is_leap_year(year: int) -> bool {
    (year % 4 == 0 && year % 100 != 0) || year % 400 == 0
}

/// The number of days of a month of the proleptic Gregorian calendar.
pub open spec fn days_in_month(year: i32, month: u32) -> u32 {
    if month == 2 {
        if is_leap_year(year as int) {
            29
        } else {
            28
        }
    } else if month == 4 || month == 6 || month == 9 || month == 11 {
        30
    } else if 1 <= month <= 12 {
        31
    } else {
        0
    }
}

/// Whether `chrono` represents the date.
pub open spec fn valid_date(year: i32, month: u32, day: u32) -> bool {
    &&& MIN_YEAR <= year <= MAX_YEAR
    &&& 1 <= month <= 12
    &&& 1 <= day <= days_in_month(year, month)
}

/// The month, moved by `delta` months, where `chrono` represents it.
pub open spec fn shifted_month(year: i32, month: u32, delta: int) -> Option<(i32, u32)> {
    let index = year * 12 + month - 1 + delta;
    let new_year = index / 12;
    let new_month = index % 12 + 1;
    if MIN_YEAR <= new_year <= MAX_YEAR {
        Some((new_year as i32, new_month as u32))
    } else {
        None
    }
}

/// The number of days from 1970-01-01 to a date of the proleptic Gregorian
/// calendar (negative before it).
pub open spec fn days_from_civil(year: int, month: int, day: int) -> int {
    let y = if month <= 2 {
        year - 1
    } else {
        year
    };
    let era = y / 400;
    let yoe = y - era * 400;
    let mp = if month > 2 {
        month - 3
    } else {
        month + 9
    };
    let doy = (153 * mp + 2) / 5 + day - 1;
    let doe = yoe * 365 + yoe / 4 - yoe / 100 + doy;
    era * 146097 + doe - 719468
}

/// The weekday of a date, 0 for Monday: 1970-01-01 was a Thursday.
pub open spec fn weekday_from_monday(year: i32, month: u32, day: u32) -> u32 {
    ((days_from_civil(year as int, month as int, day as int) + 3) % 7) as u32
}

/// Calls `NaiveDate::from_ymd_opt` and tells whether it gives a date; the
/// contract claims that it does exactly for a month of the year with a day
/// in it, in the years that `chrono` represents.
#[verifier::external_body]
fn chrono_date_is_valid(year: i32, month: u32, day: u32) -> (r: bool)
    ensures
        r == valid_date(year, month, day),
{
    chrono::NaiveDate::from_ymd_opt(year, month, day).is_some()
}

/// Calls `NaiveDate::from_ymd_opt`, `and_hms_opt` with midnight, `and_utc`
/// and `timestamp_millis`: the milliseconds from the Unix epoch to the
/// midnight UTC that starts the date. The contract claims that this is the
/// number of days from 1970-01-01 to the date, in milliseconds, as the
/// documentation of the timestamp (non-leap time since the epoch) gives it.
#[verifier::external_body]
pub(crate) fn chrono_midnight_millis(year: i32, month: u32, day: u32) -> (r: i64)
    requires
        valid_date(year, month, day),
    ensures
        r == days_from_civil(year as int, month as int, day as int) * DAY_MILLIS,
{
    let date = chrono::NaiveDate::from_ymd_opt(year, month, day).unwrap_or_default();
    date.and_hms_opt(0, 0, 0).unwrap_or_default().and_utc().timestamp_millis()
}

/// The days of the dates that `chrono` represents lie within a hundred
/// million days of the epoch.
pub(crate) proof fn lemma_days_from_civil_bounds(year: i32, month: u32, day: u32)
    requires
        valid_date(year, month, day),
    ensures
        -100000000 <= days_from_civil(year as int, month as int, day as int) <= 100000000,
{
    let y: int = if month <= 2 {
        year - 1
    } else {
        year as int
    };
    let era = y / 400;
    let yoe = y - era * 400;
    let mp: int = if month > 2 {
        month - 3
    } else {
        month + 9
    };
    let doy = (153 * mp + 2) / 5 + day - 1;
    assert(0 <= yoe < 400 && -700 <= era <= 700) by (nonlinear_arith)
        requires
            -262144 <= y <= 262142,
            era == y / 400,
            yoe == y - era * 400,
    ;
    assert(0 <= doy <= 400) by (nonlinear_arith)
        requires
            0 <= mp <= 11,
            1 <= day <= 31,
            doy == (153 * mp + 2) / 5 + day - 1,
    ;
    let doe = yoe * 365 + yoe / 4 - yoe / 100 + doy;
    assert(0 <= doe <= 146500) by (nonlinear_arith)
        requires
            0 <= yoe < 400,
            0 <= doy <= 400,
            doe == yoe * 365 + yoe / 4 - yoe / 100 + doy,
    ;
}

/// Calls `NaiveDate::checked_add_months` with one month on the first of the
/// month, and gives the year and month of the result.
#[verifier::external_body]
fn chrono_next_month(year: i32, month: u32) -> (r: Option<(i32, u32)>)
    requires
        valid_date(year, month, 1),
    ensures
        r == shifted_month(year, month, 1),
{
    let date = chrono::NaiveDate::from_ymd_opt(year, month, 1)?;
    let next = date.checked_add_months(chrono::Months::new(1))?;
    Some((next.year(), next.month()))
}

/// Calls `NaiveDate::checked_sub_months` with one month on the first of the
/// month, and gives the year and month of the result.
#[verifier::external_body]
fn chrono_previous_month(year: i32, month: u32) -> (r: Option<(i32, u32)>)
    requires
        valid_date(year, month, 1),
    ensures
        r == shifted_month(year, month, -1),
{
    let date = chrono::NaiveDate::from_ymd_opt(year, month, 1)?;
    let previous = date.checked_sub_months(chrono::Months::new(1))?;
    Some((previous.year(), previous.month()))
}

/// Calls `Datelike::weekday` and `Weekday::num_days_from_monday` for a
/// date. The contract claims that it is the day of the week of the date in
/// the proleptic Gregorian calendar, counted from Monday.
#[verifier::external_body]
fn chrono_weekday_from_monday(year: i32, month: u32, day: u32) -> (r: u32)
    requires
        valid_date(year, month, day),
    ensures
        r == weekday_from_monday(year, month, day),
{
    let date = chrono::NaiveDate::from_ymd_opt(year, month, day).unwrap_or_default();
    date.weekday().num_days_from_monday()
}

/// Calls `NaiveDate::pred_opt` on the first of the next month (added with
/// `Months`), as the last day of the month, and gives its day.
#[verifier::external_body]
fn chrono_last_day_of_month(year: i32, month: u32) -> (r: u32)
    requires
        valid_date(year, month, 1),
        shifted_month(year, month, 1) is Some,
    ensures
        r == days_in_month(year, month),
{
    let first = chrono::NaiveDate::from_ymd_opt(year, month, 1).unwrap_or_default();
    (first + chrono::Months::new(1)).pred_opt().unwrap_or_default().day()
}

/// The month that is used for a selection: the selected one where it is a
/// valid month, January 1970 (the default date) otherwise.
pub open spec fn effective_month(selected: YearMonthDate) -> (i32, u32) {
    if valid_date(selected.year, selected.month, 1) {
        (selected.year, selected.month)
    } else {
        (1970, 1)
    }
}

fn effective(selected: YearMonthDate) -> (r: (i32, u32))
    ensures
        r == effective_month(selected),
        valid_date(r.0, r.1, 1),
{
    if chrono_date_is_valid(selected.year, selected.month, 1) {
        (selected.year, selected.month)
    } else {
        (1970, 1)
    }
}

/// A selection of a month that has months before and after it.
pub open spec fn has_neighbours(selected: Option<YearMonthDate>) -> bool {
    match selected {
        Some(s) => {
            let (y, m) = effective_month(s);
            shifted_month(y, m, -1) is Some && shifted_month(y, m, 1) is Some
        },
        None => true,
    }
}

/// The selection: the requested month, or the current month.
pub fn selected_update<A>(
    selected: &mut Option<YearMonthDate>,
    next_selected: &Option<YearMonthDate>,
    now: YearMonthDate,
) -> (r: Effects<A>)
    ensures
        *final(selected) == (match *next_selected {
            Some(next) => Some(next),
            None => Some(now),
        }),
        r.effect_list().len() == 0,
        r.has_changed == (*old(selected) != *final(selected)),
{
    let next = match next_selected {
        Some(next) => Some(*next),
        None => Some(now),
    };
    if *selected == next {
        Effects::none().unchanged()
    } else {
        *selected = next;
        Effects::none()
    }
}

/// The months before and after the selected month.
pub open spec fn spec_selectable(selected: Option<YearMonthDate>) -> Selectable {
    match selected {
        Some(s) => {
            let (y, m) = effective_month(s);
            let prev = shifted_month(y, m, -1)->0;
            let next = shifted_month(y, m, 1)->0;
            Selectable {
                prev: YearMonthDate { month: prev.1, year: prev.0 },
                next: YearMonthDate { month: next.1, year: next.0 },
            }
        },
        None => Selectable {
            prev: YearMonthDate { month: 0, year: 0 },
            next: YearMonthDate { month: 0, year: 0 },
        },
    }
}

/// The reducer of the neighbouring months.
pub fn selectable_update<A>(selectable: &mut Selectable, selected: &Option<YearMonthDate>) -> (r:
    Effects<A>)
    requires
        has_neighbours(*selected),
    ensures
        *final(selectable) == spec_selectable(*selected),
        r.effect_list().len() == 0,
        r.has_changed == (*old(selectable) != *final(selectable)),
{
    let next = match selected {
        Some(s) => {
            let (y, m) = effective(*s);
            let prev = chrono_previous_month(y, m);
            let next = chrono_next_month(y, m);
            match (prev, next) {
                (Some((py, pm)), Some((ny, nm))) => Selectable {
                    prev: YearMonthDate { month: pm, year: py },
                    next: YearMonthDate { month: nm, year: ny },
                },
                _ => vstd::pervasive::unreached(),
            }
        },
        None => Selectable {
            prev: YearMonthDate { month: 0, year: 0 },
            next: YearMonthDate { month: 0, year: 0 },
        },
    };
    if *selectable == next {
        Effects::none().unchanged()
    } else {
        *selectable = next;
        Effects::none()
    }
}

/// A selection of a month that has a month after it.
pub open spec fn has_next_month(selected: Option<YearMonthDate>) -> bool {
    match selected {
        Some(s) => {
            let (y, m) = effective_month(s);
            shifted_month(y, m, 1) is Some
        },
        None => true,
    }
}

/// The shape of the selected month on `today`.
pub open spec fn spec_month_info(selected: Option<YearMonthDate>, today: FullDate) -> MonthInfo {
    match selected {
        Some(s) => {
            let (y, m) = effective_month(s);
            MonthInfo {
                today: if today.year == s.year && today.month == s.month {
                    Some(today.day)
                } else {
                    None
                },
                days: days_in_month(y, m),
                first_weekday: weekday_from_monday(y, m, 1),
            }
        },
        None => MonthInfo { today: None, days: 0, first_weekday: 0 },
    }
}

/// The reducer of the shape of the selected month; `today` is the current
/// date.
pub fn month_info_update<A>(
    month_info: &mut MonthInfo,
    selected: &Option<YearMonthDate>,
    today: FullDate,
) -> (r: Effects<A>)
    requires
        has_next_month(*selected),
    ensures
        *final(month_info) == spec_month_info(*selected, today),
        r.effect_list().len() == 0,
        r.has_changed == (*old(month_info) != *final(month_info)),
{
    let next = match selected {
        Some(s) => {
            let (y, m) = effective(*s);
            MonthInfo {
                today: if today.year == s.year && today.month == s.month {
                    Some(today.day)
                } else {
                    None
                },
                days: chrono_last_day_of_month(y, m),
                first_weekday: chrono_weekday_from_monday(y, m, 1),
            }
        },
        None => MonthInfo { today: None, days: 0, first_weekday: 0 },
    };
    if *month_info == next {
        Effects::none().unchanged()
    } else {
        *month_info = next;
        Effects::none()
    }
}

pub type ContentView = (MetaItemView, VideoView);

pub open spec fn content_view(item: ContentItem) -> ContentView {
    (meta_item_view(item.meta_item), video_view(item.video))
}

pub open spec fn contents_view(items: Seq<ContentItem>) -> Seq<ContentView> {
    items.map_values(|i: ContentItem| content_view(i))
}

/// Whether a release time falls on `date` in UTC: the date is one that
/// `chrono` represents and the time lies between its midnight and the next.
pub open spec fn released_on(released: Option<i64>, date: FullDate) -> bool {
    match released {
        Some(t) => {
            let midnight = days_from_civil(date.year as int, date.month as int, date.day as int) * DAY_MILLIS;
            &&& valid_date(date.year, date.month, date.day)
            &&& midnight <= t < midnight + DAY_MILLIS
        },
        None => false,
    }
}

/// `window` is the UTC window `[start, end)` of `date`, where it is a date.
pub open spec fn is_day_window(date: FullDate, window: Option<(i64, i64)>) -> bool {
    match window {
        Some(w) => {
            &&& valid_date(date.year, date.month, date.day)
            &&& w.0 == days_from_civil(date.year as int, date.month as int, date.day as int) * DAY_MILLIS
            &&& w.1 == w.0 + DAY_MILLIS
        },
        None => !valid_date(date.year, date.month, date.day),
    }
}

/// The UTC window `[start, end)` of `date`, where it is a date.
fn day_window(date: FullDate) -> (r: Option<(i64, i64)>)
    ensures
        is_day_window(date, r),
{
    if chrono_date_is_valid(date.year, date.month, date.day) {
        proof {
            lemma_days_from_civil_bounds(date.year, date.month, date.day);
        }
        let start = chrono_midnight_millis(date.year, date.month, date.day);
        Some((start, start + DAY_MILLIS))
    } else {
        None
    }
}

/// Whether a release time lies in a window.
fn in_window(released: Option<i64>, window: Option<(i64, i64)>) -> (r: bool)
    ensures
        r == (released is Some && window is Some && window.unwrap().0 <= released.unwrap() < window.unwrap().1),
{
    match (released, window) {
        (Some(t), Some(w)) => w.0 <= t && t < w.1,
        _ => false,
    }
}

/// The videos of `meta` released on `date`, each with its meta item.
pub open spec fn meta_entries(meta: MetaItem, videos: Seq<Video>, date: FullDate) -> Seq<ContentView>
    decreases videos.len(),
{
    if videos.len() == 0 {
        Seq::empty()
    } else {
        meta_entries(meta, videos.drop_last(), date) + if released_on(videos.last().released, date) {
            seq![(meta_item_view(meta), video_view(videos.last()))]
        } else {
            Seq::empty()
        }
    }
}

pub open spec fn metas_entries(metas: Seq<MetaItem>, date: FullDate) -> Seq<ContentView>
    decreases metas.len(),
{
    if metas.len() == 0 {
        Seq::empty()
    } else {
        metas_entries(metas.drop_last(), date) + meta_entries(metas.last(), metas.last().videos@, date)
    }
}

/// The videos released on `date` among the meta items of the loaded
/// resources, in order.
pub open spec fn day_entries(resources: Seq<ResourceLoadable<Vec<MetaItem>>>, date: FullDate) -> Seq<
    ContentView,
>
    decreases resources.len(),
{
    if resources.len() == 0 {
        Seq::empty()
    } else {
        day_entries(resources.drop_last(), date) + match resources.last().content {
            Some(Loadable::Ready(metas)) => metas_entries(metas@, date),
            _ => Seq::empty(),
        }
    }
}

fn push_meta_entries(out: &mut Vec<ContentItem>, meta: &MetaItem, date: FullDate, window: Option<(i64, i64)>)
    requires
        is_day_window(date, window),
    ensures
        contents_view(final(out)@) == contents_view(old(out)@) + meta_entries(*meta, meta.videos@, date),
{
    let ghost start = contents_view(out@);
    let mut i: usize = 0;
    while i < meta.videos.len()
        invariant
            i <= meta.videos.len(),
            contents_view(out@) == start + meta_entries(*meta, meta.videos@.take(i as int), date),
            is_day_window(date, window),
        decreases meta.videos.len() - i,
    {
        assert(meta.videos@.take(i + 1).drop_last() =~= meta.videos@.take(i as int));
        let ghost before = contents_view(out@);
        if in_window(meta.videos[i].released, window) {
            out.push(ContentItem { meta_item: meta.clone(), video: meta.videos[i].clone() });
            assert(contents_view(out@) =~= before + seq![(meta_item_view(*meta), video_view(meta.videos@[i as int]))]);
        }
        assert(contents_view(out@) =~= start + meta_entries(*meta, meta.videos@.take(i + 1), date));
        i = i + 1;
    }
    assert(meta.videos@.take(meta.videos.len() as int) =~= meta.videos@);
}

fn push_metas_entries(out: &mut Vec<ContentItem>, metas: &Vec<MetaItem>, date: FullDate, window: Option<(i64, i64)>)
    requires
        is_day_window(date, window),
    ensures
        contents_view(final(out)@) == contents_view(old(out)@) + metas_entries(metas@, date),
{
    let ghost start = contents_view(out@);
    let mut i: usize = 0;
    while i < metas.len()
        invariant
            i <= metas.len(),
            contents_view(out@) == start + metas_entries(metas@.take(i as int), date),
            is_day_window(date, window),
        decreases metas.len() - i,
    {
        assert(metas@.take(i + 1).drop_last() =~= metas@.take(i as int));
        push_meta_entries(out, &metas[i], date, window);
        assert(contents_view(out@) =~= start + metas_entries(metas@.take(i + 1), date));
        i = i + 1;
    }
    assert(metas@.take(metas.len() as int) =~= metas@);
}

fn entries_for_day(resources: &[ResourceLoadable<Vec<MetaItem>>], date: FullDate) -> (r: Vec<ContentItem>)
    ensures
        contents_view(r@) == day_entries(resources@, date),
{
    let window = day_window(date);
    let mut out: Vec<ContentItem> = Vec::new();
    let mut i: usize = 0;
    assert(contents_view(out@) =~= Seq::<ContentView>::empty());
    while i < resources.len()
        invariant
            i <= resources.len(),
            contents_view(out@) == day_entries(resources@.take(i as int), date),
            is_day_window(date, window),
        decreases resources.len() - i,
    {
        assert(resources@.take(i + 1).drop_last() =~= resources@.take(i as int));
        let ghost before = contents_view(out@);
        match &resources[i].content {
            Some(Loadable::Ready(metas)) => {
                push_metas_entries(&mut out, metas, date, window);
            },
            _ => {
                assert(contents_view(out@) =~= before + Seq::<ContentView>::empty());
            },
        }
        assert(contents_view(out@) =~= day_entries(resources@.take(i + 1), date));
        i = i + 1;
    }
    assert(resources@.take(resources.len() as int) =~= resources@);
    out
}

/// The calendar days of the selected month: one per day of its shape, each
/// with the videos released on it.
pub open spec fn calendar_days(
    selected: Option<YearMonthDate>,
    month_info: MonthInfo,
    resources: Seq<ResourceLoadable<Vec<MetaItem>>>,
    items: Seq<Item>,
) -> bool {
    match selected {
        Some(s) => {
            &&& items.len() == month_info.days
            &&& forall|i: int|
                0 <= i < items.len() ==> {
                    &&& (#[trigger] items[i]).date == FullDate {
                        day: (i + 1) as u32,
                        month: s.month,
                        year: s.year,
                    }
                    &&& contents_view(items[i].items@) == day_entries(resources, items[i].date)
                }
        },
        None => items.len() == 0,
    }
}

/// A day of the calendar as plain values.
pub open spec fn day_view(item: Item) -> (FullDate, Seq<ContentView>) {
    (item.date, contents_view(item.items@))
}

pub open spec fn days_view(items: Seq<Item>) -> Seq<(FullDate, Seq<ContentView>)> {
    items.map_values(|i: Item| day_view(i))
}

fn same_contents(a: &Vec<ContentItem>, b: &Vec<ContentItem>) -> (r: bool)
    ensures
        r == (contents_view(a@) == contents_view(b@)),
{
    if a.len() != b.len() {
        proof {
            if contents_view(a@) == contents_view(b@) {
                assert(contents_view(a@).len() == a@.len());
            }
        }
        return false;
    }
    let mut i: usize = 0;
    while i < a.len()
        invariant
            i <= a.len(),
            a.len() == b.len(),
            forall|q: int| 0 <= q < i ==> content_view(a@[q]) == #[trigger] content_view(b@[q]),
        decreases a.len() - i,
    {
        if !(same_meta_item(&a[i].meta_item, &b[i].meta_item) && same_video_value(&a[i].video, &b[i].video)) {
            proof {
                assert(contents_view(a@)[i as int] == content_view(a@[i as int]));
                assert(contents_view(b@)[i as int] == content_view(b@[i as int]));
            }
            return false;
        }
        i = i + 1;
    }
    assert(contents_view(a@) =~= contents_view(b@));
    true
}

fn same_days(a: &Vec<Item>, b: &Vec<Item>) -> (r: bool)
    ensures
        r == (days_view(a@) == days_view(b@)),
{
    if a.len() != b.len() {
        proof {
            if days_view(a@) == days_view(b@) {
                assert(days_view(a@).len() == a@.len());
            }
        }
        return false;
    }
    let mut i: usize = 0;
    while i < a.len()
        invariant
            i <= a.len(),
            a.len() == b.len(),
            forall|q: int| 0 <= q < i ==> day_view(a@[q]) == #[trigger] day_view(b@[q]),
        decreases a.len() - i,
    {
        if !(a[i].date == b[i].date && same_contents(&a[i].items, &b[i].items)) {
            proof {
                assert(days_view(a@)[i as int] == day_view(a@[i as int]));
                assert(days_view(b@)[i as int] == day_view(b@[i as int]));
            }
            return false;
        }
        i = i + 1;
    }
    assert(days_view(a@) =~= days_view(b@));
    true
}

/// The reducer of the calendar days. The model has changed exactly when
/// the days differ from the current ones.
pub fn items_update<A>(
    items: &mut Vec<Item>,
    selected: &Option<YearMonthDate>,
    month_info: &MonthInfo,
    meta_items: &[ResourceLoadable<Vec<MetaItem>>],
) -> (r: Effects<A>)
    ensures
        r.effect_list().len() == 0,
        calendar_days(*selected, *month_info, meta_items@, final(items)@),
        r.has_changed == (days_view(old(items)@) != days_view(final(items)@)),
{
    let mut next: Vec<Item> = Vec::new();
    if let Some(s) = selected {
        let mut day: u64 = 1;
        while day <= month_info.days as u64
            invariant
                1 <= day,
                day <= month_info.days + 1,
                next@.len() == day - 1,
                forall|i: int|
                    0 <= i < next@.len() ==> {
                        &&& (#[trigger] next@[i]).date == FullDate {
                            day: (i + 1) as u32,
                            month: s.month,
                            year: s.year,
                        }
                        &&& contents_view(next@[i].items@) == day_entries(meta_items@, next@[i].date)
                    },
            decreases month_info.days + 1 - day,
        {
            let date = FullDate::new(s.year, s.month, day as u32);
            let entries = entries_for_day(meta_items, date);
            next.push(Item { date, items: entries });
            day = day + 1;
        }
    }
    let changed = !same_days(items, &next);
    *items = next;
    if changed {
        Effects::none()
    } else {
        Effects::none().unchanged()
    }
}

/// The calendar: the selected month, its neighbours, the meta items of the
/// library with their videos, the shape of the month and its days.
pub struct Calendar {
    pub selected: Option<YearMonthDate>,
    pub selectable: Selectable,
    pub meta_items: Vec<ResourceLoadable<Vec<MetaItem>>>,
    pub month_info: MonthInfo,
    pub items: Vec<Item>,
}

/// What the calendar reacts to. A month is selected (none for the current
/// one) with the current month and day and the requests for the meta items
/// of the library; the answer to a request arrives; or the view is left.
pub enum CalendarMsg<'a> {
    Load {
        selected: Option<YearMonthDate>,
        now: YearMonthDate,
        today: FullDate,
        planned: &'a [ResourceRequest],
    },
    ResourceRequestResult(&'a ResourceRequest, Result<Result<Vec<MetaItem>, String>, EnvError>),
    Unload,
}

/// The month that a load selects.
pub open spec fn loaded_month(selected: Option<YearMonthDate>, now: YearMonthDate) -> YearMonthDate {
    match selected {
        Some(s) => s,
        None => now,
    }
}

impl Calendar {
    /// The reducer of the calendar. A load requests the meta items where
    /// none are held yet, selects the month, and sets its shape, its
    /// neighbours and its days. An answer updates the meta items and the
    /// days. Leaving clears everything.
    pub fn update(&mut self, msg: CalendarMsg) -> (r: Effects<ResourceRequest>)
        requires
            msg matches CalendarMsg::Load { selected, now, .. } ==> has_neighbours(
                Some(loaded_month(selected, now)),
            ),
        ensures
            match msg {
                CalendarMsg::Load { selected, now, today, planned } => {
                    &&& final(self).selected == Some(loaded_month(selected, now))
                    &&& final(self).selectable == spec_selectable(final(self).selected)
                    &&& final(self).month_info == spec_month_info(final(self).selected, today)
                    &&& calendar_days(final(self).selected, final(self).month_info, final(self).meta_items@, final(self).items@)
                    &&& old(self).meta_items@.len() == 0 ==> requests_of(r.effect_list()) == planned_fetches(
                        old(self).meta_items@,
                        planned@,
                    )
                    &&& old(self).meta_items@.len() != 0 ==> {
                        &&& r.effect_list().len() == 0
                        &&& final(self).meta_items@ == old(self).meta_items@
                    }
                },
                CalendarMsg::ResourceRequestResult(request, result) => {
                    &&& final(self).selected == old(self).selected
                    &&& final(self).month_info == old(self).month_info
                    &&& final(self).selectable == old(self).selectable
                    &&& answered(old(self).meta_items@, request@, vector_content_of_result(result), final(self).meta_items@)
                    &&& calendar_days(final(self).selected, final(self).month_info, final(self).meta_items@, final(self).items@)
                    &&& r.effect_list().len() == 0
                    &&& r.has_changed == (first_accepting(old(self).meta_items@, request@) is Some
                        || days_view(old(self).items@) != days_view(final(self).items@))
                },
                CalendarMsg::Unload => {
                    &&& final(self).selected is None
                    &&& final(self).selectable == (Selectable { prev: YearMonthDate { month: 0, year: 0 }, next: YearMonthDate { month: 0, year: 0 } })
                    &&& final(self).meta_items@.len() == 0
                    &&& final(self).month_info == (MonthInfo { today: None, days: 0, first_weekday: 0 })
                    &&& final(self).items@.len() == 0
                    &&& r.effect_list().len() == 0
                    &&& r.has_changed == (old(self).selected is Some || old(self).meta_items@.len() != 0
                        || old(self).items@.len() != 0 || old(self).month_info != (MonthInfo {
                        today: None,
                        days: 0,
                        first_weekday: 0,
                    }) || old(self).selectable != (Selectable {
                        prev: YearMonthDate { month: 0, year: 0 },
                        next: YearMonthDate { month: 0, year: 0 },
                    }))
                },
            },
    {
        match msg {
            CalendarMsg::Load { selected, now, today, planned } => {
                let meta_effects = if self.meta_items.len() == 0 {
                    resources_update_with_vector_content(
                        &mut self.meta_items,
                        ResourcesAction::ResourcesRequested { requests: planned },
                    )
                } else {
                    Effects::none().unchanged()
                };
                proof {
                    if old(self).meta_items@.len() == 0 && !meta_effects.has_changed {
                        assert(self.meta_items@ == old(self).meta_items@);
                    }
                }
                let selected_effects = selected_update(&mut self.selected, &selected, now);
                let month_info_effects = month_info_update(&mut self.month_info, &self.selected, today);
                let selectable_effects = selectable_update(&mut self.selectable, &self.selected);
                let items_effects = items_update(
                    &mut self.items,
                    &self.selected,
                    &self.month_info,
                    self.meta_items.as_slice(),
                );
                meta_effects.join(selected_effects).join(month_info_effects).join(
                    selectable_effects,
                ).join(items_effects)
            },
            CalendarMsg::ResourceRequestResult(request, result) => {
                let meta_effects = resources_update_with_vector_content(
                    &mut self.meta_items,
                    ResourcesAction::ResourceRequestResult { request, result },
                );
                let items_effects = items_update(
                    &mut self.items,
                    &self.selected,
                    &self.month_info,
                    self.meta_items.as_slice(),
                );
                meta_effects.join(items_effects)
            },
            CalendarMsg::Unload => {
                let empty_info = MonthInfo { today: None, days: 0, first_weekday: 0 };
                let none = YearMonthDate { month: 0, year: 0 };
                let empty_selectable = Selectable { prev: none, next: none };
                let changed = self.selected.is_some() || self.meta_items.len() != 0
                    || self.items.len() != 0 || self.month_info != empty_info
                    || self.selectable != empty_selectable;
                self.selected = None;
                self.selectable = empty_selectable;
                self.meta_items = Vec::new();
                self.month_info = empty_info;
                self.items = Vec::new();
                if changed {
                    Effects::none()
                } else {
                    Effects::none().unchanged()
                }
            },
        }
    }
}

} // verus!

verus! {

/// The month before the month after a month is that month, and the other
/// way round, for the months that `chrono` represents, wherever the
/// neighbouring month is represented too.
pub proof fn law_month_shifts_are_inverse(year: i32, month: u32)
    requires
        1 <= month <= 12,
        MIN_YEAR <= year <= MAX_YEAR,
    ensures
        shifted_month(year, month, 1) matches Some((y, m)) ==> shifted_month(y, m, -1) == Some(
            (year, month),
        ),
        shifted_month(year, month, -1) matches Some((y, m)) ==> shifted_month(y, m, 1) == Some(
            (year, month),
        ),
{
    let index = year * 12 + month - 1;
    lemma_fundamental_div_mod_converse(index, 12, year as int, month - 1);
    let up = index + 1;
    lemma_fundamental_div_mod(up, 12);
    let down = index - 1;
    lemma_fundamental_div_mod(down, 12);
    if let Some((y, m)) = shifted_month(year, month, 1) {
        assert(y * 12 + m - 1 - 1 == index);
    }
    if let Some((y, m)) = shifted_month(year, month, -1) {
        assert(y * 12 + m - 1 + 1 == index);
    }
}

} // verus!
