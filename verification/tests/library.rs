use stremio_core::models::library_with_filters::Sort;
use stremio_core::types::library::{LibraryItem, LibraryItemState};

const NOW: i64 = 1_700_000_000_000;
const WEEK: i64 = 7 * 24 * 60 * 60 * 1000;

fn item(
    id: &str,
    name: &str,
    content_type: &str,
    ctime: i64,
    last_watched: i64,
    flagged_watched: u32,
    times_watched: u32,
) -> LibraryItem {
    LibraryItem {
        default_video_id: None,
        id: id.into(),
        name: name.into(),
        content_type: content_type.into(),
        poster: None,
        removed: false,
        temp: false,
        ctime: Some(ctime),
        mtime: NOW,
        state: LibraryItemState {
            last_watched: Some(last_watched),
            flagged_watched,
            times_watched,
            ..Default::default()
        },
    }
}

#[test]
fn test_watched_and_not_watched_sort_items_ordering_of_library_items() {
    let watched_latest_series = item("tt13622776", "Ahsoka", "series", NOW, NOW, 1, 2);
    let watched_movie_1_week_ago =
        item("tt15398776", "Oppenheimer", "movie", NOW, NOW - WEEK, 1, 1);
    let not_watched_movie_added_3_weeks_ago = item(
        "tt2267998",
        "Gone Girl",
        "movie",
        NOW - 3 * WEEK,
        NOW - 3 * WEEK,
        0,
        0,
    );
    let not_watched_movie_added_2_weeks_ago = item(
        "tt0118715",
        "The Big Lebowski",
        "movie",
        NOW - 2 * WEEK,
        NOW - 2 * WEEK,
        0,
        0,
    );
    let watched_movie_1_week_ago_marked_not_watched = item(
        "tt1462764",
        "Indiana Jones and the Dial of Destiny",
        "movie",
        NOW - 4 * WEEK,
        NOW - WEEK,
        0,
        0,
    );

    {
        let mut items = vec![
            &not_watched_movie_added_3_weeks_ago,
            &watched_movie_1_week_ago_marked_not_watched,
            &not_watched_movie_added_2_weeks_ago,
            &watched_movie_1_week_ago,
            &watched_latest_series,
        ];
        items.sort_by(|a, b| Sort::Watched.sort_items(a, b));
        assert_eq!(
            items,
            vec![
                &watched_latest_series,
                &watched_movie_1_week_ago,
                &watched_movie_1_week_ago_marked_not_watched,
                &not_watched_movie_added_2_weeks_ago,
                &not_watched_movie_added_3_weeks_ago,
            ]
        );
    }

    {
        let mut items = vec![
            &not_watched_movie_added_3_weeks_ago,
            &watched_latest_series,
            &not_watched_movie_added_2_weeks_ago,
            &watched_movie_1_week_ago,
            &watched_movie_1_week_ago_marked_not_watched,
        ];
        items.sort_by(|a, b| Sort::NotWatched.sort_items(a, b));
        assert_eq!(
            items,
            vec![
                &not_watched_movie_added_3_weeks_ago,
                &not_watched_movie_added_2_weeks_ago,
                &watched_movie_1_week_ago_marked_not_watched,
                &watched_movie_1_week_ago,
                &watched_latest_series,
            ]
        );
    }
}

#[test]
fn name_sorts_ignore_case_and_reverse() {
    let a = item("1", "alpha", "movie", NOW, NOW, 0, 0);
    let b = item("2", "Beta", "movie", NOW, NOW, 0, 0);
    let c = item("3", "GAMMA", "movie", NOW, NOW, 0, 0);
    let mut items = vec![&c, &a, &b];
    items.sort_by(|x, y| Sort::Name.sort_items(x, y));
    assert_eq!(items, vec![&a, &b, &c]);
    items.sort_by(|x, y| Sort::NameReverse.sort_items(x, y));
    assert_eq!(items, vec![&c, &b, &a]);
}

#[test]
fn last_watched_and_times_watched_sorts_put_most_recent_and_most_watched_first() {
    let mut never = item("1", "never", "movie", NOW, NOW, 0, 0);
    never.state.last_watched = None;
    let old = item("2", "old", "movie", NOW, NOW - WEEK, 0, 5);
    let recent = item("3", "recent", "movie", NOW, NOW, 0, 1);
    let mut items = vec![&never, &old, &recent];
    items.sort_by(|x, y| Sort::LastWatched.sort_items(x, y));
    assert_eq!(items, vec![&recent, &old, &never]);
    items.sort_by(|x, y| Sort::TimesWatched.sort_items(x, y));
    assert_eq!(items, vec![&old, &recent, &never]);
    assert_eq!(Sort::default(), Sort::LastWatched);
}

#[test]
fn continue_watching_membership() {
    let mut watching = item("1", "a", "movie", NOW, NOW, 0, 0);
    watching.state.time_offset = 10;
    assert!(watching.is_in_continue_watching());
    let mut other = watching.clone();
    other.content_type = "other".into();
    assert!(!other.is_in_continue_watching());
    let mut removed = watching.clone();
    removed.removed = true;
    assert!(!removed.is_in_continue_watching());
    removed.temp = true;
    assert!(removed.is_in_continue_watching());
    let not_started = item("2", "b", "movie", NOW, NOW, 0, 0);
    assert!(!not_started.is_in_continue_watching());
    assert!(!not_started.watched());
    assert!(item("3", "c", "movie", NOW, NOW, 0, 1).watched());
}

use stremio_core::models::library_with_filters::{
    catalog_update, selectable_update, ContinueWatchingFilter, LibraryRequest, LibraryRequestPage,
    LibraryWithFilters, LibraryWithFiltersMsg, NotRemovedFilter, Selectable, Selected,
};
use stremio_core::types::library::{NotificationItem, NotificationsBucket};

fn request(content_type: Option<&str>, sort: Sort, page: usize) -> LibraryRequest {
    LibraryRequest {
        content_type: content_type.map(|t| t.to_string()),
        sort,
        page: LibraryRequestPage(page),
    }
}

fn library() -> Vec<LibraryItem> {
    let mut removed = item("r", "Removed", "movie", NOW, NOW, 0, 0);
    removed.removed = true;
    vec![
        item("s1", "Bravo", "series", NOW, NOW - WEEK, 0, 0),
        item("m1", "alpha", "movie", NOW, NOW, 0, 0),
        removed,
        item("c1", "Charlie", "channel", NOW, NOW, 0, 0),
        item("o1", "Delta", "other", NOW, NOW, 0, 0),
        item("x1", "Echo", "anime", NOW, NOW, 0, 0),
        item("m2", "Foxtrot", "movie", NOW, NOW - 2 * WEEK, 0, 0),
    ]
}

#[test]
fn library_catalog_lists_shown_items_in_order() {
    let library = library();
    let notifications = NotificationsBucket::default();
    let mut catalog = vec![];
    let selected = Some(Selected { request: request(Some("movie"), Sort::Name, 1) });
    let effects = catalog_update::<NotRemovedFilter, ()>(&mut catalog, &selected, &library, &notifications);
    assert!(effects.has_changed);
    let ids: Vec<&str> = catalog.iter().map(|i| i.id.as_str()).collect();
    assert_eq!(ids, vec!["m1", "m2"]);
    let again = catalog_update::<NotRemovedFilter, ()>(&mut catalog, &selected, &library, &notifications);
    assert!(!again.has_changed);
    let all = Some(Selected { request: request(None, Sort::LastWatched, 1) });
    catalog_update::<NotRemovedFilter, ()>(&mut catalog, &all, &library, &notifications);
    assert_eq!(catalog.len(), 6);
    assert_eq!(catalog.last().unwrap().id, "m2");
    catalog_update::<NotRemovedFilter, ()>(&mut catalog, &None, &library, &notifications);
    assert!(catalog.is_empty());
}

#[test]
fn continue_watching_filter_shows_items_in_progress_or_notified() {
    let mut library = library();
    library[0].state.time_offset = 5;
    let notified = |id: &str| NotificationItem { video_id: id.to_string(), video_released: NOW };
    let notifications = NotificationsBucket {
        uid: None,
        last_updated: None,
        items: vec![("c1".to_string(), vec![notified("v1"), notified("v2")]), ("m1".to_string(), vec![])],
    };
    let mut catalog = vec![];
    let selected = Some(Selected { request: request(None, Sort::Name, 1) });
    catalog_update::<ContinueWatchingFilter, ()>(&mut catalog, &selected, &library, &notifications);
    let ids: Vec<&str> = catalog.iter().map(|i| i.id.as_str()).collect();
    assert_eq!(ids, vec!["s1", "c1"]);
}

#[test]
fn library_selectable_offers_ranked_types_and_every_sort() {
    let library = library();
    let notifications = NotificationsBucket::default();
    let mut selectable = Selectable { types: vec![], sorts: vec![], next_page: None };
    let selected = Some(Selected { request: request(Some("series"), Sort::Watched, 1) });
    let effects = selectable_update::<NotRemovedFilter, ()>(&mut selectable, &selected, &library, &notifications);
    assert!(effects.has_changed);
    let types: Vec<Option<&str>> = selectable.types.iter().map(|t| t.content_type.as_deref()).collect();
    assert_eq!(
        types,
        vec![None, Some("movie"), Some("series"), Some("channel"), Some("anime"), Some("other")]
    );
    let chosen: Vec<bool> = selectable.types.iter().map(|t| t.selected).collect();
    assert_eq!(chosen, vec![false, false, true, false, false, false]);
    assert_eq!(selectable.types[1].request, request(Some("movie"), Sort::Watched, 1));
    let sorts: Vec<Sort> = selectable.sorts.iter().map(|s| s.sort).collect();
    assert_eq!(
        sorts,
        vec![Sort::LastWatched, Sort::Name, Sort::NameReverse, Sort::TimesWatched, Sort::Watched, Sort::NotWatched]
    );
    assert!(selectable.sorts[4].selected && !selectable.sorts[0].selected);
    assert_eq!(selectable.sorts[0].request, request(Some("series"), Sort::LastWatched, 1));
    assert_eq!(selectable.next_page, None);
    let again = selectable_update::<NotRemovedFilter, ()>(&mut selectable, &selected, &library, &notifications);
    assert!(!again.has_changed);
}

#[test]
fn library_next_page_is_offered_when_more_items_are_shown() {
    let library: Vec<LibraryItem> = (0..150)
        .map(|i| item(&format!("tt{i}"), &format!("n{i}"), "movie", NOW, NOW - i, 0, 0))
        .collect();
    let notifications = NotificationsBucket::default();
    let (mut model, effects) = LibraryWithFilters::<NotRemovedFilter>::new(&library, &notifications);
    assert!(!effects.has_changed);
    assert_eq!(model.selected, None);
    assert!(model.selectable.types[0].selected == false);
    let effects: stremio_core::runtime::Effects<()> = model.update(
        LibraryWithFiltersMsg::Load(Selected { request: request(None, Sort::LastWatched, 1) }),
        &library,
        &notifications,
    );
    assert!(effects.has_changed);
    assert_eq!(model.catalog.len(), 100);
    assert_eq!(model.catalog[0].id, "tt0");
    let next = model.selectable.next_page.clone().expect("a second page");
    assert_eq!(next.request, request(None, Sort::LastWatched, 2));
    let _: stremio_core::runtime::Effects<()> =
        model.update(LibraryWithFiltersMsg::LoadNextPage, &library, &notifications);
    assert_eq!(model.catalog.len(), 150);
    assert_eq!(model.selectable.next_page, None);
    let unchanged: stremio_core::runtime::Effects<()> =
        model.update(LibraryWithFiltersMsg::LoadNextPage, &library, &notifications);
    assert!(!unchanged.has_changed);
    let _: stremio_core::runtime::Effects<()> =
        model.update(LibraryWithFiltersMsg::Unload, &library, &notifications);
    assert_eq!(model.selected, None);
    assert!(model.catalog.is_empty());
}
