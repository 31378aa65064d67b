use stremio_core::constants::CATALOG_PAGE_SIZE;
use stremio_core::models::library_by_type::{LibraryByType, LibraryByTypeMsg, Selected};
use stremio_core::models::library_with_filters::{NotRemovedFilter, Sort};
use stremio_core::runtime::Effects;
use stremio_core::types::library::{LibraryItem, LibraryItemState, NotificationsBucket};

fn item(id: &str, content_type: &str, last_watched: i64) -> LibraryItem {
    LibraryItem {
        default_video_id: None,
        id: id.into(),
        name: id.into(),
        content_type: content_type.into(),
        poster: None,
        removed: false,
        temp: false,
        ctime: None,
        mtime: 0,
        state: LibraryItemState { last_watched: Some(last_watched), ..Default::default() },
    }
}

#[test]
fn library_by_type_lists_a_catalog_per_type_and_pages_it() {
    let mut library: Vec<LibraryItem> = (0..(CATALOG_PAGE_SIZE as i64 + 10))
        .map(|i| item(&format!("m{i}"), "movie", i))
        .collect();
    library.push(item("s1", "series", 5));
    library.push(item("o1", "other", 5));
    let notifications = NotificationsBucket::default();
    let (mut model, effects) = LibraryByType::<NotRemovedFilter>::new();
    assert!(!effects.has_changed);
    assert_eq!(model.selectable.sorts.len(), 6);
    let effects: Effects<()> = model.update(
        LibraryByTypeMsg::Load(Selected { sort: Sort::LastWatched }),
        &library,
        &notifications,
    );
    assert!(effects.has_changed);
    assert!(model.selectable.sorts[0].selected);
    let types: Vec<&str> = model.catalogs.iter().map(|c| c[0][0].content_type.as_str()).collect();
    assert_eq!(types, vec!["movie", "series", "other"]);
    assert_eq!(model.catalogs[0][0].len(), CATALOG_PAGE_SIZE);
    assert_eq!(model.catalogs[0][0][0].id, format!("m{}", CATALOG_PAGE_SIZE + 9));
    let effects: Effects<()> = model.update(LibraryByTypeMsg::LoadNextPage(0), &library, &notifications);
    assert!(effects.has_changed);
    assert_eq!(model.catalogs[0].len(), 2);
    assert_eq!(model.catalogs[0][1].len(), 10);
    assert_eq!(model.catalogs[0][1][9].id, "m0");
    // the last page is not full: nothing more to load
    let effects: Effects<()> = model.update(LibraryByTypeMsg::LoadNextPage(0), &library, &notifications);
    assert!(!effects.has_changed);
    let effects: Effects<()> = model.update(LibraryByTypeMsg::LoadNextPage(9), &library, &notifications);
    assert!(!effects.has_changed);
    let effects: Effects<()> = model.update(LibraryByTypeMsg::LibraryChanged, &library, &notifications);
    assert!(effects.has_changed);
    assert_eq!(model.catalogs[0].len(), 1);
    let effects: Effects<()> = model.update(LibraryByTypeMsg::Unload, &library, &notifications);
    assert!(effects.has_changed);
    assert!(model.catalogs.is_empty());
}
