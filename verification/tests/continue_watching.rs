use stremio_core::constants::CATALOG_PREVIEW_SIZE;
use stremio_core::models::continue_watching_preview::{library_items_update, ContinueWatchingPreview};
use stremio_core::models::library_items::{ids_update, LibraryItems, LibraryItemsMsg};
use stremio_core::types::library::{LibraryItem, LibraryItemState, NotificationItem, NotificationsBucket};
use stremio_core::types::resource::{Stream, StreamSource, StreamsBucket};

fn item(id: &str, mtime: i64, time_offset: u64) -> LibraryItem {
    LibraryItem {
        default_video_id: None,
        id: id.into(),
        name: id.into(),
        content_type: "series".into(),
        poster: None,
        removed: false,
        temp: false,
        ctime: Some(0),
        mtime,
        state: LibraryItemState { time_offset, video_id: Some(format!("{id}:1:1")), ..Default::default() },
    }
}

fn stream(url: &str) -> Stream {
    Stream { source: StreamSource::Url { url: url.to_string() }, name: None, description: None }
}

#[test]
fn continue_watching_orders_by_newest_video_or_modification() {
    let library = vec![
        item("a", 100, 5),
        item("b", 300, 5),
        item("c", 200, 0),
        item("d", 50, 0),
    ];
    let notifications = NotificationsBucket {
        uid: None,
        last_updated: None,
        items: vec![(
            "c".to_string(),
            vec![
                NotificationItem { video_id: "c:1:2".to_string(), video_released: 150 },
                NotificationItem { video_id: "c:1:3".to_string(), video_released: 400 },
            ],
        )],
    };
    let streams = StreamsBucket { uid: None, items: vec![("a".to_string(), "a:1:1".to_string(), stream("https://a"), "https://addon.example/addon".to_string())] };
    let (preview, effects) = ContinueWatchingPreview::new(&library, &streams, &notifications);
    assert!(!effects.has_changed);
    let ids: Vec<&str> = preview.items.iter().map(|i| i.library_item.id.as_str()).collect();
    assert_eq!(ids, vec!["c", "b", "a"]);
    assert_eq!(preview.items[0].notifications, 2);
    assert_eq!(preview.items[1].notifications, 0);
    assert_eq!(preview.items[2].stream, Some(stream("https://a")));
    assert_eq!(preview.items[1].stream, None);
    let mut items = preview.items;
    let again = library_items_update::<()>(&mut items, &library, &streams, &notifications);
    assert!(!again.has_changed);
}

#[test]
fn continue_watching_is_cut_to_the_preview_size() {
    let library: Vec<LibraryItem> =
        (0..(CATALOG_PREVIEW_SIZE as i64 + 5)).map(|i| item(&format!("i{i}"), i, 1)).collect();
    let mut items = vec![];
    let effects = library_items_update::<()>(
        &mut items,
        &library,
        &StreamsBucket::default(),
        &NotificationsBucket::default(),
    );
    assert!(effects.has_changed);
    assert_eq!(items.len(), CATALOG_PREVIEW_SIZE);
    assert_eq!(items[0].library_item.id, format!("i{}", CATALOG_PREVIEW_SIZE + 4));
}

#[test]
fn library_ids_skip_removed_and_repeated_items() {
    let mut removed = item("r", 0, 0);
    removed.removed = true;
    let library = vec![item("a", 0, 0), removed, item("b", 0, 0), item("a", 1, 0)];
    let mut ids = vec![];
    let effects = ids_update::<()>(&mut ids, &library);
    assert!(effects.has_changed);
    assert_eq!(ids, vec!["a".to_string(), "b".to_string()]);
    let mut model = LibraryItems { ids };
    let same = model.update::<()>(LibraryItemsMsg::LibraryChanged, &library);
    assert!(!same.has_changed);
    let other = model.update::<()>(LibraryItemsMsg::Other, &[]);
    assert!(!other.has_changed);
    assert_eq!(model.ids.len(), 2);
}
