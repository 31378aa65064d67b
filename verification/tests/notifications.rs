use stremio_core::models::notifications::{dismiss_notification_item, NotificationsEffect};
use stremio_core::types::library::{LibraryItem, LibraryItemState, NotificationItem, NotificationsBucket};
use stremio_core::models::common::resource_loadable::ResourceLoadable;
use stremio_core::models::common::Loadable;
use stremio_core::models::ctx::profile::CtxStatus;
use stremio_core::models::notifications::{pulled_items, update_notification_items, update_notifications, NotificationsMsg};
use stremio_core::types::addon::{ResourcePath, ResourceRequest};
use stremio_core::types::resource::{MetaItem, MetaItemPreview, Video};
fn item(id: &str) -> LibraryItem {
    LibraryItem {
        default_video_id: None,
        id: id.into(),
        name: id.into(),
        content_type: "series".into(),
        poster: None,
        removed: false,
        temp: false,
        ctime: None,
        mtime: 0,
        state: LibraryItemState::default(),
    }
}

fn bucket() -> NotificationsBucket {
    NotificationsBucket {
        uid: None,
        last_updated: None,
        items: vec![
            ("a".to_string(), vec![NotificationItem { video_id: "a:1:2".to_string(), video_released: 10 }]),
            ("b".to_string(), vec![]),
        ],
    }
}

#[test]
fn dismissing_notifications_updates_the_library_item() {
    let library = vec![item("a")];
    let mut notifications = bucket();
    let effects = dismiss_notification_item(&library, &mut notifications, "a", 99);
    assert!(effects.has_changed);
    let mut updated = item("a");
    updated.state.last_watched = Some(99);
    assert_eq!(
        effects.into_effects(),
        vec![
            NotificationsEffect::NotificationsChanged,
            NotificationsEffect::UpdateLibraryItem(updated),
            NotificationsEffect::NotificationsDismissed("a".to_string()),
        ]
    );
    assert_eq!(notifications.items.len(), 1);
    assert_eq!(notifications.items[0].0, "b");
}

#[test]
fn dismissing_unknown_notifications_changes_nothing() {
    let mut notifications = bucket();
    let effects = dismiss_notification_item(&[], &mut notifications, "zzz", 99);
    assert!(!effects.has_changed && effects.is_empty());
    assert_eq!(notifications, bucket());
    let effects = dismiss_notification_item(&[], &mut notifications, "b", 99);
    assert_eq!(
        effects.into_effects(),
        vec![
            NotificationsEffect::NotificationsChanged,
            NotificationsEffect::NotificationsDismissed("b".to_string()),
        ]
    );
}


const NOW: i64 = 300;

fn watched(id: &str, content_type: &str, last_watched: Option<i64>) -> LibraryItem {
    let mut it = item(id);
    it.content_type = content_type.into();
    it.state.last_watched = last_watched;
    it
}

fn video(id: &str, released: Option<i64>) -> Video {
    Video { id: id.into(), title: id.into(), released, series_info: None, streams: vec![], epg_info: None }
}

fn meta(id: &str, videos: Vec<Video>) -> MetaItem {
    MetaItem {
        preview: MetaItemPreview {
            id: id.into(),
            content_type: "series".into(),
            name: id.into(),
            poster: None,
            default_video_id: None,
        },
        videos,
    }
}

fn last_videos_request() -> ResourceRequest {
    ResourceRequest {
        base: "https://cinemeta.example/addon".into(),
        path: ResourcePath {
            resource: "catalog".into(),
            content_type: "series".into(),
            id: "last-videos".into(),
            extra: vec![],
        },
    }
}

fn notified(entries: &NotificationsBucket) -> Vec<(String, Vec<(String, i64)>)> {
    entries
        .items
        .iter()
        .map(|(id, ns)| (id.clone(), ns.iter().map(|n| (n.video_id.clone(), n.video_released)).collect()))
        .collect()
}

#[test]
fn notification_items_keep_new_released_videos_once() {
    let library = vec![
        watched("s1", "series", Some(100)),
        watched("s2", "series", Some(100)),
        watched("m", "movie", Some(100)),
        watched("s3", "series", None),
    ];
    let catalogs = vec![ResourceLoadable {
        request: last_videos_request(),
        content: Some(Loadable::Ready(vec![
            meta("s1", vec![video("v1", Some(50)), video("v2", Some(150)), video("v2", Some(160)), video("v4", Some(500)), video("v5", None)]),
            meta("m", vec![video("m1", Some(150))]),
            meta("s3", vec![video("w1", Some(150))]),
        ])),
    }];
    let mut bucket = NotificationsBucket {
        uid: None,
        last_updated: None,
        items: vec![(
            "s2".to_string(),
            vec![
                NotificationItem { video_id: "x".into(), video_released: 50 },
                NotificationItem { video_id: "y".into(), video_released: 200 },
            ],
        )],
    };
    let effects = update_notification_items(&mut bucket, &catalogs, &library, NOW);
    assert!(effects.has_changed && effects.effects.is_empty());
    assert_eq!(
        notified(&bucket),
        vec![("s1".to_string(), vec![("v2".to_string(), 150)]), ("s2".to_string(), vec![("y".to_string(), 200)])]
    );
    let again = update_notification_items(&mut bucket, &catalogs, &library, NOW);
    assert!(!again.has_changed);
}

#[test]
fn pulling_notifications_requests_catalogs_when_due() {
    let library = vec![watched("s1", "series", Some(100))];
    let requests = vec![last_videos_request()];
    let mut bucket = NotificationsBucket::default();
    let mut catalogs = vec![];
    let asked = update_notifications(&mut bucket, &mut catalogs, &library, &CtxStatus::Ready, NotificationsMsg::PullNotificationsRequested, NOW);
    assert_eq!(asked.effects, vec![NotificationsEffect::PullNotifications]);
    let pulled = update_notifications(&mut bucket, &mut catalogs, &library, &CtxStatus::Ready, NotificationsMsg::PullNotifications { requests: &requests }, NOW);
    assert!(!pulled.has_changed);
    assert_eq!(pulled.effects, vec![NotificationsEffect::Fetch(last_videos_request())]);
    assert_eq!(bucket.last_updated, Some(NOW));
    assert_eq!(catalogs.len(), 1);
    assert_eq!(catalogs[0].content, Some(Loadable::Loading));
    let soon = update_notifications(&mut bucket, &mut catalogs, &library, &CtxStatus::Ready, NotificationsMsg::PullNotifications { requests: &requests }, NOW + 1000);
    assert!(soon.effects.is_empty());
    let answer = update_notifications(
        &mut bucket,
        &mut catalogs,
        &library,
        &CtxStatus::Ready,
        NotificationsMsg::ResourceRequestResult { request: &last_videos_request(), result: Ok(Ok(vec![meta("s1", vec![video("v2", Some(150))])])) },
        NOW,
    );
    assert!(answer.has_changed);
    assert_eq!(answer.effects, vec![NotificationsEffect::NotificationsChanged]);
    assert_eq!(notified(&bucket), vec![("s1".to_string(), vec![("v2".to_string(), 150)])]);
    let later = update_notifications(&mut bucket, &mut catalogs, &library, &CtxStatus::Ready, NotificationsMsg::PullNotifications { requests: &requests }, NOW + 21_600_000);
    assert_eq!(later.effects.len(), 1);
    let stored = update_notifications(&mut bucket, &mut catalogs, &library, &CtxStatus::Ready, NotificationsMsg::NotificationsChanged, NOW);
    assert_eq!(stored.effects, vec![NotificationsEffect::PushNotificationsToStorage(vec!["s1".to_string()])]);
}

#[test]
fn signing_out_or_in_resets_the_notifications() {
    let library = vec![watched("s1", "series", Some(100))];
    let mut bucket = bucket();
    let mut catalogs = vec![ResourceLoadable { request: last_videos_request(), content: Some(Loadable::Loading) }];
    let out = update_notifications(&mut bucket, &mut catalogs, &library, &CtxStatus::Ready, NotificationsMsg::Logout { uid: &None }, NOW);
    assert_eq!(out.effects, vec![NotificationsEffect::NotificationsChanged]);
    assert!(catalogs.is_empty() && bucket.items.is_empty());
    let again = update_notifications(&mut bucket, &mut catalogs, &library, &CtxStatus::Ready, NotificationsMsg::Logout { uid: &None }, NOW);
    assert!(again.effects.is_empty());
    let uid = Some("user".to_string());
    let other = update_notifications(&mut bucket, &mut catalogs, &library, &CtxStatus::Loading("a".into()), NotificationsMsg::AuthResult { request: "b", succeeded: true, uid: &uid }, NOW);
    assert!(other.effects.is_empty() && bucket.uid.is_none());
    let signed_in = update_notifications(&mut bucket, &mut catalogs, &library, &CtxStatus::Loading("a".into()), NotificationsMsg::AuthResult { request: "a", succeeded: true, uid: &uid }, NOW);
    assert_eq!(signed_in.effects, vec![NotificationsEffect::NotificationsChanged, NotificationsEffect::PullNotifications]);
    assert_eq!(bucket.uid.as_deref(), Some("user"));
    let dismiss = update_notifications(&mut bucket, &mut catalogs, &library, &CtxStatus::Ready, NotificationsMsg::DismissRequested("s1"), NOW);
    assert_eq!(dismiss.effects, vec![NotificationsEffect::DismissNotificationItem("s1".to_string())]);
}

#[test]
fn pulled_items_are_the_eligible_ones_newest_first() {
    let mut older = watched("old", "series", Some(1));
    older.mtime = 10;
    let mut newer = watched("new", "channel", None);
    newer.mtime = 30;
    let mut movie = watched("m", "movie", None);
    movie.mtime = 50;
    let mut removed = watched("gone", "series", None);
    removed.removed = true;
    removed.mtime = 40;
    let mut muted = watched("muted", "series", None);
    muted.state.no_notif = true;
    let mut with_default = watched("default", "series", None);
    with_default.default_video_id = Some("default:1".into());
    let items = pulled_items(&[older, movie, newer, removed, muted, with_default]);
    assert_eq!(items, vec![("new".to_string(), "channel".to_string()), ("old".to_string(), "series".to_string())]);
}

#[test]
fn a_second_dismissal_finds_nothing() {
    let library = vec![item("a")];
    let mut notifications = bucket();
    notifications.items.push(("a".to_string(), vec![]));
    let first = dismiss_notification_item(&library, &mut notifications, "a", 5);
    assert!(first.has_changed);
    assert!(notifications.items.iter().all(|(id, _)| id != "a"));
    let second = dismiss_notification_item(&library, &mut notifications, "a", 6);
    assert!(!second.has_changed && second.effects.is_empty());
}
