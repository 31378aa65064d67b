use stremio_core::models::calendar::{
    items_update, month_info_update, selectable_update, selected_update, Calendar, CalendarMsg,
    ContentItem, FullDate, MonthInfo, Selectable, YearMonthDate,
};
use stremio_core::models::common::resource_loadable::ResourceLoadable;
use stremio_core::models::common::Loadable;
use stremio_core::types::addon::{ResourcePath, ResourceRequest};
use stremio_core::types::resource::{MetaItem, MetaItemPreview, Video};

fn ym(year: i32, month: u32) -> YearMonthDate {
    YearMonthDate { month, year }
}

#[test]
fn full_date_new_keeps_its_parts() {
    assert_eq!(FullDate::new(2024, 2, 29), FullDate { day: 29, month: 2, year: 2024 });
}

#[test]
fn selected_update_defaults_to_the_current_month() {
    let mut selected = None;
    let effects = selected_update::<()>(&mut selected, &None, ym(2024, 5));
    assert!(effects.has_changed);
    assert_eq!(selected, Some(ym(2024, 5)));
    let effects = selected_update::<()>(&mut selected, &Some(ym(2023, 12)), ym(2024, 5));
    assert!(effects.has_changed);
    assert_eq!(selected, Some(ym(2023, 12)));
    let effects = selected_update::<()>(&mut selected, &Some(ym(2023, 12)), ym(2024, 5));
    assert!(!effects.has_changed);
}

#[test]
fn selectable_update_gives_neighbouring_months() {
    let mut selectable = Selectable::default();
    let effects = selectable_update::<()>(&mut selectable, &Some(ym(2023, 12)));
    assert!(effects.has_changed);
    assert_eq!(selectable, Selectable { prev: ym(2023, 11), next: ym(2024, 1) });
    selectable_update::<()>(&mut selectable, &Some(ym(2024, 1)));
    assert_eq!(selectable, Selectable { prev: ym(2023, 12), next: ym(2024, 2) });
    // an invalid month falls back to January 1970
    selectable_update::<()>(&mut selectable, &Some(ym(2024, 13)));
    assert_eq!(selectable, Selectable { prev: ym(1969, 12), next: ym(1970, 2) });
    selectable_update::<()>(&mut selectable, &None);
    assert_eq!(selectable, Selectable::default());
}

#[test]
fn month_info_update_describes_the_month() {
    let mut info = MonthInfo::default();
    let today = FullDate::new(2024, 2, 14);
    let effects = month_info_update::<()>(&mut info, &Some(ym(2024, 2)), today);
    assert!(effects.has_changed);
    // February 2024 is a leap month that starts on a Thursday
    assert_eq!(info, MonthInfo { today: Some(14), days: 29, first_weekday: 3 });
    month_info_update::<()>(&mut info, &Some(ym(2023, 2)), today);
    assert_eq!(info, MonthInfo { today: None, days: 28, first_weekday: 2 });
    month_info_update::<()>(&mut info, &Some(ym(2024, 9)), today);
    assert_eq!(info, MonthInfo { today: None, days: 30, first_weekday: 6 });
    let unchanged = month_info_update::<()>(&mut info, &Some(ym(2024, 9)), today);
    assert!(!unchanged.has_changed);
    month_info_update::<()>(&mut info, &None, today);
    assert_eq!(info, MonthInfo::default());
}

fn at(date: FullDate, hour: u32) -> i64 {
    chrono::NaiveDate::from_ymd_opt(date.year, date.month, date.day)
        .and_then(|d| d.and_hms_opt(hour, 30, 0))
        .map(|t| t.and_utc().timestamp_millis())
        .unwrap_or_default()
}

fn video(id: &str, released: Option<FullDate>) -> Video {
    Video {
        id: id.to_string(),
        title: id.to_string(),
        released: released.map(|d| at(d, 23)),
        series_info: None,
        streams: vec![],
        epg_info: None,
    }
}

#[test]
fn items_update_lists_the_videos_of_each_day() {
    let meta = MetaItem {
        preview: MetaItemPreview { id: "tt1".to_string(), content_type: "series".to_string(), name: "Show".to_string(), poster: None, default_video_id: None },
        videos: vec![
            video("e1", Some(FullDate::new(2024, 2, 2))),
            video("e2", Some(FullDate::new(2024, 3, 2))),
            video("e3", None),
            video("e4", Some(FullDate::new(2024, 2, 2))),
        ],
    };
    let request = ResourceRequest {
        base: "https://a".to_string(),
        path: ResourcePath {
            resource: "catalog".to_string(),
            content_type: "series".to_string(),
            id: "calendar-videos".to_string(),
            extra: vec![],
        },
    };
    let resources = vec![
        ResourceLoadable { request: request.clone(), content: Some(Loadable::Ready(vec![meta.clone()])) },
        ResourceLoadable { request, content: Some(Loadable::Loading) },
    ];
    let info = MonthInfo { today: None, days: 29, first_weekday: 3 };
    let mut items = vec![];
    let effects = items_update::<()>(&mut items, &Some(ym(2024, 2)), &info, &resources);
    assert!(effects.has_changed);
    assert_eq!(items.len(), 29);
    assert_eq!(items[0].date, FullDate::new(2024, 2, 1));
    assert!(items[0].items.is_empty());
    assert_eq!(
        items[1].items,
        vec![
            ContentItem { meta_item: meta.clone(), video: meta.videos[0].clone() },
            ContentItem { meta_item: meta.clone(), video: meta.videos[3].clone() },
        ]
    );
    assert_eq!(items[28].date, FullDate::new(2024, 2, 29));
    let again = items_update::<()>(&mut items, &Some(ym(2024, 2)), &info, &resources);
    assert!(!again.has_changed);
    items_update::<()>(&mut items, &None, &info, &resources);
    assert!(items.is_empty());
}

#[test]
fn calendar_update_loads_answers_and_unloads() {
    let request = ResourceRequest {
        base: "https://a".to_string(),
        path: ResourcePath {
            resource: "catalog".to_string(),
            content_type: "series".to_string(),
            id: "calendar-videos".to_string(),
            extra: vec![],
        },
    };
    let mut calendar = Calendar {
        selected: None,
        selectable: Selectable::default(),
        meta_items: vec![],
        month_info: MonthInfo::default(),
        items: vec![],
    };
    let planned = vec![request.clone()];
    let effects = calendar.update(CalendarMsg::Load {
        selected: None,
        now: ym(2024, 2),
        today: FullDate::new(2024, 2, 14),
        planned: &planned,
    });
    assert!(effects.has_changed);
    assert_eq!(effects.effects, vec![request.clone()]);
    assert_eq!(calendar.selected, Some(ym(2024, 2)));
    assert_eq!(calendar.selectable, Selectable { prev: ym(2024, 1), next: ym(2024, 3) });
    assert_eq!(calendar.month_info, MonthInfo { today: Some(14), days: 29, first_weekday: 3 });
    assert_eq!(calendar.meta_items.len(), 1);
    assert_eq!(calendar.meta_items[0].content, Some(Loadable::Loading));
    assert_eq!(calendar.items.len(), 29);

    // a second load keeps the meta items and asks for nothing
    let again = calendar.update(CalendarMsg::Load {
        selected: Some(ym(2024, 3)),
        now: ym(2024, 2),
        today: FullDate::new(2024, 2, 14),
        planned: &planned,
    });
    assert!(again.effects.is_empty());
    assert_eq!(calendar.selected, Some(ym(2024, 3)));
    assert_eq!(calendar.month_info, MonthInfo { today: None, days: 31, first_weekday: 4 });
    assert_eq!(calendar.items.len(), 31);

    let meta = MetaItem {
        preview: MetaItemPreview { id: "tt1".to_string(), content_type: "series".to_string(), name: "Show".to_string(), poster: None, default_video_id: None },
        videos: vec![video("e1", Some(FullDate::new(2024, 3, 5)))],
    };
    let answered = calendar.update(CalendarMsg::ResourceRequestResult(&request, Ok(Ok(vec![meta.clone()]))));
    assert!(answered.has_changed);
    assert!(answered.effects.is_empty());
    assert_eq!(calendar.meta_items[0].content, Some(Loadable::Ready(vec![meta.clone()])));
    assert_eq!(
        calendar.items[4].items,
        vec![ContentItem { meta_item: meta.clone(), video: meta.videos[0].clone() }]
    );

    let left = calendar.update(CalendarMsg::Unload);
    assert!(left.has_changed);
    assert_eq!(calendar.selected, None);
    assert!(calendar.meta_items.is_empty());
    assert!(calendar.items.is_empty());
    assert_eq!(calendar.month_info, MonthInfo::default());
    assert!(!calendar.update(CalendarMsg::Unload).has_changed);
}
