pub mod calendar;
pub mod casting;
pub mod catalog_with_filters;
pub mod catalogs_with_extra;
pub mod common;
pub mod continue_watching_preview;
pub mod ctx;
pub mod installed_addons_with_filters;
pub mod library_by_type;
pub mod library_items;
pub mod library_with_filters;
pub mod link;
pub mod live_tv_continue_watching;
pub mod live_tv_guide;
pub mod notifications;
pub mod player;
pub mod skip_segments;
pub mod source_preview;
pub mod streaming_server;
