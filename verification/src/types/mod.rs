pub mod skip_segments;
pub mod api;
pub mod addon;
pub mod library;
pub mod player;
pub mod resource;
pub mod json;
