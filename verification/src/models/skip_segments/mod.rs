//! Decides where intros, recaps, outros and previews lie in a video, from
//! the seek history of other viewers and from external segment providers.

pub mod laws;
pub mod native;
pub mod providers;
pub mod resolve;

pub use native::stremio_native_candidates;
pub use resolve::resolve_skip_segment;
