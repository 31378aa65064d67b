pub mod error;
pub mod ctx;
pub mod profile;
pub mod search_history;
pub mod streams;

pub use error::{CtxError, OtherError};
