//! Reusable application logic of a media center: state models, their
//! reducers and the rules that decide which requests they make.

pub mod constants;
pub mod models;
pub mod order;
pub mod runtime;
pub mod sorted;
pub mod text;
pub mod types;
