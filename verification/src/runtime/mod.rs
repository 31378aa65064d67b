pub mod effects;
pub mod env;
pub mod environment;

pub use effects::Effects;
pub use env::EnvError;
