pub mod commands;
pub mod error;
pub mod permissions;
pub mod relay;
pub mod select_many;
pub mod select_one;

pub use error::{Error, InternalDeveloperError, InternalEngineError, InternalError};
