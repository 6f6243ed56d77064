pub mod model_tracking;
pub mod operations;
pub mod types;
pub mod normalized;
pub mod graphql;
pub mod error;
