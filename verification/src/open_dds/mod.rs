pub mod commands;
pub mod data_connector;
pub mod flags;
pub mod models;
pub mod names;
pub mod ndc_client;
pub mod permissions;
pub mod relationships;
pub mod types;
