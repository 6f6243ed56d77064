pub mod command;
pub mod data_connector;
pub mod error;
pub mod model;
pub mod relationship;
pub mod subgraph;
pub mod types;
