//! Metadata, schema and query-planning logic of a GraphQL engine over
//! Open DD metadata and NDC data connectors.

pub mod open_dds;
pub mod text;
pub mod keyed;
pub mod session;
pub mod http;
pub mod json;
pub mod metadata;
pub mod execute;
pub mod schema;
