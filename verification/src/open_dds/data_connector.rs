//! Data connectors as Open DD metadata defines them.

use vstd::prelude::*;

use crate::json::JsonValue;
pub use super::names::DataConnectorName;

verus! {

/// A value given in metadata, or read from the environment variable named.
#[derive(Debug, PartialEq, Eq)]
pub enum SecretValue {
    Value(String),
    ValueFromEnv(String),
}

/// One URL for reads and one for writes.
#[derive(Debug, PartialEq, Eq)]
pub struct ReadWriteUrlsV2 {
    pub read: SecretValue,
    pub write: SecretValue,
}

/// Where a data connector is reached.
#[derive(Debug, PartialEq, Eq)]
pub enum DataConnectorUrlV2 {
    SingleUrl(SecretValue),
    ReadWriteUrls(ReadWriteUrlsV2),
}

/// The definition of a data connector.
#[derive(Debug, PartialEq)]
pub struct DataConnectorV2 {
    pub name: DataConnectorName,
    pub url: DataConnectorUrlV2,
    /// Key value map of HTTP headers to be sent with each request to the data connector
    pub headers: Vec<(String, SecretValue)>,
    /// The schema of the data connector, as it sends it.
    pub schema: JsonValue,
    /// The capabilities of the data connector, as it sends them.
    pub capabilities: Option<JsonValue>,
}

} // verus!
