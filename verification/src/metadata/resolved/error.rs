//! Errors found while resolving metadata.

use vstd::prelude::*;

use super::subgraph::Qualified;
use crate::open_dds::names::{DataConnectorName, FieldName, ModelName, RelationshipName};
use crate::open_dds::types::CustomTypeName;

verus! {

/// An error found while resolving metadata.
#[derive(Debug)]
pub enum Error {
    InvalidGraphQlName { name: String },
    NotSupported { reason: String },
    EmptyFieldPath {
        location: String,
        typename: Qualified<CustomTypeName>,
        relationship_name: RelationshipName,
    },
    UnknownSourceFieldInRelationshipMapping {
        relationship_name: RelationshipName,
        source_type: Qualified<CustomTypeName>,
        field_name: FieldName,
    },
    UnknownTargetFieldInRelationshipMapping {
        relationship_name: RelationshipName,
        source_type: Qualified<CustomTypeName>,
        model_name: Qualified<ModelName>,
        field_name: FieldName,
    },
    MappingExistsInRelationship {
        typename: Qualified<CustomTypeName>,
        field_name: FieldName,
        relationship_name: RelationshipName,
    },
    UnknownModelDataConnector {
        model_name: Qualified<ModelName>,
        data_connector: Qualified<DataConnectorName>,
    },
    RelationshipTargetDoesNotSupportForEach {
        typename: Qualified<CustomTypeName>,
        relationship_name: RelationshipName,
        data_connector_name: Qualified<DataConnectorName>,
    },
    UnknownTargetModelUsedInRelationship {
        typename: Qualified<CustomTypeName>,
        relationship_name: RelationshipName,
        model_name: Qualified<ModelName>,
    },
}

} // verus!
