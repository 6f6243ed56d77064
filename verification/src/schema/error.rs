//! Errors found while building the GraphQL schema.

use vstd::prelude::*;

use crate::metadata::resolved::subgraph::Qualified;
use crate::open_dds::names::ModelName;
use crate::open_dds::types::CustomTypeName;

verus! {

/// An error found while building the GraphQL schema.
#[derive(Debug)]
pub enum Error {
    InternalTypeNotFound { typename: Qualified<CustomTypeName> },
    NoGraphQlOutputTypeNameForObject { typename: Qualified<CustomTypeName> },
    NoGraphQlTypeNameForScalar { typename: Qualified<CustomTypeName> },
    NoGraphQlInputTypeNameForObject { typename: Qualified<CustomTypeName> },
    ExpectedTypeToBeObject { typename: Qualified<CustomTypeName> },
    InvalidGraphQlName { name: String },
    NoArgumentsInputTypeForSelectMany { model_name: Qualified<ModelName> },
    InternalModelNotFound { model_name: Qualified<ModelName> },
    InternalUnsupported { summary: String },
    DuplicateFieldNameGeneratedInObjectType { field_name: String, typename: Qualified<CustomTypeName> },
    GraphQlArgumentConflict { argument_name: String, field_name: String, typename: String },
    InternalErrorDuplicateGlobalIdSourceFound { typename: String },
}

} // verus!
