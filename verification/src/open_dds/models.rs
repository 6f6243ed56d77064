//! Models: collections of objects of a type, which support operations.

use vstd::prelude::*;

use super::commands::TypeMapping;
pub use super::names::{ModelName, OperatorName};
use super::names::{ArgumentName, DataConnectorName, FieldName, GraphQlFieldName, GraphQlTypeName};
use super::types::{ArgumentDefinition, CustomTypeName};

verus! {

/// The definition of a data model.
/// A data model is a collection of objects of a particular type. Models can support one or more CRUD operations.
#[derive(Debug, PartialEq)]
pub enum Model {
    V1(ModelV1),
}

impl Model {
    /// The definition in its latest version.
    pub fn upgrade(self) -> (r: ModelV1)
        ensures
            self == Model::V1(r),
    {
        match self {
            Model::V1(v1) => v1,
        }
    }
}

#[derive(Debug, PartialEq)]
pub struct ModelV1 {
    pub name: ModelName,
    /// The type of the objects of which this model is a collection.
    pub object_type: CustomTypeName,
    pub global_id_source: bool,
    pub arguments: Vec<ArgumentDefinition>,
    pub source: Option<ModelSource>,
    pub filterable_fields: Vec<FilterableField>,
    pub orderable_fields: Vec<OrderableField>,
    pub graphql: Option<ModelGraphQlDefinition>,
}

/// Description of how a model maps to a particular data connector
#[derive(Debug, PartialEq)]
pub struct ModelSource {
    /// The name of the data connector backing this model.
    pub data_connector_name: DataConnectorName,
    /// The collection in the data connector that backs this model.
    pub collection: String,
    /// How the various types used in this model correspond to
    /// entities in the data connector.
    pub type_mapping: Vec<(CustomTypeName, TypeMapping)>,
    /// Mapping from model argument names to data connector table argument names.
    pub argument_mapping: Vec<(ArgumentName, String)>,
}

/// The definition of the GraphQL API component specific to a model.
#[derive(Debug, PartialEq)]
pub struct ModelGraphQlDefinition {
    pub select_uniques: Vec<SelectUniqueGraphQlDefinition>,
    pub select_many: Option<SelectManyGraphQlDefinition>,
    pub arguments_input_type: Option<GraphQlTypeName>,
    /// The type name of the filter boolean expression.
    pub filter_expression_type: Option<GraphQlTypeName>,
    pub order_by_expression_type: Option<GraphQlTypeName>,
}

/// The definition of the GraphQL API for selecting a unique row/object from a model.
#[derive(Debug, PartialEq)]
pub struct SelectUniqueGraphQlDefinition {
    /// The name of the query root field for this API.
    pub query_root_field: GraphQlFieldName,
    /// A set of fields which can uniquely identify a row/object in the model.
    pub unique_identifier: Vec<FieldName>,
}

/// The definition of the GraphQL API for selecting rows from a model.
#[derive(Debug, PartialEq)]
pub struct SelectManyGraphQlDefinition {
    /// The name of the query root field for this API.
    pub query_root_field: GraphQlFieldName,
}

/// A field of a model by which its rows can be filtered, with the operators
/// allowed on it.
#[derive(Debug, PartialEq, Eq)]
pub struct FilterableField {
    pub field_name: FieldName,
    pub operators: EnableAllOrSpecific<OperatorName>,
}

/// A field of a model by which its rows can be ordered, with the directions
/// allowed on it.
#[derive(Debug, PartialEq, Eq)]
pub struct OrderableField {
    pub field_name: FieldName,
    pub order_by_directions: EnableAllOrSpecific<OrderByDirection>,
}

/// Either all the options, or the given ones.
#[derive(Debug, PartialEq, Eq)]
pub enum EnableAllOrSpecific<T> {
    EnableAll(bool),
    EnableSpecific(Vec<T>),
}

/// A direction in which rows can be ordered.
#[derive(Debug, Clone, Copy, PartialEq, Eq, PartialOrd, Ord, Hash, Structural)]
pub enum OrderByDirection {
    Asc,
    Desc,
}

} // verus!
