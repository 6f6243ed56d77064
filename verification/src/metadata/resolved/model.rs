//! Models as the engine resolves them from metadata.

use vstd::prelude::*;

use super::data_connector::{DataConnector, DataConnectorView, ResolvedDataConnectorUrl};
use super::subgraph::{Qualified, QualifiedTypeReference};
use super::types::{FieldDefinition, FieldMapping, TypeMapping};
use crate::open_dds::names::{ArgumentName, FieldName, Ident, ModelName, RelationshipName, Role};
use crate::open_dds::ndc_client::models::{
    BinaryComparisonOperator, Expression, ExpressionView, UnaryComparisonOperator,
};
use crate::open_dds::permissions::ValueExpression;
use crate::open_dds::types::CustomTypeName;

verus! {

/// Where the rows of a model come from.
#[derive(Debug, PartialEq)]
pub struct ModelSource {
    pub data_connector: DataConnector,
    pub collection: String,
    pub type_mappings: Vec<(Qualified<CustomTypeName>, TypeMapping)>,
    pub argument_mappings: Vec<(ArgumentName, String)>,
}

/// The abstract value of a model source: its data connector, its
/// collection, the columns each type's fields map to, and the argument each
/// model argument is passed as.
pub struct ModelSourceView {
    pub data_connector: DataConnectorView,
    pub collection: Seq<char>,
    pub type_mappings: Seq<((Seq<char>, Seq<char>), Seq<(Seq<char>, Seq<char>)>)>,
    pub argument_mappings: Seq<(Seq<char>, Seq<char>)>,
}

/// The fields of a type mapping, each with its column.
pub open spec fn type_mapping_view(t: TypeMapping) -> Seq<(Seq<char>, Seq<char>)> {
    match t {
        TypeMapping::Object { field_mappings } => field_mappings@.map_values(
            |f: (FieldName, FieldMapping)| (f.0@, f.1.column@),
        ),
    }
}

impl View for ModelSource {
    type V = ModelSourceView;

    open spec fn view(&self) -> ModelSourceView {
        ModelSourceView {
            data_connector: self.data_connector@,
            collection: self.collection@,
            type_mappings: self.type_mappings@.map_values(
                |t: (Qualified<CustomTypeName>, TypeMapping)| (t.0@, type_mapping_view(t.1)),
            ),
            argument_mappings: self.argument_mappings@.map_values(|m: (ArgumentName, String)| (m.0@, m.1@)),
        }
    }
}

pub(crate) fn copy_type_mapping(t: &TypeMapping) -> (r: TypeMapping)
    ensures
        type_mapping_view(r) == type_mapping_view(*t),
{
    match t {
        TypeMapping::Object { field_mappings } => {
            let mut out: Vec<(FieldName, FieldMapping)> = Vec::new();
            let mut i: usize = 0;
            while i < field_mappings.len()
                invariant
                    i <= field_mappings.len(),
                    out.len() == i,
                    forall|j: int| 0 <= j < i ==> (#[trigger] out@[j]).0@ == field_mappings@[j].0@
                        && out@[j].1.column@ == field_mappings@[j].1.column@,
                decreases field_mappings.len() - i,
            {
                let f = &field_mappings[i];
                out.push((f.0.duplicate(), FieldMapping { column: f.1.column.clone() }));
                i = i + 1;
            }
            let r = TypeMapping::Object { field_mappings: out };
            assert(type_mapping_view(r) =~= type_mapping_view(*t));
            r
        },
    }
}

pub(crate) fn copy_data_connector(d: &DataConnector) -> (r: DataConnector)
    ensures
        r@ == d@,
{
    let url = match &d.url {
        ResolvedDataConnectorUrl::SingleUrl(u) => ResolvedDataConnectorUrl::SingleUrl(u.clone()),
        ResolvedDataConnectorUrl::ReadWriteUrls { read, write } => ResolvedDataConnectorUrl::ReadWriteUrls {
            read: read.clone(),
            write: write.clone(),
        },
    };
    let mut headers: Vec<(String, String)> = Vec::new();
    let mut i: usize = 0;
    while i < d.headers.len()
        invariant
            i <= d.headers.len(),
            headers.len() == i,
            forall|j: int| 0 <= j < i ==> (#[trigger] headers@[j]) == d.headers@[j],
        decreases d.headers.len() - i,
    {
        headers.push((d.headers[i].0.clone(), d.headers[i].1.clone()));
        i = i + 1;
    }
    let r = DataConnector { name: d.name.duplicate(), url, headers };
    assert(r@.headers =~= d@.headers);
    r
}

impl ModelSource {
    /// A copy of this source.
    pub fn duplicate(&self) -> (r: ModelSource)
        ensures
            r@ == self@,
    {
        let mut type_mappings: Vec<(Qualified<CustomTypeName>, TypeMapping)> = Vec::new();
        let mut i: usize = 0;
        while i < self.type_mappings.len()
            invariant
                i <= self.type_mappings.len(),
                type_mappings.len() == i,
                forall|j: int| 0 <= j < i ==> (#[trigger] type_mappings@[j]).0@ == self.type_mappings@[j].0@
                    && type_mapping_view(type_mappings@[j].1) == type_mapping_view(self.type_mappings@[j].1),
            decreases self.type_mappings.len() - i,
        {
            let t = &self.type_mappings[i];
            type_mappings.push((t.0.duplicate(), copy_type_mapping(&t.1)));
            i = i + 1;
        }
        let mut argument_mappings: Vec<(ArgumentName, String)> = Vec::new();
        let mut k: usize = 0;
        while k < self.argument_mappings.len()
            invariant
                k <= self.argument_mappings.len(),
                argument_mappings.len() == k,
                forall|j: int| 0 <= j < k ==> (#[trigger] argument_mappings@[j]).0@ == self.argument_mappings@[j].0@
                    && argument_mappings@[j].1@ == self.argument_mappings@[j].1@,
            decreases self.argument_mappings.len() - k,
        {
            let m = &self.argument_mappings[k];
            argument_mappings.push((m.0.duplicate(), m.1.clone()));
            k = k + 1;
        }
        let r = ModelSource {
            data_connector: copy_data_connector(&self.data_connector),
            collection: self.collection.clone(),
            type_mappings,
            argument_mappings,
        };
        assert(r@.type_mappings =~= self@.type_mappings);
        assert(r@.argument_mappings =~= self@.argument_mappings);
        r
    }
}

/// The rows of a model that a role may select: all of them, or those that
/// satisfy an expression.
#[derive(Debug, PartialEq, Eq)]
pub enum FilterPermission {
    AllowAll,
    Filter(Expression),
}

/// The abstract value of a filter permission.
pub enum FilterView {
    AllowAll,
    Filter(ExpressionView),
}

impl View for FilterPermission {
    type V = FilterView;

    open spec fn view(&self) -> FilterView {
        match self {
            FilterPermission::AllowAll => FilterView::AllowAll,
            FilterPermission::Filter(e) => FilterView::Filter(e@),
        }
    }
}

impl FilterPermission {
    /// A copy of this permission.
    pub fn duplicate(&self) -> (r: FilterPermission)
        ensures
            r@ == self@,
    {
        match self {
            FilterPermission::AllowAll => FilterPermission::AllowAll,
            FilterPermission::Filter(e) => FilterPermission::Filter(e.duplicate()),
        }
    }
}

/// What a role may select from a model.
#[derive(Debug, PartialEq, Eq)]
pub struct SelectPermission {
    pub filter: FilterPermission,
}

/// A permission predicate with its fields resolved to columns.
#[derive(Debug, PartialEq)]
pub enum ModelPredicate {
    UnaryFieldComparison {
        field: FieldName,
        ndc_column: String,
        operator: UnaryComparisonOperator,
    },
    BinaryFieldComparison {
        field: FieldName,
        ndc_column: String,
        argument_type: QualifiedTypeReference,
        operator: BinaryComparisonOperator,
        value: ValueExpression,
    },
    Relationship { name: RelationshipName, predicate: Box<ModelPredicate> },
    Not(Box<ModelPredicate>),
    And(Vec<ModelPredicate>),
    Or(Vec<ModelPredicate>),
}

/// The GraphQL API of selecting one object of a model by fields that
/// identify it.
#[derive(Debug, PartialEq)]
pub struct SelectUniqueGraphQlDefinition {
    pub query_root_field: String,
    pub unique_identifier: Vec<(FieldName, FieldDefinition)>,
}

/// The comparisons a scalar field of a model can be filtered by: the GraphQL
/// type of its comparison expression, the scalar type of the data connector,
/// the column, and each operator with the type of its operand.
#[derive(Debug, PartialEq)]
pub struct ComparisonExpressionInfo {
    pub scalar_type_name: String,
    pub graphql_type_name: String,
    pub ndc_column: String,
    pub operators: Vec<(String, QualifiedTypeReference)>,
}

/// The boolean expression a model can be filtered by: its GraphQL type, and
/// the comparisons of each scalar field.
#[derive(Debug, PartialEq)]
pub struct ModelFilterExpression {
    pub where_type_name: String,
    pub scalar_fields: Vec<(FieldName, ComparisonExpressionInfo)>,
}

/// The order-by expression of a model: the GraphQL input type it is given.
#[derive(Debug, PartialEq, Eq)]
pub struct ModelOrderByExpression {
    pub order_by_type_name: String,
}

/// The root field that selects many rows of a model.
#[derive(Debug, PartialEq, Eq)]
pub struct SelectManyGraphQlDefinition {
    pub query_root_field: String,
}

/// The GraphQL API of a model: its select-one and select-many root fields,
/// the input type of its arguments, its boolean expression and its order-by
/// expression, where it has them.
#[derive(Debug, PartialEq)]
pub struct ModelGraphQlApi {
    pub select_uniques: Vec<SelectUniqueGraphQlDefinition>,
    pub select_many: Option<SelectManyGraphQlDefinition>,
    pub arguments_input_type: Option<String>,
    pub filter_expression: Option<ModelFilterExpression>,
    pub order_by_expression: Option<ModelOrderByExpression>,
}

/// A resolved model.
#[derive(Debug, PartialEq)]
pub struct Model {
    pub name: Qualified<ModelName>,
    pub data_type: Qualified<CustomTypeName>,
    pub type_fields: Vec<(FieldName, FieldDefinition)>,
    pub global_id_fields: Vec<FieldName>,
    pub global_id_source: bool,
    pub arguments: Vec<(ArgumentName, QualifiedTypeReference)>,
    pub graphql_api: ModelGraphQlApi,
    pub source: Option<ModelSource>,
    pub select_permissions: Option<Vec<(Role, SelectPermission)>>,
}

} // verus!
