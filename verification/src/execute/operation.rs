//! What answering each field of a query plan takes.

use vstd::prelude::*;
use vstd::string::*;

use super::query_plan::{NDCMutationExecution, NDCQueryExecution, NodeQueryPlan};
use crate::json::JsonValue;

verus! {

/// What the answer of one field of the plan takes: a value known from the
/// plan itself, an introspection answer that the GraphQL schema gives, a
/// query to run (with its remote joins) whose answer is then read as the
/// plan says, or a mutation to run.
#[derive(Debug)]
pub enum FieldStep<'p> {
    Value(JsonValue),
    Introspection,
    Query(&'p NDCQueryExecution),
    Mutation(&'p NDCMutationExecution),
}

/// The step that answers a field of the plan: `__typename` is answered with
/// the type's name as a JSON string and a node field whose global ID names
/// nothing with `null`; introspection fields are answered from the schema;
/// queries and mutations are run.
pub fn field_response<'p>(plan: &'p NodeQueryPlan) -> (r: FieldStep<'p>)
    ensures
        match plan {
            NodeQueryPlan::TypeName { typename } => r matches FieldStep::Value(JsonValue::String(s)) && s@ == typename@,
            NodeQueryPlan::SchemaField { .. } => r is Introspection,
            NodeQueryPlan::TypeField { .. } => r is Introspection,
            NodeQueryPlan::NDCQueryExecution(e) => r == FieldStep::Query(e),
            NodeQueryPlan::RelayNodeSelect(None) => r matches FieldStep::Value(JsonValue::Null),
            NodeQueryPlan::RelayNodeSelect(Some(e)) => r == FieldStep::Query(e),
            NodeQueryPlan::NDCMutationExecution(m) => r == FieldStep::Mutation(m),
        },
{
    match plan {
        NodeQueryPlan::TypeName { typename } => FieldStep::Value(JsonValue::String(typename.clone())),
        NodeQueryPlan::SchemaField { .. } => FieldStep::Introspection,
        NodeQueryPlan::TypeField { .. } => FieldStep::Introspection,
        NodeQueryPlan::NDCQueryExecution(e) => FieldStep::Query(e),
        NodeQueryPlan::RelayNodeSelect(optional) => match optional {
            None => FieldStep::Value(JsonValue::Null),
            Some(e) => FieldStep::Query(e),
        },
        NodeQueryPlan::NDCMutationExecution(m) => FieldStep::Mutation(m),
    }
}

} // verus!
