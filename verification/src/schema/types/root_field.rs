//! The requests that the root fields of an operation make.

use vstd::prelude::*;

use crate::open_dds::names::Role;
use crate::schema::normalized::{NormalizedField, NormalizedSelectionSet};
use crate::schema::operations::commands::CommandRepresentation;
use crate::schema::operations::relay::TypenameMapping;
use crate::schema::operations::select_many::ModelSelectMany;
use crate::schema::operations::select_one::ModelSelectOne;

verus! {

/// The request of a root field: of the query type or of the mutation type.
#[derive(Debug)]
pub enum RootField<'s> {
    QueryRootField(QueryRootField<'s>),
    MutationRootField(MutationRootField<'s>),
}

/// The request of a root field of the query type.
#[derive(Debug)]
pub enum QueryRootField<'s> {
    /// `__typename`: the name of the query type.
    TypeName { typename: String },
    /// `__schema`, for the role.
    SchemaField { role: Role, selection_set: &'s NormalizedSelectionSet },
    /// `__type`, for the role and the type named.
    TypeField { role: Role, typename: String, selection_set: &'s NormalizedSelectionSet },
    ModelSelectOne { selection_set: &'s NormalizedSelectionSet, ir: ModelSelectOne },
    ModelSelectMany { selection_set: &'s NormalizedSelectionSet, ir: ModelSelectMany<'s> },
    /// The node field: its encoded global ID, to be decoded and read with
    /// the typename mappings against the field.
    NodeRequest { encoded_id: String, typename_mappings: &'s Vec<(String, TypenameMapping)>, field: &'s NormalizedField },
    CommandRepresentation { selection_set: &'s NormalizedSelectionSet, ir: CommandRepresentation<'s> },
}

/// The request of a root field of the mutation type.
#[derive(Debug)]
pub enum MutationRootField<'s> {
    /// `__typename`: the name of the mutation type.
    TypeName { typename: String },
    CommandRepresentation { selection_set: &'s NormalizedSelectionSet, ir: CommandRepresentation<'s> },
}

} // verus!
