//! Relationships from a type to a model.

use vstd::prelude::*;
use vstd::string::*;

pub use super::names::RelationshipName;
use super::names::{ArgumentName, FieldName, ModelName};
use super::permissions::ValueExpression;
use super::types::CustomTypeName;

verus! {

/// Type of the relationship.
#[derive(Debug, Clone, Copy, PartialEq, Eq, Structural)]
pub enum RelationshipType {
    /// Select one related object from the target.
    Object,
    /// Select multiple related objects from the target.
    Array,
}

#[derive(Debug, PartialEq, Eq)]
pub struct ModelRelationshipTarget {
    pub name: ModelName,
    /// The older name of the subgraph, read where `subgraph` is not given.
    pub namespace: Option<String>,
    pub subgraph: Option<String>,
    pub relationship_type: RelationshipType,
}

impl ModelRelationshipTarget {
    /// The subgraph of the target model: `subgraph` where it is given, else
    /// `namespace`.
    pub open spec fn spec_subgraph(&self) -> Option<Seq<char>> {
        match self.subgraph {
            Some(s) => Some(s@),
            None => match self.namespace {
                Some(n) => Some(n@),
                None => None,
            },
        }
    }

    pub fn subgraph(&self) -> (r: Option<&str>)
        ensures
            match r {
                Some(s) => self.spec_subgraph() == Some(s@),
                None => self.spec_subgraph() is None,
            },
    {
        match &self.subgraph {
            Some(s) => Some(s.as_str()),
            None => match &self.namespace {
                Some(n) => Some(n.as_str()),
                None => None,
            },
        }
    }
}

#[derive(Debug, PartialEq, Eq)]
pub enum RelationshipTarget {
    Model(ModelRelationshipTarget),
}

/// A field of the source or of the target of a relationship.
#[derive(Debug, PartialEq, Eq)]
pub struct FieldAccess {
    pub field_name: FieldName,
}

impl FieldAccess {
    /// A copy of this field access.
    pub fn duplicate(&self) -> (r: FieldAccess)
        ensures
            r.field_name@ == self.field_name@,
    {
        FieldAccess { field_name: FieldName(self.field_name.0.clone()) }
    }
}

#[derive(Debug, PartialEq)]
pub enum RelationshipMappingSource {
    Value(ValueExpression),
    FieldPath(Vec<FieldAccess>),
}

#[derive(Debug, PartialEq, Eq)]
pub enum RelationshipMappingTarget {
    Argument(ArgumentName),
    ModelField(Vec<FieldAccess>),
}

#[derive(Debug, PartialEq)]
pub struct RelationshipMapping {
    pub source: RelationshipMappingSource,
    pub target: RelationshipMappingTarget,
}

#[derive(Debug, PartialEq)]
pub enum Relationship {
    V1(RelationshipV1),
}

impl Relationship {
    /// The definition in its latest version.
    pub fn upgrade(self) -> (r: RelationshipV1)
        ensures
            self == Relationship::V1(r),
    {
        match self {
            Relationship::V1(v1) => v1,
        }
    }
}

#[derive(Debug, PartialEq)]
pub struct RelationshipV1 {
    pub name: RelationshipName,
    pub source: CustomTypeName,
    pub target: RelationshipTarget,
    pub mapping: Vec<RelationshipMapping>,
}

} // verus!
