//! Object types as the engine resolves them from metadata.

use vstd::prelude::*;
use vstd::string::*;

use super::error::Error;
use super::relationship::Relationship;
use super::subgraph::QualifiedTypeReference;
use crate::keyed::has_key;
use crate::open_dds::names::{FieldName, Role};
use crate::open_dds::permissions::TypeOutputPermission;
use crate::text::{is_identifier, str_is_identifier};

verus! {

/// A field of a resolved object type.
#[derive(Debug, PartialEq, Eq)]
pub struct FieldDefinition {
    pub field_type: QualifiedTypeReference,
}

/// A resolved object type: its fields, its relationships, the fields each
/// role may read, and the fields its global ID is made of.
#[derive(Debug, PartialEq)]
pub struct ObjectTypeRepresentation {
    pub fields: Vec<(FieldName, FieldDefinition)>,
    pub relationships: Vec<(String, Relationship)>,
    pub type_permissions: Vec<(Role, TypeOutputPermission)>,
    pub global_id_fields: Vec<FieldName>,
    pub graphql_output_type_name: Option<String>,
    pub graphql_input_type_name: Option<String>,
}

impl ObjectTypeRepresentation {
    /// Whether the type has the field.
    pub open spec fn has_field(&self, f: Seq<char>) -> bool {
        has_key(self.fields@, f)
    }

    /// Whether the type has the field.
    pub fn contains_field(&self, f: &FieldName) -> (r: bool)
        ensures
            r == self.has_field(f@),
    {
        let found = crate::keyed::find_key(&self.fields, f);
        found.is_some()
    }
}

/// A resolved type: an object type, or a scalar type with the GraphQL name
/// it is given, where it is given one.
#[derive(Debug, PartialEq)]
pub enum TypeRepresentation {
    Object(ObjectTypeRepresentation),
    ScalarType { graphql_type_name: Option<String> },
}

/// How the fields of a type map to the columns of a data connector.
#[derive(Debug, PartialEq, Eq)]
pub enum TypeMapping {
    Object { field_mappings: Vec<(FieldName, FieldMapping)> },
}

/// The column a field maps to.
#[derive(Debug, PartialEq, Eq)]
pub struct FieldMapping {
    pub column: String,
}

/// Whether a string is a GraphQL name: `[_A-Za-z][_0-9A-Za-z]*`.
pub open spec fn is_graphql_name(s: Seq<char>) -> bool {
    is_identifier(s)
}

/// The GraphQL name written as `name`, or an error where it is not one.
pub fn mk_name(name: &str) -> (r: Result<String, Error>)
    ensures
        match r {
            Ok(n) => is_graphql_name(name@) && n@ == name@,
            Err(Error::InvalidGraphQlName { name: n }) => !is_graphql_name(name@) && n@ == name@,
            Err(_) => false,
        },
{
    if str_is_identifier(name) {
        Ok(String::from_str(name))
    } else {
        Err(Error::InvalidGraphQlName { name: String::from_str(name) })
    }
}

} // verus!
