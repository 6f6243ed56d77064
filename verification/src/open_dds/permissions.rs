//! Permissions of roles on types, models and commands.

use vstd::prelude::*;

use crate::json::JsonValue;
pub use super::names::{Role, SessionVariable};
use super::names::{CommandName, FieldName, ModelName, OperatorName, RelationshipName};
use super::types::CustomTypeName;

verus! {

/// List of roles and their permissions for a type
#[derive(Debug, PartialEq)]
pub enum TypePermissions {
    V1(TypePermissionsV1),
}

impl TypePermissions {
    /// The definition in its latest version.
    pub fn upgrade(self) -> (r: TypePermissionsV1)
        ensures
            self == TypePermissions::V1(r),
    {
        match self {
            TypePermissions::V1(v1) => v1,
        }
    }
}

#[derive(Debug, PartialEq)]
pub struct TypePermissionsV1 {
    pub typename: CustomTypeName,
    pub permissions: Vec<TypePermission>,
}

#[derive(Debug, PartialEq)]
pub struct TypePermission {
    pub role: Role,
    pub output: Option<TypeOutputPermission>,
}

/// One unit of output permission
#[derive(Debug, PartialEq)]
pub struct TypeOutputPermission {
    /// Fields of the type that are accessible for a role; none occurs twice.
    pub allowed_fields: Vec<FieldName>,
}

impl TypeOutputPermission {
    /// Whether a field is among the allowed ones.
    pub open spec fn allows(&self, field: Seq<char>) -> bool {
        exists|i: int| 0 <= i < self.allowed_fields.len() && (#[trigger] self.allowed_fields[i])@ == field
    }

    /// Whether the field is among the allowed ones.
    pub fn contains(&self, field: &FieldName) -> (r: bool)
        ensures
            r == self.allows(field@),
    {
        let mut i: usize = 0;
        while i < self.allowed_fields.len()
            invariant
                i <= self.allowed_fields.len(),
                forall|j: int| 0 <= j < i ==> (#[trigger] self.allowed_fields[j])@ != field@,
            decreases self.allowed_fields.len() - i,
        {
            if self.allowed_fields[i].0 == field.0 {
                return true;
            }
            i = i + 1;
        }
        false
    }
}

/// Roles and their permissions for a model
#[derive(Debug, PartialEq)]
pub enum ModelPermissions {
    V1(ModelPermissionsV1),
}

impl ModelPermissions {
    /// The definition in its latest version.
    pub fn upgrade(self) -> (r: ModelPermissionsV1)
        ensures
            self == ModelPermissions::V1(r),
    {
        match self {
            ModelPermissions::V1(v1) => v1,
        }
    }
}

#[derive(Debug, PartialEq)]
pub struct ModelPermissionsV1 {
    pub model_name: ModelName,
    pub permissions: Vec<ModelPermission>,
}

#[derive(Debug, PartialEq)]
pub struct ModelPermission {
    pub role: Role,
    pub select: Option<SelectPermission>,
}

#[derive(Debug, PartialEq)]
pub struct SelectPermission {
    /// Filter expression when selecting rows for this model.
    /// Null filter implies all rows are selectable.
    pub filter: NullableModelPredicate,
}

/// A filter that may be given as an explicit null.
#[derive(Debug, PartialEq)]
pub enum NullableModelPredicate {
    Null(()),
    NotNull(ModelPredicate),
}

impl NullableModelPredicate {
    /// The predicate, if there is one.
    pub fn as_option_ref(&self) -> (r: Option<&ModelPredicate>)
        ensures
            match self {
                NullableModelPredicate::Null(_) => r is None,
                NullableModelPredicate::NotNull(p) => r == Some(p),
            },
    {
        match self {
            NullableModelPredicate::Null(_) => None,
            NullableModelPredicate::NotNull(p) => Some(p),
        }
    }
}

#[derive(Debug, PartialEq)]
pub struct CommandPermission {
    pub role: Role,
    pub allow_execution: bool,
}

/// Role-Permission map for a command
#[derive(Debug, PartialEq)]
pub enum CommandPermissions {
    V1(CommandPermissionsV1),
}

impl CommandPermissions {
    /// The definition in its latest version.
    pub fn upgrade(self) -> (r: CommandPermissionsV1)
        ensures
            self == CommandPermissions::V1(r),
    {
        match self {
            CommandPermissions::V1(v1) => v1,
        }
    }
}

#[derive(Debug, PartialEq)]
pub struct CommandPermissionsV1 {
    pub command_name: CommandName,
    pub permissions: Vec<CommandPermission>,
}

#[derive(Debug, PartialEq)]
pub struct FieldComparisonPredicate {
    pub field: FieldName,
    pub operator: OperatorName,
    /// Absent for unary operators.
    pub value: Option<ValueExpression>,
}

#[derive(Debug, PartialEq)]
pub struct RelationshipPredicate {
    pub name: RelationshipName,
    pub predicate: Option<Box<ModelPredicate>>,
}

/// Predicates that use data connector operators; their value expressions are
/// evaluated on the server.
#[derive(Debug, PartialEq)]
pub enum ModelPredicate {
    FieldComparison(FieldComparisonPredicate),
    Relationship(RelationshipPredicate),
    And(Vec<ModelPredicate>),
    Or(Vec<ModelPredicate>),
    Not(Box<ModelPredicate>),
}

/// A value: given literally, or read from a session variable.
#[derive(Debug, PartialEq)]
pub enum ValueExpression {
    Literal(JsonValue),
    SessionVariable(SessionVariable),
}

} // verus!
