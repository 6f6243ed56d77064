//! Commands: user-defined operations that take arguments and return an output.

use vstd::prelude::*;

pub use super::names::CommandName;
use super::names::{ArgumentName, DataConnectorName, FieldName, GraphQlFieldName};
use super::types::{ArgumentDefinition, CustomTypeName, TypeReference};

verus! {

/// The function or procedure of a data connector that backs a command.
#[derive(Debug, PartialEq, Eq)]
pub enum DataConnectorCommand {
    Function(String),
    Procedure(String),
}

/// The definition of a command.
/// A command is a user-defined operation which can take arguments and returns an output.
/// The semantics of a command are opaque to the Open DD specification.
#[derive(Debug, PartialEq)]
pub enum Command {
    V1(CommandV1),
}

impl Command {
    /// The definition in its latest version.
    pub fn upgrade(self) -> (r: CommandV1)
        ensures
            self == Command::V1(r),
    {
        match self {
            Command::V1(v1) => v1,
        }
    }
}

#[derive(Debug, PartialEq)]
pub struct CommandV1 {
    pub name: CommandName,
    /// The type of the objects which is returned as the output.
    pub output_type: TypeReference,
    pub arguments: Vec<ArgumentDefinition>,
    pub source: Option<CommandSource>,
    pub graphql: Option<CommandGraphQlDefinition>,
}

/// Description of how a command maps to a particular data connector
#[derive(Debug, PartialEq)]
pub struct CommandSource {
    /// The name of the data connector backing this command.
    pub data_connector_name: DataConnectorName,
    /// The function/procedure in the data connector that backs this command.
    pub data_connector_command: DataConnectorCommand,
    /// How the various types used in this command correspond to
    /// entities in the data connector.
    pub type_mapping: Vec<(CustomTypeName, TypeMapping)>,
    /// Mapping from command argument names to data connector table argument names.
    pub argument_mapping: Vec<(ArgumentName, String)>,
}

/// The root type of the GraphQL API under which a command is put.
#[derive(Debug, Clone, Copy, PartialEq, Eq, Structural)]
pub enum GraphQlRootFieldKind {
    Query,
    Mutation,
}

/// The definition of the GraphQL API component specific to a command.
#[derive(Debug, PartialEq, Eq)]
pub struct CommandGraphQlDefinition {
    /// The name of the graphql root field to use for this command.
    pub root_field_name: GraphQlFieldName,
    /// Whether to put this command in the Query or Mutation root of the GraphQL API.
    pub root_field_kind: GraphQlRootFieldKind,
}

/// How the fields of a type map to the columns of a data connector.
#[derive(Debug, PartialEq)]
pub struct TypeMapping {
    pub field_mapping: Vec<(FieldName, FieldMapping)>,
}

/// The column of a data connector that a field maps to.
#[derive(Debug, PartialEq)]
pub struct FieldMapping {
    pub column: String,
}

} // verus!
