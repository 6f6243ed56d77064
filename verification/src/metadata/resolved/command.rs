//! Commands as the engine resolves them from metadata.

use vstd::prelude::*;

use super::data_connector::{DataConnector, DataConnectorView};
use super::model::{copy_data_connector, copy_type_mapping, type_mapping_view};
use super::subgraph::{Qualified, QualifiedTypeReference};
use super::types::TypeMapping;
use crate::open_dds::names::Ident;
use crate::open_dds::commands::{DataConnectorCommand, GraphQlRootFieldKind};
use crate::open_dds::names::{ArgumentName, CommandName, Role};
use crate::open_dds::permissions::CommandPermission;
use crate::open_dds::types::CustomTypeName;

verus! {

/// The GraphQL root field a command is published as, and under which root.
#[derive(Debug, PartialEq, Eq)]
pub struct CommandGraphQlApi {
    pub root_field_name: String,
    pub root_field_kind: GraphQlRootFieldKind,
}

/// The data connector and function or procedure behind a command, how the
/// fields of each type map to its columns, and the argument of it each
/// argument of the command is passed as.
#[derive(Debug, PartialEq, Eq)]
pub struct CommandSource {
    pub data_connector: DataConnector,
    pub source: DataConnectorCommand,
    pub type_mappings: Vec<(Qualified<CustomTypeName>, TypeMapping)>,
    pub argument_mappings: Vec<(ArgumentName, String)>,
}

/// The abstract value of a command source: whether it is a function, its
/// name, and each argument mapping by its names.
pub struct CommandSourceView {
    pub data_connector: DataConnectorView,
    pub type_mappings: Seq<((Seq<char>, Seq<char>), Seq<(Seq<char>, Seq<char>)>)>,
    pub is_function: bool,
    pub name: Seq<char>,
    pub argument_mappings: Seq<(Seq<char>, Seq<char>)>,
}

impl View for CommandSource {
    type V = CommandSourceView;

    open spec fn view(&self) -> CommandSourceView {
        CommandSourceView {
            data_connector: self.data_connector@,
            type_mappings: self.type_mappings@.map_values(
                |t: (Qualified<CustomTypeName>, TypeMapping)| (t.0@, type_mapping_view(t.1)),
            ),
            is_function: self.source is Function,
            name: match self.source {
                DataConnectorCommand::Function(n) => n@,
                DataConnectorCommand::Procedure(n) => n@,
            },
            argument_mappings: self.argument_mappings@.map_values(|m: (ArgumentName, String)| (m.0@, m.1@)),
        }
    }
}

impl CommandSource {
    /// A copy of this source.
    pub fn duplicate(&self) -> (r: CommandSource)
        ensures
            r@ == self@,
    {
        let source = match &self.source {
            DataConnectorCommand::Function(n) => DataConnectorCommand::Function(n.clone()),
            DataConnectorCommand::Procedure(n) => DataConnectorCommand::Procedure(n.clone()),
        };
        let mut argument_mappings: Vec<(ArgumentName, String)> = Vec::new();
        let mut i: usize = 0;
        while i < self.argument_mappings.len()
            invariant
                i <= self.argument_mappings.len(),
                argument_mappings.len() == i,
                forall|j: int| 0 <= j < i ==> (#[trigger] argument_mappings@[j]).0@ == self.argument_mappings@[j].0@
                    && argument_mappings@[j].1@ == self.argument_mappings@[j].1@,
            decreases self.argument_mappings.len() - i,
        {
            let m = &self.argument_mappings[i];
            argument_mappings.push((ArgumentName(m.0.0.clone()), m.1.clone()));
            i = i + 1;
        }
        let mut type_mappings: Vec<(Qualified<CustomTypeName>, TypeMapping)> = Vec::new();
        let mut k: usize = 0;
        while k < self.type_mappings.len()
            invariant
                k <= self.type_mappings.len(),
                type_mappings.len() == k,
                forall|j: int| 0 <= j < k ==> (#[trigger] type_mappings@[j]).0@ == self.type_mappings@[j].0@
                    && type_mapping_view(type_mappings@[j].1) == type_mapping_view(self.type_mappings@[j].1),
            decreases self.type_mappings.len() - k,
        {
            let t = &self.type_mappings[k];
            type_mappings.push((t.0.duplicate(), copy_type_mapping(&t.1)));
            k = k + 1;
        }
        let r = CommandSource {
            data_connector: copy_data_connector(&self.data_connector),
            source,
            type_mappings,
            argument_mappings,
        };
        assert(r@.argument_mappings =~= self@.argument_mappings);
        assert(r@.type_mappings =~= self@.type_mappings);
        r
    }
}

/// A resolved command: its result type, its arguments, its GraphQL root
/// field where it has one, its source, the object type it returns where it
/// returns one, and the permission of each role.
#[derive(Debug, PartialEq)]
pub struct Command {
    pub name: Qualified<CommandName>,
    pub output_type: QualifiedTypeReference,
    pub arguments: Vec<(ArgumentName, QualifiedTypeReference)>,
    pub graphql_api: Option<CommandGraphQlApi>,
    pub source: Option<CommandSource>,
    pub underlying_object_typename: Option<Qualified<CustomTypeName>>,
    pub permissions: Option<Vec<(Role, CommandPermission)>>,
}

} // verus!
