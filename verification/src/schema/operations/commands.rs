//! The root field of a command.

use vstd::prelude::*;
use vstd::string::*;

use crate::keyed::{entries_distinct, entries_view, find_key, first_key, has_key, lemma_first_key_unique, set_entry, upsert};
use crate::json::{JsonValue, JsonView};
use crate::metadata::resolved::command::{Command, CommandSource};
use crate::metadata::resolved::data_connector::DataConnector;
use crate::metadata::resolved::types::TypeMapping;
use crate::open_dds::commands::DataConnectorCommand;
use crate::open_dds::names::CommandName;
use crate::schema::normalized::{InputField, NormalizedField};
use crate::schema::model_tracking::{count_command, counts_view, UsagesCounts};
use crate::schema::graphql::TypeContainer;
use crate::metadata::resolved::types::FieldMapping;
use crate::open_dds::names::FieldName;
use crate::schema::types::output_type::{generate_selection_set_ir, selection_error, selection_fields, ResultSelectionSet};
use crate::schema::operations::error::{unexpected_annotation, Error, InternalDeveloperError, InternalEngineError, InternalError};
use crate::schema::operations::select_one::{generic, qualified_text, FieldCall};
use crate::schema::types::arguments::{argument_error, argument_json, ArgumentFailure};
use crate::schema::types::command_arguments::build_ndc_command_arguments;
use crate::metadata::resolved::model::FilterView;
use crate::metadata::resolved::subgraph::{Qualified, QualifiedTypeReference};
use crate::metadata::resolved::types::{is_graphql_name, mk_name};
use crate::open_dds::names::Ident;
use crate::open_dds::types::CustomTypeName;
use crate::schema::error::Error as SchemaError;
use crate::schema::graphql::{
    Builder, FieldView, InputFieldView, Namespaced, NamespacedView, OutputAnnotation, OutputAnnotationView,
    RootFieldAnnotation, RootFieldAnnotationView, SchemaField, SchemaInputField, TypeContainerView, TypeIdView,
    VisibilityView,
};
use crate::schema::normalized::{InputAnnotation, InputAnnotationView};
use crate::schema::operations::permissions::{executing_roles, get_command_namespace_annotations};
use crate::schema::types::input_type::{get_input_type, input_type_ids};
use crate::schema::types::output_type::{get_output_type, output_type_ids, type_error, TypeFailure, Types};

verus! {

/// Why the root field of a command could not be built.
pub enum CommandFieldFailure {
    Type(TypeFailure),
    InvalidArgumentName(Seq<char>),
}

/// Whether an error is the one reported for a failure.
pub open spec fn command_field_error(e: SchemaError, f: CommandFieldFailure) -> bool {
    match f {
        CommandFieldFailure::Type(t) => type_error(e, t),
        CommandFieldFailure::InvalidArgumentName(n) => e matches SchemaError::InvalidGraphQlName { name }
            && name@ == n,
    }
}

/// The argument of the function or procedure an argument of the command is
/// passed as, where the source maps it.
pub open spec fn ndc_argument(command: Command, a: Seq<char>) -> Option<Seq<char>> {
    match command.source {
        None => None,
        Some(s) => if has_key(s.argument_mappings@, a) {
            Some(s.argument_mappings@[first_key(s.argument_mappings@, a)].1@)
        } else {
            None
        },
    }
}

/// The input field of an argument of a command, seen by every role.
pub open spec fn command_argument_field(
    command: Command,
    name: Seq<char>,
    argument_type: QualifiedTypeReference,
    t: TypeContainerView,
) -> NamespacedView<InputFieldView> {
    NamespacedView {
        data: InputFieldView {
            name,
            info: InputAnnotationView::CommandArgument(argument_type@, ndc_argument(command, name)),
            field_type: t,
        },
        visibility: VisibilityView::AllowAll(None),
    }
}

/// The input fields of the first `n` arguments of a command, and the types
/// registered for them; or the failure, with the types registered before it.
pub open spec fn command_arguments(
    types: Seq<(Qualified<CustomTypeName>, crate::metadata::resolved::types::TypeRepresentation)>,
    command: Command,
    n: int,
) -> Result<
    (Seq<(Seq<char>, NamespacedView<InputFieldView>)>, Seq<TypeIdView>),
    (CommandFieldFailure, Seq<TypeIdView>),
>
    decreases n,
{
    if n <= 0 || n > command.arguments.len() {
        Ok((Seq::empty(), Seq::empty()))
    } else {
        match command_arguments(types, command, n - 1) {
            Err(f) => Err(f),
            Ok((acc, ids)) => {
                let name = command.arguments@[n - 1].0@;
                let argument_type = command.arguments@[n - 1].1;
                if !is_graphql_name(name) {
                    Err((CommandFieldFailure::InvalidArgumentName(name), ids))
                } else {
                    match input_type_ids(types, argument_type@) {
                        Err(f) => Err((CommandFieldFailure::Type(f), ids)),
                        Ok((t, more)) => Ok(
                            (upsert(acc, name, command_argument_field(command, name, argument_type, t)), ids + more),
                        ),
                    }
                }
            },
        }
    }
}

/// The output type and arguments of the root field of a command, and the
/// types registered for them; or the failure, with the types registered
/// before it.
pub open spec fn command_field_parts(
    types: Seq<(Qualified<CustomTypeName>, crate::metadata::resolved::types::TypeRepresentation)>,
    command: Command,
) -> Result<
    (TypeContainerView, Seq<(Seq<char>, NamespacedView<InputFieldView>)>, Seq<TypeIdView>),
    (CommandFieldFailure, Seq<TypeIdView>),
> {
    match output_type_ids(types, command.output_type@) {
        Err(f) => Err((CommandFieldFailure::Type(f), Seq::empty())),
        Ok((t, ids)) => match command_arguments(types, command, command.arguments.len() as int) {
            Err((f, more)) => Err((f, ids + more)),
            Ok((args, more)) => Ok((t, args, ids + more)),
        },
    }
}

/// The roles that may execute a command.
pub open spec fn command_roles(command: Command) -> Seq<(Seq<char>, Option<FilterView>)> {
    match command.permissions {
        Some(p) => executing_roles(p@),
        None => Seq::empty(),
    }
}

/// The root field of a command under a name: of the command's output type,
/// with an input field for each argument, seen by the roles that may execute
/// the command.
pub open spec fn command_root_field(
    command: Command,
    name: Seq<char>,
    t: TypeContainerView,
    args: Seq<(Seq<char>, NamespacedView<InputFieldView>)>,
) -> NamespacedView<FieldView> {
    NamespacedView {
        data: FieldView {
            name,
            info: OutputAnnotationView::RootField(
                RootFieldAnnotationView::Command(
                    command.name@,
                    match command.source {
                        Some(s) => Some(s@),
                        None => None,
                    },
                    match command.underlying_object_typename {
                        Some(u) => Some(u@),
                        None => None,
                    },
                ),
            ),
            field_type: t,
            arguments: args,
        },
        visibility: VisibilityView::Conditional(command_roles(command)),
    }
}

proof fn lemma_command_arguments_failure_persists(
    types: Seq<(Qualified<CustomTypeName>, crate::metadata::resolved::types::TypeRepresentation)>,
    command: Command,
    k: int,
    n: int,
)
    requires
        1 <= k <= n <= command.arguments.len(),
        command_arguments(types, command, k) is Err,
    ensures
        command_arguments(types, command, n) == command_arguments(types, command, k),
    decreases n - k,
{
    if k < n {
        lemma_command_arguments_failure_persists(types, command, k, n - 1);
    }
}

fn ndc_argument_of(command: &Command, argument_name: &crate::open_dds::names::ArgumentName) -> (r: Option<String>)
    ensures
        match r {
            Some(s) => ndc_argument(*command, argument_name@) == Some(s@),
            None => ndc_argument(*command, argument_name@) is None,
        },
{
    match &command.source {
        None => None,
        Some(src) => match find_key(&src.argument_mappings, argument_name) {
            None => None,
            Some(k) => {
                proof {
                    lemma_first_key_unique(src.argument_mappings@, argument_name@, k as int);
                }
                Some(src.argument_mappings[k].1.clone())
            },
        },
    }
}

fn command_argument_fields(types: &Types, builder: &mut Builder, command: &Command) -> (r: Result<
    Vec<(String, Namespaced<SchemaInputField>)>,
    SchemaError,
>)
    ensures
        match command_arguments(types@, *command, command.arguments.len() as int) {
            Ok((args, ids)) => r matches Ok(v) && entries_view(v@) == args && entries_distinct(entries_view(v@))
                && final(builder).registered() == old(builder).registered() + ids,
            Err((f, ids)) => r matches Err(e) && command_field_error(e, f) && final(builder).registered()
                == old(builder).registered() + ids,
        },
{
    let ghost start = builder.registered();
    let mut out: Vec<(String, Namespaced<SchemaInputField>)> = Vec::new();
    assert(entries_view(out@) =~= Seq::<(Seq<char>, NamespacedView<InputFieldView>)>::empty());
    assert(start + Seq::<TypeIdView>::empty() =~= start);
    let mut i: usize = 0;
    while i < command.arguments.len()
        invariant
            i <= command.arguments.len(),
            start == old(builder).registered(),
            command_arguments(types@, *command, i as int) matches Ok((acc, ids)) && entries_view(out@) == acc
                && builder.registered() == start + ids,
            entries_distinct(entries_view(out@)),
        decreases command.arguments.len() - i,
    {
        let ghost prev = command_arguments(types@, *command, i as int);
        let argument_name = &command.arguments[i].0;
        let argument_type = &command.arguments[i].1;
        let field_name = match mk_name(argument_name.0.as_str()) {
            Ok(n) => n,
            Err(_) => {
                proof {
                    lemma_command_arguments_failure_persists(types@, *command, i + 1, command.arguments.len() as int);
                }
                return Err(SchemaError::InvalidGraphQlName { name: argument_name.0.clone() });
            },
        };
        let input_type = match get_input_type(types, builder, argument_type) {
            Ok(t) => t,
            Err(e) => {
                proof {
                    lemma_command_arguments_failure_persists(types@, *command, i + 1, command.arguments.len() as int);
                }
                return Err(e);
            },
        };
        let key = field_name.clone();
        let input_field = SchemaInputField {
            name: field_name,
            info: InputAnnotation::CommandArgument {
                argument_type: argument_type.duplicate(),
                ndc_func_proc_argument: ndc_argument_of(command, argument_name),
            },
            field_type: input_type,
        };
        let namespaced = builder.allow_all_namespaced(input_field, None);
        set_entry(&mut out, key, namespaced);
        proof {
            let (acc, ids) = prev->Ok_0;
            let (t, more) = input_type_ids(types@, command.arguments@[i as int].1@)->Ok_0;
            assert(start + ids + more =~= start + (ids + more));
        }
        i = i + 1;
    }
    Ok(out)
}

/// The root field of a command under the given name: of the command's
/// output type, with an input field for each argument of the command, seen
/// by the roles that may execute it.
pub fn command_field(
    types: &Types,
    builder: &mut Builder,
    command: &Command,
    command_field_name: String,
) -> (r: Result<(String, Namespaced<SchemaField>), SchemaError>)
    ensures
        match command_field_parts(types@, *command) {
            Ok((t, args, ids)) => r matches Ok(f) && f.0@ == command_field_name@ && f.1@ == command_root_field(
                *command,
                command_field_name@,
                t,
                args,
            ) && final(builder).registered() == old(builder).registered() + ids,
            Err((f, ids)) => r matches Err(e) && command_field_error(e, f) && final(builder).registered()
                == old(builder).registered() + ids,
        },
        r matches Ok(f) ==> entries_distinct(entries_view(f.1.data.arguments@)),
{
    let ghost start = builder.registered();
    let output_typename = match get_output_type(types, builder, &command.output_type) {
        Ok(t) => t,
        Err(e) => {
            assert(start + Seq::<TypeIdView>::empty() =~= start);
            return Err(e);
        },
    };
    let ghost mid = builder.registered();
    let arguments = match command_argument_fields(types, builder, command) {
        Ok(a) => a,
        Err(e) => {
            proof {
                let ids = output_type_ids(types@, command.output_type@)->Ok_0.1;
                let more = command_arguments(types@, *command, command.arguments.len() as int)->Err_0.1;
                assert(start + ids + more =~= start + (ids + more));
            }
            return Err(e);
        },
    };
    let source = match &command.source {
        Some(s) => Some(s.duplicate()),
        None => None,
    };
    let underlying_object_typename = match &command.underlying_object_typename {
        Some(u) => Some(u.duplicate()),
        None => None,
    };
    let field = SchemaField {
        name: command_field_name.clone(),
        info: OutputAnnotation::RootField(
            RootFieldAnnotation::Command { name: command.name.duplicate(), source, underlying_object_typename },
        ),
        field_type: output_typename,
        arguments,
    };
    let namespaced = builder.conditional_namespaced(field, get_command_namespace_annotations(command));
    proof {
        let ids = output_type_ids(types@, command.output_type@)->Ok_0.1;
        let more = command_arguments(types@, *command, command.arguments.len() as int)->Ok_0.1;
        assert(start + ids + more =~= start + (ids + more));
    }
    Ok((command_field_name, namespaced))
}

/// What a command field asks of the function or procedure behind it: the
/// command, the field, the data connector, the function or procedure, the
/// arguments under the names of the data connector's arguments, what is
/// selected of the result, the field's type, and the commands it uses.
#[derive(Debug)]
pub struct CommandRepresentation<'s> {
    pub command_name: Qualified<CommandName>,
    pub field_name: String,
    pub data_connector: DataConnector,
    pub ndc_source: DataConnectorCommand,
    pub arguments: Vec<(String, JsonValue)>,
    pub selection: ResultSelectionSet<'s>,
    pub type_container: TypeContainer,
    pub usage_counts: UsagesCounts,
}

/// The columns the fields of the object type a command returns map to:
/// none where it returns no object type.
pub open spec fn command_field_mappings(
    underlying: Option<Qualified<CustomTypeName>>,
    source: CommandSource,
) -> Seq<(FieldName, FieldMapping)> {
    match underlying {
        None => Seq::empty(),
        Some(t) => match source.type_mappings@[first_key(source.type_mappings@, t@)].1 {
            TypeMapping::Object { field_mappings } => field_mappings@,
        },
    }
}

/// The usage counts of an operation on one command: that command, used once.
pub open spec fn used_command_once(u: UsagesCounts, command_name: (Seq<char>, Seq<char>)) -> bool {
    counts_view(u.commands_used@) == seq![(command_name, 1nat)] && u.models_used@.len() == 0
}

/// Why an argument of a command field could not be passed on.
pub enum CommandArgFailure {
    NoSource(Seq<char>),
    Value(Seq<char>, ArgumentFailure),
    Unexpected(InputAnnotationView),
}

/// Whether an error is the one reported for a failure of an argument of the
/// field `field`.
pub open spec fn command_arg_error(e: Error, field: Seq<char>, f: CommandArgFailure) -> bool {
    match f {
        CommandArgFailure::NoSource(a) => e matches Error::InternalError(
            InternalError::Developer(InternalDeveloperError::NoArgumentSource { field_name, argument_name }),
        ) && field_name@ == field && argument_name@ == a,
        CommandArgFailure::Value(a, g) => argument_error(e, a, g),
        CommandArgFailure::Unexpected(x) => unexpected_annotation(e, x),
    }
}

/// An argument of a command field under the name of the data connector's
/// argument it maps to, as JSON; or the failure.
pub open spec fn command_arg(a: InputField, tm: Seq<(Qualified<CustomTypeName>, TypeMapping)>) -> Result<
    (Seq<char>, JsonView),
    CommandArgFailure,
> {
    match a.info {
        InputAnnotation::CommandArgument { argument_type, ndc_func_proc_argument } => match ndc_func_proc_argument {
            None => Err(CommandArgFailure::NoSource(a.name@)),
            Some(n) => match argument_json(argument_type@, a.value, tm) {
                Ok(j) => Ok((n@, j)),
                Err(f) => Err(CommandArgFailure::Value(a.name@, f)),
            },
        },
        _ => Err(CommandArgFailure::Unexpected(a.info@)),
    }
}

/// The first `n` arguments of a command field, each under its data connector
/// argument, a later one replacing an earlier one of the same name; or the
/// first failure.
pub open spec fn command_args(
    args: Seq<InputField>,
    n: int,
    tm: Seq<(Qualified<CustomTypeName>, TypeMapping)>,
) -> Result<Seq<(Seq<char>, JsonView)>, CommandArgFailure>
    decreases n,
{
    if n <= 0 || n > args.len() {
        Ok(Seq::empty())
    } else {
        match command_args(args, n - 1, tm) {
            Err(f) => Err(f),
            Ok(acc) => match command_arg(args[n - 1], tm) {
                Err(f) => Err(f),
                Ok((k, j)) => Ok(upsert(acc, k, j)),
            },
        }
    }
}

/// What is reported for an object type the command source has no mapping for.
pub open spec fn missing_command_mapping_message(t: (Seq<char>, Seq<char>)) -> Seq<char> {
    "type '"@ + qualified_text(t) + "' not found in command source type_mappings"@
}

proof fn lemma_command_args_failure_persists(
    args: Seq<InputField>,
    tm: Seq<(Qualified<CustomTypeName>, TypeMapping)>,
    k: int,
    n: int,
)
    requires
        1 <= k <= n <= args.len(),
        command_args(args, k, tm) is Err,
    ensures
        command_args(args, n, tm) == command_args(args, k, tm),
    decreases n - k,
{
    if k < n {
        lemma_command_args_failure_persists(args, tm, k, n - 1);
    }
}

/// Whether a result is what a command call gives: the missing mapping of
/// the object type it returns, the failure of an argument or of the
/// selection, or the invocation with its arguments, selection, type and usage
/// counts.
pub open spec fn command_result<'s>(
    command_name: (Seq<char>, Seq<char>),
    field: NormalizedField,
    underlying: Option<Qualified<CustomTypeName>>,
    source: CommandSource,
    r: Result<CommandRepresentation<'s>, Error>,
) -> bool {
    match underlying {
        Some(t) if !has_key(source.type_mappings@, t@) => r matches Err(e) && generic(
            e,
            missing_command_mapping_message(t@),
        ),
        _ => match command_args(
            field.field_call.arguments@,
            field.field_call.arguments.len() as int,
            source.type_mappings@,
        ) {
            Err(f) => r matches Err(e) && command_arg_error(e, field.field_call.name@, f),
            Ok(xs) => match selection_fields(
                field.selection_set.fields@,
                command_field_mappings(underlying, source),
                field.selection_set.fields.len() as int,
            ) {
                Err(f) => r matches Err(e) && selection_error(e, f),
                Ok(fs) => r matches Ok(c) && c.command_name@ == command_name && c.field_name@
                    == field.field_call.name@ && c.data_connector@ == source.data_connector@
                    && c.ndc_source == source.source && entries_view(c.arguments@) == xs
                    && entries_distinct(entries_view(c.arguments@)) && entries_view(c.selection.fields@) == fs
                    && c.type_container@ == field.type_container@ && used_command_once(c.usage_counts, command_name),
            },
        },
    }
}

/// Whether a command call succeeds.
pub open spec fn command_succeeds(
    field: NormalizedField,
    underlying: Option<Qualified<CustomTypeName>>,
    source: CommandSource,
) -> bool {
    &&& (underlying matches Some(t) ==> has_key(source.type_mappings@, t@))
    &&& command_args(field.field_call.arguments@, field.field_call.arguments.len() as int, source.type_mappings@) is Ok
    &&& selection_fields(
        field.selection_set.fields@,
        command_field_mappings(underlying, source),
        field.selection_set.fields.len() as int,
    ) is Ok
}

/// Reads a command field: the object type it returns, where it returns one,
/// must have a mapping in the source; each argument is passed on under the
/// data connector's argument it maps to; the field's selection set is read
/// against the columns of that object type; the command is counted as used.
pub fn command_generate_ir<'s>(
    command_name: &Qualified<CommandName>,
    field: &'s NormalizedField,
    underlying_object_typename: &Option<Qualified<CustomTypeName>>,
    command_source: &CommandSource,
) -> (r: Result<CommandRepresentation<'s>, Error>)
    ensures
        command_result(command_name@, *field, *underlying_object_typename, *command_source, r),
{
    let empty: Vec<(FieldName, FieldMapping)> = Vec::new();
    let field_mappings: &Vec<(FieldName, FieldMapping)> = match underlying_object_typename {
        None => &empty,
        Some(typename) => match find_key(&command_source.type_mappings, typename) {
            Some(k) => {
                proof {
                    lemma_first_key_unique(command_source.type_mappings@, typename@, k as int);
                }
                match &command_source.type_mappings[k].1 {
                    TypeMapping::Object { field_mappings } => field_mappings,
                }
            },
            None => {
                let description = String::from_str("type '").concat(typename.name.0.as_str()).concat(
                    " (in subgraph ",
                ).concat(typename.subgraph.as_str()).concat(")").concat("' not found in command source type_mappings");
                proof {
                    reveal_strlit("type '");
                    reveal_strlit(" (in subgraph ");
                    reveal_strlit(")");
                    reveal_strlit("' not found in command source type_mappings");
                    assert(description@ =~= missing_command_mapping_message(typename@));
                }
                return Err(Error::engine(InternalEngineError::InternalGeneric { description }));
            },
        },
    };
    assert(field_mappings@ == command_field_mappings(*underlying_object_typename, *command_source));
    let field_call = &field.field_call;
    let arguments = &field_call.arguments;
    let tm = &command_source.type_mappings;
    let mut out: Vec<(String, JsonValue)> = Vec::new();
    assert(entries_view(out@) =~= Seq::<(Seq<char>, JsonView)>::empty());
    let mut i: usize = 0;
    while i < arguments.len()
        invariant
            i <= arguments.len(),
            arguments@ == field_call.arguments@,
            *field_call == field.field_call,
            tm@ == command_source.type_mappings@,
            match underlying_object_typename {
                Some(t) => has_key(command_source.type_mappings@, t@),
                None => true,
            },
            command_args(arguments@, i as int, tm@) == Ok::<Seq<(Seq<char>, JsonView)>, CommandArgFailure>(entries_view(out@)),
            entries_distinct(entries_view(out@)),
        decreases arguments.len() - i,
    {
        let mut one = match build_ndc_command_arguments(&field_call.name, &arguments[i], tm) {
            Ok(v) => v,
            Err(e) => {
                proof {
                    lemma_command_args_failure_persists(arguments@, tm@, i + 1, arguments.len() as int);
                }
                return Err(e);
            },
        };
        let (k, v) = one.remove(0);
        set_entry(&mut out, k, v);
        i = i + 1;
    }
    let mut usage_counts = UsagesCounts::new();
    count_command(command_name.duplicate(), &mut usage_counts);
    assert(counts_view(usage_counts.commands_used@) =~= seq![(command_name@, 1nat)]);
    let selection = generate_selection_set_ir(&field.selection_set, field_mappings)?;
    let ndc_source = match &command_source.source {
        DataConnectorCommand::Function(n) => DataConnectorCommand::Function(n.clone()),
        DataConnectorCommand::Procedure(n) => DataConnectorCommand::Procedure(n.clone()),
    };
    Ok(
        CommandRepresentation {
            command_name: command_name.duplicate(),
            field_name: field_call.name.clone(),
            data_connector: crate::metadata::resolved::model::copy_data_connector(&command_source.data_connector),
            ndc_source,
            arguments: out,
            selection,
            type_container: field.type_container.duplicate(),
            usage_counts,
        },
    )
}

} // verus!
