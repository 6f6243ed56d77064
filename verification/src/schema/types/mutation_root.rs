//! The mutation root type of the schema.

use vstd::prelude::*;
use vstd::string::*;

use crate::keyed::{entries_distinct, entries_view, set_entry, upsert};
use crate::metadata::resolved::command::Command;
use crate::metadata::resolved::subgraph::Qualified;
use crate::metadata::resolved::types::TypeRepresentation;
use crate::open_dds::commands::GraphQlRootFieldKind;
use crate::open_dds::names::CommandName;
use crate::open_dds::types::CustomTypeName;
use crate::schema::error::Error as SchemaError;
use crate::schema::graphql::{Builder, FieldView, Namespaced, NamespacedView, Object, SchemaField, TypeIdView};
use crate::schema::operations::commands::{
    command_field, command_field_error, command_field_parts, command_root_field, CommandFieldFailure,
};
use crate::schema::types::output_type::Types;

use crate::schema::graphql::{OutputAnnotation, RootFieldAnnotation};
use crate::schema::normalized::{Annotation, NormalizedField, NormalizedSelectionSet};
use crate::schema::operations::commands::{command_generate_ir, command_result, command_succeeds};
use crate::schema::types::root_field::{MutationRootField, RootField};
use crate::schema::operations::error::{Error, InternalDeveloperError, InternalEngineError};
use crate::schema::types::query_root::{aliases_distinct, no_source, unexpected_field_annotation};
use crate::text::str_eq;

verus! {

/// The fields of the mutation root for the first `n` commands: one for each
/// command published under the mutation root, a later one taking the place
/// of an earlier one of the same name; and the types registered for them.
/// Or the failure, with the types registered before it.
pub open spec fn mutation_fields(
    types: Seq<(Qualified<CustomTypeName>, TypeRepresentation)>,
    commands: Seq<(Qualified<CommandName>, Command)>,
    n: int,
) -> Result<(Seq<(Seq<char>, NamespacedView<FieldView>)>, Seq<TypeIdView>), (CommandFieldFailure, Seq<TypeIdView>)>
    decreases n,
{
    if n <= 0 || n > commands.len() {
        Ok((Seq::empty(), Seq::empty()))
    } else {
        match mutation_fields(types, commands, n - 1) {
            Err(f) => Err(f),
            Ok((acc, ids)) => {
                let command = commands[n - 1].1;
                match command.graphql_api {
                    Some(api) => if api.root_field_kind == GraphQlRootFieldKind::Mutation {
                        match command_field_parts(types, command) {
                            Err((f, more)) => Err((f, ids + more)),
                            Ok((t, args, more)) => Ok(
                                (
                                    upsert(
                                        acc,
                                        api.root_field_name@,
                                        command_root_field(command, api.root_field_name@, t, args),
                                    ),
                                    ids + more,
                                ),
                            ),
                        }
                    } else {
                        Ok((acc, ids))
                    },
                    None => Ok((acc, ids)),
                }
            },
        }
    }
}

proof fn lemma_mutation_fields_failure_persists(
    types: Seq<(Qualified<CustomTypeName>, TypeRepresentation)>,
    commands: Seq<(Qualified<CommandName>, Command)>,
    k: int,
    n: int,
)
    requires
        1 <= k <= n <= commands.len(),
        mutation_fields(types, commands, k) is Err,
    ensures
        mutation_fields(types, commands, n) == mutation_fields(types, commands, k),
    decreases n - k,
{
    if k < n {
        lemma_mutation_fields_failure_persists(types, commands, k, n - 1);
    }
}

/// The mutation root type: a field for each command published under the
/// mutation root, under its root field name.
pub fn mutation_root_schema(
    builder: &mut Builder,
    types: &Types,
    commands: &Vec<(Qualified<CommandName>, Command)>,
) -> (r: Result<Object, SchemaError>)
    ensures
        match mutation_fields(types@, commands@, commands.len() as int) {
            Ok((fs, ids)) => r matches Ok(o) && o.name@ == "Mutation"@ && entries_view(o.fields@) == fs
                && o.interfaces@.len() == 0 && final(builder).registered() == old(builder).registered() + ids,
            Err((f, ids)) => r matches Err(e) && command_field_error(e, f) && final(builder).registered() == old(
                builder,
            ).registered() + ids,
        },
        r matches Ok(o) ==> entries_distinct(entries_view(o.fields@)),
{
    let ghost start = builder.registered();
    let mut fields: Vec<(String, Namespaced<SchemaField>)> = Vec::new();
    assert(entries_view(fields@) =~= Seq::<(Seq<char>, NamespacedView<FieldView>)>::empty());
    assert(start + Seq::<TypeIdView>::empty() =~= start);
    let mut i: usize = 0;
    while i < commands.len()
        invariant
            i <= commands.len(),
            start == old(builder).registered(),
            mutation_fields(types@, commands@, i as int) matches Ok((acc, ids)) && entries_view(fields@) == acc
                && builder.registered() == start + ids,
            entries_distinct(entries_view(fields@)),
        decreases commands.len() - i,
    {
        let ghost prev = mutation_fields(types@, commands@, i as int);
        let command = &commands[i].1;
        if let Some(api) = &command.graphql_api {
            if api.root_field_kind == GraphQlRootFieldKind::Mutation {
                let (field_name, field) = match command_field(types, builder, command, api.root_field_name.clone()) {
                    Ok(f) => f,
                    Err(e) => {
                        proof {
                            let ids = prev->Ok_0.1;
                            let more = command_field_parts(types@, *command)->Err_0.1;
                            assert(start + ids + more =~= start + (ids + more));
                            lemma_mutation_fields_failure_persists(types@, commands@, i + 1, commands.len() as int);
                        }
                        return Err(e);
                    },
                };
                set_entry(&mut fields, field_name, field);
                proof {
                    let ids = prev->Ok_0.1;
                    let more = command_field_parts(types@, *command)->Ok_0.2;
                    assert(start + ids + more =~= start + (ids + more));
                }
            }
        }
        i = i + 1;
    }
    let o = Object { name: String::from_str("Mutation"), fields, interfaces: Vec::new() };
    proof {
        reveal_strlit("Mutation");
    }
    Ok(o)
}

/// Whether a result is what a root field of the mutation type `t` gives:
/// `__typename` by the field's name; else, for a command's field, the
/// invocation of the command; or the failure.
pub open spec fn mutation_field_result<'s>(t: Seq<char>, f: NormalizedField, r: Result<MutationRootField<'s>, Error>) -> bool {
    let call = f.field_call;
    if call.name@ == "__typename"@ {
        r matches Ok(MutationRootField::TypeName { typename }) && typename@ == t
    } else {
        match f.info {
            Annotation::Output(OutputAnnotation::RootField(RootFieldAnnotation::Command { name, source, underlying_object_typename })) => match source {
                None => r matches Err(e) && no_source(e, t, call.name@),
                Some(src) => match r {
                    Ok(MutationRootField::CommandRepresentation { selection_set, ir }) => *selection_set == f.selection_set
                        && command_result(name@, f, underlying_object_typename, src, Ok(ir)),
                    Ok(_) => false,
                    Err(e) => command_result(name@, f, underlying_object_typename, src, Err(e)),
                },
            },
            _ => r matches Err(e) && unexpected_field_annotation(e, f),
        }
    }
}

/// Whether a root field of the mutation type gives a request.
pub open spec fn mutation_field_succeeds(f: NormalizedField) -> bool {
    if f.field_call.name@ == "__typename"@ {
        true
    } else {
        match f.info {
            Annotation::Output(OutputAnnotation::RootField(RootFieldAnnotation::Command { name, source, underlying_object_typename })) => match source {
                None => false,
                Some(src) => command_succeeds(f, underlying_object_typename, src),
            },
            _ => false,
        }
    }
}

/// Reads a root field of the mutation type `typename`.
pub fn generate_mutation_root_field_ir<'s>(typename: &String, field: &'s NormalizedField) -> (r: Result<
    MutationRootField<'s>,
    Error,
>)
    ensures
        mutation_field_result(typename@, *field, r),
        r is Ok <==> mutation_field_succeeds(*field),
{
    let call = &field.field_call;
    if str_eq(call.name.as_str(), "__typename") {
        return Ok(MutationRootField::TypeName { typename: typename.clone() });
    }
    match &field.info {
        Annotation::Output(OutputAnnotation::RootField(RootFieldAnnotation::Command { name, source, underlying_object_typename })) => match source {
            None => Err(Error::developer(InternalDeveloperError::NoSourceDataConnector {
                typename: typename.clone(),
                field_name: call.name.clone(),
            })),
            Some(src) => {
                let ir = command_generate_ir(name, field, underlying_object_typename, src)?;
                Ok(MutationRootField::CommandRepresentation { selection_set: &field.selection_set, ir })
            },
        },
        _ => Err(Error::engine(InternalEngineError::UnexpectedAnnotation { annotation: field.info.duplicate() })),
    }
}

/// Whether a result is what the fields of a mutation of type `t` give: each
/// field's request under its alias, in order, where every field gives one;
/// else the failure of the first field that gives none.
pub open spec fn mutation_ir_result<'s>(
    t: Seq<char>,
    fs: Seq<NormalizedField>,
    r: Result<Vec<(String, RootField<'s>)>, Error>,
) -> bool {
    &&& (r is Ok <==> forall|i: int| 0 <= i < fs.len() ==> mutation_field_succeeds(#[trigger] fs[i]))
    &&& (r matches Ok(v) ==> v@.len() == fs.len() && forall|i: int|
        0 <= i < fs.len() ==> (#[trigger] v@[i]).0@ == fs[i].alias@ && (v@[i].1 matches RootField::MutationRootField(m)
            && mutation_field_result(t, fs[i], Ok(m))))
    &&& (r matches Err(e) ==> exists|i: int|
        0 <= i < fs.len() && (forall|j: int| 0 <= j < i ==> mutation_field_succeeds(#[trigger] fs[j]))
            && !mutation_field_succeeds(#[trigger] fs[i]) && mutation_field_result(t, fs[i], Err(e)))
}

/// Reads the root fields of a mutation: each field's request under its
/// alias, in the order of the request; the first field that cannot be read
/// decides the error. A selection set whose type is not known is an error.
pub fn generate_ir<'s>(selection_set: &'s NormalizedSelectionSet) -> (r: Result<
    Vec<(String, RootField<'s>)>,
    Error,
>)
    requires
        aliases_distinct(selection_set.fields@),
    ensures
        match selection_set.typename {
            None => r matches Err(e) && e is NoTypenameFound,
            Some(t) => mutation_ir_result(t@, selection_set.fields@, r),
        },
        r matches Ok(v) ==> forall|i: int, j: int| 0 <= i < j < v@.len() ==> (#[trigger] v@[i]).0@ != (#[trigger] v@[j]).0@,
{
    let typename = match &selection_set.typename {
        Some(t) => t,
        None => {
            return Err(Error::NoTypenameFound);
        },
    };
    let fields = &selection_set.fields;
    let mut out: Vec<(String, RootField<'s>)> = Vec::new();
    let mut i: usize = 0;
    while i < fields.len()
        invariant
            i <= fields.len(),
            fields == &selection_set.fields,
            selection_set.typename == Some(*typename),
            out@.len() == i,
            forall|j: int| 0 <= j < i ==> mutation_field_succeeds(#[trigger] fields@[j]),
            forall|j: int|
                0 <= j < i ==> (#[trigger] out@[j]).0@ == fields@[j].alias@ && (out@[j].1 matches RootField::MutationRootField(
                    m,
                ) && mutation_field_result(typename@, fields@[j], Ok(m))),
        decreases fields.len() - i,
    {
        let field: &'s NormalizedField = &fields[i];
        match generate_mutation_root_field_ir(typename, field) {
            Ok(ir) => {
                let ghost before = out@;
                out.push((field.alias.clone(), RootField::MutationRootField(ir)));
                assert forall|j: int| 0 <= j < i + 1 implies (#[trigger] out@[j]).0@ == fields@[j].alias@
                    && (out@[j].1 matches RootField::MutationRootField(m) && mutation_field_result(
                    typename@,
                    fields@[j],
                    Ok(m),
                )) by {
                    if j < i {
                        assert(out@[j] == before[j]);
                    }
                }
            },
            Err(e) => {
                assert(!mutation_field_succeeds(fields@[i as int]));
                return Err(e);
            },
        }
        i = i + 1;
    }
    assert forall|a: int, b: int| 0 <= a < b < out@.len() implies (#[trigger] out@[a]).0@ != (#[trigger] out@[b]).0@ by {
        assert(fields@[a].alias@ != fields@[b].alias@);
    }
    Ok(out)
}

} // verus!
