//! The query root type of the schema.

use vstd::prelude::*;
use vstd::string::*;

use crate::keyed::{entries_distinct, entries_view, entry_present, has_entry, set_entry, upsert};
use crate::metadata::resolved::command::Command;
use crate::metadata::resolved::model::{FilterView, Model};
use crate::metadata::resolved::subgraph::Qualified;
use crate::metadata::resolved::types::TypeRepresentation;
use crate::open_dds::commands::GraphQlRootFieldKind;
use crate::open_dds::names::{CommandName, ModelName};
use crate::open_dds::types::CustomTypeName;
use crate::schema::error::Error as SchemaError;
use crate::schema::graphql::{Builder, FieldView, Namespaced, NamespacedView, Object, SchemaField, TypeIdView, VisibilityView};
use crate::schema::operations::commands::{
    command_field, command_field_error, command_field_parts, command_root_field, CommandFieldFailure,
};
use crate::schema::operations::relay::{node_field_error, node_field_parts, node_field_view, relay_node_field, NodeFieldFailure};
use crate::schema::operations::select_many::{
    model_field_error, select_many_field, select_many_parts, select_many_root_field, ModelFieldFailure,
};
use crate::schema::operations::select_one::{select_one_field, select_one_field_parts, select_one_root_field};
use crate::schema::types::output_type::Types;

use crate::metadata::resolved::types::{is_graphql_name, mk_name};
use crate::open_dds::names::{Ident, Role};
use crate::schema::graphql::{OutputAnnotation, RootFieldAnnotation, RootFieldKind};
use crate::schema::normalized::{
    argument_not_found, argument_position, unexpected_value, Annotation, InputValue, NormalizedField,
    NormalizedSelectionSet,
};
use crate::schema::operations::commands::{command_generate_ir, command_result, command_succeeds};
use crate::metadata::resolved::command::CommandSource;
use crate::metadata::resolved::model::ModelSource;
use crate::schema::normalized::FieldCall;
use crate::schema::types::root_field::{QueryRootField, RootField};
use crate::schema::operations::error::{Error, InternalDeveloperError, InternalEngineError, InternalError};
use crate::schema::operations::relay::TypenameMapping;
use crate::schema::operations::select_many::{select_many_generate_ir, select_many_result, select_many_succeeds};
use crate::schema::operations::select_one::{select_one_generate_ir, select_one_result, select_one_succeeds};
use crate::text::str_eq;

verus! {

/// Why the query root type could not be built.
pub enum QueryRootFailure {
    Model(ModelFieldFailure, Seq<char>),
    Command(CommandFieldFailure),
    Node(NodeFieldFailure),
    DuplicateNode,
}

/// Whether an error is the one reported for a failure.
pub open spec fn query_root_error(e: SchemaError, f: QueryRootFailure) -> bool {
    match f {
        QueryRootFailure::Model(g, field) => model_field_error(e, g, field, "Query"@),
        QueryRootFailure::Command(g) => command_field_error(e, g),
        QueryRootFailure::Node(g) => node_field_error(e, g),
        QueryRootFailure::DuplicateNode => e matches SchemaError::DuplicateFieldNameGeneratedInObjectType {
            field_name,
            typename,
        } && field_name@ == "node"@ && typename@ == ("-"@, "Query"@),
    }
}

/// The select-one fields of the first `k` unique selections of a model, set
/// over `acc`, and the types registered; or the failure, with the types
/// registered before it.
pub open spec fn unique_fields(
    types: Seq<(Qualified<CustomTypeName>, TypeRepresentation)>,
    model: Model,
    k: int,
    acc: Seq<(Seq<char>, NamespacedView<FieldView>)>,
) -> Result<(Seq<(Seq<char>, NamespacedView<FieldView>)>, Seq<TypeIdView>), (QueryRootFailure, Seq<TypeIdView>)>
    decreases k,
{
    if k <= 0 || k > model.graphql_api.select_uniques.len() {
        Ok((acc, Seq::empty()))
    } else {
        match unique_fields(types, model, k - 1, acc) {
            Err(f) => Err(f),
            Ok((a, ids)) => {
                let su = model.graphql_api.select_uniques@[k - 1];
                match select_one_field_parts(types, model, su) {
                    Err((f, more)) => Err((QueryRootFailure::Model(f, su.query_root_field@), ids + more)),
                    Ok((args, more, tid, ot)) => Ok(
                        (
                            upsert(a, su.query_root_field@, select_one_root_field(model, su, args, tid, ot)),
                            ids + more,
                        ),
                    ),
                }
            },
        }
    }
}

/// The root fields of a model, set over `acc`: its select-one fields, then
/// its select-many field; and the types registered, or the failure.
pub open spec fn model_fields(
    types: Seq<(Qualified<CustomTypeName>, TypeRepresentation)>,
    model: Model,
    acc: Seq<(Seq<char>, NamespacedView<FieldView>)>,
) -> Result<(Seq<(Seq<char>, NamespacedView<FieldView>)>, Seq<TypeIdView>), (QueryRootFailure, Seq<TypeIdView>)> {
    match unique_fields(types, model, model.graphql_api.select_uniques.len() as int, acc) {
        Err(f) => Err(f),
        Ok((a, ids)) => match model.graphql_api.select_many {
            None => Ok((a, ids)),
            Some(sm) => match select_many_parts(types, model) {
                Err((f, more)) => Err((QueryRootFailure::Model(f, sm.query_root_field@), ids + more)),
                Ok((args, more, tid)) => Ok(
                    (
                        upsert(a, sm.query_root_field@, select_many_root_field(model, sm.query_root_field@, args, tid)),
                        ids + more,
                    ),
                ),
            },
        },
    }
}

/// The root fields of the first `n` models, and the types registered; or
/// the failure, with the types registered before it.
pub open spec fn models_fields(
    types: Seq<(Qualified<CustomTypeName>, TypeRepresentation)>,
    models: Seq<(Qualified<ModelName>, Model)>,
    n: int,
) -> Result<(Seq<(Seq<char>, NamespacedView<FieldView>)>, Seq<TypeIdView>), (QueryRootFailure, Seq<TypeIdView>)>
    decreases n,
{
    if n <= 0 || n > models.len() {
        Ok((Seq::empty(), Seq::empty()))
    } else {
        match models_fields(types, models, n - 1) {
            Err(f) => Err(f),
            Ok((a, ids)) => match model_fields(types, models[n - 1].1, a) {
                Err((f, more)) => Err((f, ids + more)),
                Ok((a2, more)) => Ok((a2, ids + more)),
            },
        }
    }
}

/// The fields of the first `n` commands published under the query root, set
/// over `acc`, and the types registered; or the failure.
pub open spec fn query_command_fields(
    types: Seq<(Qualified<CustomTypeName>, TypeRepresentation)>,
    commands: Seq<(Qualified<CommandName>, Command)>,
    n: int,
    acc: Seq<(Seq<char>, NamespacedView<FieldView>)>,
) -> Result<(Seq<(Seq<char>, NamespacedView<FieldView>)>, Seq<TypeIdView>), (QueryRootFailure, Seq<TypeIdView>)>
    decreases n,
{
    if n <= 0 || n > commands.len() {
        Ok((acc, Seq::empty()))
    } else {
        match query_command_fields(types, commands, n - 1, acc) {
            Err(f) => Err(f),
            Ok((a, ids)) => {
                let command = commands[n - 1].1;
                match command.graphql_api {
                    Some(api) => if api.root_field_kind == GraphQlRootFieldKind::Query {
                        match command_field_parts(types, command) {
                            Err((f, more)) => Err((QueryRootFailure::Command(f), ids + more)),
                            Ok((t, args, more)) => Ok(
                                (
                                    upsert(a, api.root_field_name@, command_root_field(command, api.root_field_name@, t, args)),
                                    ids + more,
                                ),
                            ),
                        }
                    } else {
                        Ok((a, ids))
                    },
                    None => Ok((a, ids)),
                }
            },
        }
    }
}

/// The fields of the query root: the root fields of each model, the fields
/// of the commands published under it, and the node field, seen by the
/// roles that may read some global ID; and the types registered. Or the
/// failure, with the types registered before it.
pub open spec fn query_root_fields(
    types: Seq<(Qualified<CustomTypeName>, TypeRepresentation)>,
    models: Seq<(Qualified<ModelName>, Model)>,
    commands: Seq<(Qualified<CommandName>, Command)>,
) -> Result<(Seq<(Seq<char>, NamespacedView<FieldView>)>, Seq<TypeIdView>), (QueryRootFailure, Seq<TypeIdView>)> {
    match models_fields(types, models, models.len() as int) {
        Err(f) => Err(f),
        Ok((a, ids1)) => match query_command_fields(types, commands, commands.len() as int, a) {
            Err((f, more)) => Err((f, ids1 + more)),
            Ok((a2, more)) => match node_field_parts(types, models, models.len() as int) {
                Err((f, nids)) => Err((QueryRootFailure::Node(f), ids1 + more + nids)),
                Ok(st) => {
                    let ids = ids1 + more + st.ids.push(TypeIdView::NodeRoot);
                    if entry_present(a2, "node"@) {
                        Err((QueryRootFailure::DuplicateNode, ids))
                    } else {
                        Ok(
                            (
                                a2.push(
                                    ("node"@, NamespacedView {
                                        data: node_field_view(st),
                                        visibility: VisibilityView::Conditional(
                                            st.roles.map_values(|p: (Seq<char>, ())| (p.0, None::<FilterView>)),
                                        ),
                                    }),
                                ),
                                ids,
                            ),
                        )
                    }
                },
            },
        },
    }
}

proof fn lemma_unique_fields_failure_persists(
    types: Seq<(Qualified<CustomTypeName>, TypeRepresentation)>,
    model: Model,
    acc: Seq<(Seq<char>, NamespacedView<FieldView>)>,
    k: int,
    n: int,
)
    requires
        1 <= k <= n <= model.graphql_api.select_uniques.len(),
        unique_fields(types, model, k, acc) is Err,
    ensures
        unique_fields(types, model, n, acc) == unique_fields(types, model, k, acc),
    decreases n - k,
{
    if k < n {
        lemma_unique_fields_failure_persists(types, model, acc, k, n - 1);
    }
}

proof fn lemma_models_fields_failure_persists(
    types: Seq<(Qualified<CustomTypeName>, TypeRepresentation)>,
    models: Seq<(Qualified<ModelName>, Model)>,
    k: int,
    n: int,
)
    requires
        1 <= k <= n <= models.len(),
        models_fields(types, models, k) is Err,
    ensures
        models_fields(types, models, n) == models_fields(types, models, k),
    decreases n - k,
{
    if k < n {
        lemma_models_fields_failure_persists(types, models, k, n - 1);
    }
}

proof fn lemma_command_fields_failure_persists(
    types: Seq<(Qualified<CustomTypeName>, TypeRepresentation)>,
    commands: Seq<(Qualified<CommandName>, Command)>,
    acc: Seq<(Seq<char>, NamespacedView<FieldView>)>,
    k: int,
    n: int,
)
    requires
        1 <= k <= n <= commands.len(),
        query_command_fields(types, commands, k, acc) is Err,
    ensures
        query_command_fields(types, commands, n, acc) == query_command_fields(types, commands, k, acc),
    decreases n - k,
{
    if k < n {
        lemma_command_fields_failure_persists(types, commands, acc, k, n - 1);
    }
}

fn add_model_fields(
    types: &Types,
    builder: &mut Builder,
    model: &Model,
    fields: &mut Vec<(String, Namespaced<SchemaField>)>,
    parent_type: &String,
) -> (r: Result<(), SchemaError>)
    requires
        entries_distinct(entries_view(old(fields)@)),
        parent_type@ == "Query"@,
    ensures
        match model_fields(types@, *model, entries_view(old(fields)@)) {
            Ok((fs, ids)) => r is Ok && entries_view(final(fields)@) == fs && entries_distinct(entries_view(final(fields)@))
                && final(builder).registered() == old(builder).registered() + ids,
            Err((f, ids)) => r matches Err(e) && query_root_error(e, f) && final(builder).registered() == old(
                builder,
            ).registered() + ids,
        },
{
    let ghost start = builder.registered();
    let ghost base = entries_view(fields@);
    let uniques = &model.graphql_api.select_uniques;
    assert(start + Seq::<TypeIdView>::empty() =~= start);
    let mut k: usize = 0;
    while k < uniques.len()
        invariant
            k <= uniques.len(),
            uniques@ == model.graphql_api.select_uniques@,
            start == old(builder).registered(),
            base == entries_view(old(fields)@),
            parent_type@ == "Query"@,
            unique_fields(types@, *model, k as int, base) matches Ok((acc, ids)) && entries_view(fields@) == acc
                && builder.registered() == start + ids,
            entries_distinct(entries_view(fields@)),
        decreases uniques.len() - k,
    {
        let ghost prev = unique_fields(types@, *model, k as int, base);
        let (name, field) = match select_one_field(types, builder, model, &uniques[k], parent_type) {
            Ok(f) => f,
            Err(e) => {
                proof {
                    let ids = prev->Ok_0.1;
                    let more = select_one_field_parts(types@, *model, uniques@[k as int])->Err_0.1;
                    assert(start + ids + more =~= start + (ids + more));
                    lemma_unique_fields_failure_persists(types@, *model, base, k + 1, uniques.len() as int);
                }
                return Err(e);
            },
        };
        set_entry(fields, name, field);
        proof {
            let ids = prev->Ok_0.1;
            let more = select_one_field_parts(types@, *model, uniques@[k as int])->Ok_0.1;
            assert(start + ids + more =~= start + (ids + more));
        }
        k = k + 1;
    }
    let ghost ids_u = unique_fields(types@, *model, uniques.len() as int, base)->Ok_0.1;
    if let Some(select_many) = &model.graphql_api.select_many {
        let (name, field) = match select_many_field(types, builder, model, select_many, parent_type) {
            Ok(f) => f,
            Err(e) => {
                proof {
                    let more = select_many_parts(types@, *model)->Err_0.1;
                    assert(start + ids_u + more =~= start + (ids_u + more));
                }
                return Err(e);
            },
        };
        set_entry(fields, name, field);
        proof {
            let more = select_many_parts(types@, *model)->Ok_0.1;
            assert(start + ids_u + more =~= start + (ids_u + more));
        }
    }
    Ok(())
}

/// The query root type: the root fields of each model, the fields of the
/// commands published under the query root, and the relay `node` field.
pub fn query_root_schema(
    builder: &mut Builder,
    types: &Types,
    models: &Vec<(Qualified<ModelName>, Model)>,
    commands: &Vec<(Qualified<CommandName>, Command)>,
) -> (r: Result<Object, SchemaError>)
    ensures
        match query_root_fields(types@, models@, commands@) {
            Ok((fs, ids)) => r matches Ok(o) && o.name@ == "Query"@ && entries_view(o.fields@) == fs
                && o.interfaces@.len() == 0 && final(builder).registered() == old(builder).registered() + ids,
            Err((f, ids)) => r matches Err(e) && query_root_error(e, f) && final(builder).registered() == old(
                builder,
            ).registered() + ids,
        },
        r matches Ok(o) ==> entries_distinct(entries_view(o.fields@)),
{
    let ghost start = builder.registered();
    let typename = String::from_str("Query");
    proof {
        reveal_strlit("Query");
    }
    let mut fields: Vec<(String, Namespaced<SchemaField>)> = Vec::new();
    assert(entries_view(fields@) =~= Seq::<(Seq<char>, NamespacedView<FieldView>)>::empty());
    assert(start + Seq::<TypeIdView>::empty() =~= start);
    let mut i: usize = 0;
    while i < models.len()
        invariant
            i <= models.len(),
            start == old(builder).registered(),
            typename@ == "Query"@,
            models_fields(types@, models@, i as int) matches Ok((acc, ids)) && entries_view(fields@) == acc
                && builder.registered() == start + ids,
            entries_distinct(entries_view(fields@)),
        decreases models.len() - i,
    {
        let ghost prev = models_fields(types@, models@, i as int);
        match add_model_fields(types, builder, &models[i].1, &mut fields, &typename) {
            Ok(()) => {},
            Err(e) => {
                proof {
                    let ids = prev->Ok_0.1;
                    let more = model_fields(types@, models@[i as int].1, prev->Ok_0.0)->Err_0.1;
                    assert(start + ids + more =~= start + (ids + more));
                    lemma_models_fields_failure_persists(types@, models@, i + 1, models.len() as int);
                }
                return Err(e);
            },
        }
        proof {
            let ids = prev->Ok_0.1;
            let more = model_fields(types@, models@[i as int].1, prev->Ok_0.0)->Ok_0.1;
            assert(start + ids + more =~= start + (ids + more));
        }
        i = i + 1;
    }
    let ghost a = entries_view(fields@);
    let ghost mid = builder.registered();
    let ghost ids1 = models_fields(types@, models@, models.len() as int)->Ok_0.1;
    assert(mid + Seq::<TypeIdView>::empty() =~= mid);
    let mut c: usize = 0;
    while c < commands.len()
        invariant
            c <= commands.len(),
            start == old(builder).registered(),
            mid == start + ids1,
            models_fields(types@, models@, models.len() as int) == Ok::<
                (Seq<(Seq<char>, NamespacedView<FieldView>)>, Seq<TypeIdView>),
                (QueryRootFailure, Seq<TypeIdView>),
            >((a, ids1)),
            query_command_fields(types@, commands@, c as int, a) matches Ok((acc, ids)) && entries_view(fields@)
                == acc && builder.registered() == mid + ids,
            entries_distinct(entries_view(fields@)),
        decreases commands.len() - c,
    {
        let ghost prev = query_command_fields(types@, commands@, c as int, a);
        let command = &commands[c].1;
        if let Some(api) = &command.graphql_api {
            if api.root_field_kind == GraphQlRootFieldKind::Query {
                let (name, field) = match command_field(types, builder, command, api.root_field_name.clone()) {
                    Ok(f) => f,
                    Err(e) => {
                        proof {
                            let ids = prev->Ok_0.1;
                            let more = command_field_parts(types@, *command)->Err_0.1;
                            assert(mid + ids + more =~= mid + (ids + more));
                            lemma_command_fields_failure_persists(types@, commands@, a, c + 1, commands.len() as int);
                            let all = query_command_fields(types@, commands@, commands.len() as int, a)->Err_0.1;
                            assert(start + ids1 + all =~= start + (ids1 + all));
                        }
                        return Err(e);
                    },
                };
                set_entry(&mut fields, name, field);
                proof {
                    let ids = prev->Ok_0.1;
                    let more = command_field_parts(types@, *command)->Ok_0.2;
                    assert(mid + ids + more =~= mid + (ids + more));
                }
            }
        }
        c = c + 1;
    }
    let ghost more = query_command_fields(types@, commands@, commands.len() as int, a)->Ok_0.1;
    let ghost after = builder.registered();
    proof {
        assert(start + ids1 + more =~= start + (ids1 + more));
    }
    let (node_field, roles) = match relay_node_field(types, models, builder) {
        Ok(n) => n,
        Err(e) => {
            proof {
                let nids = node_field_parts(types@, models@, models.len() as int)->Err_0.1;
                assert(start + (ids1 + more) + nids =~= start + (ids1 + more + nids));
            }
            return Err(e);
        },
    };
    proof {
        let st = node_field_parts(types@, models@, models.len() as int)->Ok_0;
        assert(start + (ids1 + more) + st.ids.push(TypeIdView::NodeRoot) =~= start + (ids1 + more + st.ids.push(
            TypeIdView::NodeRoot,
        )));
    }
    if has_entry(&fields, "node") {
        proof {
            reveal_strlit("node");
        }
        return Err(
            SchemaError::DuplicateFieldNameGeneratedInObjectType {
                field_name: String::from_str("node"),
                typename: Qualified { subgraph: String::from_str("-"), name: CustomTypeName(String::from_str("Query")) },
            },
        );
    }
    let namespaced = builder.conditional_namespaced(node_field, roles);
    let ghost before = entries_view(fields@);
    fields.push((String::from_str("node"), namespaced));
    proof {
        reveal_strlit("node");
        let st = node_field_parts(types@, models@, models.len() as int)->Ok_0;
        assert(entries_view(fields@) =~= query_root_fields(types@, models@, commands@)->Ok_0.0);
        let ev = entries_view(fields@);
        assert forall|x: int, y: int| 0 <= x < y < ev.len() implies (#[trigger] ev[x]).0 != (#[trigger] ev[y]).0 by {
            if y == ev.len() - 1 {
                assert(ev[x] == before[x]);
                if before[x].0 == "node"@ {
                    assert(entry_present(before, "node"@));
                }
            } else {
                assert(ev[x] == before[x] && ev[y] == before[y]);
            }
        }
    }
    Ok(Object { name: typename, fields, interfaces: Vec::new() })
}

/// Whether an error says that a root field of the type has no data source.
pub open spec fn no_source(e: Error, t: Seq<char>, field: Seq<char>) -> bool {
    e matches Error::InternalError(
        InternalError::Developer(InternalDeveloperError::NoSourceDataConnector { typename, field_name }),
    ) && typename@ == t && field_name@ == field
}

/// Whether an error says that the field has an annotation no root field has.
pub open spec fn unexpected_field_annotation(e: Error, f: NormalizedField) -> bool {
    e matches Error::InternalError(InternalError::Engine(InternalEngineError::UnexpectedAnnotation { annotation }))
        && annotation@ == f.info@
}

/// Whether a result is what the `__type` field gives: the type named by its
/// `name` argument for the role; or the missing argument, a value that is no
/// string, or a name that is no GraphQL name.
pub open spec fn type_field_result<'s>(
    selection: NormalizedSelectionSet,
    call: FieldCall,
    role: Seq<char>,
    r: Result<QueryRootField<'s>, Error>,
) -> bool {
    let args = call.arguments@;
    match argument_position(args, "name"@, 0) {
        None => r matches Err(e) && argument_not_found(e, "name"@),
        Some(i) => match args[i].value {
            InputValue::String(n) => if is_graphql_name(n@) {
                r matches Ok(QueryRootField::TypeField { role: x, typename, selection_set }) && x@ == role
                    && typename@ == n@ && *selection_set == selection
            } else {
                r matches Err(e) && e matches Error::TypeFieldInvalidGraphQlName { name } && name@ == n@
            },
            _ => r matches Err(e) && unexpected_value(e, "string"@),
        },
    }
}

/// Whether the `__type` field gives a request.
pub open spec fn type_field_succeeds(call: FieldCall) -> bool {
    let args = call.arguments@;
    argument_position(args, "name"@, 0) matches Some(i) && args[i].value matches InputValue::String(n)
        && is_graphql_name(n@)
}

/// Reads the `__type` field for the role: the type its `name` argument
/// names.
pub fn generate_type_field_ir<'s>(
    selection_set: &'s NormalizedSelectionSet,
    field_call: &FieldCall,
    role: &Role,
) -> (r: Result<QueryRootField<'s>, Error>)
    ensures
        type_field_result(*selection_set, *field_call, role@, r),
        r is Ok <==> type_field_succeeds(*field_call),
{
    let argument = field_call.expected_argument("name")?;
    let name = argument.value.as_string()?;
    match mk_name(name.as_str()) {
        Ok(n) => Ok(QueryRootField::TypeField { role: role.duplicate(), typename: n, selection_set }),
        Err(_) => Err(Error::TypeFieldInvalidGraphQlName { name: name.clone() }),
    }
}

/// Whether a result is what a model's root field of the query type `t`
/// gives: its select-one or select-many request; or the missing source, or
/// the failure of the call.
pub open spec fn model_rootfield_result<'s>(
    t: Seq<char>,
    source: Option<ModelSource>,
    data_type: (Seq<char>, Seq<char>),
    kind: RootFieldKind,
    f: NormalizedField,
    model_name: (Seq<char>, Seq<char>),
    r: Result<QueryRootField<'s>, Error>,
) -> bool {
    match source {
        None => r matches Err(e) && no_source(e, t, f.field_call.name@),
        Some(src) => match kind {
            RootFieldKind::SelectOne => match r {
                Ok(QueryRootField::ModelSelectOne { selection_set, ir }) => *selection_set == f.selection_set
                    && select_one_result(f.field_call, data_type, src, model_name, Ok(ir)),
                Ok(_) => false,
                Err(e) => select_one_result(f.field_call, data_type, src, model_name, Err(e)),
            },
            RootFieldKind::SelectMany => match r {
                Ok(QueryRootField::ModelSelectMany { selection_set, ir }) => *selection_set == f.selection_set
                    && select_many_result(f.field_call, src, model_name, Ok(ir)),
                Ok(_) => false,
                Err(e) => select_many_result(f.field_call, src, model_name, Err(e)),
            },
        },
    }
}

/// Whether a model's root field gives a request.
pub open spec fn model_rootfield_succeeds(
    source: Option<ModelSource>,
    data_type: (Seq<char>, Seq<char>),
    kind: RootFieldKind,
    f: NormalizedField,
) -> bool {
    match source {
        None => false,
        Some(src) => match kind {
            RootFieldKind::SelectOne => select_one_succeeds(f.field_call, data_type, src),
            RootFieldKind::SelectMany => select_many_succeeds(f.field_call, src),
        },
    }
}

/// Reads a model's root field of the query type `typename`: a select-one or
/// a select-many request on the model's source.
pub fn generate_model_rootfield_ir<'s>(
    typename: &String,
    source: &Option<ModelSource>,
    data_type: &Qualified<CustomTypeName>,
    kind: &RootFieldKind,
    field: &'s NormalizedField,
    model_name: &Qualified<ModelName>,
) -> (r: Result<QueryRootField<'s>, Error>)
    ensures
        model_rootfield_result(typename@, *source, data_type@, *kind, *field, model_name@, r),
        r is Ok <==> model_rootfield_succeeds(*source, data_type@, *kind, *field),
{
    let src = match source {
        Some(src) => src,
        None => {
            return Err(Error::developer(InternalDeveloperError::NoSourceDataConnector {
                typename: typename.clone(),
                field_name: field.field_call.name.clone(),
            }));
        },
    };
    match kind {
        RootFieldKind::SelectOne => {
            let ir = select_one_generate_ir(&field.field_call, data_type, src, model_name)?;
            Ok(QueryRootField::ModelSelectOne { selection_set: &field.selection_set, ir })
        },
        RootFieldKind::SelectMany => {
            let ir = select_many_generate_ir(&field.field_call, src, model_name)?;
            Ok(QueryRootField::ModelSelectMany { selection_set: &field.selection_set, ir })
        },
    }
}

/// Whether a result is what a command's root field of the query type `t`
/// gives: the invocation of the command; or the missing source, or the
/// failure of the call.
pub open spec fn command_rootfield_result<'s>(
    name: (Seq<char>, Seq<char>),
    t: Seq<char>,
    source: Option<CommandSource>,
    underlying: Option<Qualified<CustomTypeName>>,
    f: NormalizedField,
    r: Result<QueryRootField<'s>, Error>,
) -> bool {
    match source {
        None => r matches Err(e) && no_source(e, t, f.field_call.name@),
        Some(src) => match r {
            Ok(QueryRootField::CommandRepresentation { selection_set, ir }) => *selection_set == f.selection_set
                && command_result(name, f, underlying, src, Ok(ir)),
            Ok(_) => false,
            Err(e) => command_result(name, f, underlying, src, Err(e)),
        },
    }
}

/// Reads a command's root field of the query type `typename`.
pub fn generate_command_rootfield_ir<'s>(
    name: &Qualified<CommandName>,
    typename: &String,
    source: &Option<CommandSource>,
    underlying_object_typename: &Option<Qualified<CustomTypeName>>,
    field: &'s NormalizedField,
) -> (r: Result<QueryRootField<'s>, Error>)
    ensures
        command_rootfield_result(name@, typename@, *source, *underlying_object_typename, *field, r),
        r is Ok <==> (*source matches Some(src) && command_succeeds(*field, *underlying_object_typename, src)),
{
    let src = match source {
        Some(src) => src,
        None => {
            return Err(Error::developer(InternalDeveloperError::NoSourceDataConnector {
                typename: typename.clone(),
                field_name: field.field_call.name.clone(),
            }));
        },
    };
    let ir = command_generate_ir(name, field, underlying_object_typename, src)?;
    Ok(QueryRootField::CommandRepresentation { selection_set: &field.selection_set, ir })
}

/// Whether a result is what the node field gives: its `id` argument, with
/// the typename mappings and the field; or the missing argument or a value
/// that is no ID.
pub open spec fn node_request_result<'s>(
    f: NormalizedField,
    tm: Vec<(String, TypenameMapping)>,
    r: Result<QueryRootField<'s>, Error>,
) -> bool {
    let args = f.field_call.arguments@;
    match argument_position(args, "id"@, 0) {
        None => r matches Err(e) && argument_not_found(e, "id"@),
        Some(i) => match args[i].value {
            InputValue::Id(s) => r matches Ok(QueryRootField::NodeRequest { encoded_id, typename_mappings, field })
                && encoded_id@ == s@ && *typename_mappings == tm && *field == f,
            _ => r matches Err(e) && unexpected_value(e, "id"@),
        },
    }
}

/// Reads the node field: the encoded global ID of its `id` argument, which
/// is decoded and read for the role with the typename mappings.
pub fn generate_nodefield_ir<'s>(
    field: &'s NormalizedField,
    typename_mappings: &'s Vec<(String, TypenameMapping)>,
) -> (r: Result<QueryRootField<'s>, Error>)
    ensures
        node_request_result(*field, *typename_mappings, r),
        r is Ok <==> (argument_position(field.field_call.arguments@, "id"@, 0) matches Some(i)
            && field.field_call.arguments@[i].value is Id),
{
    let argument = field.field_call.expected_argument("id")?;
    let id = argument.value.as_id()?;
    Ok(QueryRootField::NodeRequest { encoded_id: id.clone(), typename_mappings, field })
}

/// Whether a result is what a root field of the query type `t` gives for
/// the role: `__typename`, `__schema` and `__type` by the field's name; else
/// by the field's annotation, the request of its model, command or node; or
/// the failure.
pub open spec fn root_field_result<'s>(
    t: Seq<char>,
    f: NormalizedField,
    role: Seq<char>,
    r: Result<QueryRootField<'s>, Error>,
) -> bool {
    let call = f.field_call;
    if call.name@ == "__typename"@ {
        r matches Ok(QueryRootField::TypeName { typename }) && typename@ == t
    } else if call.name@ == "__schema"@ {
        r matches Ok(QueryRootField::SchemaField { role: x, selection_set }) && x@ == role
            && *selection_set == f.selection_set
    } else if call.name@ == "__type"@ {
        type_field_result(f.selection_set, call, role, r)
    } else {
        match f.info {
            Annotation::Output(OutputAnnotation::RootField(a)) => match a {
                RootFieldAnnotation::Model { data_type, source, kind, name } => model_rootfield_result(
                    t,
                    source,
                    data_type@,
                    kind,
                    f,
                    name@,
                    r,
                ),
                RootFieldAnnotation::Command { name, source, underlying_object_typename } => command_rootfield_result(
                    name@,
                    t,
                    source,
                    underlying_object_typename,
                    f,
                    r,
                ),
                RootFieldAnnotation::RelayNode { typename_mappings } => node_request_result(f, typename_mappings, r),
                RootFieldAnnotation::Introspection => r matches Err(e) && unexpected_field_annotation(e, f),
            },
            _ => r matches Err(e) && unexpected_field_annotation(e, f),
        }
    }
}

/// Whether a root field of the query type gives a request.
pub open spec fn root_field_succeeds(f: NormalizedField) -> bool {
    let call = f.field_call;
    let args = call.arguments@;
    if call.name@ == "__typename"@ || call.name@ == "__schema"@ {
        true
    } else if call.name@ == "__type"@ {
        type_field_succeeds(call)
    } else {
        match f.info {
            Annotation::Output(OutputAnnotation::RootField(a)) => match a {
                RootFieldAnnotation::Model { data_type, source, kind, name } => model_rootfield_succeeds(
                    source,
                    data_type@,
                    kind,
                    f,
                ),
                RootFieldAnnotation::Command { name, source, underlying_object_typename } => match source {
                    None => false,
                    Some(src) => command_succeeds(f, underlying_object_typename, src),
                },
                RootFieldAnnotation::RelayNode { .. } => argument_position(args, "id"@, 0) matches Some(i)
                    && args[i].value is Id,
                RootFieldAnnotation::Introspection => false,
            },
            _ => false,
        }
    }
}

/// Reads a root field of the query type `typename` for the role.
pub fn generate_root_field_ir<'s>(typename: &String, field: &'s NormalizedField, role: &Role) -> (r: Result<
    QueryRootField<'s>,
    Error,
>)
    ensures
        root_field_result(typename@, *field, role@, r),
        r is Ok <==> root_field_succeeds(*field),
{
    let call = &field.field_call;
    if str_eq(call.name.as_str(), "__typename") {
        return Ok(QueryRootField::TypeName { typename: typename.clone() });
    }
    if str_eq(call.name.as_str(), "__schema") {
        return Ok(QueryRootField::SchemaField { role: role.duplicate(), selection_set: &field.selection_set });
    }
    if str_eq(call.name.as_str(), "__type") {
        return generate_type_field_ir(&field.selection_set, call, role);
    }
    match &field.info {
        Annotation::Output(OutputAnnotation::RootField(a)) => match a {
            RootFieldAnnotation::Model { data_type, source, kind, name } => generate_model_rootfield_ir(
                typename,
                source,
                data_type,
                kind,
                field,
                name,
            ),
            RootFieldAnnotation::Command { name, source, underlying_object_typename } => generate_command_rootfield_ir(
                name,
                typename,
                source,
                underlying_object_typename,
                field,
            ),
            RootFieldAnnotation::RelayNode { typename_mappings } => generate_nodefield_ir(field, typename_mappings),
            RootFieldAnnotation::Introspection => Err(Error::engine(InternalEngineError::UnexpectedAnnotation {
                annotation: field.info.duplicate(),
            })),
        },
        _ => Err(Error::engine(InternalEngineError::UnexpectedAnnotation { annotation: field.info.duplicate() })),
    }
}

/// Whether no two fields have the same alias.
pub open spec fn aliases_distinct(fs: Seq<NormalizedField>) -> bool {
    forall|i: int, j: int| 0 <= i < j < fs.len() ==> (#[trigger] fs[i]).alias@ != (#[trigger] fs[j]).alias@
}

/// Whether a result is what the fields of a query of type `t` give for the
/// role: each field's request under its alias, in order, where every field
/// gives one; else the failure of the first field that gives none.
pub open spec fn query_ir_result<'s>(
    t: Seq<char>,
    fs: Seq<NormalizedField>,
    role: Seq<char>,
    r: Result<Vec<(String, RootField<'s>)>, Error>,
) -> bool {
    &&& (r is Ok <==> forall|i: int| 0 <= i < fs.len() ==> root_field_succeeds(#[trigger] fs[i]))
    &&& (r matches Ok(v) ==> v@.len() == fs.len() && forall|i: int|
        0 <= i < fs.len() ==> (#[trigger] v@[i]).0@ == fs[i].alias@ && (v@[i].1 matches RootField::QueryRootField(q)
            && root_field_result(t, fs[i], role, Ok(q))))
    &&& (r matches Err(e) ==> exists|i: int|
        0 <= i < fs.len() && (forall|j: int| 0 <= j < i ==> root_field_succeeds(#[trigger] fs[j]))
            && !root_field_succeeds(#[trigger] fs[i]) && root_field_result(t, fs[i], role, Err(e)))
}

/// Reads the root fields of a query for the role: each field's request under
/// its alias, in the order of the request; the first field that cannot be
/// read decides the error. A selection set whose type is not known is an
/// error.
pub fn generate_ir<'s>(selection_set: &'s NormalizedSelectionSet, role: &Role) -> (r: Result<
    Vec<(String, RootField<'s>)>,
    Error,
>)
    requires
        aliases_distinct(selection_set.fields@),
    ensures
        match selection_set.typename {
            None => r matches Err(e) && e is NoTypenameFound,
            Some(t) => query_ir_result(t@, selection_set.fields@, role@, r),
        },
        r matches Ok(v) ==> forall|i: int, j: int| 0 <= i < j < v@.len() ==> (#[trigger] v@[i]).0@ != (#[trigger] v@[j]).0@,
{
    let typename = match &selection_set.typename {
        Some(t) => t,
        None => {
            return Err(Error::NoTypenameFound);
        },
    };
    let fields = &selection_set.fields;
    let mut out: Vec<(String, RootField<'s>)> = Vec::new();
    let mut i: usize = 0;
    while i < fields.len()
        invariant
            i <= fields.len(),
            fields == &selection_set.fields,
            selection_set.typename == Some(*typename),
            out@.len() == i,
            forall|j: int| 0 <= j < i ==> root_field_succeeds(#[trigger] fields@[j]),
            forall|j: int|
                0 <= j < i ==> (#[trigger] out@[j]).0@ == fields@[j].alias@ && (out@[j].1 matches RootField::QueryRootField(q)
                    && root_field_result(typename@, fields@[j], role@, Ok(q))),
        decreases fields.len() - i,
    {
        let field: &'s NormalizedField = &fields[i];
        match generate_root_field_ir(typename, field, role) {
            Ok(ir) => {
                let ghost before = out@;
                out.push((field.alias.clone(), RootField::QueryRootField(ir)));
                assert forall|j: int| 0 <= j < i + 1 implies (#[trigger] out@[j]).0@ == fields@[j].alias@
                    && (out@[j].1 matches RootField::QueryRootField(q) && root_field_result(
                    typename@,
                    fields@[j],
                    role@,
                    Ok(q),
                )) by {
                    if j < i {
                        assert(out@[j] == before[j]);
                    }
                }
            },
            Err(e) => {
                assert(!root_field_succeeds(fields@[i as int]));
                return Err(e);
            },
        }
        i = i + 1;
    }
    assert forall|a: int, b: int| 0 <= a < b < out@.len() implies (#[trigger] out@[a]).0@ != (#[trigger] out@[b]).0@ by {
        assert(fields@[a].alias@ != fields@[b].alias@);
    }
    Ok(out)
}

} // verus!
