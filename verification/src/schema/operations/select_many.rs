//! The arguments of a field that selects many rows of a model.

use vstd::prelude::*;
use vstd::string::*;

use crate::keyed::{entries_distinct, entries_view, entry_present, has_entry};
use crate::metadata::resolved::model::{FilterView, SelectManyGraphQlDefinition};
use crate::schema::graphql::{
    type_id_name, FieldView, OutputAnnotation, OutputAnnotationView, RootFieldAnnotation, RootFieldAnnotationView,
    RootFieldKind, SchemaField,
};
use crate::schema::operations::permissions::{get_select_permissions_namespace_annotations, select_annotations};
use crate::schema::types::model_arguments::get_model_arguments_input_field;
use crate::schema::types::output_type::{custom_type_id, get_custom_output_type, type_error, TypeFailure, Types};
use crate::metadata::resolved::subgraph::Qualified;
use crate::metadata::resolved::types::TypeRepresentation;
use crate::open_dds::types::CustomTypeName;
use crate::metadata::resolved::model::Model;
use crate::open_dds::names::Ident;
use crate::open_dds::types::{inbuilt_name, InbuiltType};
use crate::schema::error::Error as SchemaError;
use crate::schema::graphql::{
    base_type_container_for_inbuilt_type, BaseTypeView, Builder, InputFieldView, Namespaced,
    NamespacedView, SchemaInputField, TypeContainer, TypeContainerView, TypeIdView, VisibilityView,
};
use crate::schema::normalized::{InputAnnotation, InputAnnotationView};
use crate::schema::types::model_filter::get_where_expression_input_field;
use crate::schema::types::model_order_by::get_order_by_expression_input_field;

use crate::keyed::{set_entry, upsert};
use crate::metadata::resolved::model::{FilterPermission, ModelSource};
use crate::metadata::resolved::types::TypeMapping;
use crate::open_dds::names::ModelName;
use crate::open_dds::ndc_client::models::{expressions_view, Argument, ArgumentView, Expression, ExpressionView};
use crate::schema::model_tracking::{count_model, counts_view, UsagesCounts};
use crate::schema::normalized::{int_u32, unexpected_value, FieldCall, InputField, InputValue};
use crate::schema::operations::error::{unexpected_annotation, Error, InternalEngineError, InternalError};
use crate::schema::operations::permissions::get_select_filter_predicate;
use crate::schema::operations::select_one::{generic, used_model_once};
use crate::schema::types::model_arguments::{
    build_ndc_model_arguments, deref_fields, model_arguments, model_arguments_error, ModelArgumentsFailure,
};
use crate::schema::types::model_filter::{fields_filter, filter_error, resolve_filter_expression, FilterFailure};
use crate::schema::types::NamespaceAnnotation;

verus! {

/// A nullable `Int` argument, seen by every role.
pub open spec fn int_argument(name: Seq<char>, info: InputAnnotationView) -> NamespacedView<InputFieldView> {
    NamespacedView {
        data: InputFieldView {
            name,
            info,
            field_type: TypeContainerView { base: BaseTypeView::Named(inbuilt_name(InbuiltType::Int)), nullable: true },
        },
        visibility: VisibilityView::AllowAll(None),
    }
}

/// The `order_by` argument of a model with an order-by expression: a
/// nullable list of its order-by type, seen by every role.
pub open spec fn order_by_argument(t: Seq<char>) -> NamespacedView<InputFieldView> {
    NamespacedView {
        data: InputFieldView {
            name: "order_by"@,
            info: InputAnnotationView::ModelOrderByExpression,
            field_type: TypeContainerView {
                base: BaseTypeView::List(Box::new(TypeContainerView { base: BaseTypeView::Named(t), nullable: false })),
                nullable: true,
            },
        },
        visibility: VisibilityView::AllowAll(None),
    }
}

/// The `where` argument of a model with a boolean expression: of its
/// boolean expression type, nullable, seen by every role.
pub open spec fn where_argument(t: Seq<char>) -> NamespacedView<InputFieldView> {
    NamespacedView {
        data: InputFieldView {
            name: "where"@,
            info: InputAnnotationView::ModelFilterExpression,
            field_type: TypeContainerView { base: BaseTypeView::Named(t), nullable: true },
        },
        visibility: VisibilityView::AllowAll(None),
    }
}

/// The arguments of a field selecting many rows of the model: `limit` and
/// `offset`, then `order_by` where the model has an order-by expression and
/// `where` where it has a boolean expression; every role sees them.
pub open spec fn select_many_arguments(model: Model) -> Seq<(Seq<char>, NamespacedView<InputFieldView>)> {
    let paging = seq![
        ("limit"@, int_argument("limit"@, InputAnnotationView::ModelLimitArgument)),
        ("offset"@, int_argument("offset"@, InputAnnotationView::ModelOffsetArgument)),
    ];
    let ordered = match model.graphql_api.order_by_expression {
        None => paging,
        Some(ob) => paging.push(("order_by"@, order_by_argument(ob.order_by_type_name@))),
    };
    match model.graphql_api.filter_expression {
        None => ordered,
        Some(fe) => ordered.push(("where"@, where_argument(fe.where_type_name@))),
    }
}

/// The types registered for the arguments of a field selecting many rows of
/// the model: its order-by type and its boolean expression type, where it
/// has them.
pub open spec fn select_many_registered(model: Model) -> Seq<TypeIdView> {
    let ordered = match model.graphql_api.order_by_expression {
        None => Seq::empty(),
        Some(ob) => seq![TypeIdView::ModelOrderByExpression(model.name@, ob.order_by_type_name@)],
    };
    match model.graphql_api.filter_expression {
        None => ordered,
        Some(fe) => ordered.push(TypeIdView::ModelBooleanExpression(model.name@, fe.where_type_name@)),
    }
}

fn int_input_argument(builder: &Builder, name: &str, info: InputAnnotation) -> (r: (
    String,
    Namespaced<SchemaInputField>,
))
    ensures
        r.0@ == name@,
        r.1@ == int_argument(name@, info@),
{
    let field = SchemaInputField {
        name: String::from_str(name),
        info,
        field_type: TypeContainer { base: base_type_container_for_inbuilt_type(&InbuiltType::Int), nullable: true },
    };
    (String::from_str(name), builder.allow_all_namespaced(field, None))
}

/// The `limit`, `offset`, `order_by` and `where` arguments of a field that
/// selects many rows of the model; their names are distinct.
pub fn generate_select_many_arguments(builder: &mut Builder, model: &Model) -> (r: Result<
    Vec<(String, Namespaced<SchemaInputField>)>,
    SchemaError,
>)
    ensures
        r matches Ok(args) && entries_view(args@) == select_many_arguments(*model) && entries_distinct(
            entries_view(args@),
        ),
        final(builder).registered() == old(builder).registered() + select_many_registered(*model),
{
    let mut arguments: Vec<(String, Namespaced<SchemaInputField>)> = Vec::new();
    arguments.push(int_input_argument(builder, "limit", InputAnnotation::ModelLimitArgument));
    arguments.push(int_input_argument(builder, "offset", InputAnnotation::ModelOffsetArgument));
    let ghost start = builder.registered();
    proof {
        reveal_strlit("limit");
        reveal_strlit("offset");
        reveal_strlit("order_by");
        reveal_strlit("where");
    }
    let ghost ordered_ids: Seq<TypeIdView> = match &model.graphql_api.order_by_expression {
        None => Seq::empty(),
        Some(ob) => seq![TypeIdView::ModelOrderByExpression(model.name@, ob.order_by_type_name@)],
    };
    if let Some(order_by_expression_info) = &model.graphql_api.order_by_expression {
        let order_by = get_order_by_expression_input_field(builder, model.name.duplicate(), order_by_expression_info);
        arguments.push((String::from_str("order_by"), builder.allow_all_namespaced(order_by, None)));
        assert(start.push(TypeIdView::ModelOrderByExpression(model.name@, order_by_expression_info.order_by_type_name@))
            =~= start + ordered_ids);
    } else {
        assert(start + ordered_ids =~= start);
    }
    let ghost mid = builder.registered();
    if let Some(filter_expression_info) = &model.graphql_api.filter_expression {
        let where_arg = get_where_expression_input_field(builder, model.name.duplicate(), filter_expression_info);
        arguments.push((String::from_str("where"), builder.allow_all_namespaced(where_arg, None)));
        assert(mid.push(TypeIdView::ModelBooleanExpression(model.name@, filter_expression_info.where_type_name@))
            =~= start + select_many_registered(*model));
    } else {
        assert(mid =~= start + select_many_registered(*model));
    }
    let ghost ev = entries_view(arguments@);
    assert(ev =~= select_many_arguments(*model));
    assert forall|x: int, y: int| 0 <= x < y < ev.len() implies (#[trigger] ev[x]).0 != (#[trigger] ev[y]).0 by {
        assert(ev[x].0 == "limit"@ || ev[x].0 == "offset"@ || ev[x].0 == "order_by"@ || ev[x].0 == "where"@);
        assert("limit"@ != "offset"@ && "limit"@ != "order_by"@ && "limit"@ != "where"@ && "offset"@ != "order_by"@
            && "offset"@ != "where"@ && "order_by"@ != "where"@) by {
            assert("limit"@.len() != "offset"@.len());
            assert("limit"@.len() != "order_by"@.len());
            assert("limit"@[0] != "where"@[0]);
            assert("offset"@.len() != "order_by"@.len());
            assert("offset"@.len() != "where"@.len());
            assert("order_by"@.len() != "where"@.len());
        }
    }
    Ok(arguments)
}

/// Why a model root field could not be built.
pub enum ModelFieldFailure {
    InvalidName(Seq<char>),
    Type(TypeFailure),
    Argument(crate::schema::types::model_arguments::FieldFailure),
    Conflict(Seq<char>),
    TypeNotFound((Seq<char>, Seq<char>)),
    NotObject((Seq<char>, Seq<char>)),
    NoArgumentsInputType((Seq<char>, Seq<char>)),
}

/// Whether an error is the one reported for a failure of the root field
/// `field_name` of the type `parent`.
pub open spec fn model_field_error(e: SchemaError, f: ModelFieldFailure, field_name: Seq<char>, parent: Seq<char>) -> bool {
    match f {
        ModelFieldFailure::InvalidName(n) => e matches SchemaError::InvalidGraphQlName { name } && name@ == n,
        ModelFieldFailure::Type(t) => type_error(e, t),
        ModelFieldFailure::Argument(a) => crate::schema::types::model_arguments::field_failure_error(e, a),
        ModelFieldFailure::Conflict(a) => e matches SchemaError::GraphQlArgumentConflict {
            argument_name,
            field_name: f2,
            typename,
        } && argument_name@ == a && f2@ == field_name && typename@ == parent,
        ModelFieldFailure::TypeNotFound(n) => e matches SchemaError::InternalTypeNotFound { typename } && typename@ == n,
        ModelFieldFailure::NotObject(n) => e matches SchemaError::ExpectedTypeToBeObject { typename } && typename@ == n,
        ModelFieldFailure::NoArgumentsInputType(n) => e matches SchemaError::NoArgumentsInputTypeForSelectMany {
            model_name,
        } && model_name@ == n,
    }
}

/// The annotation of a root field that selects from the model.
pub open spec fn model_root_annotation(model: Model, kind: RootFieldKind) -> OutputAnnotationView {
    OutputAnnotationView::RootField(
        RootFieldAnnotationView::Model(
            model.data_type@,
            match model.source {
                Some(s) => Some(s@),
                None => None,
            },
            kind,
            model.name@,
        ),
    )
}

/// The `args` argument of a model with arguments: of its arguments input
/// type, seen by every role.
pub open spec fn args_argument(t: Seq<char>) -> NamespacedView<InputFieldView> {
    NamespacedView {
        data: InputFieldView {
            name: "args"@,
            info: InputAnnotationView::ModelArgumentsExpression,
            field_type: TypeContainerView { base: BaseTypeView::Named(t), nullable: false },
        },
        visibility: VisibilityView::AllowAll(None),
    }
}

/// The arguments, registered types and output type of the select-many root
/// field of a model; or the failure, with the types registered before it.
pub open spec fn select_many_parts(
    types: Seq<(Qualified<CustomTypeName>, TypeRepresentation)>,
    model: Model,
) -> Result<(Seq<(Seq<char>, NamespacedView<InputFieldView>)>, Seq<TypeIdView>, TypeIdView), (ModelFieldFailure, Seq<TypeIdView>)> {
    let base = select_many_arguments(model);
    let ids0 = select_many_registered(model);
    let with_args: Result<(Seq<(Seq<char>, NamespacedView<InputFieldView>)>, Seq<TypeIdView>), (ModelFieldFailure, Seq<TypeIdView>)> =
        if model.arguments.len() > 0 {
        match model.graphql_api.arguments_input_type {
            None => Err((ModelFieldFailure::NoArgumentsInputType(model.name@), ids0)),
            Some(t) => {
                let ids1 = ids0.push(TypeIdView::ModelArgumentsInput(model.name@, t@));
                if entry_present(base, "args"@) {
                    Err((ModelFieldFailure::Conflict("args"@), ids1))
                } else {
                    Ok((base.push(("args"@, args_argument(t@))), ids1))
                }
            },
        }
    } else {
        Ok((base, ids0))
    };
    match with_args {
        Err(f) => Err(f),
        Ok((args, ids1)) => match custom_type_id(types, model.data_type@) {
            Err(f) => Err((ModelFieldFailure::Type(f), ids1)),
            Ok(tid) => Ok((args, ids1.push(tid), tid)),
        },
    }
}

/// The select-many root field of a model under its name: a nullable list of
/// its object type, with the select-many arguments and `args` where the
/// model has arguments, seen by the roles that may select from the model.
pub open spec fn select_many_root_field(
    model: Model,
    name: Seq<char>,
    args: Seq<(Seq<char>, NamespacedView<InputFieldView>)>,
    tid: TypeIdView,
) -> NamespacedView<FieldView> {
    NamespacedView {
        data: FieldView {
            name,
            info: model_root_annotation(model, RootFieldKind::SelectMany),
            field_type: TypeContainerView {
                base: BaseTypeView::List(
                    Box::new(TypeContainerView { base: BaseTypeView::Named(type_id_name(tid)), nullable: false }),
                ),
                nullable: true,
            },
            arguments: args,
        },
        visibility: VisibilityView::Conditional(select_annotations(model)),
    }
}

/// A copy of the model's source, where it has one.
pub fn copy_source(model: &Model) -> (r: Option<crate::metadata::resolved::model::ModelSource>)
    ensures
        match model.source {
            Some(s) => r matches Some(c) && c@ == s@,
            None => r is None,
        },
{
    match &model.source {
        Some(s) => Some(s.duplicate()),
        None => None,
    }
}

/// The root field that selects many rows of a model, under the name its
/// definition gives, in the root type `parent_type`.
pub fn select_many_field(
    types: &Types,
    builder: &mut Builder,
    model: &Model,
    select_many: &SelectManyGraphQlDefinition,
    parent_type: &String,
) -> (r: Result<(String, Namespaced<SchemaField>), SchemaError>)
    ensures
        match select_many_parts(types@, *model) {
            Ok((args, ids, tid)) => r matches Ok(f) && f.0@ == select_many.query_root_field@ && f.1@
                == select_many_root_field(*model, select_many.query_root_field@, args, tid)
                && final(builder).registered() == old(builder).registered() + ids,
            Err((f, ids)) => r matches Err(e) && model_field_error(e, f, select_many.query_root_field@, parent_type@)
                && final(builder).registered() == old(builder).registered() + ids,
        },
        r matches Ok(f) ==> entries_distinct(entries_view(f.1.data.arguments@)),
{
    let ghost start = builder.registered();
    let query_root_field = select_many.query_root_field.clone();
    let mut arguments = generate_select_many_arguments(builder, model)?;
    if model.arguments.len() > 0 {
        let model_arguments_input = get_model_arguments_input_field(builder, model)?;
        if has_entry(&arguments, "args") {
            proof {
                reveal_strlit("args");
            }
            return Err(
                SchemaError::GraphQlArgumentConflict {
                    argument_name: model_arguments_input.name,
                    field_name: query_root_field,
                    typename: parent_type.clone(),
                },
            );
        }
        let ghost t = model.graphql_api.arguments_input_type->Some_0@;
        let name = model_arguments_input.name.clone();
        arguments.push((name, builder.allow_all_namespaced(model_arguments_input, None)));
        proof {
            reveal_strlit("args");
            assert(entries_view(arguments@) =~= select_many_arguments(*model).push(("args"@, args_argument(t))));
        }
    }
    let ghost before = builder.registered();
    let named = get_custom_output_type(types, builder, &model.data_type)?;
    let field_type = TypeContainer::list_null(TypeContainer::named_non_null(named));
    let field = SchemaField {
        name: query_root_field.clone(),
        info: OutputAnnotation::RootField(
            RootFieldAnnotation::Model {
                data_type: model.data_type.duplicate(),
                source: copy_source(model),
                kind: RootFieldKind::SelectMany,
                name: model.name.duplicate(),
            },
        ),
        field_type,
        arguments,
    };
    let namespaced = builder.conditional_namespaced(field, get_select_permissions_namespace_annotations(model));
    Ok((query_root_field, namespaced))
}

/// What a select-many field asks of its model: the model arguments under the
/// collection arguments they map to, the `where` expression, the filter of
/// the role, the limit and offset, the `order_by` argument as the request
/// gave it, and the models it uses.
#[derive(Debug)]
pub struct ModelSelectMany<'s> {
    pub field_name: String,
    pub arguments: Vec<(String, Argument)>,
    pub filter_clause: Vec<Expression>,
    pub permission_filter: FilterPermission,
    pub limit: Option<u32>,
    pub offset: Option<u32>,
    pub order_by: Option<&'s InputField>,
    pub usage_counts: UsagesCounts,
}

/// What the arguments of a select-many field set.
pub struct ManyArgsView {
    pub limit: Option<u32>,
    pub offset: Option<u32>,
    pub filter: Seq<ExpressionView>,
    pub arguments: Seq<(Seq<char>, ArgumentView)>,
    pub order_by: Option<InputField>,
}

/// Why the arguments of a select-many field could not be read.
pub enum ManyFailure {
    Value(Seq<char>),
    Filter(FilterFailure),
    ArgumentsNotObject,
    ModelArguments(ModelArgumentsFailure),
    UnexpectedAnnotation(InputAnnotationView),
}

/// What is reported for model arguments that are not an object.
pub open spec fn arguments_not_object_message() -> Seq<char> {
    "Expected object value for model arguments"@
}

/// Whether an error is the one reported for a failure.
pub open spec fn many_error(e: Error, field: Seq<char>, f: ManyFailure) -> bool {
    match f {
        ManyFailure::Value(x) => unexpected_value(e, x),
        ManyFailure::Filter(g) => filter_error(e, g),
        ManyFailure::ArgumentsNotObject => generic(e, arguments_not_object_message()),
        ManyFailure::ModelArguments(g) => model_arguments_error(e, field, g),
        ManyFailure::UnexpectedAnnotation(a) => unexpected_annotation(e, a),
    }
}

/// The entries after the first `n` of `xs` are set in turn on `acc`.
pub open spec fn upsert_prefix<T>(acc: Seq<(Seq<char>, T)>, xs: Seq<(Seq<char>, T)>, n: int) -> Seq<(Seq<char>, T)>
    decreases n,
{
    if n <= 0 || n > xs.len() {
        acc
    } else {
        let prev = upsert_prefix(acc, xs, n - 1);
        upsert(prev, xs[n - 1].0, xs[n - 1].1)
    }
}

/// What the first `n` arguments of a select-many field set, each later one
/// replacing what an earlier one of its kind set, and the model arguments of
/// each `args` argument set in turn; or the first failure.
pub open spec fn many_args(
    args: Seq<InputField>,
    n: int,
    tm: Seq<(Qualified<CustomTypeName>, TypeMapping)>,
) -> Result<ManyArgsView, ManyFailure>
    decreases n,
{
    if n <= 0 || n > args.len() {
        Ok(ManyArgsView { limit: None, offset: None, filter: Seq::empty(), arguments: Seq::empty(), order_by: None })
    } else {
        match many_args(args, n - 1, tm) {
            Err(f) => Err(f),
            Ok(st) => {
                let a = args[n - 1];
                match a.info {
                    InputAnnotation::ModelLimitArgument => match int_u32(a.value) {
                        Some(v) => Ok(ManyArgsView { limit: Some(v), ..st }),
                        None => Err(ManyFailure::Value("integer"@)),
                    },
                    InputAnnotation::ModelOffsetArgument => match int_u32(a.value) {
                        Some(v) => Ok(ManyArgsView { offset: Some(v), ..st }),
                        None => Err(ManyFailure::Value("integer"@)),
                    },
                    InputAnnotation::ModelFilterExpression => match a.value {
                        InputValue::Object(fs) => match fields_filter(fs, fs.len() as int) {
                            Ok(es) => Ok(ManyArgsView { filter: es, ..st }),
                            Err(g) => Err(ManyFailure::Filter(g)),
                        },
                        _ => Err(ManyFailure::Value("object"@)),
                    },
                    InputAnnotation::ModelArgumentsExpression => match a.value {
                        InputValue::Object(fs) => match model_arguments(fs@, fs.len() as int, tm) {
                            Ok(xs) => Ok(ManyArgsView { arguments: upsert_prefix(st.arguments, xs, xs.len() as int), ..st }),
                            Err(g) => Err(ManyFailure::ModelArguments(g)),
                        },
                        _ => Err(ManyFailure::ArgumentsNotObject),
                    },
                    InputAnnotation::ModelOrderByExpression => Ok(ManyArgsView { order_by: Some(a), ..st }),
                    _ => Err(ManyFailure::UnexpectedAnnotation(a.info@)),
                }
            },
        }
    }
}

proof fn lemma_many_failure_persists(
    args: Seq<InputField>,
    tm: Seq<(Qualified<CustomTypeName>, TypeMapping)>,
    k: int,
    n: int,
)
    requires
        1 <= k <= n <= args.len(),
        many_args(args, k, tm) is Err,
    ensures
        many_args(args, n, tm) == many_args(args, k, tm),
    decreases n - k,
{
    if k < n {
        lemma_many_failure_persists(args, tm, k, n - 1);
    }
}

/// The field an optional reference points to.
pub open spec fn order_by_view(o: Option<&InputField>) -> Option<InputField> {
    match o {
        Some(a) => Some(*a),
        None => None,
    }
}

/// Whether a result is what a select-many call gives: the failure of its
/// arguments, the missing filter annotation, or the request with what its
/// arguments set, the filter and the usage counts.
pub open spec fn select_many_result<'s>(
    call: FieldCall,
    source: ModelSource,
    model_name: (Seq<char>, Seq<char>),
    r: Result<ModelSelectMany<'s>, Error>,
) -> bool {
    match many_args(call.arguments@, call.arguments.len() as int, source.type_mappings@) {
        Err(f) => r matches Err(e) && many_error(e, call.name@, f),
        Ok(st) => match call.namespaced {
            Some(NamespaceAnnotation::Filter(p)) => r matches Ok(s) && s.field_name@ == call.name@
                && s.limit == st.limit && s.offset == st.offset && expressions_view(s.filter_clause@) == st.filter
                && entries_view(s.arguments@) == st.arguments && order_by_view(s.order_by) == st.order_by
                && s.permission_filter@ == p@ && used_model_once(s.usage_counts, model_name),
            None => r matches Err(e) && e == Error::InternalError(
                InternalError::Engine(InternalEngineError::FilterPermissionAnnotationNotFound),
            ),
        },
    }
}

/// Whether a select-many call succeeds.
pub open spec fn select_many_succeeds(call: FieldCall, source: ModelSource) -> bool {
    many_args(call.arguments@, call.arguments.len() as int, source.type_mappings@) is Ok && call.namespaced is Some
}

/// References to each field of a list, in order.
fn field_refs(fs: &Vec<InputField>) -> (r: Vec<&InputField>)
    ensures
        deref_fields(r@) == fs@,
{
    let mut r: Vec<&InputField> = Vec::new();
    let mut i: usize = 0;
    while i < fs.len()
        invariant
            i <= fs.len(),
            deref_fields(r@) == fs@.subrange(0, i as int),
        decreases fs.len() - i,
    {
        let ghost before = r@;
        r.push(&fs[i]);
        assert(deref_fields(r@) =~= deref_fields(before).push(fs@[i as int]));
        assert(fs@.subrange(0, i + 1) =~= fs@.subrange(0, i as int).push(fs@[i as int]));
        i = i + 1;
    }
    assert(fs@.subrange(0, fs.len() as int) =~= fs@);
    r
}

/// Sets each of the entries in turn on the list.
fn set_entries(out: &mut Vec<(String, Argument)>, news: Vec<(String, Argument)>)
    requires
        entries_distinct(entries_view(old(out)@)),
    ensures
        entries_view(final(out)@) == upsert_prefix(entries_view(old(out)@), entries_view(news@), news.len() as int),
        entries_distinct(entries_view(final(out)@)),
{
    let ghost xs = entries_view(news@);
    let ghost acc = entries_view(out@);
    let mut rest = news;
    let ghost mut j: int = 0;
    while rest.len() > 0
        invariant
            0 <= j <= xs.len(),
            entries_view(rest@) == xs.subrange(j, xs.len() as int),
            entries_view(out@) == upsert_prefix(acc, xs, j),
            entries_distinct(entries_view(out@)),
        decreases rest.len(),
    {
        let ghost before = rest@;
        assert(entries_view(before).len() == before.len());
        assert(entries_view(before)[0] == xs.subrange(j, xs.len() as int)[0]);
        let (k, v) = rest.remove(0);
        assert(rest@ == before.subrange(1, before.len() as int));
        set_entry(out, k, v);
        proof {
            assert(xs[j] == (k@, v@));
            let ev = entries_view(before);
            assert(ev =~= xs.subrange(j, xs.len() as int));
            assert forall|m: int| 0 <= m < rest@.len() implies #[trigger] entries_view(rest@)[m] == xs[j + 1 + m] by {
                assert(entries_view(rest@)[m] == ev[m + 1]);
            }
            j = j + 1;
            assert(entries_view(rest@) =~= xs.subrange(j, xs.len() as int));
        }
    }
}

/// Reads a select-many field: its limit, offset, `where` expression, model
/// arguments and `order_by` argument, the filter of the role, and the model
/// counted as used once.
pub fn select_many_generate_ir<'s>(
    field_call: &'s FieldCall,
    model_source: &ModelSource,
    model_name: &Qualified<ModelName>,
) -> (r: Result<ModelSelectMany<'s>, Error>)
    ensures
        select_many_result(*field_call, *model_source, model_name@, r),
{
    let arguments = &field_call.arguments;
    let ghost args = arguments@;
    let ghost tm = model_source.type_mappings@;
    let mut limit: Option<u32> = None;
    let mut offset: Option<u32> = None;
    let mut filter_clause: Vec<Expression> = Vec::new();
    let mut model_arguments: Vec<(String, Argument)> = Vec::new();
    let mut order_by: Option<&'s InputField> = None;
    let mut i: usize = 0;
    assert(expressions_view(filter_clause@) =~= Seq::<ExpressionView>::empty());
    assert(entries_view(model_arguments@) =~= Seq::<(Seq<char>, ArgumentView)>::empty());
    while i < arguments.len()
        invariant
            i <= args.len(),
            args == arguments@,
            arguments == &field_call.arguments,
            tm == model_source.type_mappings@,
            entries_distinct(entries_view(model_arguments@)),
            many_args(args, i as int, tm) == Ok::<ManyArgsView, ManyFailure>(
                ManyArgsView {
                    limit,
                    offset,
                    filter: expressions_view(filter_clause@),
                    arguments: entries_view(model_arguments@),
                    order_by: order_by_view(order_by),
                },
            ),
        decreases args.len() - i,
    {
        let argument: &'s InputField = &arguments[i];
        proof {
            if i + 1 < args.len() {
                assert(many_args(args, i + 1, tm) is Err ==> many_args(args, args.len() as int, tm) == many_args(args, i + 1, tm)) by {
                    if many_args(args, i + 1, tm) is Err {
                        lemma_many_failure_persists(args, tm, i + 1, args.len() as int);
                    }
                }
            }
        }
        match &argument.info {
            InputAnnotation::ModelLimitArgument => {
                limit = Some(argument.value.as_int_u32()?);
            },
            InputAnnotation::ModelOffsetArgument => {
                offset = Some(argument.value.as_int_u32()?);
            },
            InputAnnotation::ModelFilterExpression => {
                let fields = argument.value.as_object()?;
                filter_clause = resolve_filter_expression(fields)?;
            },
            InputAnnotation::ModelArgumentsExpression => {
                match &argument.value {
                    InputValue::Object(fields) => {
                        let refs = field_refs(fields);
                        let news = build_ndc_model_arguments(&field_call.name, &refs, &model_source.type_mappings)?;
                        set_entries(&mut model_arguments, news);
                    },
                    _ => {
                        proof {
                            reveal_strlit("Expected object value for model arguments");
                        }
                        return Err(Error::engine(InternalEngineError::InternalGeneric {
                            description: String::from_str("Expected object value for model arguments"),
                        }));
                    },
                }
            },
            InputAnnotation::ModelOrderByExpression => {
                order_by = Some(argument);
            },
            _ => {
                return Err(Error::engine(InternalEngineError::UnexpectedAnnotation {
                    annotation: crate::schema::normalized::Annotation::Input(argument.info.duplicate()),
                }));
            },
        }
        i = i + 1;
    }
    let permission_filter = match get_select_filter_predicate(&field_call.namespaced)? {
        FilterPermission::AllowAll => FilterPermission::AllowAll,
        FilterPermission::Filter(e) => FilterPermission::Filter(e.duplicate()),
    };
    let mut usage_counts = UsagesCounts::new();
    count_model(model_name.duplicate(), &mut usage_counts);
    assert(counts_view(usage_counts.models_used@) =~= seq![(model_name@, 1nat)]);
    Ok(ModelSelectMany {
        field_name: field_call.name.clone(),
        arguments: model_arguments,
        filter_clause,
        permission_filter,
        limit,
        offset,
        order_by,
        usage_counts,
    })
}

} // verus!
