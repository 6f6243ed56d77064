//! The request of a field that selects one row of a model by its unique
//! identifier.

use vstd::prelude::*;
use vstd::string::*;

use crate::keyed::{entries_distinct, entries_view, entry_present, find_key, first_key, has_entry, has_key, is_first_key, lemma_first_key_unique, set_entry, upsert};
use crate::metadata::resolved::model::{FilterView, Model, SelectUniqueGraphQlDefinition};
use crate::metadata::resolved::types::{is_graphql_name, mk_name, FieldDefinition, ObjectTypeRepresentation, TypeRepresentation};
use crate::schema::error::Error as SchemaError;
use crate::schema::graphql::{
    type_id_name, BaseTypeView, Builder, FieldView, InputFieldView, Namespaced, NamespacedView, OutputAnnotation,
    RootFieldAnnotation, RootFieldKind, SchemaField, SchemaInputField, TypeContainer, TypeContainerView, TypeIdView,
    VisibilityView,
};
use crate::schema::operations::permissions::{get_select_one_namespace_annotations, identifier_fields, may_read_all, select_annotations};
use crate::schema::operations::select_many::{copy_source, model_field_error, model_root_annotation, ModelFieldFailure};
use crate::schema::types::input_type::{get_input_type, input_type_ids};
use crate::schema::types::model_arguments::{build_model_argument_fields, model_argument_fields};
use crate::schema::types::output_type::{custom_type_id, get_custom_output_type, get_object_type_representation, Types};
use crate::metadata::resolved::model::{FilterPermission, ModelSource};
use crate::metadata::resolved::subgraph::Qualified;
use crate::metadata::resolved::types::{FieldMapping, TypeMapping};
use crate::open_dds::names::{FieldName, Ident, ModelName};
use crate::schema::model_tracking::{count_model, counts_view, UsagesCounts};
use crate::open_dds::ndc_client::models::{
    column, expressions_view, Argument, ArgumentView, BinaryComparisonOperator, BinaryOperatorView, ColumnView,
    ComparisonValue, Expression, ExpressionView,
};
use crate::open_dds::types::CustomTypeName;
pub use crate::schema::normalized::FieldCall;
use crate::schema::normalized::{value_json, InputAnnotation, InputAnnotationView, InputField};
use crate::schema::operations::error::{
    unexpected_annotation, Error, InternalEngineError, InternalError,
};
use crate::schema::operations::permissions::get_select_filter_predicate;
use crate::schema::types::model_arguments::{build_ndc_model_arguments, deref_fields, model_arguments, model_arguments_error};
use crate::schema::types::NamespaceAnnotation;

verus! {

/// What a select-one field asks of its model: the model arguments under the
/// collection arguments they map to, the comparisons that pick the row, and
/// the filter of the role, and the models it uses.
#[derive(Debug)]
pub struct ModelSelectOne {
    pub field_name: String,
    pub arguments: Vec<(String, Argument)>,
    pub filter_clause: Vec<Expression>,
    pub permission_filter: FilterPermission,
    pub usage_counts: UsagesCounts,
}

/// The usage counts of an operation on one model: that model, used once.
pub open spec fn used_model_once(u: UsagesCounts, model_name: (Seq<char>, Seq<char>)) -> bool {
    counts_view(u.models_used@) == seq![(model_name, 1nat)] && u.commands_used@.len() == 0
}

/// How a type is written in messages: its name and its subgraph.
pub open spec fn qualified_text(n: (Seq<char>, Seq<char>)) -> Seq<char> {
    n.1 + " (in subgraph "@ + n.0 + ")"@
}

/// What is reported for a type the source has no mapping for.
pub open spec fn missing_type_mapping_message(t: (Seq<char>, Seq<char>)) -> Seq<char> {
    "type '"@ + qualified_text(t) + "' not found in source type_mappings"@
}

/// What is reported for a unique identifier field the type mapping lacks.
pub open spec fn invalid_identifier_message(f: Seq<char>) -> Seq<char> {
    "invalid unique identifier field in annotation: "@ + f
}

/// Why a select-one field could not be read.
pub enum SelectOneFailure {
    MissingTypeMapping((Seq<char>, Seq<char>)),
    InvalidIdentifier(Seq<char>),
    UnexpectedAnnotation(InputAnnotationView),
}

/// Whether an error is the generic internal error with the description.
pub open spec fn generic(e: Error, d: Seq<char>) -> bool {
    e matches Error::InternalError(InternalError::Engine(InternalEngineError::InternalGeneric { description }))
        && description@ == d
}

/// Whether an error is the one reported for a failure.
pub open spec fn select_one_error(e: Error, f: SelectOneFailure) -> bool {
    match f {
        SelectOneFailure::MissingTypeMapping(t) => generic(e, missing_type_mapping_message(t)),
        SelectOneFailure::InvalidIdentifier(n) => generic(e, invalid_identifier_message(n)),
        SelectOneFailure::UnexpectedAnnotation(a) => unexpected_annotation(e, a),
    }
}

/// The comparison of a column with a value for equality.
pub open spec fn equals(c: Seq<char>, v: crate::json::JsonView) -> ExpressionView {
    ExpressionView::Binary {
        column: ColumnView { name: c, path: Seq::empty() },
        operator: BinaryOperatorView::Equal,
        value: v,
    }
}

/// For the first `n` arguments: the model arguments among them, in order,
/// and a comparison for each unique identifier argument with the column its
/// field maps to; or the failure.
pub open spec fn split_arguments(
    fm: Seq<(FieldName, FieldMapping)>,
    args: Seq<InputField>,
    n: int,
) -> Result<(Seq<InputField>, Seq<ExpressionView>), SelectOneFailure>
    decreases n,
{
    if n <= 0 || n > args.len() {
        Ok((Seq::empty(), Seq::empty()))
    } else {
        match split_arguments(fm, args, n - 1) {
            Err(f) => Err(f),
            Ok((margs, filters)) => {
                let a = args[n - 1];
                match a.info {
                    InputAnnotation::ModelArgument { .. } => Ok((margs.push(a), filters)),
                    InputAnnotation::ModelUniqueIdentifierArgument { field_name } => if has_key(fm, field_name@) {
                        Ok((margs, filters.push(equals(fm[first_key(fm, field_name@)].1.column@, value_json(a.value)))))
                    } else {
                        Err(SelectOneFailure::InvalidIdentifier(field_name@))
                    },
                    _ => Err(SelectOneFailure::UnexpectedAnnotation(a.info@)),
                }
            },
        }
    }
}

/// The model arguments and row comparisons of a select-one call on a type
/// of the source; or the failure.
pub open spec fn select_one_parts(
    call: FieldCall,
    data_type: (Seq<char>, Seq<char>),
    source: ModelSource,
) -> Result<(Seq<InputField>, Seq<ExpressionView>), SelectOneFailure> {
    if !has_key(source.type_mappings@, data_type) {
        Err(SelectOneFailure::MissingTypeMapping(data_type))
    } else {
        match source.type_mappings@[first_key(source.type_mappings@, data_type)].1 {
            TypeMapping::Object { field_mappings } => split_arguments(
                field_mappings@,
                call.arguments@,
                call.arguments.len() as int,
            ),
        }
    }
}

/// How many of the first `n` arguments are unique identifier arguments.
pub open spec fn count_identifiers(args: Seq<InputField>, n: int) -> nat
    decreases n,
{
    if n <= 0 || n > args.len() {
        0
    } else {
        count_identifiers(args, n - 1) + if args[n - 1].info is ModelUniqueIdentifierArgument {
            1nat
        } else {
            0nat
        }
    }
}

/// How many of the first `n` arguments are model arguments.
pub open spec fn count_model_arguments(args: Seq<InputField>, n: int) -> nat
    decreases n,
{
    if n <= 0 || n > args.len() {
        0
    } else {
        count_model_arguments(args, n - 1) + if args[n - 1].info is ModelArgument {
            1nat
        } else {
            0nat
        }
    }
}

/// Whether an argument can stand in a select-one call: a model argument, or
/// a unique identifier argument whose field has a column.
pub open spec fn select_one_argument_ok(fm: Seq<(FieldName, FieldMapping)>, a: InputField) -> bool {
    a.info is ModelArgument || (a.info matches InputAnnotation::ModelUniqueIdentifierArgument { field_name } && has_key(
        fm,
        field_name@,
    ))
}

/// The comparison of a column, reached by no relationship, with a value for
/// equality.
pub open spec fn column_equals(c: Seq<char>, v: crate::json::JsonView) -> ExpressionView {
    ExpressionView::Binary { column: ColumnView { name: c, path: Seq::empty() }, operator: BinaryOperatorView::Equal, value: v }
}

/// Whether the comparisons hold, for every unique identifier argument among
/// the first `n`, the equality of its field's column with its value, at the
/// position of that argument among the identifiers; and the model arguments
/// hold every model argument among the first `n`, in order.
pub open spec fn split_holds(
    fm: Seq<(FieldName, FieldMapping)>,
    args: Seq<InputField>,
    n: int,
    margs: Seq<InputField>,
    filters: Seq<ExpressionView>,
) -> bool {
    &&& filters.len() == count_identifiers(args, n)
    &&& margs.len() == count_model_arguments(args, n)
    &&& forall|i: int, k: int|
        #![trigger args[i], fm[k]]
        0 <= i < n ==> (args[i].info matches InputAnnotation::ModelUniqueIdentifierArgument { field_name } ==> (
        is_first_key(fm, field_name@, k) ==> filters[count_identifiers(args, i) as int] == column_equals(
            fm[k].1.column@,
            value_json(args[i].value),
        )))
    &&& forall|i: int|
        0 <= i < n && (#[trigger] args[i]).info is ModelArgument ==> margs[count_model_arguments(args, i) as int]
            == args[i]
}

proof fn lemma_split_arguments(fm: Seq<(FieldName, FieldMapping)>, args: Seq<InputField>, n: int)
    requires
        0 <= n <= args.len(),
    ensures
        (split_arguments(fm, args, n) is Ok) <==> (forall|i: int| 0 <= i < n ==> select_one_argument_ok(fm, #[trigger] args[i])),
        split_arguments(fm, args, n) matches Ok((margs, filters)) ==> split_holds(fm, args, n, margs, filters),
    decreases n,
{
    if n > 0 {
        lemma_split_arguments(fm, args, n - 1);
        let a = args[n - 1];
        if split_arguments(fm, args, n - 1) is Ok && select_one_argument_ok(fm, a) {
            let (m0, f0) = split_arguments(fm, args, n - 1)->Ok_0;
            let (m1, f1) = split_arguments(fm, args, n)->Ok_0;
            assert forall|i: int| 0 <= i < n implies select_one_argument_ok(fm, #[trigger] args[i]) by {
                if i == n - 1 {
                }
            }
            assert forall|i: int, k: int|
                #![trigger args[i], fm[k]]
                0 <= i < n && args[i].info is ModelUniqueIdentifierArgument && is_first_key(
                    fm,
                    args[i].info->ModelUniqueIdentifierArgument_field_name@,
                    k,
                ) implies f1[count_identifiers(args, i) as int] == column_equals(
                fm[k].1.column@,
                value_json(args[i].value),
            ) by {
                let field_name = args[i].info->ModelUniqueIdentifierArgument_field_name;
                lemma_first_key_unique(fm, field_name@, k);
                if i < n - 1 {
                    assert(count_identifiers(args, i) < count_identifiers(args, n - 1)) by {
                        lemma_count_identifiers_grows(args, i, n - 1);
                    }
                    assert(f1[count_identifiers(args, i) as int] == f0[count_identifiers(args, i) as int]);
                }
            }
            assert forall|i: int| 0 <= i < n && (#[trigger] args[i]).info is ModelArgument implies m1[count_model_arguments(
                args,
                i,
            ) as int] == args[i] by {
                if i < n - 1 {
                    assert(count_model_arguments(args, i) < count_model_arguments(args, n - 1)) by {
                        lemma_count_model_arguments_grows(args, i, n - 1);
                    }
                    assert(m1[count_model_arguments(args, i) as int] == m0[count_model_arguments(args, i) as int]);
                }
            }
        } else if split_arguments(fm, args, n - 1) is Ok {
            assert(!select_one_argument_ok(fm, args[n - 1]));
        } else {
            let i = choose|i: int| 0 <= i < n - 1 && !select_one_argument_ok(fm, #[trigger] args[i]);
            assert(0 <= i < n && !select_one_argument_ok(fm, args[i]));
        }
    }
}

proof fn lemma_count_identifiers_grows(args: Seq<InputField>, i: int, n: int)
    requires
        0 <= i < n <= args.len(),
        args[i].info is ModelUniqueIdentifierArgument,
    ensures
        count_identifiers(args, i) < count_identifiers(args, n),
    decreases n - i,
{
    if i < n - 1 {
        lemma_count_identifiers_grows(args, i, n - 1);
    }
}

proof fn lemma_count_model_arguments_grows(args: Seq<InputField>, i: int, n: int)
    requires
        0 <= i < n <= args.len(),
        args[i].info is ModelArgument,
    ensures
        count_model_arguments(args, i) < count_model_arguments(args, n),
    decreases n - i,
{
    if i < n - 1 {
        lemma_count_model_arguments_grows(args, i, n - 1);
    }
}

/// Law: a select-one call with field mappings `fm` gives one equality
/// comparison for every unique identifier argument, in the order of the
/// arguments, each between the column of that argument's field and its
/// value, so that a composite key keeps all its parts; it keeps every model
/// argument, in order; and it can be read exactly when every argument is a
/// model argument or an identifier whose field has a column.
pub proof fn law_select_one_compares_every_identifier(fm: Seq<(FieldName, FieldMapping)>, args: Seq<InputField>)
    ensures
        (split_arguments(fm, args, args.len() as int) is Ok) <==> (forall|i: int|
            0 <= i < args.len() ==> select_one_argument_ok(fm, #[trigger] args[i])),
        split_arguments(fm, args, args.len() as int) matches Ok((margs, filters)) ==> split_holds(
            fm,
            args,
            args.len() as int,
            margs,
            filters,
        ),
{
    lemma_split_arguments(fm, args, args.len() as int);
}

/// Law: where the data type has a mapping in the model's source, first
/// found at position `k`, a select-one call reads its arguments against the
/// field mappings of that mapping.
pub proof fn law_select_one_uses_the_data_type_mapping(call: FieldCall, data_type: (Seq<char>, Seq<char>), source: ModelSource, k: int)
    requires
        is_first_key(source.type_mappings@, data_type, k),
    ensures
        match source.type_mappings@[k].1 {
            TypeMapping::Object { field_mappings } => select_one_parts(call, data_type, source) == split_arguments(
                field_mappings@,
                call.arguments@,
                call.arguments.len() as int,
            ),
        },
{
    lemma_first_key_unique(source.type_mappings@, data_type, k);
}

/// Whether a result is what a select-one call gives: the failure of its
/// arguments or model arguments, the missing filter annotation, or the
/// request with the model arguments, comparisons, filter and usage counts.
pub open spec fn select_one_result(
    call: FieldCall,
    data_type: (Seq<char>, Seq<char>),
    source: ModelSource,
    model_name: (Seq<char>, Seq<char>),
    r: Result<ModelSelectOne, Error>,
) -> bool {
    match select_one_parts(call, data_type, source) {
        Err(f) => r matches Err(e) && select_one_error(e, f),
        Ok((margs, filters)) => match model_arguments(margs, margs.len() as int, source.type_mappings@) {
            Err(f) => r matches Err(e) && model_arguments_error(e, call.name@, f),
            Ok(xs) => match call.namespaced {
                Some(NamespaceAnnotation::Filter(p)) => r matches Ok(s) && s.field_name@ == call.name@
                    && entries_view(s.arguments@) == xs && expressions_view(s.filter_clause@) == filters
                    && s.permission_filter@ == p@ && used_model_once(s.usage_counts, model_name),
                None => r matches Err(e) && e == Error::InternalError(
                    InternalError::Engine(InternalEngineError::FilterPermissionAnnotationNotFound),
                ),
            },
        },
    }
}

/// Whether a select-one call succeeds.
pub open spec fn select_one_succeeds(call: FieldCall, data_type: (Seq<char>, Seq<char>), source: ModelSource) -> bool {
    match select_one_parts(call, data_type, source) {
        Err(_) => false,
        Ok((margs, _)) => model_arguments(margs, margs.len() as int, source.type_mappings@) is Ok
            && call.namespaced is Some,
    }
}

proof fn lemma_split_failure_persists(fm: Seq<(FieldName, FieldMapping)>, args: Seq<InputField>, k: int, n: int)
    requires
        1 <= k <= n <= args.len(),
        split_arguments(fm, args, k) is Err,
    ensures
        split_arguments(fm, args, n) == split_arguments(fm, args, k),
    decreases n - k,
{
    if k < n {
        lemma_split_failure_persists(fm, args, k, n - 1);
    }
}

/// Reads a select-one field: the comparison of each unique identifier
/// argument with the column its field maps to, the model arguments under the
/// collection arguments they map to, the filter of the role, and the model
/// counted as used once.
pub fn select_one_generate_ir(
    field_call: &FieldCall,
    data_type: &Qualified<CustomTypeName>,
    model_source: &ModelSource,
    model_name: &Qualified<ModelName>,
) -> (r: Result<ModelSelectOne, Error>)
    ensures
        select_one_result(*field_call, data_type@, *model_source, model_name@, r),
{
    let index = match find_key(&model_source.type_mappings, data_type) {
        Some(i) => i,
        None => {
            let description = String::from_str("type '").concat(data_type.name.0.as_str()).concat(
                " (in subgraph ",
            ).concat(data_type.subgraph.as_str()).concat(")").concat("' not found in source type_mappings");
            proof {
                reveal_strlit("type '");
                reveal_strlit(" (in subgraph ");
                reveal_strlit(")");
                reveal_strlit("' not found in source type_mappings");
                assert(description@ =~= missing_type_mapping_message(data_type@));
            }
            return Err(Error::engine(InternalEngineError::InternalGeneric { description }));
        },
    };
    proof {
        lemma_first_key_unique(model_source.type_mappings@, data_type@, index as int);
    }
    let field_mappings = match &model_source.type_mappings[index].1 {
        TypeMapping::Object { field_mappings } => field_mappings,
    };
    let arguments = &field_call.arguments;
    let ghost args = arguments@;
    let mut model_argument_fields: Vec<&InputField> = Vec::new();
    let mut filter_clause: Vec<Expression> = Vec::new();
    let mut i: usize = 0;
    assert(select_one_parts(*field_call, data_type@, *model_source) == split_arguments(field_mappings@, args, args.len() as int));
    assert(deref_fields(model_argument_fields@) =~= Seq::<InputField>::empty());
    assert(expressions_view(filter_clause@) =~= Seq::<ExpressionView>::empty());
    while i < arguments.len()
        invariant
            i <= args.len(),
            args == arguments@,
            select_one_parts(*field_call, data_type@, *model_source) == split_arguments(field_mappings@, args, args.len() as int),
            split_arguments(field_mappings@, args, i as int) == Ok::<(Seq<InputField>, Seq<ExpressionView>), SelectOneFailure>(
                (deref_fields(model_argument_fields@), expressions_view(filter_clause@)),
            ),
        decreases args.len() - i,
    {
        let argument: &InputField = &arguments[i];
        match &argument.info {
            InputAnnotation::ModelArgument { .. } => {
                let ghost before = model_argument_fields@;
                model_argument_fields.push(argument);
                assert(deref_fields(model_argument_fields@) =~= deref_fields(before).push(*argument));
            },
            InputAnnotation::ModelUniqueIdentifierArgument { field_name } => {
                let k = match find_key(field_mappings, field_name) {
                    Some(k) => k,
                    None => {
                        proof {
                            lemma_split_failure_persists(field_mappings@, args, i + 1, args.len() as int);
                            reveal_strlit("invalid unique identifier field in annotation: ");
                        }
                        let description = String::from_str("invalid unique identifier field in annotation: ").concat(
                            field_name.0.as_str(),
                        );
                        return Err(Error::engine(InternalEngineError::InternalGeneric { description }));
                    },
                };
                proof {
                    lemma_first_key_unique(field_mappings@, field_name@, k as int);
                }
                let e = Expression::BinaryComparisonOperator {
                    column: column(field_mappings[k].1.column.clone()),
                    operator: BinaryComparisonOperator::Equal,
                    value: ComparisonValue::Scalar { value: argument.value.as_json() },
                };
                let ghost before = filter_clause@;
                filter_clause.push(e);
                assert(expressions_view(filter_clause@) =~= expressions_view(before).push(e@));
            },
            _ => {
                proof {
                    lemma_split_failure_persists(field_mappings@, args, i + 1, args.len() as int);
                }
                return Err(Error::engine(InternalEngineError::UnexpectedAnnotation { annotation: crate::schema::normalized::Annotation::Input(argument.info.duplicate()) }));
            },
        }
        i = i + 1;
    }
    let arguments = build_ndc_model_arguments(&field_call.name, &model_argument_fields, &model_source.type_mappings)?;
    let permission_filter = match get_select_filter_predicate(&field_call.namespaced)? {
        FilterPermission::AllowAll => FilterPermission::AllowAll,
        FilterPermission::Filter(e) => FilterPermission::Filter(e.duplicate()),
    };
    let mut usage_counts = UsagesCounts::new();
    count_model(model_name.duplicate(), &mut usage_counts);
    assert(counts_view(usage_counts.models_used@) =~= seq![(model_name@, 1nat)]);
    Ok(ModelSelectOne { field_name: field_call.name.clone(), arguments, filter_clause, permission_filter, usage_counts })
}

/// The argument of a unique identifier field: of the field's input type,
/// seen by every role.
pub open spec fn unique_argument(name: Seq<char>, t: TypeContainerView) -> NamespacedView<InputFieldView> {
    NamespacedView {
        data: InputFieldView { name, info: InputAnnotationView::ModelUniqueIdentifierArgument(name), field_type: t },
        visibility: VisibilityView::AllowAll(None),
    }
}

/// The arguments for the first `n` unique identifier fields, and the types
/// registered for them; or the failure, with the types registered before it.
pub open spec fn unique_arguments(
    types: Seq<(Qualified<CustomTypeName>, TypeRepresentation)>,
    ids_of: Seq<(FieldName, FieldDefinition)>,
    n: int,
) -> Result<(Seq<(Seq<char>, NamespacedView<InputFieldView>)>, Seq<TypeIdView>), (ModelFieldFailure, Seq<TypeIdView>)>
    decreases n,
{
    if n <= 0 || n > ids_of.len() {
        Ok((Seq::empty(), Seq::empty()))
    } else {
        match unique_arguments(types, ids_of, n - 1) {
            Err(f) => Err(f),
            Ok((acc, ids)) => {
                let name = ids_of[n - 1].0@;
                if !is_graphql_name(name) {
                    Err((ModelFieldFailure::InvalidName(name), ids))
                } else {
                    match input_type_ids(types, ids_of[n - 1].1.field_type@) {
                        Err(f) => Err((ModelFieldFailure::Type(f), ids)),
                        Ok((t, more)) => Ok((upsert(acc, name, unique_argument(name, t)), ids + more)),
                    }
                }
            },
        }
    }
}

/// The arguments with the first `n` further arguments added; or the first of
/// them whose name is taken.
pub open spec fn merge_arguments(
    acc: Seq<(Seq<char>, NamespacedView<InputFieldView>)>,
    more: Seq<(Seq<char>, NamespacedView<InputFieldView>)>,
    n: int,
) -> Result<Seq<(Seq<char>, NamespacedView<InputFieldView>)>, Seq<char>>
    decreases n,
{
    if n <= 0 || n > more.len() {
        Ok(acc)
    } else {
        match merge_arguments(acc, more, n - 1) {
            Err(a) => Err(a),
            Ok(a) => if entry_present(a, more[n - 1].0) {
                Err(more[n - 1].0)
            } else {
                Ok(a.push(more[n - 1]))
            },
        }
    }
}

/// The arguments, registered types, output type and object type of the
/// select-one root field of a model; or the failure, with the types
/// registered before it.
pub open spec fn select_one_field_parts(
    types: Seq<(Qualified<CustomTypeName>, TypeRepresentation)>,
    model: Model,
    su: SelectUniqueGraphQlDefinition,
) -> Result<
    (Seq<(Seq<char>, NamespacedView<InputFieldView>)>, Seq<TypeIdView>, TypeIdView, ObjectTypeRepresentation),
    (ModelFieldFailure, Seq<TypeIdView>),
> {
    match unique_arguments(types, su.unique_identifier@, su.unique_identifier.len() as int) {
        Err(f) => Err(f),
        Ok((uargs, ids1)) => match model_argument_fields(types, model, model.arguments.len() as int) {
            Err((f, more)) => Err((ModelFieldFailure::Argument(f), ids1 + more)),
            Ok((margs, more)) => {
                let ids2 = ids1 + more;
                match merge_arguments(uargs, margs, margs.len() as int) {
                    Err(a) => Err((ModelFieldFailure::Conflict(a), ids2)),
                    Ok(args) => {
                        let dt = model.data_type@;
                        if !has_key(types, dt) {
                            Err((ModelFieldFailure::TypeNotFound(dt), ids2))
                        } else {
                            match types[first_key(types, dt)].1 {
                                TypeRepresentation::ScalarType { .. } => Err((ModelFieldFailure::NotObject(dt), ids2)),
                                TypeRepresentation::Object(ot) => match custom_type_id(types, dt) {
                                    Err(f) => Err((ModelFieldFailure::Type(f), ids2)),
                                    Ok(tid) => Ok((args, ids2.push(tid), tid, ot)),
                                },
                            }
                        }
                    },
                }
            },
        },
    }
}

/// The select-one root field of a model under its name: its nullable object
/// type, with the unique identifier and model arguments, seen by the roles
/// that may select from the model and read each identifier field.
pub open spec fn select_one_root_field(
    model: Model,
    su: SelectUniqueGraphQlDefinition,
    args: Seq<(Seq<char>, NamespacedView<InputFieldView>)>,
    tid: TypeIdView,
    ot: ObjectTypeRepresentation,
) -> NamespacedView<FieldView> {
    NamespacedView {
        data: FieldView {
            name: su.query_root_field@,
            info: model_root_annotation(model, RootFieldKind::SelectOne),
            field_type: TypeContainerView { base: BaseTypeView::Named(type_id_name(tid)), nullable: true },
            arguments: args,
        },
        visibility: VisibilityView::Conditional(
            select_annotations(model).filter(
                |a: (Seq<char>, Option<FilterView>)| may_read_all(ot, identifier_fields(su), a.0),
            ),
        ),
    }
}

proof fn lemma_unique_arguments_failure_persists(
    types: Seq<(Qualified<CustomTypeName>, TypeRepresentation)>,
    ids_of: Seq<(FieldName, FieldDefinition)>,
    k: int,
    n: int,
)
    requires
        1 <= k <= n <= ids_of.len(),
        unique_arguments(types, ids_of, k) is Err,
    ensures
        unique_arguments(types, ids_of, n) == unique_arguments(types, ids_of, k),
    decreases n - k,
{
    if k < n {
        lemma_unique_arguments_failure_persists(types, ids_of, k, n - 1);
    }
}

proof fn lemma_unique_arguments_no_conflict(
    types: Seq<(Qualified<CustomTypeName>, TypeRepresentation)>,
    ids_of: Seq<(FieldName, FieldDefinition)>,
    n: int,
)
    ensures
        unique_arguments(types, ids_of, n) matches Err((f, _)) ==> (f is InvalidName || f is Type),
    decreases n,
{
    if n > 0 && n <= ids_of.len() {
        lemma_unique_arguments_no_conflict(types, ids_of, n - 1);
    }
}

proof fn lemma_merge_failure_persists(
    acc: Seq<(Seq<char>, NamespacedView<InputFieldView>)>,
    more: Seq<(Seq<char>, NamespacedView<InputFieldView>)>,
    k: int,
    n: int,
)
    requires
        1 <= k <= n <= more.len(),
        merge_arguments(acc, more, k) is Err,
    ensures
        merge_arguments(acc, more, n) == merge_arguments(acc, more, k),
    decreases n - k,
{
    if k < n {
        lemma_merge_failure_persists(acc, more, k, n - 1);
    }
}

fn unique_argument_fields(types: &Types, builder: &mut Builder, su: &SelectUniqueGraphQlDefinition) -> (r: Result<
    Vec<(String, Namespaced<SchemaInputField>)>,
    SchemaError,
>)
    ensures
        match unique_arguments(types@, su.unique_identifier@, su.unique_identifier.len() as int) {
            Ok((args, ids)) => r matches Ok(v) && entries_view(v@) == args && entries_distinct(entries_view(v@))
                && final(builder).registered() == old(builder).registered() + ids,
            Err((f, ids)) => r matches Err(e) && model_field_error(e, f, Seq::empty(), Seq::empty())
                && final(builder).registered() == old(builder).registered() + ids,
        },
{
    let ghost start = builder.registered();
    let mut out: Vec<(String, Namespaced<SchemaInputField>)> = Vec::new();
    assert(entries_view(out@) =~= Seq::<(Seq<char>, NamespacedView<InputFieldView>)>::empty());
    assert(start + Seq::<TypeIdView>::empty() =~= start);
    let fields = &su.unique_identifier;
    let mut i: usize = 0;
    while i < fields.len()
        invariant
            i <= fields.len(),
            fields@ == su.unique_identifier@,
            start == old(builder).registered(),
            unique_arguments(types@, fields@, i as int) matches Ok((acc, ids)) && entries_view(out@) == acc
                && builder.registered() == start + ids,
            entries_distinct(entries_view(out@)),
        decreases fields.len() - i,
    {
        let ghost prev = unique_arguments(types@, fields@, i as int);
        let field_name = &fields[i].0;
        let name = match mk_name(field_name.0.as_str()) {
            Ok(n) => n,
            Err(_) => {
                proof {
                    lemma_unique_arguments_failure_persists(types@, fields@, i + 1, fields.len() as int);
                }
                return Err(SchemaError::InvalidGraphQlName { name: field_name.0.clone() });
            },
        };
        let t = match get_input_type(types, builder, &fields[i].1.field_type) {
            Ok(t) => t,
            Err(e) => {
                proof {
                    lemma_unique_arguments_failure_persists(types@, fields@, i + 1, fields.len() as int);
                }
                return Err(e);
            },
        };
        let key = name.clone();
        let argument = SchemaInputField {
            name,
            info: InputAnnotation::ModelUniqueIdentifierArgument { field_name: field_name.duplicate() },
            field_type: t,
        };
        set_entry(&mut out, key, builder.allow_all_namespaced(argument, None));
        proof {
            let (acc, ids) = prev->Ok_0;
            let (c, more) = input_type_ids(types@, fields@[i as int].1.field_type@)->Ok_0;
            assert(start + ids + more =~= start + (ids + more));
        }
        i = i + 1;
    }
    Ok(out)
}

/// The root field that selects one row of a model by its unique identifier,
/// under the name its definition gives, in the root type `parent_type`.
pub fn select_one_field(
    types: &Types,
    builder: &mut Builder,
    model: &Model,
    select_unique: &SelectUniqueGraphQlDefinition,
    parent_type: &String,
) -> (r: Result<(String, Namespaced<SchemaField>), SchemaError>)
    ensures
        match select_one_field_parts(types@, *model, *select_unique) {
            Ok((args, ids, tid, ot)) => r matches Ok(f) && f.0@ == select_unique.query_root_field@ && f.1@
                == select_one_root_field(*model, *select_unique, args, tid, ot)
                && final(builder).registered() == old(builder).registered() + ids,
            Err((f, ids)) => r matches Err(e) && model_field_error(
                e,
                f,
                select_unique.query_root_field@,
                parent_type@,
            ) && final(builder).registered() == old(builder).registered() + ids,
        },
        r matches Ok(f) ==> entries_distinct(entries_view(f.1.data.arguments@)),
{
    let ghost start = builder.registered();
    let query_root_field = select_unique.query_root_field.clone();
    proof {
        lemma_unique_arguments_no_conflict(types@, select_unique.unique_identifier@, select_unique.unique_identifier.len() as int);
    }
    let mut arguments = match unique_argument_fields(types, builder, select_unique) {
        Ok(a) => a,
        Err(e) => {
            return Err(e);
        },
    };
    let ghost ids1 = unique_arguments(types@, select_unique.unique_identifier@, select_unique.unique_identifier.len() as int)->Ok_0.1;
    let ghost uargs = entries_view(arguments@);
    let model_fields = match build_model_argument_fields(types, builder, model) {
        Ok(m) => m,
        Err(e) => {
            proof {
                let more = model_argument_fields(types@, *model, model.arguments.len() as int)->Err_0.1;
                assert(start + ids1 + more =~= start + (ids1 + more));
            }
            return Err(e);
        },
    };
    proof {
        let more = model_argument_fields(types@, *model, model.arguments.len() as int)->Ok_0.1;
        assert(start + ids1 + more =~= start + (ids1 + more));
    }
    let ghost margs = entries_view(model_fields@);
    let ghost ids2 = ids1 + model_argument_fields(types@, *model, model.arguments.len() as int)->Ok_0.1;
    let mut rest = model_fields;
    let ghost mut k: int = 0;
    assert(margs.subrange(0, margs.len() as int) =~= margs);
    while rest.len() > 0
        invariant
            0 <= k <= margs.len(),
            unique_arguments(types@, select_unique.unique_identifier@, select_unique.unique_identifier.len() as int)
                == Ok::<(Seq<(Seq<char>, NamespacedView<InputFieldView>)>, Seq<TypeIdView>), (ModelFieldFailure, Seq<TypeIdView>)>((uargs, ids1)),
            model_argument_fields(types@, *model, model.arguments.len() as int) matches Ok((m, more)) && m == margs
                && ids2 == ids1 + more,
            builder.registered() == start + ids2,
            start == old(builder).registered(),
            query_root_field@ == select_unique.query_root_field@,
            entries_distinct(entries_view(arguments@)),
            entries_view(rest@) == margs.subrange(k, margs.len() as int),
            merge_arguments(uargs, margs, k) == Ok::<Seq<(Seq<char>, NamespacedView<InputFieldView>)>, Seq<char>>(
                entries_view(arguments@),
            ),
        decreases rest.len(),
    {
        assert(entries_view(rest@).len() == rest@.len());
        assert(k < margs.len());
        assert(entries_view(rest@)[0] == margs[k]);
        let ghost old_rest = rest@;
        let ghost ev_old = entries_view(rest@);
        let (name, field) = rest.remove(0);
        assert((name@, field@) == margs[k]);
        if has_entry(&arguments, name.as_str()) {
            proof {
                lemma_merge_failure_persists(uargs, margs, k + 1, margs.len() as int);
            }
            return Err(
                SchemaError::GraphQlArgumentConflict {
                    argument_name: name,
                    field_name: query_root_field,
                    typename: parent_type.clone(),
                },
            );
        }
        let ghost before = entries_view(arguments@);
        let ghost key = name@;
        arguments.push((name, field));
        proof {
            let ev = entries_view(arguments@);
            assert forall|x: int, y: int| 0 <= x < y < ev.len() implies (#[trigger] ev[x]).0 != (#[trigger] ev[y]).0 by {
                if y == ev.len() - 1 {
                    assert(ev[x] == before[x]);
                    if before[x].0 == key {
                        assert(entry_present(before, key));
                    }
                } else {
                    assert(ev[x] == before[x] && ev[y] == before[y]);
                }
            }
            assert(entries_view(arguments@) =~= before.push(margs[k]));
            k = k + 1;
            assert(rest@ =~= old_rest.subrange(1, old_rest.len() as int));
            assert forall|j: int| 0 <= j < rest@.len() implies #[trigger] entries_view(rest@)[j] == margs[k + j] by {
                assert(entries_view(rest@)[j] == ev_old[j + 1]);
                assert(ev_old[j + 1] == margs.subrange(k - 1, margs.len() as int)[j + 1]);
            }
            assert(entries_view(rest@) =~= margs.subrange(k, margs.len() as int));
        }
    }
    let object_type_representation = get_object_type_representation(types, &model.data_type)?;
    let named = get_custom_output_type(types, builder, &model.data_type)?;
    let field = SchemaField {
        name: query_root_field.clone(),
        info: OutputAnnotation::RootField(
            RootFieldAnnotation::Model {
                data_type: model.data_type.duplicate(),
                source: copy_source(model),
                kind: RootFieldKind::SelectOne,
                name: model.name.duplicate(),
            },
        ),
        field_type: TypeContainer::named_null(named),
        arguments,
    };
    let namespaced = builder.conditional_namespaced(
        field,
        get_select_one_namespace_annotations(model, object_type_representation, select_unique),
    );
    Ok((query_root_field, namespaced))
}

} // verus!
