//! The arguments of a model as its data connector collection takes them.

use vstd::prelude::*;
use vstd::string::*;

use super::arguments::{argument_error, argument_json, map_argument_value_to_ndc_type, ArgumentFailure};
use crate::json::JsonView;
use crate::keyed::{entries_distinct, entries_view, set_entry, upsert};
use crate::metadata::resolved::subgraph::Qualified;
use crate::metadata::resolved::types::TypeMapping;
use crate::open_dds::ndc_client::models::{Argument, ArgumentView};
use crate::open_dds::types::CustomTypeName;
use super::input_type::{get_input_type, input_type_ids};
use super::output_type::{type_error, TypeFailure, Types};
use crate::keyed::{find_key, first_key, has_key, lemma_first_key_unique};
use crate::metadata::resolved::model::Model;
use crate::metadata::resolved::subgraph::QualifiedTypeReference;
use crate::metadata::resolved::types::{is_graphql_name, mk_name, TypeRepresentation};
use crate::open_dds::names::{ArgumentName, ModelName};
use crate::schema::graphql::{InputFieldView, InputObject, Namespaced, NamespacedView, TypeInfo, VisibilityView};
use crate::schema::normalized::InputAnnotationView;
use crate::open_dds::names::Ident;
use crate::schema::error::Error as SchemaError;
use crate::schema::graphql::{
    BaseTypeView, Builder, RegisteredTypeName, SchemaInputField, TypeContainer, TypeContainerView,
    TypeId, TypeIdView,
};
use crate::schema::normalized::{InputAnnotation, InputField};
use crate::schema::operations::error::unexpected_annotation;
use crate::schema::operations::error::{
    Error, InternalDeveloperError, InternalEngineError, InternalError,
};

verus! {

/// Why the arguments of a model field could not be mapped.
pub enum ModelArgumentsFailure {
    UnexpectedAnnotation(InputAnnotationView),
    NoArgumentSource(Seq<char>),
    Value(Seq<char>, ArgumentFailure),
}

/// Whether an error is the one reported for a failure.
pub open spec fn model_arguments_error(e: Error, field: Seq<char>, f: ModelArgumentsFailure) -> bool {
    match f {
        ModelArgumentsFailure::UnexpectedAnnotation(a) => unexpected_annotation(e, a),
        ModelArgumentsFailure::NoArgumentSource(a) => e matches Error::InternalError(
            InternalError::Developer(InternalDeveloperError::NoArgumentSource { field_name, argument_name }),
        ) && field_name@ == field && argument_name@ == a,
        ModelArgumentsFailure::Value(a, g) => argument_error(e, a, g),
    }
}

/// The arguments of the first `n` argument fields, each under the name of the
/// collection argument it maps to, as literal values. A later argument with
/// the same collection argument replaces an earlier one.
pub open spec fn model_arguments(
    args: Seq<InputField>,
    n: int,
    tm: Seq<(Qualified<CustomTypeName>, TypeMapping)>,
) -> Result<Seq<(Seq<char>, ArgumentView)>, ModelArgumentsFailure>
    decreases n,
{
    if n <= 0 || n > args.len() {
        Ok(Seq::empty())
    } else {
        match model_arguments(args, n - 1, tm) {
            Err(f) => Err(f),
            Ok(acc) => {
                let a = args[n - 1];
                match a.info {
                    InputAnnotation::ModelArgument { argument_type, ndc_table_argument } => match ndc_table_argument {
                        None => Err(ModelArgumentsFailure::NoArgumentSource(a.name@)),
                        Some(t) => match argument_json(argument_type@, a.value, tm) {
                            Ok(j) => Ok(upsert(acc, t@, ArgumentView::Literal(j))),
                            Err(g) => Err(ModelArgumentsFailure::Value(a.name@, g)),
                        },
                    },
                    _ => Err(ModelArgumentsFailure::UnexpectedAnnotation(a.info@)),
                }
            },
        }
    }
}

proof fn lemma_model_arguments_failure_persists(
    args: Seq<InputField>,
    tm: Seq<(Qualified<CustomTypeName>, TypeMapping)>,
    k: int,
    n: int,
)
    requires
        1 <= k <= n <= args.len(),
        model_arguments(args, k, tm) is Err,
    ensures
        model_arguments(args, n, tm) == model_arguments(args, k, tm),
    decreases n - k,
{
    if k < n {
        lemma_model_arguments_failure_persists(args, tm, k, n - 1);
    }
}

/// The fields that a sequence of references points to.
pub open spec fn deref_fields(s: Seq<&InputField>) -> Seq<InputField> {
    Seq::new(s.len(), |i: int| *s[i])
}

/// The arguments of a model field, under the names of the collection
/// arguments they map to.
pub fn build_ndc_model_arguments(
    model_operation_field: &String,
    arguments: &Vec<&InputField>,
    model_type_mappings: &Vec<(Qualified<CustomTypeName>, TypeMapping)>,
) -> (r: Result<Vec<(String, Argument)>, Error>)
    ensures
        match model_arguments(deref_fields(arguments@), arguments.len() as int, model_type_mappings@) {
            Ok(xs) => r matches Ok(v) && entries_view(v@) == xs,
            Err(f) => r matches Err(e) && model_arguments_error(e, model_operation_field@, f),
        },
        r matches Ok(v) ==> entries_distinct(entries_view(v@)),
{
    let mut out: Vec<(String, Argument)> = Vec::new();
    assert(entries_view(out@) =~= Seq::<(Seq<char>, ArgumentView)>::empty());
    let mut i: usize = 0;
    while i < arguments.len()
        invariant
            i <= arguments.len(),
            model_arguments(deref_fields(arguments@), i as int, model_type_mappings@) == Ok::<
                Seq<(Seq<char>, ArgumentView)>,
                ModelArgumentsFailure,
            >(entries_view(out@)),
            entries_distinct(entries_view(out@)),
        decreases arguments.len() - i,
    {
        let argument: &InputField = arguments[i];
        assert(deref_fields(arguments@)[i as int] == *argument);
        let (argument_type, ndc_table_argument) = match &argument.info {
            InputAnnotation::ModelArgument { argument_type, ndc_table_argument } => (
                argument_type,
                ndc_table_argument,
            ),
            _ => {
                proof {
                    lemma_model_arguments_failure_persists(
                        deref_fields(arguments@),
                        model_type_mappings@,
                        i + 1,
                        arguments.len() as int,
                    );
                }
                return Err(Error::engine(InternalEngineError::UnexpectedAnnotation { annotation: crate::schema::normalized::Annotation::Input(arguments[i].info.duplicate()) }));
            },
        };
        let target = match ndc_table_argument {
            Some(t) => t.clone(),
            None => {
                proof {
                    lemma_model_arguments_failure_persists(
                        deref_fields(arguments@),
                        model_type_mappings@,
                        i + 1,
                        arguments.len() as int,
                    );
                }
                return Err(
                    Error::developer(
                        InternalDeveloperError::NoArgumentSource {
                            field_name: model_operation_field.clone(),
                            argument_name: argument.name.clone(),
                        },
                    ),
                );
            },
        };
        let value = match map_argument_value_to_ndc_type(
            &argument.name,
            argument_type,
            &argument.value,
            model_type_mappings,
        ) {
            Ok(v) => v,
            Err(e) => {
                proof {
                    lemma_model_arguments_failure_persists(
                        deref_fields(arguments@),
                        model_type_mappings@,
                        i + 1,
                        arguments.len() as int,
                    );
                }
                return Err(e);
            },
        };
        set_entry(&mut out, target, Argument::Literal { value });
        i = i + 1;
    }
    Ok(out)
}

/// The `args` input field of a model field, of the model's arguments input
/// type; an error where the model has none.
pub fn get_model_arguments_input_field(builder: &mut Builder, model: &Model) -> (r: Result<
    SchemaInputField,
    SchemaError,
>)
    ensures
        match model.graphql_api.arguments_input_type {
            None => r matches Err(SchemaError::NoArgumentsInputTypeForSelectMany { model_name })
                && model_name@ == model.name@ && final(builder).registered() == old(builder).registered(),
            Some(t) => r matches Ok(f) && f.name@ == "args"@ && f.info
                == InputAnnotation::ModelArgumentsExpression && f.field_type@ == (TypeContainerView {
                base: BaseTypeView::Named(t@),
                nullable: false,
            }) && final(builder).registered() == old(builder).registered().push(
                TypeIdView::ModelArgumentsInput(model.name@, t@),
            ),
        },
{
    match &model.graphql_api.arguments_input_type {
        None => Err(SchemaError::NoArgumentsInputTypeForSelectMany { model_name: model.name.duplicate() }),
        Some(arguments_input_type) => {
            builder.register_type(
                TypeId::ModelArgumentsInput {
                    model_name: model.name.duplicate(),
                    graphql_type_name: arguments_input_type.clone(),
                },
            );
            Ok(
                SchemaInputField {
                    name: String::from_str("args"),
                    info: InputAnnotation::ModelArgumentsExpression,
                    field_type: TypeContainer::named_non_null(RegisteredTypeName(arguments_input_type.clone())),
                },
            )
        },
    }
}

/// Why an input field could not be built.
pub enum FieldFailure {
    InvalidName(Seq<char>),
    Type(TypeFailure),
}

/// Whether an error is the one reported for a failure.
pub open spec fn field_failure_error(e: SchemaError, f: FieldFailure) -> bool {
    match f {
        FieldFailure::InvalidName(n) => e matches SchemaError::InvalidGraphQlName { name } && name@ == n,
        FieldFailure::Type(t) => type_error(e, t),
    }
}

/// The collection argument a model argument maps to, where the model has a
/// source that maps it.
pub open spec fn argument_source(model: Model, a: Seq<char>) -> Option<Seq<char>> {
    match model.source {
        None => None,
        Some(src) => if has_key(src.argument_mappings@, a) {
            Some(src.argument_mappings@[first_key(src.argument_mappings@, a)].1@)
        } else {
            None
        },
    }
}

/// The input fields for the first `n` arguments of a model: each under its
/// name, of the input type of the argument, seen by every role; with the types
/// registered for them, or the failure with the types registered before it.
pub open spec fn model_argument_fields(
    types: Seq<(Qualified<CustomTypeName>, TypeRepresentation)>,
    model: Model,
    n: int,
) -> Result<
    (Seq<(Seq<char>, NamespacedView<InputFieldView>)>, Seq<TypeIdView>),
    (FieldFailure, Seq<TypeIdView>),
>
    decreases n,
{
    if n <= 0 || n > model.arguments.len() {
        Ok((Seq::empty(), Seq::empty()))
    } else {
        match model_argument_fields(types, model, n - 1) {
            Err(f) => Err(f),
            Ok((acc, ids)) => {
                let a = model.arguments@[n - 1].0@;
                let t = model.arguments@[n - 1].1;
                if !is_graphql_name(a) {
                    Err((FieldFailure::InvalidName(a), ids))
                } else {
                    match input_type_ids(types, t@) {
                        Err(f) => Err((FieldFailure::Type(f), ids)),
                        Ok((c, more)) => {
                            let field = NamespacedView {
                                data: InputFieldView {
                                    name: a,
                                    info: InputAnnotationView::ModelArgument(t@, argument_source(model, a)),
                                    field_type: c,
                                },
                                visibility: VisibilityView::AllowAll(None),
                            };
                            Ok((upsert(acc, a, field), ids + more))
                        },
                    }
                }
            },
        }
    }
}

proof fn lemma_argument_fields_failure_persists(
    types: Seq<(Qualified<CustomTypeName>, TypeRepresentation)>,
    model: Model,
    k: int,
    n: int,
)
    requires
        1 <= k <= n <= model.arguments.len(),
        model_argument_fields(types, model, k) is Err,
    ensures
        model_argument_fields(types, model, n) == model_argument_fields(types, model, k),
    decreases n - k,
{
    if k < n {
        lemma_argument_fields_failure_persists(types, model, k, n - 1);
    }
}

/// The collection argument a model argument maps to.
fn ndc_table_argument(model: &Model, argument_name: &ArgumentName) -> (r: Option<String>)
    ensures
        match r {
            Some(t) => argument_source(*model, argument_name@) == Some(t@),
            None => argument_source(*model, argument_name@) is None,
        },
{
    match &model.source {
        None => None,
        Some(src) => match find_key(&src.argument_mappings, argument_name) {
            Some(i) => {
                proof {
                    lemma_first_key_unique(src.argument_mappings@, argument_name@, i as int);
                }
                Some(src.argument_mappings[i].1.clone())
            },
            None => None,
        },
    }
}

/// The input fields of the arguments of a model, each under its name.
pub fn build_model_argument_fields(types: &Types, builder: &mut Builder, model: &Model) -> (r: Result<
    Vec<(String, Namespaced<SchemaInputField>)>,
    SchemaError,
>)
    ensures
        match model_argument_fields(types@, *model, model.arguments.len() as int) {
            Ok((fields, ids)) => r matches Ok(v) && entries_view(v@) == fields && final(builder).registered()
                == old(builder).registered() + ids,
            Err((f, ids)) => r matches Err(e) && field_failure_error(e, f) && final(builder).registered()
                == old(builder).registered() + ids,
        },
        r matches Ok(v) ==> entries_distinct(entries_view(v@)),
{
    let ghost start = builder.registered();
    let mut fields: Vec<(String, Namespaced<SchemaInputField>)> = Vec::new();
    assert(entries_view(fields@) =~= Seq::<(Seq<char>, NamespacedView<InputFieldView>)>::empty());
    assert(start + Seq::<TypeIdView>::empty() =~= start);
    let args = &model.arguments;
    let mut i: usize = 0;
    while i < args.len()
        invariant
            i <= args.len(),
            args@ == model.arguments@,
            start == old(builder).registered(),
            model_argument_fields(types@, *model, i as int) matches Ok((acc, ids)) && acc == entries_view(
                fields@,
            ) && builder.registered() == start + ids,
            entries_distinct(entries_view(fields@)),
        decreases args.len() - i,
    {
        let ghost prev = model_argument_fields(types@, *model, i as int);
        let (argument_name, argument_type) = (&args[i].0, &args[i].1);
        let name = match mk_name(argument_name.0.as_str()) {
            Ok(n) => n,
            Err(_) => {
                proof {
                    lemma_argument_fields_failure_persists(types@, *model, i + 1, args.len() as int);
                }
                return Err(SchemaError::InvalidGraphQlName { name: argument_name.0.clone() });
            },
        };
        let input_type = match get_input_type(types, builder, argument_type) {
            Ok(t) => t,
            Err(e) => {
                proof {
                    lemma_argument_fields_failure_persists(types@, *model, i + 1, args.len() as int);
                }
                return Err(e);
            },
        };
        let field = SchemaInputField {
            name: name.clone(),
            info: InputAnnotation::ModelArgument {
                argument_type: argument_type.duplicate(),
                ndc_table_argument: ndc_table_argument(model, argument_name),
            },
            field_type: input_type,
        };
        let namespaced = builder.allow_all_namespaced(field, None);
        proof {
            let ids = prev->Ok_0.1;
            let more = input_type_ids(types@, argument_type@)->Ok_0.1;
            assert(start + (ids + more) =~= (start + ids) + more);
        }
        set_entry(&mut fields, name, namespaced);
        i = i + 1;
    }
    Ok(fields)
}

/// The input object type of a model's arguments, named `name_of_type`.
pub fn build_model_arguments_input_schema(
    types: &Types,
    models: &Vec<(Qualified<ModelName>, Model)>,
    builder: &mut Builder,
    name_of_type: &String,
    model_name: &Qualified<ModelName>,
) -> (r: Result<TypeInfo, SchemaError>)
    ensures
        if !has_key(models@, model_name@) {
            r matches Err(SchemaError::InternalModelNotFound { model_name: m }) && m@ == model_name@
                && final(builder).registered() == old(builder).registered()
        } else {
            let model = models@[first_key(models@, model_name@)].1;
            match model_argument_fields(types@, model, model.arguments.len() as int) {
                Ok((fields, ids)) => r matches Ok(TypeInfo::InputObject(o)) && o.name@ == name_of_type@
                    && entries_view(o.fields@) == fields && final(builder).registered() == old(
                    builder,
                ).registered() + ids,
                Err((f, ids)) => r matches Err(e) && field_failure_error(e, f)
                    && final(builder).registered() == old(builder).registered() + ids,
            }
        },
        r matches Ok(TypeInfo::InputObject(o)) ==> entries_distinct(entries_view(o.fields@)),
{
    let index = match find_key(models, model_name) {
        Some(index) => index,
        None => {
            return Err(SchemaError::InternalModelNotFound { model_name: model_name.duplicate() });
        },
    };
    proof {
        lemma_first_key_unique(models@, model_name@, index as int);
    }
    let fields = build_model_argument_fields(types, builder, &models[index].1)?;
    Ok(TypeInfo::InputObject(InputObject { name: name_of_type.clone(), fields }))
}

} // verus!
