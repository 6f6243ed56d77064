//! The GraphQL output types of Open DD types.

use vstd::prelude::*;
use vstd::string::*;

use crate::keyed::{lemma_upsert_holds, lemma_upsert_keeps, is_first_key, entries_distinct, entries_view, entry_present, has_entry, find_key, first_key, has_key, lemma_first_key_unique, set_entry, upsert};
use crate::metadata::resolved::model::{FilterView, Model};
use crate::metadata::resolved::relationship::{Relationship, RelationshipMapping, RelationshipTarget};
use crate::metadata::resolved::types::{is_graphql_name, mk_name};
use crate::open_dds::names::{ModelName};
use crate::open_dds::relationships::RelationshipType;
use crate::schema::graphql::{
    GlobalIdFields, Object, TypeInfo,
    mappings_view, FieldView, ModelRelationshipAnnotation, Namespaced, NamespacedView, OutputAnnotation,
    OutputAnnotationView, RelationshipAnnotationView, SchemaField, VisibilityView,
};
use crate::schema::operations::permissions::{
    get_node_interface_annotations, node_roles,
    allowed_roles, get_allowed_roles_for_field, get_relationship_namespace_annotations, may_read_mappings,
    select_annotations,
};
use crate::schema::operations::select_many::{generate_select_many_arguments, select_many_arguments, select_many_registered};
use crate::schema::types::model_filter::without_annotations;
use crate::metadata::resolved::subgraph::{
    Qualified, QualifiedBaseType, QualifiedBaseTypeView, QualifiedTypeName, QualifiedTypeNameView,
    QualifiedTypeReference, QualifiedTypeReferenceView,
};
use crate::metadata::resolved::types::{ObjectTypeRepresentation, TypeRepresentation};
use crate::open_dds::names::Ident;
use crate::open_dds::names::FieldName;
use crate::open_dds::types::{inbuilt_name, CustomTypeName, InbuiltType};
use crate::schema::error::Error;
use crate::metadata::resolved::types::FieldMapping;
use crate::schema::graphql::RootFieldAnnotation;
use crate::schema::normalized::{Annotation, AnnotationView, NormalizedField, NormalizedSelectionSet};
use crate::schema::operations::error::{Error as OperationsError, InternalEngineError, InternalError};
use crate::schema::graphql::{
    base_type_container_for_inbuilt_type, type_id_name, BaseTypeContainer, BaseTypeView, Builder,
    RegisteredTypeName, TypeContainer, TypeContainerView, TypeId, TypeIdView,
};
use crate::text::string_push;

verus! {

/// The resolved types, each under its qualified name.
pub type Types = Vec<(Qualified<CustomTypeName>, TypeRepresentation)>;

/// Why a type has no GraphQL output type.
pub enum TypeFailure {
    NotFound((Seq<char>, Seq<char>)),
    NoOutputTypeName((Seq<char>, Seq<char>)),
    NoScalarTypeName((Seq<char>, Seq<char>)),
    NoInputTypeName((Seq<char>, Seq<char>)),
}

/// Whether an error is the one reported for a failure.
pub open spec fn type_error(e: Error, f: TypeFailure) -> bool {
    match f {
        TypeFailure::NotFound(n) => e matches Error::InternalTypeNotFound { typename } && typename@ == n,
        TypeFailure::NoOutputTypeName(n) => e matches Error::NoGraphQlOutputTypeNameForObject {
            typename,
        } && typename@ == n,
        TypeFailure::NoScalarTypeName(n) => e matches Error::NoGraphQlTypeNameForScalar { typename }
            && typename@ == n,
        TypeFailure::NoInputTypeName(n) => e matches Error::NoGraphQlInputTypeNameForObject {
            typename,
        } && typename@ == n,
    }
}

/// The type a custom type is output as: an object type under its GraphQL
/// output name, or a scalar type under its GraphQL name.
pub open spec fn custom_type_id(
    types: Seq<(Qualified<CustomTypeName>, TypeRepresentation)>,
    name: (Seq<char>, Seq<char>),
) -> Result<TypeIdView, TypeFailure> {
    if !has_key(types, name) {
        Err(TypeFailure::NotFound(name))
    } else {
        match types[first_key(types, name)].1 {
            TypeRepresentation::Object(o) => match o.graphql_output_type_name {
                Some(n) => Ok(TypeIdView::OutputType(name, n@)),
                None => Err(TypeFailure::NoOutputTypeName(name)),
            },
            TypeRepresentation::ScalarType { graphql_type_name } => match graphql_type_name {
                Some(n) => Ok(TypeIdView::ScalarType(name, n@)),
                None => Err(TypeFailure::NoScalarTypeName(name)),
            },
        }
    }
}

/// Registers the output type of a custom type and gives its name.
pub fn get_custom_output_type(
    types: &Types,
    builder: &mut Builder,
    gds_type: &Qualified<CustomTypeName>,
) -> (r: Result<RegisteredTypeName, Error>)
    ensures
        match custom_type_id(types@, gds_type@) {
            Ok(id) => r matches Ok(n) && n@ == type_id_name(id) && final(builder).registered()
                == old(builder).registered().push(id),
            Err(f) => r matches Err(e) && type_error(e, f) && final(builder).registered()
                == old(builder).registered(),
        },
{
    let index = match find_key(types, gds_type) {
        Some(index) => index,
        None => {
            return Err(Error::InternalTypeNotFound { typename: gds_type.duplicate() });
        },
    };
    proof {
        lemma_first_key_unique(types@, gds_type@, index as int);
    }
    match &types[index].1 {
        TypeRepresentation::Object(o) => {
            let n = match &o.graphql_output_type_name {
                Some(n) => n.clone(),
                None => {
                    return Err(Error::NoGraphQlOutputTypeNameForObject { typename: gds_type.duplicate() });
                },
            };
            Ok(builder.register_type(TypeId::OutputType { gds_type_name: gds_type.duplicate(), graphql_type_name: n }))
        },
        TypeRepresentation::ScalarType { graphql_type_name } => {
            let n = match graphql_type_name {
                Some(n) => n.clone(),
                None => {
                    return Err(Error::NoGraphQlTypeNameForScalar { typename: gds_type.duplicate() });
                },
            };
            Ok(builder.register_type(TypeId::ScalarType { gds_type_name: gds_type.duplicate(), graphql_type_name: n }))
        },
    }
}

/// The named type of a type name, with the types registered for it.
pub open spec fn base_type_ids(
    types: Seq<(Qualified<CustomTypeName>, TypeRepresentation)>,
    t: QualifiedTypeNameView,
) -> Result<(BaseTypeView, Seq<TypeIdView>), TypeFailure> {
    match t {
        QualifiedTypeNameView::Inbuilt(i) => Ok((BaseTypeView::Named(inbuilt_name(i)), Seq::empty())),
        QualifiedTypeNameView::Custom(c) => match custom_type_id(types, c) {
            Ok(id) => Ok((BaseTypeView::Named(type_id_name(id)), seq![id])),
            Err(f) => Err(f),
        },
    }
}

/// The named type of a type name.
pub fn get_base_type_container(
    types: &Types,
    builder: &mut Builder,
    name_of_type: &QualifiedTypeName,
) -> (r: Result<BaseTypeContainer, Error>)
    ensures
        match base_type_ids(types@, name_of_type@) {
            Ok((b, ids)) => r matches Ok(c) && c@ == b && final(builder).registered() == old(
                builder,
            ).registered() + ids,
            Err(f) => r matches Err(e) && type_error(e, f) && final(builder).registered() == old(
                builder,
            ).registered(),
        },
{
    match name_of_type {
        QualifiedTypeName::Inbuilt(inbuilt) => {
            assert(builder.registered() + Seq::<TypeIdView>::empty() =~= builder.registered());
            Ok(base_type_container_for_inbuilt_type(inbuilt))
        },
        QualifiedTypeName::Custom(custom) => {
            let ghost before = builder.registered();
            let n = get_custom_output_type(types, builder, custom)?;
            proof {
                let id = custom_type_id(types@, custom@)->Ok_0;
                assert(before.push(id) =~= before + seq![id]);
            }
            Ok(BaseTypeContainer::Named(n))
        },
    }
}

/// The GraphQL output type of a type reference, with the types registered
/// for it.
pub open spec fn output_type_ids(
    types: Seq<(Qualified<CustomTypeName>, TypeRepresentation)>,
    t: QualifiedTypeReferenceView,
) -> Result<(TypeContainerView, Seq<TypeIdView>), TypeFailure>
    decreases t,
{
    match t.underlying_type {
        QualifiedBaseTypeView::Named(n) => match base_type_ids(types, n) {
            Ok((b, ids)) => Ok((TypeContainerView { base: b, nullable: t.nullable }, ids)),
            Err(f) => Err(f),
        },
        QualifiedBaseTypeView::List(inner) => match output_type_ids(types, *inner) {
            Ok((c, ids)) => Ok(
                (TypeContainerView { base: BaseTypeView::List(Box::new(c)), nullable: t.nullable }, ids),
            ),
            Err(f) => Err(f),
        },
    }
}

/// The GraphQL output type of a type reference: nullable where the
/// reference is, and a list where the reference is.
pub fn get_output_type(
    types: &Types,
    builder: &mut Builder,
    gds_type: &QualifiedTypeReference,
) -> (r: Result<TypeContainer, Error>)
    ensures
        match output_type_ids(types@, gds_type@) {
            Ok((c, ids)) => r matches Ok(t) && t@ == c && final(builder).registered() == old(
                builder,
            ).registered() + ids,
            Err(f) => r matches Err(e) && type_error(e, f) && final(builder).registered() == old(
                builder,
            ).registered(),
        },
    decreases gds_type,
{
    match &gds_type.underlying_type {
        QualifiedBaseType::Named(name_of_type) => {
            let base = get_base_type_container(types, builder, name_of_type)?;
            Ok(TypeContainer { base, nullable: gds_type.nullable })
        },
        QualifiedBaseType::List(list_type) => {
            let inner: &QualifiedTypeReference = list_type;
            let output_type = get_output_type(types, builder, inner)?;
            if gds_type.nullable {
                Ok(TypeContainer::list_null(output_type))
            } else {
                Ok(TypeContainer::list_non_null(output_type))
            }
        },
    }
}

/// Registers the Node interface and gives its name.
pub fn node_interface_type(builder: &mut Builder) -> (r: RegisteredTypeName)
    ensures
        final(builder).registered() == old(builder).registered().push(TypeIdView::NodeRoot),
        r@ == "Node"@,
{
    builder.register_type(TypeId::NodeRoot)
}

/// The object type of a custom type; an error where there is no such type or
/// it is a scalar type.
pub fn get_object_type_representation<'s>(
    types: &'s Types,
    gds_type: &Qualified<CustomTypeName>,
) -> (r: Result<&'s ObjectTypeRepresentation, Error>)
    ensures
        if !has_key(types@, gds_type@) {
            r matches Err(Error::InternalTypeNotFound { typename }) && typename@ == gds_type@
        } else {
            match types@[first_key(types@, gds_type@)].1 {
                TypeRepresentation::Object(o) => r == Ok::<&ObjectTypeRepresentation, Error>(&o),
                TypeRepresentation::ScalarType { .. } => r matches Err(
                    Error::ExpectedTypeToBeObject { typename },
                ) && typename@ == gds_type@,
            }
        },
{
    let index = match find_key(types, gds_type) {
        Some(index) => index,
        None => {
            return Err(Error::InternalTypeNotFound { typename: gds_type.duplicate() });
        },
    };
    proof {
        lemma_first_key_unique(types@, gds_type@, index as int);
    }
    match &types[index].1 {
        TypeRepresentation::Object(o) => Ok(o),
        TypeRepresentation::ScalarType { .. } => Err(
            Error::ExpectedTypeToBeObject { typename: gds_type.duplicate() },
        ),
    }
}

/// The alias under which a column read only to join on is selected.
pub fn make_hasura_phantom_field(field_name: &str) -> (r: String)
    ensures
        r@ == "__hasura_phantom_field__"@ + field_name@,
{
    String::from_str("__hasura_phantom_field__").concat(field_name)
}

/// Why the fields of an object type could not be built.
pub enum ObjectFieldFailure {
    InvalidFieldName(Seq<char>),
    Type(TypeFailure),
    ModelNotFound((Seq<char>, Seq<char>)),
    ModelWithArguments,
    TargetTypeNotFound((Seq<char>, Seq<char>)),
    TargetNotObject((Seq<char>, Seq<char>)),
}

/// What is reported for a relationship to a model that takes arguments.
pub open spec fn model_arguments_unsupported() -> Seq<char> {
    "Relationships to models with arguments aren't supported"@
}

/// Whether an error is the one reported for a failure.
pub open spec fn object_field_error(e: Error, f: ObjectFieldFailure) -> bool {
    match f {
        ObjectFieldFailure::InvalidFieldName(n) => e matches Error::InvalidGraphQlName { name } && name@ == n,
        ObjectFieldFailure::Type(t) => type_error(e, t),
        ObjectFieldFailure::ModelNotFound(n) => e matches Error::InternalModelNotFound { model_name }
            && model_name@ == n,
        ObjectFieldFailure::ModelWithArguments => e matches Error::InternalUnsupported { summary }
            && summary@ == model_arguments_unsupported(),
        ObjectFieldFailure::TargetTypeNotFound(n) => e matches Error::InternalTypeNotFound { typename }
            && typename@ == n,
        ObjectFieldFailure::TargetNotObject(n) => e matches Error::ExpectedTypeToBeObject { typename }
            && typename@ == n,
    }
}

/// The output field of a field of an object type: of its GraphQL output
/// type, seen by the roles that may read it.
pub open spec fn scalar_output_field(ot: ObjectTypeRepresentation, name: Seq<char>, t: TypeContainerView) -> NamespacedView<
    FieldView,
> {
    NamespacedView {
        data: FieldView { name, info: OutputAnnotationView::Field(name), field_type: t, arguments: Seq::empty() },
        visibility: VisibilityView::Conditional(
            allowed_roles(ot.type_permissions@, name).map_values(|r: Seq<char>| (r, None::<FilterView>)),
        ),
    }
}

/// The output fields for the first `n` fields of an object type, and the
/// types registered for them; or the failure, with the types registered
/// before it.
pub open spec fn scalar_output_fields(
    types: Seq<(Qualified<CustomTypeName>, TypeRepresentation)>,
    ot: ObjectTypeRepresentation,
    n: int,
) -> Result<
    (Seq<(Seq<char>, NamespacedView<FieldView>)>, Seq<TypeIdView>),
    (ObjectFieldFailure, Seq<TypeIdView>),
>
    decreases n,
{
    if n <= 0 || n > ot.fields.len() {
        Ok((Seq::empty(), Seq::empty()))
    } else {
        match scalar_output_fields(types, ot, n - 1) {
            Err(f) => Err(f),
            Ok((acc, ids)) => {
                let name = ot.fields@[n - 1].0@;
                if !is_graphql_name(name) {
                    Err((ObjectFieldFailure::InvalidFieldName(name), ids))
                } else {
                    match output_type_ids(types, ot.fields@[n - 1].1.field_type@) {
                        Err(f) => Err((ObjectFieldFailure::Type(f), ids)),
                        Ok((t, more)) => Ok((upsert(acc, name, scalar_output_field(ot, name, t)), ids + more)),
                    }
                }
            },
        }
    }
}

/// The output type of a relationship field: a nullable list of the target
/// type for an array, the nullable target type for an object.
pub open spec fn relationship_output_type(rt: RelationshipType, name: Seq<char>) -> TypeContainerView {
    match rt {
        RelationshipType::Array => TypeContainerView {
            base: BaseTypeView::List(Box::new(TypeContainerView { base: BaseTypeView::Named(name), nullable: false })),
            nullable: true,
        },
        RelationshipType::Object => TypeContainerView { base: BaseTypeView::Named(name), nullable: true },
    }
}

/// The output field of a relationship to a model: the select-many arguments
/// for an array, seen by the roles that may select from the model and read
/// both fields of each mapping.
pub open spec fn relationship_output_field(
    rel: Relationship,
    field_name: Seq<char>,
    model_name: (Seq<char>, Seq<char>),
    rt: RelationshipType,
    model: Model,
    ot: ObjectTypeRepresentation,
    target: ObjectTypeRepresentation,
    target_name: Seq<char>,
) -> NamespacedView<FieldView> {
    NamespacedView {
        data: FieldView {
            name: field_name,
            info: OutputAnnotationView::RelationshipToModel(
                RelationshipAnnotationView {
                    source_type: rel.source@,
                    relationship_name: rel.name@,
                    model_name,
                    target_type: rel.target_typename@,
                    relationship_type: rt,
                    mappings: mappings_view(rel.mappings@),
                },
            ),
            field_type: relationship_output_type(rt, target_name),
            arguments: match rt {
                RelationshipType::Array => select_many_arguments(model),
                RelationshipType::Object => Seq::empty(),
            },
        },
        visibility: VisibilityView::Conditional(
            select_annotations(model).filter(
                |a: (Seq<char>, Option<FilterView>)| may_read_mappings(ot, target, rel.mappings@, a.0),
            ),
        ),
    }
}

/// The fields for the first `n` relationships of an object type, set over
/// `base`, and the types registered for them; or the failure, with the types
/// registered before it.
pub open spec fn relationship_output_fields(
    types: Seq<(Qualified<CustomTypeName>, TypeRepresentation)>,
    models: Seq<(Qualified<ModelName>, Model)>,
    ot: ObjectTypeRepresentation,
    n: int,
    base: Seq<(Seq<char>, NamespacedView<FieldView>)>,
) -> Result<
    (Seq<(Seq<char>, NamespacedView<FieldView>)>, Seq<TypeIdView>),
    (ObjectFieldFailure, Seq<TypeIdView>),
>
    decreases n,
{
    if n <= 0 || n > ot.relationships.len() {
        Ok((base, Seq::empty()))
    } else {
        match relationship_output_fields(types, models, ot, n - 1, base) {
            Err(f) => Err(f),
            Ok((acc, ids)) => {
                let field_name = ot.relationships@[n - 1].0@;
                let rel = ot.relationships@[n - 1].1;
                match custom_type_id(types, rel.target_typename@) {
                    Err(f) => Err((ObjectFieldFailure::Type(f), ids)),
                    Ok(tid) => {
                        let ids1 = ids.push(tid);
                        match rel.target {
                            RelationshipTarget::Model { model_name, relationship_type } => {
                                if !has_key(models, model_name@) {
                                    Err((ObjectFieldFailure::ModelNotFound(model_name@), ids1))
                                } else {
                                    let model = models[first_key(models, model_name@)].1;
                                    if model.arguments.len() > 0 {
                                        Err((ObjectFieldFailure::ModelWithArguments, ids1))
                                    } else {
                                        let ids2 = match relationship_type {
                                            RelationshipType::Array => ids1 + select_many_registered(model),
                                            RelationshipType::Object => ids1,
                                        };
                                        let dt = model.data_type@;
                                        if !has_key(types, dt) {
                                            Err((ObjectFieldFailure::TargetTypeNotFound(dt), ids2))
                                        } else {
                                            match types[first_key(types, dt)].1 {
                                                TypeRepresentation::ScalarType { .. } => Err(
                                                    (ObjectFieldFailure::TargetNotObject(dt), ids2),
                                                ),
                                                TypeRepresentation::Object(target) => Ok(
                                                    (
                                                        upsert(
                                                            acc,
                                                            field_name,
                                                            relationship_output_field(
                                                                rel,
                                                                field_name,
                                                                model_name@,
                                                                relationship_type,
                                                                model,
                                                                ot,
                                                                target,
                                                                type_id_name(tid),
                                                            ),
                                                        ),
                                                        ids2,
                                                    ),
                                                ),
                                            }
                                        }
                                    }
                                }
                            },
                        }
                    },
                }
            },
        }
    }
}

/// The output fields of an object type: one for each of its fields, then one
/// for each relationship, a later one taking the place of an earlier one of
/// the same name; and the types registered for them. Or the failure, with
/// the types registered before it.
pub open spec fn object_fields(
    types: Seq<(Qualified<CustomTypeName>, TypeRepresentation)>,
    models: Seq<(Qualified<ModelName>, Model)>,
    ot: ObjectTypeRepresentation,
) -> Result<
    (Seq<(Seq<char>, NamespacedView<FieldView>)>, Seq<TypeIdView>),
    (ObjectFieldFailure, Seq<TypeIdView>),
> {
    match scalar_output_fields(types, ot, ot.fields.len() as int) {
        Err(f) => Err(f),
        Ok((fs, ids)) => match relationship_output_fields(types, models, ot, ot.relationships.len() as int, fs) {
            Err((f, more)) => Err((f, ids + more)),
            Ok((all, more)) => Ok((all, ids + more)),
        },
    }
}

proof fn lemma_scalar_output_fields_failure_persists(
    types: Seq<(Qualified<CustomTypeName>, TypeRepresentation)>,
    ot: ObjectTypeRepresentation,
    k: int,
    n: int,
)
    requires
        1 <= k <= n <= ot.fields.len(),
        scalar_output_fields(types, ot, k) is Err,
    ensures
        scalar_output_fields(types, ot, n) == scalar_output_fields(types, ot, k),
    decreases n - k,
{
    if k < n {
        lemma_scalar_output_fields_failure_persists(types, ot, k, n - 1);
    }
}

proof fn lemma_relationship_output_fields_failure_persists(
    types: Seq<(Qualified<CustomTypeName>, TypeRepresentation)>,
    models: Seq<(Qualified<ModelName>, Model)>,
    ot: ObjectTypeRepresentation,
    base: Seq<(Seq<char>, NamespacedView<FieldView>)>,
    k: int,
    n: int,
)
    requires
        1 <= k <= n <= ot.relationships.len(),
        relationship_output_fields(types, models, ot, k, base) is Err,
    ensures
        relationship_output_fields(types, models, ot, n, base) == relationship_output_fields(types, models, ot, k, base),
    decreases n - k,
{
    if k < n {
        lemma_relationship_output_fields_failure_persists(types, models, ot, base, k, n - 1);
    }
}

pub(crate) fn copy_mappings(m: &Vec<RelationshipMapping>) -> (r: Vec<RelationshipMapping>)
    ensures
        mappings_view(r@) == mappings_view(m@),
{
    let mut out: Vec<RelationshipMapping> = Vec::new();
    let mut i: usize = 0;
    while i < m.len()
        invariant
            i <= m.len(),
            out.len() == i,
            forall|j: int| 0 <= j < i ==> (#[trigger] out@[j]).source_field.field_name@ == m@[j].source_field.field_name@
                && out@[j].target_field.field_name@ == m@[j].target_field.field_name@,
        decreases m.len() - i,
    {
        out.push(m[i].duplicate());
        i = i + 1;
    }
    assert(mappings_view(out@) =~= mappings_view(m@));
    out
}

fn scalar_fields(
    types: &Types,
    builder: &mut Builder,
    ot: &ObjectTypeRepresentation,
) -> (r: Result<Vec<(String, Namespaced<SchemaField>)>, Error>)
    ensures
        match scalar_output_fields(types@, *ot, ot.fields.len() as int) {
            Ok((fs, ids)) => r matches Ok(v) && entries_view(v@) == fs && entries_distinct(entries_view(v@))
                && final(builder).registered() == old(builder).registered() + ids,
            Err((f, ids)) => r matches Err(e) && object_field_error(e, f) && final(builder).registered()
                == old(builder).registered() + ids,
        },
{
    let ghost start = builder.registered();
    let mut out: Vec<(String, Namespaced<SchemaField>)> = Vec::new();
    assert(entries_view(out@) =~= Seq::<(Seq<char>, NamespacedView<FieldView>)>::empty());
    assert(start + Seq::<TypeIdView>::empty() =~= start);
    let mut i: usize = 0;
    while i < ot.fields.len()
        invariant
            i <= ot.fields.len(),
            start == old(builder).registered(),
            scalar_output_fields(types@, *ot, i as int) matches Ok((acc, ids)) && entries_view(out@) == acc
                && builder.registered() == start + ids,
            entries_distinct(entries_view(out@)),
        decreases ot.fields.len() - i,
    {
        let ghost prev = scalar_output_fields(types@, *ot, i as int);
        let field_name = &ot.fields[i].0;
        let graphql_field_name = match mk_name(field_name.0.as_str()) {
            Ok(n) => n,
            Err(_) => {
                proof {
                    lemma_scalar_output_fields_failure_persists(types@, *ot, i + 1, ot.fields.len() as int);
                }
                return Err(Error::InvalidGraphQlName { name: field_name.0.clone() });
            },
        };
        let field_type = match get_output_type(types, builder, &ot.fields[i].1.field_type) {
            Ok(t) => t,
            Err(e) => {
                proof {
                    lemma_scalar_output_fields_failure_persists(types@, *ot, i + 1, ot.fields.len() as int);
                }
                return Err(e);
            },
        };
        let key = graphql_field_name.clone();
        let field = SchemaField {
            name: graphql_field_name,
            info: OutputAnnotation::Field { name: field_name.duplicate() },
            field_type,
            arguments: Vec::new(),
        };
        let roles = without_annotations(get_allowed_roles_for_field(ot, field_name));
        let namespaced = builder.conditional_namespaced(field, roles);
        proof {
            assert(entries_view(namespaced.data.arguments@) =~= Seq::<(Seq<char>, NamespacedView<crate::schema::graphql::InputFieldView>)>::empty());
        }
        set_entry(&mut out, key, namespaced);
        proof {
            let (acc, ids) = prev->Ok_0;
            let (t, more) = output_type_ids(types@, ot.fields@[i as int].1.field_type@)->Ok_0;
            assert(start + ids + more =~= start + (ids + more));
        }
        i = i + 1;
    }
    Ok(out)
}

fn relationship_fields(
    types: &Types,
    models: &Vec<(Qualified<ModelName>, Model)>,
    builder: &mut Builder,
    ot: &ObjectTypeRepresentation,
    out: &mut Vec<(String, Namespaced<SchemaField>)>,
) -> (r: Result<(), Error>)
    requires
        entries_distinct(entries_view(old(out)@)),
    ensures
        match relationship_output_fields(types@, models@, *ot, ot.relationships.len() as int, entries_view(old(out)@)) {
            Ok((fs, ids)) => r is Ok && entries_view(final(out)@) == fs && entries_distinct(entries_view(final(out)@))
                && final(builder).registered() == old(builder).registered() + ids,
            Err((f, ids)) => r matches Err(e) && object_field_error(e, f) && final(builder).registered()
                == old(builder).registered() + ids,
        },
{
    let ghost start = builder.registered();
    let ghost fs = entries_view(out@);
    assert(start + Seq::<TypeIdView>::empty() =~= start);
    let mut k: usize = 0;
    while k < ot.relationships.len()
        invariant
            k <= ot.relationships.len(),
            start == old(builder).registered(),
            fs == entries_view(old(out)@),
            relationship_output_fields(types@, models@, *ot, k as int, fs) matches Ok((acc, ids)) && entries_view(
                out@,
            ) == acc && builder.registered() == start + ids,
            entries_distinct(entries_view(out@)),
        decreases ot.relationships.len() - k,
    {
        let ghost prev = relationship_output_fields(types@, models@, *ot, k as int, fs);
        let ghost ids = prev->Ok_0.1;
        let rel_field_name = &ot.relationships[k].0;
        let relationship = &ot.relationships[k].1;
        let base = match get_custom_output_type(types, builder, &relationship.target_typename) {
            Ok(n) => n,
            Err(e) => {
                proof {
                    lemma_relationship_output_fields_failure_persists(
                        types@, models@, *ot, fs, k + 1, ot.relationships.len() as int);
                }
                return Err(e);
            },
        };
        let ghost tid = custom_type_id(types@, relationship.target_typename@)->Ok_0;
        match &relationship.target {
            RelationshipTarget::Model { model_name, relationship_type } => {
                let output_type = match relationship_type {
                    RelationshipType::Array => TypeContainer::list_null(TypeContainer::named_non_null(base)),
                    RelationshipType::Object => TypeContainer::named_null(base),
                };
                let index = match find_key(models, model_name) {
                    Some(index) => index,
                    None => {
                        proof {
                            lemma_relationship_output_fields_failure_persists(
                                types@, models@, *ot, fs, k + 1, ot.relationships.len() as int);
                        }
                        return Err(Error::InternalModelNotFound { model_name: model_name.duplicate() });
                    },
                };
                proof {
                    lemma_first_key_unique(models@, model_name@, index as int);
                }
                let model = &models[index].1;
                if model.arguments.len() > 0 {
                    proof {
                        lemma_relationship_output_fields_failure_persists(
                            types@, models@, *ot, fs, k + 1, ot.relationships.len() as int);
                        reveal_strlit("Relationships to models with arguments aren't supported");
                    }
                    return Err(Error::InternalUnsupported {
                        summary: String::from_str("Relationships to models with arguments aren't supported"),
                    });
                }
                let ghost ids2 = match *relationship_type {
                    RelationshipType::Array => ids.push(tid) + select_many_registered(*model),
                    RelationshipType::Object => ids.push(tid),
                };
                let arguments = match relationship_type {
                    RelationshipType::Array => match generate_select_many_arguments(builder, model) {
                        Ok(a) => a,
                        Err(e) => {
                            return Err(e);
                        },
                    },
                    RelationshipType::Object => Vec::new(),
                };
                proof {
                    assert(builder.registered() =~= start + ids2);
                }
                let target = match get_object_type_representation(types, &model.data_type) {
                    Ok(o) => o,
                    Err(e) => {
                        proof {
                            lemma_relationship_output_fields_failure_persists(
                                types@, models@, *ot, fs, k + 1, ot.relationships.len() as int);
                        }
                        return Err(e);
                    },
                };
                let annotation = ModelRelationshipAnnotation {
                    source_type: relationship.source.duplicate(),
                    relationship_name: relationship.name.duplicate(),
                    model_name: model_name.duplicate(),
                    target_type: relationship.target_typename.duplicate(),
                    relationship_type: *relationship_type,
                    mappings: copy_mappings(&relationship.mappings),
                };
                let field = SchemaField {
                    name: rel_field_name.clone(),
                    info: OutputAnnotation::RelationshipToModel(annotation),
                    field_type: output_type,
                    arguments,
                };
                let roles = get_relationship_namespace_annotations(
                    model,
                    ot,
                    target,
                    relationship.mappings.as_slice(),
                );
                let namespaced = builder.conditional_namespaced(field, roles);
                proof {
                    let rel = ot.relationships@[k as int].1;
                    assert(rel == *relationship);
                    assert(index as int == first_key(models@, model_name@));
                    let m = models@[first_key(models@, model_name@)].1;
                    assert(m == *model);
                    let dt = model.data_type@;
                    assert(has_key(types@, dt));
                    assert(types@[first_key(types@, dt)].1 == TypeRepresentation::Object(*target));
                    match *relationship_type {
                        RelationshipType::Array => {},
                        RelationshipType::Object => {
                            assert(entries_view(namespaced.data.arguments@) =~= Seq::<(Seq<char>, NamespacedView<crate::schema::graphql::InputFieldView>)>::empty());
                        },
                    }
                    assert(namespaced.data.field_type@ == relationship_output_type(*relationship_type, type_id_name(tid)));
                    assert(namespaced@ == relationship_output_field(rel, rel_field_name@, model_name@, *relationship_type,
                        m, *ot, *target, type_id_name(tid)));
                }
                set_entry(out, rel_field_name.clone(), namespaced);
            },
        }
        k = k + 1;
    }
    Ok(())
}

/// The output fields of an object type: a field for each of its fields, of
/// its output type and seen by the roles that may read it, and a field for
/// each relationship, leading to the target model's object type and seen by
/// the roles that may select from the model and read both fields of each
/// mapping.
pub fn object_type_fields(
    types: &Types,
    models: &Vec<(Qualified<ModelName>, Model)>,
    builder: &mut Builder,
    object_type_representation: &ObjectTypeRepresentation,
) -> (r: Result<Vec<(String, Namespaced<SchemaField>)>, Error>)
    ensures
        match object_fields(types@, models@, *object_type_representation) {
            Ok((fs, ids)) => r matches Ok(v) && entries_view(v@) == fs && final(builder).registered() == old(
                builder,
            ).registered() + ids,
            Err((f, ids)) => r matches Err(e) && object_field_error(e, f) && final(builder).registered()
                == old(builder).registered() + ids,
        },
        r matches Ok(v) ==> entries_distinct(entries_view(v@)),
{
    let ghost start = builder.registered();
    let mut out = scalar_fields(types, builder, object_type_representation)?;
    let ghost mid = builder.registered();
    let ghost ids0 = scalar_output_fields(types@, *object_type_representation, object_type_representation.fields.len() as int)->Ok_0.1;
    match relationship_fields(types, models, builder, object_type_representation, &mut out) {
        Ok(()) => {},
        Err(e) => {
            proof {
                let more = relationship_output_fields(types@, models@, *object_type_representation,
                    object_type_representation.relationships.len() as int,
                    scalar_output_fields(types@, *object_type_representation, object_type_representation.fields.len() as int)->Ok_0.0)->Err_0.1;
                assert(start + ids0 + more =~= start + (ids0 + more));
            }
            return Err(e);
        },
    }
    proof {
        let more = relationship_output_fields(types@, models@, *object_type_representation,
            object_type_representation.relationships.len() as int,
            scalar_output_fields(types@, *object_type_representation, object_type_representation.fields.len() as int)->Ok_0.0)->Ok_0.1;
        assert(start + ids0 + more =~= start + (ids0 + more));
    }
    Ok(out)
}

/// Why the object type of a type could not be built.
pub enum OutputTypeFailure {
    TypeNotFound((Seq<char>, Seq<char>)),
    Scalar((Seq<char>, Seq<char>)),
    Field(ObjectFieldFailure),
    DuplicateId((Seq<char>, Seq<char>)),
}

/// What is reported for a scalar type asked to be an object type.
pub open spec fn scalar_type_summary(n: (Seq<char>, Seq<char>)) -> Seq<char> {
    "a scalar type "@ + n.1 + " (in subgraph "@ + n.0 + ") mapping to non-scalar GraphQL types"@
}

/// Whether an error is the one reported for a failure.
pub open spec fn output_type_error(e: Error, f: OutputTypeFailure) -> bool {
    match f {
        OutputTypeFailure::TypeNotFound(n) => e matches Error::InternalTypeNotFound { typename } && typename@ == n,
        OutputTypeFailure::Scalar(n) => e matches Error::InternalUnsupported { summary } && summary@
            == scalar_type_summary(n),
        OutputTypeFailure::Field(f) => object_field_error(e, f),
        OutputTypeFailure::DuplicateId(n) => e matches Error::DuplicateFieldNameGeneratedInObjectType {
            field_name,
            typename,
        } && field_name@ == "id"@ && typename@ == n,
    }
}

/// The global `id` field of an object type with global ID fields: a
/// non-null `ID`, seen by the roles that may read all those fields.
pub open spec fn global_id_field(ot: ObjectTypeRepresentation) -> NamespacedView<FieldView> {
    NamespacedView {
        data: FieldView {
            name: "id"@,
            info: OutputAnnotationView::GlobalIDField(ot.global_id_fields@.map_values(|f: FieldName| f@)),
            field_type: TypeContainerView { base: BaseTypeView::Named(inbuilt_name(InbuiltType::ID)), nullable: false },
            arguments: Seq::empty(),
        },
        visibility: VisibilityView::Conditional(node_roles(ot.type_permissions@, ot.global_id_fields@)),
    }
}

/// The fields and interfaces of the object type of a type, and the types
/// registered for them: an object type with global ID fields has the `id`
/// field too and implements the Node interface. Or the failure, with the
/// types registered before it.
pub open spec fn object_type_parts(
    types: Seq<(Qualified<CustomTypeName>, TypeRepresentation)>,
    models: Seq<(Qualified<ModelName>, Model)>,
    gds_type: (Seq<char>, Seq<char>),
) -> Result<
    (Seq<(Seq<char>, NamespacedView<FieldView>)>, Seq<(Seq<char>, NamespacedView<()>)>, Seq<TypeIdView>),
    (OutputTypeFailure, Seq<TypeIdView>),
> {
    if !has_key(types, gds_type) {
        Err((OutputTypeFailure::TypeNotFound(gds_type), Seq::empty()))
    } else {
        match types[first_key(types, gds_type)].1 {
            TypeRepresentation::ScalarType { .. } => Err((OutputTypeFailure::Scalar(gds_type), Seq::empty())),
            TypeRepresentation::Object(ot) => match object_fields(types, models, ot) {
                Err((f, ids)) => Err((OutputTypeFailure::Field(f), ids)),
                Ok((fs, ids)) => if ot.global_id_fields.len() == 0 {
                    Ok((fs, Seq::empty(), ids))
                } else if entry_present(fs, "id"@) {
                    Err((OutputTypeFailure::DuplicateId(gds_type), ids))
                } else {
                    Ok(
                        (
                            fs.push(("id"@, global_id_field(ot))),
                            seq![
                                ("Node"@, NamespacedView {
                                    data: (),
                                    visibility: VisibilityView::Conditional(
                                        node_roles(ot.type_permissions@, ot.global_id_fields@),
                                    ),
                                }),
                            ],
                            ids.push(TypeIdView::NodeRoot),
                        ),
                    )
                },
            },
        }
    }
}

/// The object type of a type under its GraphQL name: its fields, and where
/// it has global ID fields, the global `id` field and the Node interface.
pub fn output_type_schema(
    types: &Types,
    models: &Vec<(Qualified<ModelName>, Model)>,
    builder: &mut Builder,
    gds_type: &Qualified<CustomTypeName>,
    graphql_type_name: &String,
) -> (r: Result<TypeInfo, Error>)
    ensures
        match object_type_parts(types@, models@, gds_type@) {
            Ok((fs, ifs, ids)) => r matches Ok(TypeInfo::Object(o)) && o.name@ == graphql_type_name@
                && entries_view(o.fields@) == fs && entries_view(o.interfaces@) == ifs
                && final(builder).registered() == old(builder).registered() + ids,
            Err((f, ids)) => r matches Err(e) && output_type_error(e, f) && final(builder).registered() == old(
                builder,
            ).registered() + ids,
        },
        r matches Ok(TypeInfo::Object(o)) ==> entries_distinct(entries_view(o.fields@)),
{
    let ghost start = builder.registered();
    assert(start + Seq::<TypeIdView>::empty() =~= start);
    let index = match find_key(types, gds_type) {
        Some(index) => index,
        None => {
            return Err(Error::InternalTypeNotFound { typename: gds_type.duplicate() });
        },
    };
    proof {
        lemma_first_key_unique(types@, gds_type@, index as int);
    }
    match &types[index].1 {
        TypeRepresentation::ScalarType { .. } => {
            let summary = String::from_str("a scalar type ").concat(gds_type.name.0.as_str()).concat(
                " (in subgraph ",
            ).concat(gds_type.subgraph.as_str()).concat(") mapping to non-scalar GraphQL types");
            proof {
                reveal_strlit("a scalar type ");
                reveal_strlit(" (in subgraph ");
                reveal_strlit(") mapping to non-scalar GraphQL types");
            }
            Err(Error::InternalUnsupported { summary })
        },
        TypeRepresentation::Object(ot) => {
            let mut fields = object_type_fields(types, models, builder, ot)?;
            let ghost fs = entries_view(fields@);
            if ot.global_id_fields.len() == 0 {
                let o = Object { name: graphql_type_name.clone(), fields, interfaces: Vec::new() };
                assert(entries_view(o.interfaces@) =~= Seq::<(Seq<char>, NamespacedView<()>)>::empty());
                return Ok(TypeInfo::Object(o));
            }
            let id_type = QualifiedTypeReference {
                underlying_type: QualifiedBaseType::Named(QualifiedTypeName::Inbuilt(InbuiltType::ID)),
                nullable: false,
            };
            let ghost before_id = builder.registered();
            let field_type = match get_output_type(types, builder, &id_type) {
                Ok(t) => t,
                Err(e) => {
                    assert(false);
                    return Err(e);
                },
            };
            assert(builder.registered() =~= before_id);
            if has_entry(&fields, "id") {
                proof {
                    reveal_strlit("id");
                }
                return Err(
                    Error::DuplicateFieldNameGeneratedInObjectType {
                        field_name: String::from_str("id"),
                        typename: gds_type.duplicate(),
                    },
                );
            }
            let id_field = SchemaField {
                name: String::from_str("id"),
                info: OutputAnnotation::GlobalIDField { global_id_fields: GlobalIdFields::of(&ot.global_id_fields) },
                field_type,
                arguments: Vec::new(),
            };
            let namespaced = builder.conditional_namespaced(id_field, get_node_interface_annotations(ot));
            fields.push((String::from_str("id"), namespaced));
            proof {
                reveal_strlit("id");
                let ev = entries_view(fields@);
                assert forall|x: int, y: int| 0 <= x < y < ev.len() implies (#[trigger] ev[x]).0 != (#[trigger] ev[y]).0 by {
                    if y == ev.len() - 1 {
                        assert(ev[x] == fs[x]);
                        if fs[x].0 == "id"@ {
                            assert(entry_present(fs, "id"@));
                        }
                    } else {
                        assert(ev[x] == fs[x] && ev[y] == fs[y]);
                    }
                }
            }
            let node = node_interface_type(builder);
            let mut interfaces: Vec<(String, Namespaced<()>)> = Vec::new();
            interfaces.push((node.0, builder.conditional_namespaced((), get_node_interface_annotations(ot))));
            let o = Object { name: graphql_type_name.clone(), fields, interfaces };
            proof {
                reveal_strlit("id");
                reveal_strlit("ID");
                assert("ID"@ =~= inbuilt_name(InbuiltType::ID));
                assert(entries_view(o.fields@[fs.len() as int].1.data.arguments@) =~= Seq::<(Seq<char>, NamespacedView<crate::schema::graphql::InputFieldView>)>::empty());
                assert(o.fields@[fs.len() as int].1@ == global_id_field(*ot));
                assert(entries_view(o.fields@) =~= fs.push(("id"@, global_id_field(*ot))));
                assert(entries_view(o.interfaces@) =~= seq![
                    ("Node"@, NamespacedView {
                        data: (),
                        visibility: VisibilityView::Conditional(node_roles(ot.type_permissions@, ot.global_id_fields@)),
                    }),
                ]);
            }
            Ok(TypeInfo::Object(o))
        },
    }
}

/// What a field of a result selects: a column, or a relationship whose own
/// selection is read from the field.
#[derive(Debug)]
pub enum FieldSelection<'s> {
    Column { column: String },
    Relationship { field: &'s NormalizedField },
}

/// The abstract value of a field selection.
pub enum FieldSelectionView {
    Column(Seq<char>),
    Relationship(NormalizedField),
}

impl<'s> View for FieldSelection<'s> {
    type V = FieldSelectionView;

    open spec fn view(&self) -> FieldSelectionView {
        match self {
            FieldSelection::Column { column } => FieldSelectionView::Column(column@),
            FieldSelection::Relationship { field } => FieldSelectionView::Relationship(**field),
        }
    }
}

/// The selected fields of a result, each under the alias it is sent as.
#[derive(Debug)]
pub struct ResultSelectionSet<'s> {
    pub fields: Vec<(String, FieldSelection<'s>)>,
}

/// Why a selection set could not be read.
pub enum SelectionFailure {
    InvalidField(Seq<char>),
    InvalidGlobalIdField(Seq<char>),
    NoTypename,
    NoGlobalIdFields(Seq<char>),
    Unexpected(AnnotationView),
}

/// Whether an error is the generic internal error with the description.
pub open spec fn generic_error(e: OperationsError, d: Seq<char>) -> bool {
    e matches OperationsError::InternalError(InternalError::Engine(InternalEngineError::InternalGeneric { description }))
        && description@ == d
}

/// Whether an error is the one reported for a failure.
pub open spec fn selection_error(e: OperationsError, f: SelectionFailure) -> bool {
    match f {
        SelectionFailure::InvalidField(n) => generic_error(e, "invalid field in annotation: "@ + n),
        SelectionFailure::InvalidGlobalIdField(n) => generic_error(e, "invalid global id field in annotation: "@ + n),
        SelectionFailure::NoTypename => generic_error(e, "typename not found while resolving NodeInterfaceId"@),
        SelectionFailure::NoGlobalIdFields(t) => generic_error(e, "Global ID fields not found of the type "@ + t),
        SelectionFailure::Unexpected(a) => e matches OperationsError::InternalError(
            InternalError::Engine(InternalEngineError::UnexpectedAnnotation { annotation }),
        ) && annotation@ == a,
    }
}

/// The alias a global ID field of a field is selected under.
pub open spec fn global_id_col(alias: Seq<char>, field: Seq<char>) -> Seq<char> {
    "hasura_global_id_col_"@ + alias + "_"@ + field
}

/// The alias a global ID field of a field is selected under.
pub fn global_id_col_format(alias: &String, field_name: &FieldName) -> (r: String)
    ensures
        r@ == global_id_col(alias@, field_name@),
{
    proof {
        reveal_strlit("hasura_global_id_col_");
        reveal_strlit("_");
    }
    String::from_str("hasura_global_id_col_").concat(alias.as_str()).concat("_").concat(field_name.0.as_str())
}

/// The columns of the first `n` global ID fields, set over `acc` under their
/// global ID aliases; or the first field without a mapping.
pub open spec fn global_id_columns(
    gid: Seq<FieldName>,
    fm: Seq<(FieldName, FieldMapping)>,
    alias: Seq<char>,
    n: int,
    acc: Seq<(Seq<char>, FieldSelectionView)>,
) -> Result<Seq<(Seq<char>, FieldSelectionView)>, SelectionFailure>
    decreases n,
{
    if n <= 0 || n > gid.len() {
        Ok(acc)
    } else {
        match global_id_columns(gid, fm, alias, n - 1, acc) {
            Err(f) => Err(f),
            Ok(a) => {
                let f = gid[n - 1]@;
                if has_key(fm, f) {
                    Ok(upsert(a, global_id_col(alias, f), FieldSelectionView::Column(fm[first_key(fm, f)].1.column@)))
                } else {
                    Err(SelectionFailure::InvalidGlobalIdField(f))
                }
            },
        }
    }
}

/// The selection of one field of a selection set, set over `acc`; or the
/// failure.
pub open spec fn select_field(
    f: NormalizedField,
    fm: Seq<(FieldName, FieldMapping)>,
    acc: Seq<(Seq<char>, FieldSelectionView)>,
) -> Result<Seq<(Seq<char>, FieldSelectionView)>, SelectionFailure> {
    match f.info {
        Annotation::Output(OutputAnnotation::Field { name }) => if has_key(fm, name@) {
            Ok(upsert(acc, f.alias@, FieldSelectionView::Column(fm[first_key(fm, name@)].1.column@)))
        } else {
            Err(SelectionFailure::InvalidField(name@))
        },
        Annotation::Output(OutputAnnotation::RootField(RootFieldAnnotation::Introspection)) => Ok(acc),
        Annotation::Output(OutputAnnotation::GlobalIDField { global_id_fields }) => global_id_columns(
            global_id_fields.0@,
            fm,
            f.alias@,
            global_id_fields.0.len() as int,
            acc,
        ),
        Annotation::Output(OutputAnnotation::RelayNodeInterfaceID { typename_mappings }) => match f.selection_set.typename {
            None => Err(SelectionFailure::NoTypename),
            Some(t) => if has_key(typename_mappings@, t@) {
                let g = typename_mappings@[first_key(typename_mappings@, t@)].1;
                global_id_columns(g.0@, fm, f.alias@, g.0.len() as int, acc)
            } else {
                Err(SelectionFailure::NoGlobalIdFields(t@))
            },
        },
        Annotation::Output(OutputAnnotation::RelationshipToModel(_)) => Ok(
            upsert(acc, f.alias@, FieldSelectionView::Relationship(f)),
        ),
        _ => Err(SelectionFailure::Unexpected(f.info@)),
    }
}

/// The selections of the first `n` fields of a selection set, a later one
/// under an alias taking the place of an earlier one; or the first failure.
pub open spec fn selection_fields(
    fields: Seq<NormalizedField>,
    fm: Seq<(FieldName, FieldMapping)>,
    n: int,
) -> Result<Seq<(Seq<char>, FieldSelectionView)>, SelectionFailure>
    decreases n,
{
    if n <= 0 || n > fields.len() {
        Ok(Seq::empty())
    } else {
        match selection_fields(fields, fm, n - 1) {
            Err(f) => Err(f),
            Ok(acc) => select_field(fields[n - 1], fm, acc),
        }
    }
}

/// Two global ID aliases of one field are the same only for the same
/// global ID field.
proof fn lemma_global_id_col_injective(alias: Seq<char>, f1: Seq<char>, f2: Seq<char>)
    requires
        global_id_col(alias, f1) == global_id_col(alias, f2),
    ensures
        f1 == f2,
{
    let x = "hasura_global_id_col_"@ + alias + "_"@;
    assert(global_id_col(alias, f1) == x + f1);
    assert(global_id_col(alias, f2) == x + f2);
    assert((x + f1).len() == (x + f2).len());
    assert forall|i: int| 0 <= i < f1.len() implies f1[i] == f2[i] by {
        assert((x + f1)[x.len() + i] == f1[i]);
        assert((x + f2)[x.len() + i] == f2[i]);
    }
    assert(f1 =~= f2);
}

/// The global ID columns of the first `n` global ID fields: they are found
/// exactly when each of those fields has a column, and then each field is
/// selected under its global ID alias as its own column.
proof fn lemma_global_id_columns(
    gid: Seq<FieldName>,
    fm: Seq<(FieldName, FieldMapping)>,
    alias: Seq<char>,
    n: int,
    acc: Seq<(Seq<char>, FieldSelectionView)>,
)
    requires
        0 <= n <= gid.len(),
    ensures
        (global_id_columns(gid, fm, alias, n, acc) is Ok) <==> (forall|i: int| 0 <= i < n ==> has_key(fm, (#[trigger] gid[i])@)),
        global_id_columns(gid, fm, alias, n, acc) matches Ok(s) ==> forall|i: int, j: int|
            #![trigger gid[i], fm[j]]
            0 <= i < n && is_first_key(fm, gid[i]@, j) ==> s.contains(
                (global_id_col(alias, gid[i]@), FieldSelectionView::Column(fm[j].1.column@)),
            ),
    decreases n,
{
    if n > 0 {
        lemma_global_id_columns(gid, fm, alias, n - 1, acc);
        let prev = global_id_columns(gid, fm, alias, n - 1, acc);
        let f = gid[n - 1]@;
        if prev is Ok && has_key(fm, f) {
            let a = prev->Ok_0;
            let key = global_id_col(alias, f);
            let val = FieldSelectionView::Column(fm[first_key(fm, f)].1.column@);
            let s = upsert(a, key, val);
            lemma_upsert_holds(a, key, val);
            assert forall|i: int| 0 <= i < n implies has_key(fm, (#[trigger] gid[i])@) by {
                if i == n - 1 {
                }
            }
            assert forall|i: int, j: int|
                #![trigger gid[i], fm[j]]
                0 <= i < n && is_first_key(fm, gid[i]@, j) implies s.contains(
                (global_id_col(alias, gid[i]@), FieldSelectionView::Column(fm[j].1.column@)),
            ) by {
                lemma_first_key_unique(fm, gid[i]@, j);
                if i < n - 1 {
                    let e = (global_id_col(alias, gid[i]@), FieldSelectionView::Column(fm[j].1.column@));
                    assert(a.contains(e));
                    if e.0 != key {
                        lemma_upsert_keeps(a, key, val, e);
                    } else {
                        lemma_global_id_col_injective(alias, gid[i]@, f);
                    }
                }
            }
        } else if prev is Ok {
            assert(!has_key(fm, gid[n - 1]@));
        } else {
            let i = choose|i: int| 0 <= i < n - 1 && !has_key(fm, (#[trigger] gid[i])@);
            assert(0 <= i < n && !has_key(fm, gid[i]@));
        }
    }
}

/// Law: the `id` field of the Node interface selects the global ID columns
/// of the selection set's own type, whose global ID fields are looked up by
/// that type's name in the typename mappings (at the first entry with that
/// name, position `k`): it succeeds exactly when each of those fields has a
/// column, and then selects each of them, under its global ID alias, as its
/// own column.
pub proof fn law_node_id_selects_own_type_columns(
    f: NormalizedField,
    fm: Seq<(FieldName, FieldMapping)>,
    acc: Seq<(Seq<char>, FieldSelectionView)>,
    tm: Vec<(String, GlobalIdFields)>,
    t: String,
    k: int,
)
    requires
        f.info == Annotation::Output(OutputAnnotation::RelayNodeInterfaceID { typename_mappings: tm }),
        f.selection_set.typename == Some(t),
        is_first_key(tm@, t@, k),
    ensures
        (select_field(f, fm, acc) is Ok) <==> (forall|i: int|
            0 <= i < tm@[k].1.0.len() ==> has_key(fm, (#[trigger] tm@[k].1.0@[i])@)),
        select_field(f, fm, acc) matches Ok(s) ==> forall|i: int, j: int|
            #![trigger tm@[k].1.0@[i], fm[j]]
            0 <= i < tm@[k].1.0.len() && is_first_key(fm, tm@[k].1.0@[i]@, j) ==> s.contains(
                (global_id_col(f.alias@, tm@[k].1.0@[i]@), FieldSelectionView::Column(fm[j].1.column@)),
            ),
{
    lemma_first_key_unique(tm@, t@, k);
    let g = tm@[k].1;
    lemma_global_id_columns(g.0@, fm, f.alias@, g.0.len() as int, acc);
}

/// Law: a field of an object type is selected, under its alias, as the
/// column its field maps to (at the first mapping of that field, position
/// `j`); a field without a mapping cannot be selected.
pub proof fn law_field_selects_its_column(
    f: NormalizedField,
    name: FieldName,
    fm: Seq<(FieldName, FieldMapping)>,
    acc: Seq<(Seq<char>, FieldSelectionView)>,
)
    requires
        f.info == Annotation::Output(OutputAnnotation::Field { name }),
    ensures
        (select_field(f, fm, acc) is Ok) <==> has_key(fm, name@),
        forall|j: int|
            #![trigger fm[j]]
            is_first_key(fm, name@, j) ==> (select_field(f, fm, acc) matches Ok(s) && s.contains(
                (f.alias@, FieldSelectionView::Column(fm[j].1.column@)),
            )),
{
    assert forall|j: int|
        #![trigger fm[j]]
        is_first_key(fm, name@, j) implies (select_field(f, fm, acc) matches Ok(s) && s.contains(
            (f.alias@, FieldSelectionView::Column(fm[j].1.column@)),
        )) by {
        lemma_first_key_unique(fm, name@, j);
        lemma_upsert_holds(acc, f.alias@, FieldSelectionView::Column(fm[j].1.column@));
    }
}

/// Law: a global ID field selects each of its global ID fields, under its
/// global ID alias, as that field's own column; it can be selected exactly
/// when each of those fields has a column.
pub proof fn law_global_id_field_selects_columns(
    f: NormalizedField,
    g: GlobalIdFields,
    fm: Seq<(FieldName, FieldMapping)>,
    acc: Seq<(Seq<char>, FieldSelectionView)>,
)
    requires
        f.info == Annotation::Output(OutputAnnotation::GlobalIDField { global_id_fields: g }),
    ensures
        (select_field(f, fm, acc) is Ok) <==> (forall|i: int| 0 <= i < g.0.len() ==> has_key(fm, (#[trigger] g.0@[i])@)),
        select_field(f, fm, acc) matches Ok(s) ==> forall|i: int, j: int|
            #![trigger g.0@[i], fm[j]]
            0 <= i < g.0.len() && is_first_key(fm, g.0@[i]@, j) ==> s.contains(
                (global_id_col(f.alias@, g.0@[i]@), FieldSelectionView::Column(fm[j].1.column@)),
            ),
{
    lemma_global_id_columns(g.0@, fm, f.alias@, g.0.len() as int, acc);
}

proof fn lemma_global_id_columns_failure_persists(
    gid: Seq<FieldName>,
    fm: Seq<(FieldName, FieldMapping)>,
    alias: Seq<char>,
    acc: Seq<(Seq<char>, FieldSelectionView)>,
    k: int,
    n: int,
)
    requires
        1 <= k <= n <= gid.len(),
        global_id_columns(gid, fm, alias, k, acc) is Err,
    ensures
        global_id_columns(gid, fm, alias, n, acc) == global_id_columns(gid, fm, alias, k, acc),
    decreases n - k,
{
    if k < n {
        lemma_global_id_columns_failure_persists(gid, fm, alias, acc, k, n - 1);
    }
}

proof fn lemma_selection_failure_persists(
    fields: Seq<NormalizedField>,
    fm: Seq<(FieldName, FieldMapping)>,
    k: int,
    n: int,
)
    requires
        1 <= k <= n <= fields.len(),
        selection_fields(fields, fm, k) is Err,
    ensures
        selection_fields(fields, fm, n) == selection_fields(fields, fm, k),
    decreases n - k,
{
    if k < n {
        lemma_selection_failure_persists(fields, fm, k, n - 1);
    }
}

fn build_global_id_fields<'s>(
    global_id_fields: &Vec<FieldName>,
    field_mappings: &Vec<(FieldName, FieldMapping)>,
    field_alias: &String,
    fields: &mut Vec<(String, FieldSelection<'s>)>,
) -> (r: Result<(), OperationsError>)
    requires
        entries_distinct(entries_view(old(fields)@)),
    ensures
        match global_id_columns(global_id_fields@, field_mappings@, field_alias@, global_id_fields.len() as int, entries_view(old(fields)@)) {
            Ok(a) => r is Ok && entries_view(final(fields)@) == a && entries_distinct(entries_view(final(fields)@)),
            Err(f) => r matches Err(e) && selection_error(e, f),
        },
{
    let ghost base = entries_view(fields@);
    let mut i: usize = 0;
    while i < global_id_fields.len()
        invariant
            i <= global_id_fields.len(),
            base == entries_view(old(fields)@),
            global_id_columns(global_id_fields@, field_mappings@, field_alias@, i as int, base) == Ok::<
                Seq<(Seq<char>, FieldSelectionView)>,
                SelectionFailure,
            >(entries_view(fields@)),
            entries_distinct(entries_view(fields@)),
        decreases global_id_fields.len() - i,
    {
        let field_name = &global_id_fields[i];
        let k = match find_key(field_mappings, field_name) {
            Some(k) => k,
            None => {
                proof {
                    lemma_global_id_columns_failure_persists(
                        global_id_fields@, field_mappings@, field_alias@, base, i + 1, global_id_fields.len() as int);
                    reveal_strlit("invalid global id field in annotation: ");
                }
                let description = String::from_str("invalid global id field in annotation: ").concat(field_name.0.as_str());
                return Err(OperationsError::engine(InternalEngineError::InternalGeneric { description }));
            },
        };
        proof {
            lemma_first_key_unique(field_mappings@, field_name@, k as int);
        }
        let alias = global_id_col_format(field_alias, field_name);
        set_entry(fields, alias, FieldSelection::Column { column: field_mappings[k].1.column.clone() });
        i = i + 1;
    }
    Ok(())
}

/// The selection IR of a normalized selection set: each field under its
/// alias, as the column its field maps to, the columns of its global ID
/// fields under their global ID aliases, or the relationship it follows;
/// introspection fields select nothing. The aliases are distinct.
pub fn generate_selection_set_ir<'s>(
    selection_set: &'s NormalizedSelectionSet,
    field_mappings: &Vec<(FieldName, FieldMapping)>,
) -> (r: Result<ResultSelectionSet<'s>, OperationsError>)
    ensures
        match selection_fields(selection_set.fields@, field_mappings@, selection_set.fields.len() as int) {
            Ok(fs) => r matches Ok(s) && entries_view(s.fields@) == fs && entries_distinct(entries_view(s.fields@)),
            Err(f) => r matches Err(e) && selection_error(e, f),
        },
{
    let sel = &selection_set.fields;
    let mut fields: Vec<(String, FieldSelection<'s>)> = Vec::new();
    assert(entries_view(fields@) =~= Seq::<(Seq<char>, FieldSelectionView)>::empty());
    let mut i: usize = 0;
    while i < sel.len()
        invariant
            i <= sel.len(),
            sel@ == selection_set.fields@,
            selection_fields(sel@, field_mappings@, i as int) == Ok::<Seq<(Seq<char>, FieldSelectionView)>, SelectionFailure>(
                entries_view(fields@),
            ),
            entries_distinct(entries_view(fields@)),
        decreases sel.len() - i,
    {
        let field: &'s NormalizedField = &sel[i];
        let ghost acc = entries_view(fields@);
        let step: Result<(), OperationsError> = match &field.info {
            Annotation::Output(OutputAnnotation::Field { name }) => match find_key(field_mappings, name) {
                Some(k) => {
                    proof {
                        lemma_first_key_unique(field_mappings@, name@, k as int);
                    }
                    set_entry(&mut fields, field.alias.clone(), FieldSelection::Column { column: field_mappings[k].1.column.clone() });
                    Ok(())
                },
                None => {
                    proof {
                        reveal_strlit("invalid field in annotation: ");
                    }
                    let description = String::from_str("invalid field in annotation: ").concat(name.0.as_str());
                    Err(OperationsError::engine(InternalEngineError::InternalGeneric { description }))
                },
            },
            Annotation::Output(OutputAnnotation::RootField(RootFieldAnnotation::Introspection)) => Ok(()),
            Annotation::Output(OutputAnnotation::GlobalIDField { global_id_fields }) => build_global_id_fields(
                &global_id_fields.0,
                field_mappings,
                &field.alias,
                &mut fields,
            ),
            Annotation::Output(OutputAnnotation::RelayNodeInterfaceID { typename_mappings }) => {
                match &field.selection_set.typename {
                    None => {
                        proof {
                            reveal_strlit("typename not found while resolving NodeInterfaceId");
                        }
                        Err(
                            OperationsError::engine(
                                InternalEngineError::InternalGeneric {
                                    description: String::from_str("typename not found while resolving NodeInterfaceId"),
                                },
                            ),
                        )
                    },
                    Some(t) => match find_entry(typename_mappings, t) {
                        Some(k) => {
                            proof {
                                lemma_first_key_unique(typename_mappings@, t@, k as int);
                            }
                            build_global_id_fields(&typename_mappings[k].1.0, field_mappings, &field.alias, &mut fields)
                        },
                        None => {
                            proof {
                                reveal_strlit("Global ID fields not found of the type ");
                            }
                            let description = String::from_str("Global ID fields not found of the type ").concat(t.as_str());
                            Err(OperationsError::engine(InternalEngineError::InternalGeneric { description }))
                        },
                    },
                }
            },
            Annotation::Output(OutputAnnotation::RelationshipToModel(_)) => {
                set_entry(&mut fields, field.alias.clone(), FieldSelection::Relationship { field });
                Ok(())
            },
            _ => Err(OperationsError::engine(InternalEngineError::UnexpectedAnnotation { annotation: field.info.duplicate() })),
        };
        match step {
            Ok(()) => {},
            Err(e) => {
                proof {
                    lemma_selection_failure_persists(sel@, field_mappings@, i + 1, sel.len() as int);
                }
                return Err(e);
            },
        }
        i = i + 1;
    }
    Ok(ResultSelectionSet { fields })
}

/// The position of the first entry with the key, where there is one.
fn find_entry<V>(entries: &Vec<(String, V)>, key: &String) -> (r: Option<usize>)
    ensures
        match r {
            Some(i) => is_first_key(entries@, key@, i as int),
            None => !has_key(entries@, key@),
        },
{
    let mut i: usize = 0;
    while i < entries.len()
        invariant
            i <= entries.len(),
            forall|j: int| 0 <= j < i ==> (#[trigger] entries@[j]).0@ != key@,
        decreases entries.len() - i,
    {
        if entries[i].0 == *key {
            return Some(i);
        }
        i = i + 1;
    }
    None
}

} // verus!
