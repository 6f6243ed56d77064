//! The GraphQL input types of Open DD types.

use vstd::prelude::*;

use super::output_type::{type_error, TypeFailure, Types};
use crate::keyed::{find_key, first_key, has_key, lemma_first_key_unique};
use crate::metadata::resolved::subgraph::{
    Qualified, QualifiedBaseType, QualifiedBaseTypeView, QualifiedTypeName, QualifiedTypeNameView,
    QualifiedTypeReference, QualifiedTypeReferenceView,
};
use crate::metadata::resolved::types::TypeRepresentation;
use crate::open_dds::names::Ident;
use crate::open_dds::types::{inbuilt_name, CustomTypeName};
use crate::schema::error::Error;
use crate::schema::graphql::{
    base_type_container_for_inbuilt_type, type_id_name, BaseTypeContainer, BaseTypeView, Builder,
    RegisteredTypeName, TypeContainer, TypeContainerView, TypeId, TypeIdView,
};

verus! {

/// The type a custom type is taken as in input: an input object type under
/// its GraphQL input name, or a scalar type under its GraphQL name.
pub open spec fn custom_input_type_id(
    types: Seq<(Qualified<CustomTypeName>, TypeRepresentation)>,
    name: (Seq<char>, Seq<char>),
) -> Result<TypeIdView, TypeFailure> {
    if !has_key(types, name) {
        Err(TypeFailure::NotFound(name))
    } else {
        match types[first_key(types, name)].1 {
            TypeRepresentation::Object(o) => match o.graphql_input_type_name {
                Some(n) => Ok(TypeIdView::InputObjectType(name, n@)),
                None => Err(TypeFailure::NoInputTypeName(name)),
            },
            TypeRepresentation::ScalarType { graphql_type_name } => match graphql_type_name {
                Some(n) => Ok(TypeIdView::ScalarType(name, n@)),
                None => Err(TypeFailure::NoScalarTypeName(name)),
            },
        }
    }
}

/// Registers the input type of a custom type and gives its name.
pub fn get_custom_input_type(
    types: &Types,
    builder: &mut Builder,
    gds_type: &Qualified<CustomTypeName>,
) -> (r: Result<RegisteredTypeName, Error>)
    ensures
        match custom_input_type_id(types@, gds_type@) {
            Ok(id) => r matches Ok(n) && n@ == type_id_name(id) && final(builder).registered()
                == old(builder).registered().push(id),
            Err(f) => r matches Err(e) && type_error(e, f) && final(builder).registered()
                == old(builder).registered(),
        },
{
    let index = match find_key(types, gds_type) {
        Some(index) => index,
        None => {
            return Err(Error::InternalTypeNotFound { typename: gds_type.duplicate() });
        },
    };
    proof {
        lemma_first_key_unique(types@, gds_type@, index as int);
    }
    match &types[index].1 {
        TypeRepresentation::Object(o) => {
            let n = match &o.graphql_input_type_name {
                Some(n) => n.clone(),
                None => {
                    return Err(Error::NoGraphQlInputTypeNameForObject { typename: gds_type.duplicate() });
                },
            };
            Ok(builder.register_type(TypeId::InputObjectType { gds_type_name: gds_type.duplicate(), graphql_type_name: n }))
        },
        TypeRepresentation::ScalarType { graphql_type_name } => {
            let n = match graphql_type_name {
                Some(n) => n.clone(),
                None => {
                    return Err(Error::NoGraphQlTypeNameForScalar { typename: gds_type.duplicate() });
                },
            };
            Ok(builder.register_type(TypeId::ScalarType { gds_type_name: gds_type.duplicate(), graphql_type_name: n }))
        },
    }
}

/// The GraphQL input type of a type reference, with the types registered for
/// it.
pub open spec fn input_type_ids(
    types: Seq<(Qualified<CustomTypeName>, TypeRepresentation)>,
    t: QualifiedTypeReferenceView,
) -> Result<(TypeContainerView, Seq<TypeIdView>), TypeFailure>
    decreases t,
{
    match t.underlying_type {
        QualifiedBaseTypeView::Named(QualifiedTypeNameView::Inbuilt(i)) => Ok(
            (TypeContainerView { base: BaseTypeView::Named(inbuilt_name(i)), nullable: t.nullable }, Seq::empty()),
        ),
        QualifiedBaseTypeView::Named(QualifiedTypeNameView::Custom(c)) => match custom_input_type_id(types, c) {
            Ok(id) => Ok(
                (TypeContainerView { base: BaseTypeView::Named(type_id_name(id)), nullable: t.nullable }, seq![id]),
            ),
            Err(f) => Err(f),
        },
        QualifiedBaseTypeView::List(inner) => match input_type_ids(types, *inner) {
            Ok((c, ids)) => Ok(
                (TypeContainerView { base: BaseTypeView::List(Box::new(c)), nullable: t.nullable }, ids),
            ),
            Err(f) => Err(f),
        },
    }
}

/// The GraphQL input type of a type reference: nullable where the reference
/// is, and a list where the reference is.
pub fn get_input_type(
    types: &Types,
    builder: &mut Builder,
    gds_type: &QualifiedTypeReference,
) -> (r: Result<TypeContainer, Error>)
    ensures
        match input_type_ids(types@, gds_type@) {
            Ok((c, ids)) => r matches Ok(t) && t@ == c && final(builder).registered() == old(
                builder,
            ).registered() + ids,
            Err(f) => r matches Err(e) && type_error(e, f) && final(builder).registered() == old(
                builder,
            ).registered(),
        },
    decreases gds_type,
{
    match &gds_type.underlying_type {
        QualifiedBaseType::Named(QualifiedTypeName::Inbuilt(inbuilt)) => {
            assert(builder.registered() + Seq::<TypeIdView>::empty() =~= builder.registered());
            Ok(TypeContainer { base: base_type_container_for_inbuilt_type(inbuilt), nullable: gds_type.nullable })
        },
        QualifiedBaseType::Named(QualifiedTypeName::Custom(custom)) => {
            let ghost before = builder.registered();
            let n = get_custom_input_type(types, builder, custom)?;
            proof {
                let id = custom_input_type_id(types@, custom@)->Ok_0;
                assert(before.push(id) =~= before + seq![id]);
            }
            Ok(TypeContainer { base: BaseTypeContainer::Named(n), nullable: gds_type.nullable })
        },
        QualifiedBaseType::List(list_type) => {
            let inner: &QualifiedTypeReference = list_type;
            let t = get_input_type(types, builder, inner)?;
            Ok(TypeContainer { base: BaseTypeContainer::List(Box::new(t)), nullable: gds_type.nullable })
        },
    }
}

} // verus!
