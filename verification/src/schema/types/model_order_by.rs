//! The `order_by` argument of a model field.

use vstd::prelude::*;
use vstd::string::*;

use crate::metadata::resolved::model::ModelOrderByExpression;
use crate::metadata::resolved::subgraph::Qualified;
use crate::open_dds::names::ModelName;
use crate::schema::graphql::{BaseTypeView, Builder, SchemaInputField, TypeContainer, TypeContainerView, TypeId, TypeIdView};
use crate::schema::normalized::InputAnnotation;

verus! {

/// The `order_by` argument of a model field: a nullable list of the model's
/// order-by expression type, registered for the model.
pub fn get_order_by_expression_input_field(
    builder: &mut Builder,
    model_name: Qualified<ModelName>,
    order_by_expression_info: &ModelOrderByExpression,
) -> (r: SchemaInputField)
    ensures
        final(builder).registered() == old(builder).registered().push(
            TypeIdView::ModelOrderByExpression(model_name@, order_by_expression_info.order_by_type_name@),
        ),
        r.name@ == "order_by"@,
        r.info == InputAnnotation::ModelOrderByExpression,
        r.field_type@ == (TypeContainerView {
            base: BaseTypeView::List(
                Box::new(
                    TypeContainerView {
                        base: BaseTypeView::Named(order_by_expression_info.order_by_type_name@),
                        nullable: false,
                    },
                ),
            ),
            nullable: true,
        }),
{
    let registered = builder.register_type(
        TypeId::ModelOrderByExpression {
            model_name,
            graphql_type_name: order_by_expression_info.order_by_type_name.clone(),
        },
    );
    SchemaInputField {
        name: String::from_str("order_by"),
        info: InputAnnotation::ModelOrderByExpression,
        field_type: TypeContainer::list_null(TypeContainer::named_non_null(registered)),
    }
}

} // verus!
