//! Annotations the schema attaches to its fields.

use vstd::prelude::*;

pub mod arguments;
pub mod command_arguments;
pub mod input_type;
pub mod model_arguments;
pub mod output_type;
pub mod model_filter;
pub mod model_order_by;
pub mod mutation_root;
pub mod query_root;
pub mod root_field;

use crate::metadata::resolved::model::{FilterPermission, FilterView};
use crate::open_dds::names::Role;

verus! {

/// What a role's view of a field carries: the filter of the rows it may
/// select.
#[derive(Debug, PartialEq, Eq)]
pub enum NamespaceAnnotation {
    Filter(FilterPermission),
}

impl View for NamespaceAnnotation {
    type V = FilterView;

    open spec fn view(&self) -> FilterView {
        match self {
            NamespaceAnnotation::Filter(f) => f@,
        }
    }
}

/// The abstract value of an optional annotation.
pub open spec fn annotation_view(a: Option<NamespaceAnnotation>) -> Option<FilterView> {
    match a {
        Some(n) => Some(n@),
        None => None,
    }
}

/// The roles that may see a field, each with what its view carries.
pub type RoleAnnotations = Vec<(Role, Option<NamespaceAnnotation>)>;

/// The abstract value of role annotations.
pub open spec fn annotations_view(v: Seq<(Role, Option<NamespaceAnnotation>)>) -> Seq<
    (Seq<char>, Option<FilterView>),
> {
    v.map_values(|p: (Role, Option<NamespaceAnnotation>)| (p.0@, annotation_view(p.1)))
}

} // verus!
