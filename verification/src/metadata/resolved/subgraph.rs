//! Names qualified by the subgraph that defines them.

use vstd::prelude::*;
use vstd::string::*;

use crate::open_dds::names::Ident;
use crate::open_dds::types::{CustomTypeName, InbuiltType};

verus! {

/// A name together with the subgraph it belongs to.
#[derive(Debug, PartialEq, Eq, Hash)]
pub struct Qualified<T> {
    pub subgraph: String,
    pub name: T,
}

impl<T: View> View for Qualified<T> {
    type V = (Seq<char>, T::V);

    open spec fn view(&self) -> (Seq<char>, T::V) {
        (self.subgraph@, self.name@)
    }
}

impl<T: Ident> Qualified<T> {
    pub fn new(subgraph: String, name: T) -> (r: Qualified<T>)
        ensures
            r.subgraph == subgraph,
            r.name == name,
    {
        Qualified { subgraph, name }
    }
}

impl<T: Ident> Ident for Qualified<T> {
    fn same(&self, other: &Self) -> (r: bool) {
        let a = self.subgraph == other.subgraph;
        let b = self.name.same(&other.name);
        a && b
    }

    fn duplicate(&self) -> (r: Self) {
        Qualified { subgraph: self.subgraph.clone(), name: self.name.duplicate() }
    }
}

/// A type name whose custom names are qualified by their subgraph.
#[derive(Debug, PartialEq, Eq, Hash)]
pub enum QualifiedTypeName {
    Inbuilt(InbuiltType),
    Custom(Qualified<CustomTypeName>),
}

/// The abstract value of a qualified type name.
pub enum QualifiedTypeNameView {
    Inbuilt(InbuiltType),
    Custom((Seq<char>, Seq<char>)),
}

impl View for QualifiedTypeName {
    type V = QualifiedTypeNameView;

    open spec fn view(&self) -> QualifiedTypeNameView {
        match self {
            QualifiedTypeName::Inbuilt(i) => QualifiedTypeNameView::Inbuilt(*i),
            QualifiedTypeName::Custom(c) => QualifiedTypeNameView::Custom(c@),
        }
    }
}

impl Ident for QualifiedTypeName {
    fn same(&self, other: &Self) -> (r: bool) {
        match (self, other) {
            (QualifiedTypeName::Inbuilt(a), QualifiedTypeName::Inbuilt(b)) => *a == *b,
            (QualifiedTypeName::Custom(a), QualifiedTypeName::Custom(b)) => a.same(b),
            _ => false,
        }
    }

    fn duplicate(&self) -> (r: Self) {
        match self {
            QualifiedTypeName::Inbuilt(i) => QualifiedTypeName::Inbuilt(*i),
            QualifiedTypeName::Custom(c) => QualifiedTypeName::Custom(c.duplicate()),
        }
    }
}

/// A type reference whose custom names are qualified by their subgraph.
#[derive(Debug, PartialEq, Eq, Hash)]
pub struct QualifiedTypeReference {
    pub underlying_type: QualifiedBaseType,
    pub nullable: bool,
}

/// The underlying type of a qualified type reference.
#[derive(Debug, PartialEq, Eq, Hash)]
pub enum QualifiedBaseType {
    Named(QualifiedTypeName),
    List(Box<QualifiedTypeReference>),
}

/// The abstract value of a qualified type reference.
pub struct QualifiedTypeReferenceView {
    pub underlying_type: QualifiedBaseTypeView,
    pub nullable: bool,
}

/// The abstract value of a qualified base type.
pub enum QualifiedBaseTypeView {
    Named(QualifiedTypeNameView),
    List(Box<QualifiedTypeReferenceView>),
}

pub open spec fn qualified_type_reference_view(t: QualifiedTypeReference) -> QualifiedTypeReferenceView
    decreases t, 1nat,
{
    QualifiedTypeReferenceView {
        underlying_type: qualified_base_type_view(t.underlying_type),
        nullable: t.nullable,
    }
}

pub open spec fn qualified_base_type_view(b: QualifiedBaseType) -> QualifiedBaseTypeView
    decreases b, 0nat,
{
    match b {
        QualifiedBaseType::Named(n) => QualifiedBaseTypeView::Named(n@),
        QualifiedBaseType::List(t) => QualifiedBaseTypeView::List(
            Box::new(qualified_type_reference_view(*t)),
        ),
    }
}

impl View for QualifiedTypeReference {
    type V = QualifiedTypeReferenceView;

    open spec fn view(&self) -> QualifiedTypeReferenceView {
        qualified_type_reference_view(*self)
    }
}

impl View for QualifiedBaseType {
    type V = QualifiedBaseTypeView;

    open spec fn view(&self) -> QualifiedBaseTypeView {
        qualified_base_type_view(*self)
    }
}

impl QualifiedTypeReference {
    /// A copy of this type reference.
    pub fn duplicate(&self) -> (r: Self)
        ensures
            r@ == self@,
        decreases self, 1nat,
    {
        QualifiedTypeReference {
            underlying_type: self.underlying_type.duplicate(),
            nullable: self.nullable,
        }
    }
}

impl QualifiedBaseType {
    /// A copy of this base type.
    pub fn duplicate(&self) -> (r: Self)
        ensures
            r@ == self@,
        decreases self, 0nat,
    {
        match self {
            QualifiedBaseType::Named(n) => QualifiedBaseType::Named(n.duplicate()),
            QualifiedBaseType::List(t) => {
                let inner: &QualifiedTypeReference = t;
                QualifiedBaseType::List(Box::new(inner.duplicate()))
            },
        }
    }
}

} // verus!
