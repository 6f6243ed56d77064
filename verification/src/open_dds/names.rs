//! Names used throughout Open DD metadata.

use vstd::prelude::*;
use vstd::string::*;

verus! {

/// A name held as a string: it can be compared and copied by its characters.
pub trait Ident: View + Sized {
    /// Whether two names are the same.
    fn same(&self, other: &Self) -> (r: bool)
        ensures
            r == (self@ == other@),
    ;

    /// A copy of this name.
    fn duplicate(&self) -> (r: Self)
        ensures
            r@ == self@,
    ;
}

/// The name of a field in a user-defined object type.
#[derive(Debug, PartialEq, Eq, Hash, PartialOrd, Ord)]
pub struct FieldName(pub String);

impl View for FieldName {
    type V = Seq<char>;

    open spec fn view(&self) -> Seq<char> {
        self.0@
    }
}

impl Clone for FieldName {
    fn clone(&self) -> (r: Self)
        ensures
            r@ == self@,
    {
        FieldName(self.0.clone())
    }
}

impl Ident for FieldName {
    fn same(&self, other: &Self) -> (r: bool) {
        self.0 == other.0
    }

    fn duplicate(&self) -> (r: Self) {
        FieldName(self.0.clone())
    }
}

/// The name of a data model.
#[derive(Debug, PartialEq, Eq, Hash)]
pub struct ModelName(pub String);

impl View for ModelName {
    type V = Seq<char>;

    open spec fn view(&self) -> Seq<char> {
        self.0@
    }
}

impl Clone for ModelName {
    fn clone(&self) -> (r: Self)
        ensures
            r@ == self@,
    {
        ModelName(self.0.clone())
    }
}

impl Ident for ModelName {
    fn same(&self, other: &Self) -> (r: bool) {
        self.0 == other.0
    }

    fn duplicate(&self) -> (r: Self) {
        ModelName(self.0.clone())
    }
}

/// The name of a command.
#[derive(Debug, PartialEq, Eq, Hash)]
pub struct CommandName(pub String);

impl View for CommandName {
    type V = Seq<char>;

    open spec fn view(&self) -> Seq<char> {
        self.0@
    }
}

impl Clone for CommandName {
    fn clone(&self) -> (r: Self)
        ensures
            r@ == self@,
    {
        CommandName(self.0.clone())
    }
}

impl Ident for CommandName {
    fn same(&self, other: &Self) -> (r: bool) {
        self.0 == other.0
    }

    fn duplicate(&self) -> (r: Self) {
        CommandName(self.0.clone())
    }
}

/// The name of a comparison operator.
#[derive(Debug, PartialEq, Eq, Hash, PartialOrd, Ord)]
pub struct OperatorName(pub String);

impl View for OperatorName {
    type V = Seq<char>;

    open spec fn view(&self) -> Seq<char> {
        self.0@
    }
}

impl Clone for OperatorName {
    fn clone(&self) -> (r: Self)
        ensures
            r@ == self@,
    {
        OperatorName(self.0.clone())
    }
}

impl Ident for OperatorName {
    fn same(&self, other: &Self) -> (r: bool) {
        self.0 == other.0
    }

    fn duplicate(&self) -> (r: Self) {
        OperatorName(self.0.clone())
    }
}

/// The name of the GraphQL relationship field.
#[derive(Debug, PartialEq, Eq, Hash)]
pub struct RelationshipName(pub String);

impl View for RelationshipName {
    type V = Seq<char>;

    open spec fn view(&self) -> Seq<char> {
        self.0@
    }
}

impl Clone for RelationshipName {
    fn clone(&self) -> (r: Self)
        ensures
            r@ == self@,
    {
        RelationshipName(self.0.clone())
    }
}

impl Ident for RelationshipName {
    fn same(&self, other: &Self) -> (r: bool) {
        self.0 == other.0
    }

    fn duplicate(&self) -> (r: Self) {
        RelationshipName(self.0.clone())
    }
}

/// The name of a GraphQL type.
#[derive(Debug, PartialEq, Eq, Hash)]
pub struct GraphQlTypeName(pub String);

impl View for GraphQlTypeName {
    type V = Seq<char>;

    open spec fn view(&self) -> Seq<char> {
        self.0@
    }
}

impl Clone for GraphQlTypeName {
    fn clone(&self) -> (r: Self)
        ensures
            r@ == self@,
    {
        GraphQlTypeName(self.0.clone())
    }
}

impl Ident for GraphQlTypeName {
    fn same(&self, other: &Self) -> (r: bool) {
        self.0 == other.0
    }

    fn duplicate(&self) -> (r: Self) {
        GraphQlTypeName(self.0.clone())
    }
}

/// The name of a GraphQL object field.
#[derive(Debug, PartialEq, Eq, Hash)]
pub struct GraphQlFieldName(pub String);

impl View for GraphQlFieldName {
    type V = Seq<char>;

    open spec fn view(&self) -> Seq<char> {
        self.0@
    }
}

impl Clone for GraphQlFieldName {
    fn clone(&self) -> (r: Self)
        ensures
            r@ == self@,
    {
        GraphQlFieldName(self.0.clone())
    }
}

impl Ident for GraphQlFieldName {
    fn same(&self, other: &Self) -> (r: bool) {
        self.0 == other.0
    }

    fn duplicate(&self) -> (r: Self) {
        GraphQlFieldName(self.0.clone())
    }
}

/// The name of a data connector.
#[derive(Debug, PartialEq, Eq, Hash)]
pub struct DataConnectorName(pub String);

impl View for DataConnectorName {
    type V = Seq<char>;

    open spec fn view(&self) -> Seq<char> {
        self.0@
    }
}

impl Clone for DataConnectorName {
    fn clone(&self) -> (r: Self)
        ensures
            r@ == self@,
    {
        DataConnectorName(self.0.clone())
    }
}

impl Ident for DataConnectorName {
    fn same(&self, other: &Self) -> (r: bool) {
        self.0 == other.0
    }

    fn duplicate(&self) -> (r: Self) {
        DataConnectorName(self.0.clone())
    }
}

/// The name of an argument of a model or a command.
#[derive(Debug, PartialEq, Eq, Hash)]
pub struct ArgumentName(pub String);

impl View for ArgumentName {
    type V = Seq<char>;

    open spec fn view(&self) -> Seq<char> {
        self.0@
    }
}

impl Clone for ArgumentName {
    fn clone(&self) -> (r: Self)
        ensures
            r@ == self@,
    {
        ArgumentName(self.0.clone())
    }
}

impl Ident for ArgumentName {
    fn same(&self, other: &Self) -> (r: bool) {
        self.0 == other.0
    }

    fn duplicate(&self) -> (r: Self) {
        ArgumentName(self.0.clone())
    }
}

/// A role under which a request is made.
#[derive(Debug, PartialEq, Eq, Hash)]
pub struct Role(pub String);

impl View for Role {
    type V = Seq<char>;

    open spec fn view(&self) -> Seq<char> {
        self.0@
    }
}

impl Clone for Role {
    fn clone(&self) -> (r: Self)
        ensures
            r@ == self@,
    {
        Role(self.0.clone())
    }
}

impl Ident for Role {
    fn same(&self, other: &Self) -> (r: bool) {
        self.0 == other.0
    }

    fn duplicate(&self) -> (r: Self) {
        Role(self.0.clone())
    }
}


/// The name of a session variable, as `x-hasura-user-id`.
#[derive(Debug, PartialEq, Eq, Hash)]
pub struct SessionVariable(pub String);

impl View for SessionVariable {
    type V = Seq<char>;

    open spec fn view(&self) -> Seq<char> {
        self.0@
    }
}

impl Clone for SessionVariable {
    fn clone(&self) -> (r: Self)
        ensures
            r@ == self@,
    {
        SessionVariable(self.0.clone())
    }
}

impl Ident for SessionVariable {
    fn same(&self, other: &Self) -> (r: bool) {
        self.0 == other.0
    }

    fn duplicate(&self) -> (r: Self) {
        SessionVariable(self.0.clone())
    }
}

impl Role {
    /// Builds a role from its name.
    pub fn new(str: &str) -> (r: Role)
        ensures
            r@ == str@,
    {
        Role(String::from_str(str))
    }
}

} // verus!
