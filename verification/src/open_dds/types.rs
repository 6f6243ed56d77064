//! Open DD type names and type references, with their textual form.
//!
//! A type reference is written as a type name, wrapped in `[]` for an array,
//! and suffixed with `!` for a non-nullable reference: `[String!]!` is a
//! non-nullable array of non-nullable strings.

use vstd::prelude::*;
use vstd::string::*;

use crate::text::{is_ident_char, is_identifier, str_eq, str_is_identifier, string_push};
pub use super::names::{ArgumentName, DataConnectorName, FieldName, GraphQlFieldName, GraphQlTypeName};

verus! {

/// The types built into Open DD.
#[derive(Debug, Clone, Copy, PartialEq, Eq, Hash, Structural)]
pub enum InbuiltType {
    ID,
    Int,
    Float,
    Boolean,
    String,
}

/// The textual name of an inbuilt type.
pub open spec fn inbuilt_name(t: InbuiltType) -> Seq<char> {
    match t {
        InbuiltType::ID => seq!['I', 'D'],
        InbuiltType::Int => seq!['I', 'n', 't'],
        InbuiltType::Float => seq!['F', 'l', 'o', 'a', 't'],
        InbuiltType::Boolean => seq!['B', 'o', 'o', 'l', 'e', 'a', 'n'],
        InbuiltType::String => seq!['S', 't', 'r', 'i', 'n', 'g'],
    }
}

/// The inbuilt type named by a text, if any.
pub open spec fn parse_inbuilt(s: Seq<char>) -> Option<InbuiltType> {
    if s == inbuilt_name(InbuiltType::ID) {
        Some(InbuiltType::ID)
    } else if s == inbuilt_name(InbuiltType::Int) {
        Some(InbuiltType::Int)
    } else if s == inbuilt_name(InbuiltType::Float) {
        Some(InbuiltType::Float)
    } else if s == inbuilt_name(InbuiltType::Boolean) {
        Some(InbuiltType::Boolean)
    } else if s == inbuilt_name(InbuiltType::String) {
        Some(InbuiltType::String)
    } else {
        None
    }
}

/// A valid name of a user-defined type: an identifier that does not name an
/// inbuilt type.
pub open spec fn valid_custom_type_name(s: Seq<char>) -> bool {
    is_identifier(s) && parse_inbuilt(s) is None
}

impl InbuiltType {
    /// The textual name of this inbuilt type.
    pub fn name(&self) -> (r: &'static str)
        ensures
            r@ == inbuilt_name(*self),
    {
        match self {
            InbuiltType::ID => {
                proof {
                    reveal_strlit("ID");
                }
                "ID"
            },
            InbuiltType::Int => {
                proof {
                    reveal_strlit("Int");
                }
                "Int"
            },
            InbuiltType::Float => {
                proof {
                    reveal_strlit("Float");
                }
                "Float"
            },
            InbuiltType::Boolean => {
                proof {
                    reveal_strlit("Boolean");
                }
                "Boolean"
            },
            InbuiltType::String => {
                proof {
                    reveal_strlit("String");
                }
                "String"
            },
        }
    }

    /// Reads an inbuilt type from its exact name.
    pub fn from_name(s: &str) -> (r: Option<InbuiltType>)
        ensures
            r == parse_inbuilt(s@),
    {
        if str_eq(s, InbuiltType::ID.name()) {
            Some(InbuiltType::ID)
        } else if str_eq(s, InbuiltType::Int.name()) {
            Some(InbuiltType::Int)
        } else if str_eq(s, InbuiltType::Float.name()) {
            Some(InbuiltType::Float)
        } else if str_eq(s, InbuiltType::Boolean.name()) {
            Some(InbuiltType::Boolean)
        } else if str_eq(s, InbuiltType::String.name()) {
            Some(InbuiltType::String)
        } else {
            None
        }
    }
}

/// The name of a user-defined type.
#[derive(Debug, PartialEq, Eq, Hash, PartialOrd, Ord)]
pub struct CustomTypeName(pub String);

impl View for CustomTypeName {
    type V = Seq<char>;

    open spec fn view(&self) -> Seq<char> {
        self.0@
    }
}

impl Clone for CustomTypeName {
    fn clone(&self) -> (r: Self)
        ensures
            r@ == self@,
    {
        CustomTypeName(self.0.clone())
    }
}

/// The message of the error that `CustomTypeName::new` gives for `s`.
pub open spec fn invalid_custom_type_name_message(s: Seq<char>) -> Seq<char> {
    seq!['i', 'n', 'v', 'a', 'l', 'i', 'd', ' ', 'c', 'u', 's', 't', 'o', 'm', ' ', 't', 'y', 'p', 'e', ' ', 'n', 'a', 'm', 'e', ':', ' '] + s
}

impl CustomTypeName {
    /// Validates a name of a user-defined type: the first character is an
    /// ASCII letter or `_`, all characters are ASCII letters, digits or `_`,
    /// and the name is not that of an inbuilt type.
    pub fn new(s: String) -> (r: Result<CustomTypeName, String>)
        ensures
            valid_custom_type_name(s@) ==> (r matches Ok(n) && n@ == s@),
            !valid_custom_type_name(s@) ==> (r matches Err(e) && e@ == invalid_custom_type_name_message(s@)),
    {
        let valid = str_is_identifier(s.as_str()) && InbuiltType::from_name(s.as_str()).is_none();
        if valid {
            Ok(CustomTypeName(s))
        } else {
            let mut e = String::from_str("invalid custom type name: ");
            proof {
                reveal_strlit("invalid custom type name: ");
            }
            e.append(s.as_str());
            assert(e@ =~= invalid_custom_type_name_message(s@));
            Err(e)
        }
    }
}

/// A reference to a type by name: inbuilt or user-defined.
#[derive(Debug, PartialEq, Eq, Hash)]
pub enum TypeName {
    Inbuilt(InbuiltType),
    Custom(CustomTypeName),
}

/// The abstract value of a type name.
pub enum TypeNameView {
    Inbuilt(InbuiltType),
    Custom(Seq<char>),
}

impl View for TypeName {
    type V = TypeNameView;

    open spec fn view(&self) -> TypeNameView {
        match self {
            TypeName::Inbuilt(i) => TypeNameView::Inbuilt(*i),
            TypeName::Custom(c) => TypeNameView::Custom(c@),
        }
    }
}

impl Clone for TypeName {
    fn clone(&self) -> (r: Self)
        ensures
            r@ == self@,
    {
        match self {
            TypeName::Inbuilt(i) => TypeName::Inbuilt(*i),
            TypeName::Custom(c) => TypeName::Custom(c.clone()),
        }
    }
}

/// Reference to an Open DD type including nullable values and arrays.
#[derive(Debug, PartialEq, Eq, Hash)]
pub struct TypeReference {
    pub underlying_type: BaseType,
    pub nullable: bool,
}

/// The underlying type of a type reference: a named type or an array.
#[derive(Debug, PartialEq, Eq, Hash)]
pub enum BaseType {
    Named(TypeName),
    List(Box<TypeReference>),
}

/// The abstract value of a type reference.
pub struct TypeReferenceView {
    pub underlying_type: BaseTypeView,
    pub nullable: bool,
}

/// The abstract value of a base type.
pub enum BaseTypeView {
    Named(TypeNameView),
    List(Box<TypeReferenceView>),
}

pub open spec fn type_reference_view(t: TypeReference) -> TypeReferenceView
    decreases t, 1nat,
{
    TypeReferenceView { underlying_type: base_type_view(t.underlying_type), nullable: t.nullable }
}

pub open spec fn base_type_view(b: BaseType) -> BaseTypeView
    decreases b, 0nat,
{
    match b {
        BaseType::Named(n) => BaseTypeView::Named(n@),
        BaseType::List(t) => BaseTypeView::List(Box::new(type_reference_view(*t))),
    }
}

impl View for TypeReference {
    type V = TypeReferenceView;

    open spec fn view(&self) -> TypeReferenceView {
        type_reference_view(*self)
    }
}

impl View for BaseType {
    type V = BaseTypeView;

    open spec fn view(&self) -> BaseTypeView {
        base_type_view(*self)
    }
}

impl Clone for TypeReference {
    fn clone(&self) -> (r: Self)
        ensures
            r@ == self@,
        decreases self,
    {
        TypeReference { underlying_type: self.underlying_type.clone(), nullable: self.nullable }
    }
}

impl Clone for BaseType {
    fn clone(&self) -> (r: Self)
        ensures
            r@ == self@,
        decreases self,
    {
        match self {
            BaseType::Named(n) => BaseType::Named(n.clone()),
            BaseType::List(t) => {
                let inner: &TypeReference = t;
                BaseType::List(Box::new(inner.clone()))
            },
        }
    }
}

/// The text of a type name.
pub open spec fn type_name_text(n: TypeNameView) -> Seq<char> {
    match n {
        TypeNameView::Inbuilt(i) => inbuilt_name(i),
        TypeNameView::Custom(s) => s,
    }
}

/// The text of a type reference: its base type, then `!` when it is not nullable.
pub open spec fn type_reference_text(t: TypeReferenceView) -> Seq<char>
    decreases t, 1nat,
{
    base_type_text(t.underlying_type) + if t.nullable {
        Seq::<char>::empty()
    } else {
        seq!['!']
    }
}

/// The text of a base type: the type name, or `[`, the element type and `]`.
pub open spec fn base_type_text(b: BaseTypeView) -> Seq<char>
    decreases b, 0nat,
{
    match b {
        BaseTypeView::Named(n) => type_name_text(n),
        BaseTypeView::List(t) => seq!['['] + type_reference_text(*t) + seq![']'],
    }
}

/// A type name is well formed when a custom name is valid.
pub open spec fn wf_type_name(n: TypeNameView) -> bool {
    match n {
        TypeNameView::Inbuilt(_) => true,
        TypeNameView::Custom(s) => valid_custom_type_name(s),
    }
}

/// A type reference is well formed when every custom name in it is valid.
pub open spec fn wf_type_reference(t: TypeReferenceView) -> bool
    decreases t, 1nat,
{
    wf_base_type(t.underlying_type)
}

pub open spec fn wf_base_type(b: BaseTypeView) -> bool
    decreases b, 0nat,
{
    match b {
        BaseTypeView::Named(n) => wf_type_name(n),
        BaseTypeView::List(t) => wf_type_reference(*t),
    }
}

/// Reads a type name: an inbuilt name, else a valid custom name.
pub open spec fn parse_type_name(s: Seq<char>) -> Option<TypeNameView> {
    match parse_inbuilt(s) {
        Some(i) => Some(TypeNameView::Inbuilt(i)),
        None => if valid_custom_type_name(s) {
            Some(TypeNameView::Custom(s))
        } else {
            None
        },
    }
}

/// Reads a type reference: a trailing `!` marks it non-nullable.
pub open spec fn parse_type_reference(s: Seq<char>) -> Option<TypeReferenceView>
    decreases s.len(), 1nat,
{
    if s.len() > 0 && s.last() == '!' {
        match parse_base_type(s.drop_last()) {
            Some(b) => Some(TypeReferenceView { underlying_type: b, nullable: false }),
            None => None,
        }
    } else {
        match parse_base_type(s) {
            Some(b) => Some(TypeReferenceView { underlying_type: b, nullable: true }),
            None => None,
        }
    }
}

/// Reads a base type: `[` ... `]` is an array of the type reference inside.
pub open spec fn parse_base_type(s: Seq<char>) -> Option<BaseTypeView>
    decreases s.len(), 0nat,
{
    if s.len() >= 2 && s[0] == '[' && s.last() == ']' {
        match parse_type_reference(s.subrange(1, s.len() - 1)) {
            Some(t) => Some(BaseTypeView::List(Box::new(t))),
            None => None,
        }
    } else {
        match parse_type_name(s) {
            Some(n) => Some(BaseTypeView::Named(n)),
            None => None,
        }
    }
}

/// The message of the error for a text that does not read as a type reference.
pub open spec fn type_name_mismatch_message() -> Seq<char> {
    "data did not match any variant of untagged enum TypeName"@
}

fn mismatch_error() -> (e: String)
    ensures
        e@ == type_name_mismatch_message(),
{
    String::from_str("data did not match any variant of untagged enum TypeName")
}

impl TypeName {
    /// Writes the text of this type name.
    pub fn to_string(&self) -> (r: String)
        ensures
            r@ == type_name_text(self@),
    {
        match self {
            TypeName::Inbuilt(i) => String::from_str(i.name()),
            TypeName::Custom(c) => c.0.clone(),
        }
    }

    /// Reads a type name: an inbuilt type name, else a valid custom type name.
    pub fn deserialize(s: &str) -> (r: Result<TypeName, String>)
        ensures
            r matches Ok(n) ==> parse_type_name(s@) == Some(n@),
            r matches Err(e) ==> parse_type_name(s@) is None && e@ == type_name_mismatch_message(),
    {
        match InbuiltType::from_name(s) {
            Some(i) => Ok(TypeName::Inbuilt(i)),
            None => match CustomTypeName::new(String::from_str(s)) {
                Ok(c) => Ok(TypeName::Custom(c)),
                Err(_) => Err(mismatch_error()),
            },
        }
    }
}

impl TypeReference {
    /// Writes the text of this type reference, e.g. `[String!]!`.
    pub fn to_string(&self) -> (r: String)
        ensures
            r@ == type_reference_text(self@),
        decreases self,
    {
        let mut r = self.underlying_type.to_string();
        if !self.nullable {
            string_push(&mut r, '!');
        }
        assert(r@ =~= type_reference_text(self@));
        r
    }

    /// Reads a type reference from its text.
    pub fn deserialize(s: &str) -> (r: Result<TypeReference, String>)
        ensures
            r matches Ok(t) ==> parse_type_reference(s@) == Some(t@),
            r matches Err(e) ==> parse_type_reference(s@) is None && e@ == type_name_mismatch_message(),
        decreases s@.len(), 1nat,
    {
        let n = s.unicode_len();
        if n > 0 && s.get_char(n - 1) == '!' {
            let inner = s.substring_char(0, n - 1);
            assert(inner@ =~= s@.drop_last());
            match BaseType::deserialize(inner) {
                Ok(b) => Ok(TypeReference { underlying_type: b, nullable: false }),
                Err(e) => Err(e),
            }
        } else {
            match BaseType::deserialize(s) {
                Ok(b) => Ok(TypeReference { underlying_type: b, nullable: true }),
                Err(e) => Err(e),
            }
        }
    }
}

impl BaseType {
    /// Writes the text of this base type.
    pub fn to_string(&self) -> (r: String)
        ensures
            r@ == base_type_text(self@),
        decreases self,
    {
        match self {
            BaseType::Named(n) => n.to_string(),
            BaseType::List(t) => {
                let inner: &TypeReference = t;
                let mut r = String::new();
                string_push(&mut r, '[');
                let s = inner.to_string();
                r.append(s.as_str());
                string_push(&mut r, ']');
                assert(r@ =~= base_type_text(self@));
                r
            },
        }
    }

    /// Reads a base type from its text.
    pub fn deserialize(s: &str) -> (r: Result<BaseType, String>)
        ensures
            r matches Ok(b) ==> parse_base_type(s@) == Some(b@),
            r matches Err(e) ==> parse_base_type(s@) is None && e@ == type_name_mismatch_message(),
        decreases s@.len(), 0nat,
    {
        let n = s.unicode_len();
        if n >= 2 && s.get_char(0) == '[' && s.get_char(n - 1) == ']' {
            let inner = s.substring_char(1, n - 1);
            assert(inner@ =~= s@.subrange(1, s@.len() - 1));
            match TypeReference::deserialize(inner) {
                Ok(t) => Ok(BaseType::List(Box::new(t))),
                Err(e) => Err(e),
            }
        } else {
            match TypeName::deserialize(s) {
                Ok(name) => Ok(BaseType::Named(name)),
                Err(e) => Err(e),
            }
        }
    }
}


proof fn lemma_base_type_text_shape(b: BaseTypeView)
    requires
        wf_base_type(b),
    ensures
        base_type_text(b).len() > 0,
        base_type_text(b).last() != '!',
        b is Named ==> base_type_text(b)[0] != '[',
{
    match b {
        BaseTypeView::Named(n) => {
            match n {
                TypeNameView::Inbuilt(i) => {},
                TypeNameView::Custom(s) => {
                    assert(is_ident_char(s[s.len() - 1]));
                    assert(is_ident_char(s[0]));
                },
            }
        },
        BaseTypeView::List(t) => {},
    }
}

proof fn lemma_print_then_parse_base_type(b: BaseTypeView)
    requires
        wf_base_type(b),
    ensures
        parse_base_type(base_type_text(b)) == Some(b),
    decreases b, 0nat,
{
    lemma_base_type_text_shape(b);
    match b {
        BaseTypeView::Named(n) => {},
        BaseTypeView::List(t) => {
            lemma_print_then_parse_type_reference(*t);
            let s = base_type_text(b);
            assert(s.subrange(1, s.len() - 1) =~= type_reference_text(*t));
        },
    }
}

/// Reading the text of a well-formed type reference gives back that type
/// reference.
pub proof fn lemma_print_then_parse_type_reference(t: TypeReferenceView)
    requires
        wf_type_reference(t),
    ensures
        parse_type_reference(type_reference_text(t)) == Some(t),
    decreases t, 1nat,
{
    lemma_print_then_parse_base_type(t.underlying_type);
    lemma_base_type_text_shape(t.underlying_type);
    let bt = base_type_text(t.underlying_type);
    if t.nullable {
        assert(type_reference_text(t) =~= bt);
    } else {
        assert(type_reference_text(t).drop_last() =~= bt);
    }
}

proof fn lemma_parse_then_print_base_type(s: Seq<char>)
    requires
        parse_base_type(s) is Some,
    ensures
        base_type_text(parse_base_type(s).unwrap()) == s,
        wf_base_type(parse_base_type(s).unwrap()),
    decreases s.len(), 0nat,
{
    if s.len() >= 2 && s[0] == '[' && s.last() == ']' {
        let inner = s.subrange(1, s.len() - 1);
        lemma_parse_then_print_type_reference(inner);
        assert(s =~= seq!['['] + inner + seq![']']);
    }
}

/// A text that reads as a type reference is the text of that type
/// reference, which is well formed.
pub proof fn lemma_parse_then_print_type_reference(s: Seq<char>)
    requires
        parse_type_reference(s) is Some,
    ensures
        type_reference_text(parse_type_reference(s).unwrap()) == s,
        wf_type_reference(parse_type_reference(s).unwrap()),
    decreases s.len(), 1nat,
{
    if s.len() > 0 && s.last() == '!' {
        lemma_parse_then_print_base_type(s.drop_last());
        assert(s =~= s.drop_last() + seq!['!']);
    } else {
        lemma_parse_then_print_base_type(s);
        assert(s + Seq::<char>::empty() =~= s);
    }
}

} // verus!

verus! {

impl crate::open_dds::names::Ident for CustomTypeName {
    fn same(&self, other: &Self) -> (r: bool) {
        self.0 == other.0
    }

    fn duplicate(&self) -> (r: Self) {
        CustomTypeName(self.0.clone())
    }
}

} // verus!

verus! {

/// The definition of an argument of a model or a command.
#[derive(Debug, PartialEq)]
pub struct ArgumentDefinition {
    pub name: ArgumentName,
    pub argument_type: TypeReference,
}

/// GraphQL configuration of an Open DD object type.
#[derive(Debug, PartialEq)]
pub struct ObjectTypeGraphQLConfiguration {
    /// The name to use for the GraphQL type representation of this object type.
    pub typename: Option<GraphQlTypeName>,
    /// The name to use for the GraphQL input type representation of this object type.
    pub input_type_name: Option<GraphQlTypeName>,
}

/// Definition of a user-defined Open DD object type.
#[derive(Debug, PartialEq)]
pub enum ObjectType {
    V1(ObjectTypeV1),
}

impl ObjectType {
    /// The definition in its latest version.
    pub fn upgrade(self) -> (r: ObjectTypeV1)
        ensures
            self == ObjectType::V1(r),
    {
        match self {
            ObjectType::V1(v1) => v1,
        }
    }
}

#[derive(Debug, PartialEq)]
pub struct ObjectTypeV1 {
    pub name: CustomTypeName,
    pub fields: Vec<FieldDefinition>,
    pub global_id_fields: Option<Vec<FieldName>>,
    /// GraphQl configuration for this object.
    pub graphql: Option<ObjectTypeGraphQLConfiguration>,
}

/// The definition of a field in a user-defined object type.
#[derive(Debug, PartialEq)]
pub struct FieldDefinition {
    pub name: FieldName,
    pub field_type: TypeReference,
}

/// GraphQL configuration of an Open DD scalar type
#[derive(Debug, PartialEq)]
pub struct ScalarTypeGraphQLConfiguration {
    /// The name of the GraphQl type to use for this scalar.
    pub typename: GraphQlTypeName,
}

/// Definition of a user-defined scalar type that that has opaque semantics.
#[derive(Debug, PartialEq)]
pub enum ScalarType {
    V1(ScalarTypeV1),
}

impl ScalarType {
    /// The definition in its latest version.
    pub fn upgrade(self) -> (r: ScalarTypeV1)
        ensures
            self == ScalarType::V1(r),
    {
        match self {
            ScalarType::V1(v1) => v1,
        }
    }
}

#[derive(Debug, PartialEq)]
pub struct ScalarTypeV1 {
    /// The OpenDD name of this type.
    pub name: CustomTypeName,
    /// The name of the GraphQl scalar type to use for
    pub graphql: Option<ScalarTypeGraphQLConfiguration>,
}

/// GraphQL configuration of a data connector scalar
#[derive(Debug, PartialEq)]
pub struct DataConnectorScalarGraphQLConfiguration {
    pub comparison_expression_type_name: Option<GraphQlTypeName>,
}

/// The representation of a data connector scalar in terms of Open DD types
#[derive(Debug, PartialEq)]
pub enum DataConnectorScalarRepresentation {
    V1(DataConnectorScalarRepresentationV1),
}

impl DataConnectorScalarRepresentation {
    /// The definition in its latest version.
    pub fn upgrade(self) -> (r: DataConnectorScalarRepresentationV1)
        ensures
            self == DataConnectorScalarRepresentation::V1(r),
    {
        match self {
            DataConnectorScalarRepresentation::V1(v1) => v1,
        }
    }
}

#[derive(Debug, PartialEq)]
pub struct DataConnectorScalarRepresentationV1 {
    pub data_connector_name: DataConnectorName,
    pub data_connector_scalar_type: String,
    pub representation: TypeName,
    pub graphql: Option<DataConnectorScalarGraphQLConfiguration>,
}

} // verus!
