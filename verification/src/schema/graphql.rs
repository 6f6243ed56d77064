//! The GraphQL types the schema builders name, and the builder that records
//! which of them have been registered.

use vstd::prelude::*;
use vstd::string::*;

use crate::metadata::resolved::subgraph::{Qualified, QualifiedTypeReference, QualifiedTypeReferenceView};
use crate::metadata::resolved::command::{CommandSource, CommandSourceView};
use crate::metadata::resolved::model::{ModelSource, ModelSourceView};
use crate::metadata::resolved::relationship::RelationshipMapping;
use crate::schema::operations::relay::{TypenameMapping, TypenameMappingView};
use crate::open_dds::names::{CommandName, FieldName, Ident, ModelName, RelationshipName};
use crate::open_dds::relationships::RelationshipType;
use crate::keyed::entries_view;
use crate::metadata::resolved::model::FilterView;
use crate::schema::normalized::{InputAnnotation, InputAnnotationView};
use crate::schema::types::{annotation_view, annotations_view, NamespaceAnnotation, RoleAnnotations};
use crate::open_dds::types::{inbuilt_name, CustomTypeName, InbuiltType};

verus! {

/// The name of a type registered with the schema builder.
#[derive(Debug, PartialEq, Eq)]
pub struct RegisteredTypeName(pub String);

impl View for RegisteredTypeName {
    type V = Seq<char>;

    open spec fn view(&self) -> Seq<char> {
        self.0@
    }
}

/// A type: a named type or a list, nullable or not.
#[derive(Debug, PartialEq, Eq)]
pub struct TypeContainer {
    pub base: BaseTypeContainer,
    pub nullable: bool,
}

#[derive(Debug, PartialEq, Eq)]
pub enum BaseTypeContainer {
    Named(RegisteredTypeName),
    List(Box<TypeContainer>),
}

/// The abstract value of a type.
pub struct TypeContainerView {
    pub base: BaseTypeView,
    pub nullable: bool,
}

/// The abstract value of the base of a type.
pub enum BaseTypeView {
    Named(Seq<char>),
    List(Box<TypeContainerView>),
}

pub open spec fn type_container_view(t: TypeContainer) -> TypeContainerView
    decreases t, 1nat,
{
    TypeContainerView { base: base_type_view(t.base), nullable: t.nullable }
}

pub open spec fn base_type_view(b: BaseTypeContainer) -> BaseTypeView
    decreases b, 0nat,
{
    match b {
        BaseTypeContainer::Named(n) => BaseTypeView::Named(n@),
        BaseTypeContainer::List(t) => BaseTypeView::List(Box::new(type_container_view(*t))),
    }
}

impl View for TypeContainer {
    type V = TypeContainerView;

    open spec fn view(&self) -> TypeContainerView {
        type_container_view(*self)
    }
}

impl View for BaseTypeContainer {
    type V = BaseTypeView;

    open spec fn view(&self) -> BaseTypeView {
        base_type_view(*self)
    }
}

impl TypeContainer {
    /// A nullable named type.
    pub fn named_null(name: RegisteredTypeName) -> (r: TypeContainer)
        ensures
            r@ == (TypeContainerView { base: BaseTypeView::Named(name@), nullable: true }),
    {
        TypeContainer { base: BaseTypeContainer::Named(name), nullable: true }
    }

    /// A non-nullable named type.
    pub fn named_non_null(name: RegisteredTypeName) -> (r: TypeContainer)
        ensures
            r@ == (TypeContainerView { base: BaseTypeView::Named(name@), nullable: false }),
    {
        TypeContainer { base: BaseTypeContainer::Named(name), nullable: false }
    }

    /// A nullable list of the type.
    pub fn list_null(element: TypeContainer) -> (r: TypeContainer)
        ensures
            r@ == (TypeContainerView { base: BaseTypeView::List(Box::new(element@)), nullable: true }),
    {
        TypeContainer { base: BaseTypeContainer::List(Box::new(element)), nullable: true }
    }

    /// A non-nullable list of the type.
    pub fn list_non_null(element: TypeContainer) -> (r: TypeContainer)
        ensures
            r@ == (TypeContainerView { base: BaseTypeView::List(Box::new(element@)), nullable: false }),
    {
        TypeContainer { base: BaseTypeContainer::List(Box::new(element)), nullable: false }
    }
}

/// A field of an input object type, or an argument of a field.
#[derive(Debug, PartialEq, Eq)]
pub struct SchemaInputField {
    pub name: String,
    pub info: InputAnnotation,
    pub field_type: TypeContainer,
}

/// The abstract value of an input field.
pub struct InputFieldView {
    pub name: Seq<char>,
    pub info: InputAnnotationView,
    pub field_type: TypeContainerView,
}

impl View for SchemaInputField {
    type V = InputFieldView;

    open spec fn view(&self) -> InputFieldView {
        InputFieldView { name: self.name@, info: self.info@, field_type: self.field_type@ }
    }
}

/// Which roles see a part of the schema: all of them, with one annotation,
/// or the given roles, each with its annotation.
#[derive(Debug, PartialEq, Eq)]
pub enum Visibility {
    AllowAll(Option<NamespaceAnnotation>),
    Conditional(RoleAnnotations),
}

/// The abstract value of a visibility.
pub enum VisibilityView {
    AllowAll(Option<FilterView>),
    Conditional(Seq<(Seq<char>, Option<FilterView>)>),
}

impl View for Visibility {
    type V = VisibilityView;

    open spec fn view(&self) -> VisibilityView {
        match self {
            Visibility::AllowAll(a) => VisibilityView::AllowAll(annotation_view(*a)),
            Visibility::Conditional(r) => VisibilityView::Conditional(annotations_view(r@)),
        }
    }
}

/// A part of the schema with the roles that see it.
#[derive(Debug, PartialEq, Eq)]
pub struct Namespaced<T> {
    pub data: T,
    pub visibility: Visibility,
}

/// The abstract value of a namespaced part of the schema.
pub struct NamespacedView<V> {
    pub data: V,
    pub visibility: VisibilityView,
}

impl<T: View> View for Namespaced<T> {
    type V = NamespacedView<T::V>;

    open spec fn view(&self) -> NamespacedView<T::V> {
        NamespacedView { data: self.data@, visibility: self.visibility@ }
    }
}

/// An input object type: its name and its fields, each under its name.
#[derive(Debug, PartialEq, Eq)]
pub struct InputObject {
    pub name: String,
    pub fields: Vec<(String, Namespaced<SchemaInputField>)>,
}

/// The fields a global ID is made of.
#[derive(Debug, PartialEq, Eq)]
pub struct GlobalIdFields(pub Vec<FieldName>);

impl View for GlobalIdFields {
    type V = Seq<Seq<char>>;

    open spec fn view(&self) -> Seq<Seq<char>> {
        self.0@.map_values(|f: FieldName| f@)
    }
}

impl GlobalIdFields {
    /// The global ID fields of a list of field names.
    pub fn of(fields: &Vec<FieldName>) -> (r: GlobalIdFields)
        ensures
            r@ == fields@.map_values(|f: FieldName| f@),
    {
        let mut out: Vec<FieldName> = Vec::new();
        let mut i: usize = 0;
        while i < fields.len()
            invariant
                i <= fields.len(),
                out.len() == i,
                forall|j: int| 0 <= j < i ==> (#[trigger] out@[j])@ == fields@[j]@,
            decreases fields.len() - i,
        {
            out.push(fields[i].clone());
            i = i + 1;
        }
        let r = GlobalIdFields(out);
        assert(r@ =~= fields@.map_values(|f: FieldName| f@));
        r
    }
}

/// A field that selects from a model through a relationship: the type the
/// relationship is defined on, its name, the model and object type it leads
/// to, whether it gives one object or an array, and how the fields match.
#[derive(Debug, PartialEq, Eq)]
pub struct ModelRelationshipAnnotation {
    pub source_type: Qualified<CustomTypeName>,
    pub relationship_name: RelationshipName,
    pub model_name: Qualified<ModelName>,
    pub target_type: Qualified<CustomTypeName>,
    pub relationship_type: RelationshipType,
    pub mappings: Vec<RelationshipMapping>,
}

/// The abstract value of a relationship annotation; each mapping by the
/// names of its source and target fields.
pub struct RelationshipAnnotationView {
    pub source_type: (Seq<char>, Seq<char>),
    pub relationship_name: Seq<char>,
    pub model_name: (Seq<char>, Seq<char>),
    pub target_type: (Seq<char>, Seq<char>),
    pub relationship_type: RelationshipType,
    pub mappings: Seq<(Seq<char>, Seq<char>)>,
}

/// The names of the source and target fields of each mapping.
pub open spec fn mappings_view(m: Seq<RelationshipMapping>) -> Seq<(Seq<char>, Seq<char>)> {
    m.map_values(|x: RelationshipMapping| (x.source_field.field_name@, x.target_field.field_name@))
}

impl View for ModelRelationshipAnnotation {
    type V = RelationshipAnnotationView;

    open spec fn view(&self) -> RelationshipAnnotationView {
        RelationshipAnnotationView {
            source_type: self.source_type@,
            relationship_name: self.relationship_name@,
            model_name: self.model_name@,
            target_type: self.target_type@,
            relationship_type: self.relationship_type,
            mappings: mappings_view(self.mappings@),
        }
    }
}

/// Whether a model root field selects one row or many.
#[derive(Debug, Clone, Copy, PartialEq, Eq, Structural)]
pub enum RootFieldKind {
    SelectOne,
    SelectMany,
}

/// What a field of a root type stands for: a model selection, the relay
/// node field with what it knows of each global ID source, or a command, with its source and
/// the object type it returns, where it has them.
#[derive(Debug, PartialEq)]
pub enum RootFieldAnnotation {
    Introspection,
    Model {
        data_type: Qualified<CustomTypeName>,
        source: Option<ModelSource>,
        kind: RootFieldKind,
        name: Qualified<ModelName>,
    },
    RelayNode { typename_mappings: Vec<(String, TypenameMapping)> },
    Command {
        name: Qualified<CommandName>,
        source: Option<CommandSource>,
        underlying_object_typename: Option<Qualified<CustomTypeName>>,
    },
}

/// The abstract value of a root field annotation.
pub enum RootFieldAnnotationView {
    Introspection,
    Model((Seq<char>, Seq<char>), Option<ModelSourceView>, RootFieldKind, (Seq<char>, Seq<char>)),
    RelayNode(Seq<(Seq<char>, TypenameMappingView)>),
    Command((Seq<char>, Seq<char>), Option<CommandSourceView>, Option<(Seq<char>, Seq<char>)>),
}

impl View for RootFieldAnnotation {
    type V = RootFieldAnnotationView;

    open spec fn view(&self) -> RootFieldAnnotationView {
        match self {
            RootFieldAnnotation::Introspection => RootFieldAnnotationView::Introspection,
            RootFieldAnnotation::Model { data_type, source, kind, name } => RootFieldAnnotationView::Model(
                data_type@,
                match source {
                    Some(s) => Some(s@),
                    None => None,
                },
                *kind,
                name@,
            ),
            RootFieldAnnotation::RelayNode { typename_mappings } => RootFieldAnnotationView::RelayNode(
                entries_view(typename_mappings@),
            ),
            RootFieldAnnotation::Command { name, source, underlying_object_typename } => RootFieldAnnotationView::Command(
                name@,
                match source {
                    Some(s) => Some(s@),
                    None => None,
                },
                match underlying_object_typename {
                    Some(t) => Some(t@),
                    None => None,
                },
            ),
        }
    }
}

/// What an output field stands for.
#[derive(Debug, PartialEq)]
pub enum OutputAnnotation {
    RootField(RootFieldAnnotation),
    Field { name: FieldName },
    RelationshipToModel(ModelRelationshipAnnotation),
    GlobalIDField { global_id_fields: GlobalIdFields },
    RelayNodeInterfaceID { typename_mappings: Vec<(String, GlobalIdFields)> },
}

/// The abstract value of an output annotation.
pub enum OutputAnnotationView {
    RootField(RootFieldAnnotationView),
    Field(Seq<char>),
    RelationshipToModel(RelationshipAnnotationView),
    GlobalIDField(Seq<Seq<char>>),
    RelayNodeInterfaceID(Seq<(Seq<char>, Seq<Seq<char>>)>),
}

impl View for OutputAnnotation {
    type V = OutputAnnotationView;

    open spec fn view(&self) -> OutputAnnotationView {
        match self {
            OutputAnnotation::RootField(a) => OutputAnnotationView::RootField(a@),
            OutputAnnotation::Field { name } => OutputAnnotationView::Field(name@),
            OutputAnnotation::RelationshipToModel(a) => OutputAnnotationView::RelationshipToModel(a@),
            OutputAnnotation::GlobalIDField { global_id_fields } => OutputAnnotationView::GlobalIDField(
                global_id_fields@,
            ),
            OutputAnnotation::RelayNodeInterfaceID { typename_mappings } => OutputAnnotationView::RelayNodeInterfaceID(
                entries_view(typename_mappings@),
            ),
        }
    }
}

/// A field of an output type: its name, annotation, type and arguments.
#[derive(Debug, PartialEq)]
pub struct SchemaField {
    pub name: String,
    pub info: OutputAnnotation,
    pub field_type: TypeContainer,
    pub arguments: Vec<(String, Namespaced<SchemaInputField>)>,
}

/// The abstract value of an output field.
pub struct FieldView {
    pub name: Seq<char>,
    pub info: OutputAnnotationView,
    pub field_type: TypeContainerView,
    pub arguments: Seq<(Seq<char>, NamespacedView<InputFieldView>)>,
}

impl View for SchemaField {
    type V = FieldView;

    open spec fn view(&self) -> FieldView {
        FieldView {
            name: self.name@,
            info: self.info@,
            field_type: self.field_type@,
            arguments: entries_view(self.arguments@),
        }
    }
}

/// An interface type: its name, its fields, and the object types that
/// implement it, each with the roles that see it as doing so.
#[derive(Debug, PartialEq)]
pub struct Interface {
    pub name: String,
    pub fields: Vec<(String, Namespaced<SchemaField>)>,
    pub implemented_by: Vec<(String, Namespaced<()>)>,
}

/// The definition of a type of the schema.
#[derive(Debug, PartialEq)]
pub enum TypeInfo {
    InputObject(InputObject),
    Object(Object),
}

/// An object type: its name, its fields, and the interfaces it implements,
/// each with the roles that see it as doing so.
#[derive(Debug, PartialEq)]
pub struct Object {
    pub name: String,
    pub fields: Vec<(String, Namespaced<SchemaField>)>,
    pub interfaces: Vec<(String, Namespaced<()>)>,
}

/// A type the schema builders ask for.
#[derive(Debug, PartialEq, Eq)]
pub enum TypeId {
    OutputType { gds_type_name: Qualified<CustomTypeName>, graphql_type_name: String },
    InputObjectType { gds_type_name: Qualified<CustomTypeName>, graphql_type_name: String },
    ScalarType { gds_type_name: Qualified<CustomTypeName>, graphql_type_name: String },
    NodeRoot,
    ModelArgumentsInput { model_name: Qualified<ModelName>, graphql_type_name: String },
    ModelBooleanExpression { model_name: Qualified<ModelName>, graphql_type_name: String },
    ModelOrderByExpression { model_name: Qualified<ModelName>, graphql_type_name: String },
    ScalarTypeComparisonExpression {
        scalar_type_name: String,
        graphql_type_name: String,
        operators: Vec<(String, QualifiedTypeReference)>,
    },
}

/// The abstract value of a type id.
pub enum TypeIdView {
    OutputType((Seq<char>, Seq<char>), Seq<char>),
    InputObjectType((Seq<char>, Seq<char>), Seq<char>),
    ScalarType((Seq<char>, Seq<char>), Seq<char>),
    NodeRoot,
    ModelArgumentsInput((Seq<char>, Seq<char>), Seq<char>),
    ModelBooleanExpression((Seq<char>, Seq<char>), Seq<char>),
    ModelOrderByExpression((Seq<char>, Seq<char>), Seq<char>),
    ScalarTypeComparisonExpression(
        Seq<char>,
        Seq<char>,
        Seq<(Seq<char>, QualifiedTypeReferenceView)>,
    ),
}

impl View for TypeId {
    type V = TypeIdView;

    open spec fn view(&self) -> TypeIdView {
        match self {
            TypeId::OutputType { gds_type_name, graphql_type_name } => TypeIdView::OutputType(
                gds_type_name@,
                graphql_type_name@,
            ),
            TypeId::InputObjectType { gds_type_name, graphql_type_name } => TypeIdView::InputObjectType(
                gds_type_name@,
                graphql_type_name@,
            ),
            TypeId::ScalarType { gds_type_name, graphql_type_name } => TypeIdView::ScalarType(
                gds_type_name@,
                graphql_type_name@,
            ),
            TypeId::NodeRoot => TypeIdView::NodeRoot,
            TypeId::ModelArgumentsInput { model_name, graphql_type_name } => TypeIdView::ModelArgumentsInput(
                model_name@,
                graphql_type_name@,
            ),
            TypeId::ModelBooleanExpression { model_name, graphql_type_name } => TypeIdView::ModelBooleanExpression(
                model_name@,
                graphql_type_name@,
            ),
            TypeId::ModelOrderByExpression { model_name, graphql_type_name } => TypeIdView::ModelOrderByExpression(
                model_name@,
                graphql_type_name@,
            ),
            TypeId::ScalarTypeComparisonExpression { scalar_type_name, graphql_type_name, operators } => {
                TypeIdView::ScalarTypeComparisonExpression(
                    scalar_type_name@,
                    graphql_type_name@,
                    operators@.map_values(|o: (String, QualifiedTypeReference)| (o.0@, o.1@)),
                )
            },
        }
    }
}

/// The GraphQL name of the type a type id stands for.
pub open spec fn type_id_name(id: TypeIdView) -> Seq<char> {
    match id {
        TypeIdView::OutputType(_, n) => n,
        TypeIdView::InputObjectType(_, n) => n,
        TypeIdView::ScalarType(_, n) => n,
        TypeIdView::NodeRoot => "Node"@,
        TypeIdView::ModelArgumentsInput(_, n) => n,
        TypeIdView::ModelBooleanExpression(_, n) => n,
        TypeIdView::ModelOrderByExpression(_, n) => n,
        TypeIdView::ScalarTypeComparisonExpression(_, n, _) => n,
    }
}

impl TypeId {
    /// The GraphQL name of the type.
    pub fn graphql_name(&self) -> (r: RegisteredTypeName)
        ensures
            r@ == type_id_name(self@),
    {
        match self {
            TypeId::OutputType { graphql_type_name, .. } => RegisteredTypeName(graphql_type_name.clone()),
            TypeId::InputObjectType { graphql_type_name, .. } => RegisteredTypeName(
                graphql_type_name.clone(),
            ),
            TypeId::ScalarType { graphql_type_name, .. } => RegisteredTypeName(graphql_type_name.clone()),
            TypeId::NodeRoot => RegisteredTypeName(String::from_str("Node")),
            TypeId::ModelArgumentsInput { graphql_type_name, .. } => RegisteredTypeName(
                graphql_type_name.clone(),
            ),
            TypeId::ModelBooleanExpression { graphql_type_name, .. } => RegisteredTypeName(
                graphql_type_name.clone(),
            ),
            TypeId::ModelOrderByExpression { graphql_type_name, .. } => RegisteredTypeName(
                graphql_type_name.clone(),
            ),
            TypeId::ScalarTypeComparisonExpression { graphql_type_name, .. } => RegisteredTypeName(
                graphql_type_name.clone(),
            ),
        }
    }
}

/// Records the types the schema builders ask for; the schema then holds a
/// type for each.
pub struct Builder {
    registered: Vec<TypeId>,
}

impl Builder {
    /// The types registered so far, in the order they were asked for.
    pub closed spec fn registered(&self) -> Seq<TypeIdView> {
        self.registered@.map_values(|t: TypeId| t@)
    }

    /// A builder with no type registered.
    pub fn new() -> (r: Builder)
        ensures
            r.registered() == Seq::<TypeIdView>::empty(),
    {
        let r = Builder { registered: Vec::new() };
        assert(r.registered() =~= Seq::<TypeIdView>::empty());
        r
    }

    /// Registers a type and gives its name.
    pub fn register_type(&mut self, id: TypeId) -> (r: RegisteredTypeName)
        ensures
            final(self).registered() == old(self).registered().push(id@),
            r@ == type_id_name(id@),
    {
        let name = id.graphql_name();
        let ghost before = self.registered@;
        let ghost v = id@;
        self.registered.push(id);
        assert(self.registered@.map_values(|t: TypeId| t@) =~= before.map_values(|t: TypeId| t@).push(v));
        name
    }
}

impl Builder {
    /// A part of the schema that every role sees, with the annotation.
    pub fn allow_all_namespaced<T>(&self, data: T, annotation: Option<NamespaceAnnotation>) -> (r: Namespaced<T>)
        ensures
            r == (Namespaced { data, visibility: Visibility::AllowAll(annotation) }),
    {
        Namespaced { data, visibility: Visibility::AllowAll(annotation) }
    }

    /// A part of the schema that the given roles see, each with its annotation.
    pub fn conditional_namespaced<T>(&self, data: T, roles: RoleAnnotations) -> (r: Namespaced<T>)
        ensures
            r == (Namespaced { data, visibility: Visibility::Conditional(roles) }),
    {
        Namespaced { data, visibility: Visibility::Conditional(roles) }
    }
}

/// The named type of a built-in scalar.
pub fn base_type_container_for_inbuilt_type(t: &InbuiltType) -> (r: BaseTypeContainer)
    ensures
        r@ == BaseTypeView::Named(inbuilt_name(*t)),
{
    BaseTypeContainer::Named(RegisteredTypeName(String::from_str(t.name())))
}

impl TypeContainer {
    /// A copy of this type.
    pub fn duplicate(&self) -> (r: TypeContainer)
        ensures
            r@ == self@,
        decreases self,
    {
        let base = match &self.base {
            BaseTypeContainer::Named(n) => BaseTypeContainer::Named(RegisteredTypeName(n.0.clone())),
            BaseTypeContainer::List(inner) => {
                let t: &TypeContainer = inner;
                BaseTypeContainer::List(Box::new(t.duplicate()))
            },
        };
        TypeContainer { base, nullable: self.nullable }
    }
}

fn copy_global_id_mappings(m: &Vec<(String, GlobalIdFields)>) -> (r: Vec<(String, GlobalIdFields)>)
    ensures
        entries_view(r@) == entries_view(m@),
{
    let mut out: Vec<(String, GlobalIdFields)> = Vec::new();
    let mut i: usize = 0;
    while i < m.len()
        invariant
            i <= m.len(),
            out.len() == i,
            forall|j: int| 0 <= j < i ==> (#[trigger] out@[j]).0@ == m@[j].0@ && out@[j].1@ == m@[j].1@,
        decreases m.len() - i,
    {
        out.push((m[i].0.clone(), GlobalIdFields::of(&m[i].1.0)));
        i = i + 1;
    }
    assert(entries_view(out@) =~= entries_view(m@));
    out
}

fn copy_typename_mappings(m: &Vec<(String, TypenameMapping)>) -> (r: Vec<(String, TypenameMapping)>)
    ensures
        entries_view(r@) == entries_view(m@),
{
    let mut out: Vec<(String, TypenameMapping)> = Vec::new();
    let mut i: usize = 0;
    while i < m.len()
        invariant
            i <= m.len(),
            out.len() == i,
            forall|j: int| 0 <= j < i ==> (#[trigger] out@[j]).0@ == m@[j].0@ && out@[j].1@ == m@[j].1@,
        decreases m.len() - i,
    {
        out.push((m[i].0.clone(), m[i].1.duplicate()));
        i = i + 1;
    }
    assert(entries_view(out@) =~= entries_view(m@));
    out
}

impl OutputAnnotation {
    /// A copy of this annotation.
    pub fn duplicate(&self) -> (r: OutputAnnotation)
        ensures
            r@ == self@,
    {
        match self {
            OutputAnnotation::RootField(a) => OutputAnnotation::RootField(
                match a {
                    RootFieldAnnotation::Introspection => RootFieldAnnotation::Introspection,
                    RootFieldAnnotation::Model { data_type, source, kind, name } => RootFieldAnnotation::Model {
                        data_type: data_type.duplicate(),
                        source: match source {
                            Some(s) => Some(s.duplicate()),
                            None => None,
                        },
                        kind: *kind,
                        name: name.duplicate(),
                    },
                    RootFieldAnnotation::RelayNode { typename_mappings } => RootFieldAnnotation::RelayNode {
                        typename_mappings: copy_typename_mappings(typename_mappings),
                    },
                    RootFieldAnnotation::Command { name, source, underlying_object_typename } => RootFieldAnnotation::Command {
                        name: name.duplicate(),
                        source: match source {
                            Some(s) => Some(s.duplicate()),
                            None => None,
                        },
                        underlying_object_typename: match underlying_object_typename {
                            Some(u) => Some(u.duplicate()),
                            None => None,
                        },
                    },
                },
            ),
            OutputAnnotation::Field { name } => OutputAnnotation::Field { name: name.duplicate() },
            OutputAnnotation::RelationshipToModel(a) => OutputAnnotation::RelationshipToModel(
                ModelRelationshipAnnotation {
                    source_type: a.source_type.duplicate(),
                    relationship_name: a.relationship_name.duplicate(),
                    model_name: a.model_name.duplicate(),
                    target_type: a.target_type.duplicate(),
                    relationship_type: a.relationship_type,
                    mappings: crate::schema::types::output_type::copy_mappings(&a.mappings),
                },
            ),
            OutputAnnotation::GlobalIDField { global_id_fields } => OutputAnnotation::GlobalIDField {
                global_id_fields: GlobalIdFields::of(&global_id_fields.0),
            },
            OutputAnnotation::RelayNodeInterfaceID { typename_mappings } => OutputAnnotation::RelayNodeInterfaceID {
                typename_mappings: copy_global_id_mappings(typename_mappings),
            },
        }
    }
}

} // verus!
