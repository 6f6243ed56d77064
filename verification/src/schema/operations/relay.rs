//! The Node interface of the relay object identification.

use vstd::prelude::*;
use vstd::string::*;

use super::permissions::{get_node_interface_annotations, node_roles};
use crate::keyed::{
    entries_distinct, entries_view, first_key, has_key, set_entry, upsert,
};
use crate::json::JsonValue;
use crate::keyed::lemma_first_key_unique;
use crate::keyed::find_key;
use crate::open_dds::names::Ident;
use crate::keyed::is_first_key;
use crate::metadata::resolved::model::{FilterPermission, FilterView, Model, ModelSource, ModelSourceView, SelectPermission};
use crate::metadata::resolved::types::{FieldMapping, TypeMapping};
use crate::open_dds::ndc_client::models::{column, expressions_view, BinaryComparisonOperator, ComparisonValue, Expression, ExpressionView};
use crate::schema::operations::error::{Error, InternalDeveloperError, InternalEngineError, InternalError};
use crate::schema::operations::select_one::{equals, generic, qualified_text};
use crate::metadata::resolved::subgraph::{
    Qualified, QualifiedBaseType, QualifiedTypeName, QualifiedTypeReference,
};
use crate::metadata::resolved::types::TypeRepresentation;
use crate::open_dds::names::{FieldName, ModelName, Role};
use crate::open_dds::types::{inbuilt_name, CustomTypeName, InbuiltType};
use crate::schema::error::Error as SchemaError;
use crate::schema::graphql::{
    BaseTypeView, Builder, FieldView, GlobalIdFields, Interface, Namespaced, NamespacedView,
    OutputAnnotation, OutputAnnotationView, SchemaField, TypeContainerView, TypeIdView, VisibilityView,
};
use crate::schema::types::output_type::{
    custom_type_id, get_custom_output_type, get_object_type_representation, get_output_type, node_interface_type, type_error,
    TypeFailure, Types,
};
use crate::schema::types::input_type::get_input_type;
use crate::schema::graphql::{
    type_id_name, InputFieldView, RootFieldAnnotation, RootFieldAnnotationView, SchemaInputField, TypeContainer,
};
use crate::schema::normalized::{InputAnnotation, InputAnnotationView};
use crate::schema::error::Error as NodeSchemaError;
use crate::keyed::{entry_index, entry_present, has_entry};
use crate::schema::types::{annotations_view, RoleAnnotations};

use base64::Engine;

verus! {

/// Why the Node interface could not be built.
pub enum NodeFailure {
    TypeNotFound((Seq<char>, Seq<char>)),
    NotObject((Seq<char>, Seq<char>)),
    NoOutputTypeName((Seq<char>, Seq<char>)),
}

/// Whether an error is the one reported for a failure.
pub open spec fn node_error(e: SchemaError, f: NodeFailure) -> bool {
    match f {
        NodeFailure::TypeNotFound(n) => e matches SchemaError::InternalTypeNotFound { typename }
            && typename@ == n,
        NodeFailure::NotObject(n) => e matches SchemaError::ExpectedTypeToBeObject { typename }
            && typename@ == n,
        NodeFailure::NoOutputTypeName(n) => e matches SchemaError::NoGraphQlOutputTypeNameForObject {
            typename,
        } && typename@ == n,
    }
}

/// What the models met so far give the Node interface: the roles that see its
/// `id` field, the object types implementing it with the roles that see that,
/// the global ID fields of each object type, and the types registered.
pub struct NodeParts {
    pub roles: Seq<(Seq<char>, ())>,
    pub implemented: Seq<(Seq<char>, NamespacedView<()>)>,
    pub mappings: Seq<(Seq<char>, Seq<Seq<char>>)>,
    pub ids: Seq<TypeIdView>,
}

/// The roles set over `acc`, each added where it is not there yet.
pub open spec fn upsert_roles(
    acc: Seq<(Seq<char>, ())>,
    rs: Seq<(Seq<char>, Option<FilterView>)>,
) -> Seq<(Seq<char>, ())>
    decreases rs.len(),
{
    if rs.len() == 0 {
        acc
    } else {
        upsert(upsert_roles(acc, rs.drop_last()), rs.last().0, ())
    }
}

/// The parts of the Node interface from the first `n` models: each model that
/// is a global ID source adds its object type; or the failure, with the types
/// registered before it.
pub open spec fn node_parts(
    types: Seq<(Qualified<CustomTypeName>, TypeRepresentation)>,
    models: Seq<(Qualified<ModelName>, Model)>,
    n: int,
) -> Result<NodeParts, (NodeFailure, Seq<TypeIdView>)>
    decreases n,
{
    if n <= 0 || n > models.len() {
        Ok(NodeParts { roles: Seq::empty(), implemented: Seq::empty(), mappings: Seq::empty(), ids: Seq::empty() })
    } else {
        match node_parts(types, models, n - 1) {
            Err(f) => Err(f),
            Ok(st) => {
                let m = models[n - 1].1;
                let dt = m.data_type@;
                if !m.global_id_source {
                    Ok(st)
                } else if !has_key(types, dt) {
                    Err((NodeFailure::TypeNotFound(dt), st.ids))
                } else {
                    match types[first_key(types, dt)].1 {
                        TypeRepresentation::ScalarType { .. } => Err((NodeFailure::NotObject(dt), st.ids)),
                        TypeRepresentation::Object(ot) => match ot.graphql_output_type_name {
                            None => Err((NodeFailure::NoOutputTypeName(dt), st.ids)),
                            Some(name) => {
                                let rs = node_roles(ot.type_permissions@, ot.global_id_fields@);
                                Ok(
                                    NodeParts {
                                        roles: upsert_roles(st.roles, rs),
                                        implemented: upsert(
                                            st.implemented,
                                            name@,
                                            NamespacedView { data: (), visibility: VisibilityView::Conditional(rs) },
                                        ),
                                        mappings: upsert(
                                            st.mappings,
                                            name@,
                                            m.global_id_fields@.map_values(|f: FieldName| f@),
                                        ),
                                        ids: st.ids.push(TypeIdView::OutputType(dt, name@)),
                                    },
                                )
                            },
                        },
                    }
                }
            },
        }
    }
}

proof fn lemma_node_parts_failure_persists(
    types: Seq<(Qualified<CustomTypeName>, TypeRepresentation)>,
    models: Seq<(Qualified<ModelName>, Model)>,
    k: int,
    n: int,
)
    requires
        1 <= k <= n <= models.len(),
        node_parts(types, models, k) is Err,
    ensures
        node_parts(types, models, n) == node_parts(types, models, k),
    decreases n - k,
{
    if k < n {
        lemma_node_parts_failure_persists(types, models, k, n - 1);
    }
}

/// Sets each role of the annotations, with no value.
fn add_roles(names: &mut Vec<(String, ())>, roles: &RoleAnnotations)
    requires
        entries_distinct(entries_view(old(names)@)),
    ensures
        entries_view(final(names)@) == upsert_roles(entries_view(old(names)@), annotations_view(roles@)),
        entries_distinct(entries_view(final(names)@)),
{
    let ghost start = entries_view(names@);
    let ghost rs = annotations_view(roles@);
    let mut i: usize = 0;
    while i < roles.len()
        invariant
            i <= roles.len(),
            rs == annotations_view(roles@),
            start == entries_view(old(names)@),
            entries_view(names@) == upsert_roles(start, rs.take(i as int)),
            entries_distinct(entries_view(names@)),
        decreases roles.len() - i,
    {
        assert(rs.take(i + 1).drop_last() =~= rs.take(i as int));
        assert(rs.take(i + 1).last() == rs[i as int]);
        set_entry(names, roles[i].0.0.clone(), ());
        i = i + 1;
    }
    assert(rs.take(roles.len() as int) =~= rs);
}

/// The roles of a list of names, each with no annotation.
fn roles_of(names: &Vec<(String, ())>) -> (r: RoleAnnotations)
    ensures
        annotations_view(r@) == entries_view(names@).map_values(
            |p: (Seq<char>, ())| (p.0, None::<FilterView>),
        ),
{
    let mut out: RoleAnnotations = Vec::new();
    let mut i: usize = 0;
    while i < names.len()
        invariant
            i <= names.len(),
            out.len() == i,
            forall|j: int| 0 <= j < i ==> (#[trigger] out@[j]).0@ == names@[j].0@ && out@[j].1 is None,
        decreases names.len() - i,
    {
        out.push((Role(names[i].0.clone()), None));
        i = i + 1;
    }
    assert(annotations_view(out@) =~= entries_view(names@).map_values(
        |p: (Seq<char>, ())| (p.0, None::<FilterView>),
    ));
    out
}

/// The Node interface: its `id` field, seen by every role that sees the
/// global ID of some object type, and the object types of the models that are
/// global ID sources, each seen as implementing it by the roles that may read
/// all its global ID fields.
pub fn node_interface_schema(
    builder: &mut Builder,
    types: &Types,
    models: &Vec<(Qualified<ModelName>, Model)>,
) -> (r: Result<Interface, SchemaError>)
    ensures
        match node_parts(types@, models@, models.len() as int) {
            Ok(st) => r matches Ok(i) && i.name@ == "Node"@ && entries_view(i.fields@) == seq![
                ("id"@, NamespacedView {
                    data: FieldView {
                        name: "id"@,
                        info: OutputAnnotationView::RelayNodeInterfaceID(st.mappings),
                        field_type: TypeContainerView { base: BaseTypeView::Named("ID"@), nullable: false },
                        arguments: Seq::empty(),
                    },
                    visibility: VisibilityView::Conditional(
                        st.roles.map_values(|p: (Seq<char>, ())| (p.0, None::<FilterView>)),
                    ),
                }),
            ] && entries_view(i.implemented_by@) == st.implemented && final(builder).registered() == old(
                builder,
            ).registered() + st.ids,
            Err((f, ids)) => r matches Err(e) && node_error(e, f) && final(builder).registered() == old(
                builder,
            ).registered() + ids,
        },
        r matches Ok(i) ==> entries_distinct(entries_view(i.fields@)) && entries_distinct(entries_view(i.implemented_by@)),
{
    let ghost start = builder.registered();
    let mut roles: Vec<(String, ())> = Vec::new();
    let mut implemented_by: Vec<(String, Namespaced<()>)> = Vec::new();
    let mut mappings: Vec<(String, GlobalIdFields)> = Vec::new();
    assert(entries_view(roles@) =~= Seq::<(Seq<char>, ())>::empty());
    assert(entries_view(implemented_by@) =~= Seq::<(Seq<char>, NamespacedView<()>)>::empty());
    assert(entries_view(mappings@) =~= Seq::<(Seq<char>, Seq<Seq<char>>)>::empty());
    assert(start + Seq::<TypeIdView>::empty() =~= start);
    let mut i: usize = 0;
    while i < models.len()
        invariant
            i <= models.len(),
            start == old(builder).registered(),
            node_parts(types@, models@, i as int) matches Ok(st) && st.roles == entries_view(roles@)
                && st.implemented == entries_view(implemented_by@) && st.mappings == entries_view(
                mappings@,
            ) && builder.registered() == start + st.ids,
            entries_distinct(entries_view(roles@)),
            entries_distinct(entries_view(implemented_by@)),
            entries_distinct(entries_view(mappings@)),
        decreases models.len() - i,
    {
        let ghost prev = node_parts(types@, models@, i as int);
        let model = &models[i].1;
        if model.global_id_source {
            let object_type_representation = match get_object_type_representation(types, &model.data_type) {
                Ok(o) => o,
                Err(e) => {
                    proof {
                        lemma_node_parts_failure_persists(types@, models@, i + 1, models.len() as int);
                    }
                    return Err(e);
                },
            };
            let object_typename = match get_custom_output_type(types, builder, &model.data_type) {
                Ok(n) => n,
                Err(e) => {
                    proof {
                        lemma_node_parts_failure_persists(types@, models@, i + 1, models.len() as int);
                    }
                    return Err(e);
                },
            };
            let annotations = get_node_interface_annotations(object_type_representation);
            add_roles(&mut roles, &annotations);
            let name = object_typename.0;
            set_entry(&mut mappings, name.clone(), GlobalIdFields::of(&model.global_id_fields));
            let namespaced = builder.conditional_namespaced((), annotations);
            set_entry(&mut implemented_by, name, namespaced);
            proof {
                let st = prev->Ok_0;
                let dt = model.data_type@;
                assert(start + st.ids.push(TypeIdView::OutputType(dt, name@)) =~= (start + st.ids).push(
                    TypeIdView::OutputType(dt, name@),
                ));
            }
        }
        i = i + 1;
    }
    let ghost st = node_parts(types@, models@, models.len() as int)->Ok_0;
    let id_type = QualifiedTypeReference {
        underlying_type: QualifiedBaseType::Named(QualifiedTypeName::Inbuilt(InbuiltType::ID)),
        nullable: false,
    };
    let field_type = match get_output_type(types, builder, &id_type) {
        Ok(t) => t,
        Err(e) => {
            assert(false);
            return Err(e);
        },
    };
    proof {
        reveal_strlit("ID");
        assert(builder.registered() =~= start + st.ids);
    }
    let id_field = SchemaField {
        name: String::from_str("id"),
        info: OutputAnnotation::RelayNodeInterfaceID { typename_mappings: mappings },
        field_type,
        arguments: Vec::new(),
    };
    let visibility_roles = roles_of(&roles);
    let namespaced = builder.conditional_namespaced(id_field, visibility_roles);
    let mut fields: Vec<(String, Namespaced<SchemaField>)> = Vec::new();
    fields.push((String::from_str("id"), namespaced));
    let r = Interface { name: String::from_str("Node"), fields, implemented_by };
    proof {
        let st = node_parts(types@, models@, models.len() as int)->Ok_0;
        assert(entries_view(r.fields@[0].1.data.arguments@) =~= Seq::<(Seq<char>, NamespacedView<crate::schema::graphql::InputFieldView>)>::empty());
        assert(r.fields@[0].1.data.info@ == OutputAnnotationView::RelayNodeInterfaceID(st.mappings));
        reveal_strlit("ID");
        assert("ID"@ =~= inbuilt_name(InbuiltType::ID));
        assert(r.fields@[0].1.data.field_type@ == TypeContainerView { base: BaseTypeView::Named("ID"@), nullable: false });
        assert(r.fields@[0].1.visibility@ == VisibilityView::Conditional(
            st.roles.map_values(|p: (Seq<char>, ())| (p.0, None::<FilterView>))));
        assert(entries_view(r.fields@) =~= seq![(r.fields@[0].0@, r.fields@[0].1@)]);
    }
    Ok(r)
}

/// A decoded global ID: its version, the object type it names, and the
/// value of each of its fields.
#[derive(Debug)]
pub struct GlobalId {
    pub version: u16,
    pub typename: String,
    pub id: Vec<(FieldName, JsonValue)>,
}

/// What the node field knows of an object type that is a global ID source:
/// its type, the source of its model, and what each role may select.
#[derive(Debug, PartialEq)]
pub struct TypenameMapping {
    pub typename: Qualified<CustomTypeName>,
    pub model_source: Option<ModelSource>,
    pub model_select_permissions: Vec<(Role, SelectPermission)>,
}

/// The abstract value of a typename mapping: the type, the source of its
/// model, and the filter of each role that may select from it.
pub struct TypenameMappingView {
    pub typename: (Seq<char>, Seq<char>),
    pub model_source: Option<ModelSourceView>,
    pub permissions: Seq<(Seq<char>, FilterView)>,
}

impl View for TypenameMapping {
    type V = TypenameMappingView;

    open spec fn view(&self) -> TypenameMappingView {
        TypenameMappingView {
            typename: self.typename@,
            model_source: match self.model_source {
                Some(s) => Some(s@),
                None => None,
            },
            permissions: self.model_select_permissions@.map_values(
                |p: (Role, SelectPermission)| (p.0@, p.1.filter@),
            ),
        }
    }
}

impl TypenameMapping {
    /// A copy of this mapping.
    pub fn duplicate(&self) -> (r: TypenameMapping)
        ensures
            r@ == self@,
    {
        let mut permissions: Vec<(Role, SelectPermission)> = Vec::new();
        let p = &self.model_select_permissions;
        let mut i: usize = 0;
        while i < p.len()
            invariant
                i <= p.len(),
                permissions.len() == i,
                forall|j: int| 0 <= j < i ==> (#[trigger] permissions@[j]).0@ == p@[j].0@
                    && permissions@[j].1.filter@ == p@[j].1.filter@,
            decreases p.len() - i,
        {
            permissions.push((p[i].0.duplicate(), SelectPermission { filter: p[i].1.filter.duplicate() }));
            i = i + 1;
        }
        let r = TypenameMapping {
            typename: self.typename.duplicate(),
            model_source: match &self.model_source {
                Some(s) => Some(s.duplicate()),
                None => None,
            },
            model_select_permissions: permissions,
        };
        assert(r@.permissions =~= self@.permissions);
        r
    }
}

/// What the node field asks of the model behind a global ID: the object
/// type named, the model's source, the comparisons that pick the row, and
/// the filter of the role.
#[derive(Debug)]
pub struct NodeSelect {
    pub field_name: String,
    pub typename: String,
    pub data_type: Qualified<CustomTypeName>,
    pub model_source: ModelSource,
    pub filter_clause: Vec<Expression>,
    pub permission_filter: FilterPermission,
}

/// Why a global ID could not be read.
pub enum RelayIrFailure {
    MappingNotFound(Seq<char>),
    NoSource(Seq<char>),
    MissingTypeMapping((Seq<char>, Seq<char>)),
    InvalidField(Seq<char>),
}

/// Whether an error is the one reported for a failure.
pub open spec fn relay_error(e: Error, f: RelayIrFailure) -> bool {
    match f {
        RelayIrFailure::MappingNotFound(t) => e matches Error::InternalError(
            InternalError::Developer(InternalDeveloperError::GlobalIDTypenameMappingNotFound { typename }),
        ) && typename@ == t,
        RelayIrFailure::NoSource(t) => e matches Error::InternalError(
            InternalError::Developer(InternalDeveloperError::NoSourceDataConnector { typename, field_name }),
        ) && typename@ == t && field_name@ == "node"@,
        RelayIrFailure::MissingTypeMapping(q) => generic(
            e,
            "type '"@ + qualified_text(q) + "' not found in model source type_mappings"@,
        ),
        RelayIrFailure::InvalidField(f) => generic(e, "invalid field in annotation: "@ + f),
    }
}

/// The comparisons of the first `n` fields of a global ID, each with the
/// column its field maps to; or the first field the type mapping lacks.
pub open spec fn id_filters(
    fm: Seq<(FieldName, FieldMapping)>,
    id: Seq<(FieldName, JsonValue)>,
    n: int,
) -> Result<Seq<ExpressionView>, Seq<char>>
    decreases n,
{
    if n <= 0 || n > id.len() {
        Ok(Seq::empty())
    } else {
        match id_filters(fm, id, n - 1) {
            Err(f) => Err(f),
            Ok(acc) => {
                let f = id[n - 1].0@;
                if has_key(fm, f) {
                    Ok(acc.push(equals(fm[first_key(fm, f)].1.column@, id[n - 1].1@)))
                } else {
                    Err(f)
                }
            },
        }
    }
}

/// What the node field reads of a global ID for a role: nothing where the
/// role may not select from the model; else the mapping of the type, the
/// role's permission and the comparisons; or the failure.
pub open spec fn relay_node_parts(
    gid: GlobalId,
    mappings: Seq<(String, TypenameMapping)>,
    role: Seq<char>,
) -> Result<Option<(TypenameMapping, SelectPermission, Seq<ExpressionView>)>, RelayIrFailure> {
    if !has_key(mappings, gid.typename@) {
        Err(RelayIrFailure::MappingNotFound(gid.typename@))
    } else {
        let m = mappings[first_key(mappings, gid.typename@)].1;
        if !has_key(m.model_select_permissions@, role) {
            Ok(None)
        } else {
            let p = m.model_select_permissions@[first_key(m.model_select_permissions@, role)].1;
            match m.model_source {
                None => Err(RelayIrFailure::NoSource(gid.typename@)),
                Some(src) => if !has_key(src.type_mappings@, m.typename@) {
                    Err(RelayIrFailure::MissingTypeMapping(m.typename@))
                } else {
                    match src.type_mappings@[first_key(src.type_mappings@, m.typename@)].1 {
                        TypeMapping::Object { field_mappings } => match id_filters(
                            field_mappings@,
                            gid.id@,
                            gid.id.len() as int,
                        ) {
                            Err(f) => Err(RelayIrFailure::InvalidField(f)),
                            Ok(filters) => Ok(Some((m, p, filters))),
                        },
                    }
                },
            }
        }
    }
}

fn find_typename(mappings: &Vec<(String, TypenameMapping)>, typename: &String) -> (r: Option<usize>)
    ensures
        match r {
            Some(i) => is_first_key(mappings@, typename@, i as int),
            None => !has_key(mappings@, typename@),
        },
{
    let mut i: usize = 0;
    while i < mappings.len()
        invariant
            i <= mappings.len(),
            forall|j: int| 0 <= j < i ==> (#[trigger] mappings@[j]).0@ != typename@,
        decreases mappings.len() - i,
    {
        if mappings[i].0 == *typename {
            return Some(i);
        }
        i = i + 1;
    }
    None
}

/// What the standard base64 engine (standard alphabet, padding required)
/// decodes a text into, or the message of its error.
pub uninterp spec fn base64_standard_decoded(text: Seq<char>) -> Result<Seq<u8>, Seq<char>>;

/// Decodes a text with `base64::engine::general_purpose::STANDARD`. The
/// contract claims only that the bytes, or the text of the decoding error,
/// are what that engine gives for the text; it does not say which texts are
/// valid base64.
#[verifier::external_body]
fn base64_decode_standard(text: &String) -> (r: Result<Vec<u8>, String>)
    ensures
        match r {
            Ok(v) => base64_standard_decoded(text@) == Ok::<Seq<u8>, Seq<char>>(v@),
            Err(m) => base64_standard_decoded(text@) == Err::<Seq<u8>, Seq<char>>(m@),
        },
{
    match base64::engine::general_purpose::STANDARD.decode(text.as_bytes()) {
        Ok(v) => Ok(v),
        Err(e) => Err(e.to_string()),
    }
}

/// The bytes of the global ID that a node request carries: its text decoded
/// as standard base64; where it is not, an error with the text and the
/// decoder's message.
pub fn decode_global_id(encoded_id: &String) -> (r: Result<Vec<u8>, Error>)
    ensures
        match base64_standard_decoded(encoded_id@) {
            Ok(b) => r matches Ok(v) && v@ == b,
            Err(m) => r matches Err(e) && e matches Error::ErrorInDecodingGlobalId { encoded_value, decoding_error }
                && encoded_value@ == encoded_id@ && decoding_error@ == m,
        },
{
    match base64_decode_standard(encoded_id) {
        Ok(v) => Ok(v),
        Err(m) => Err(Error::ErrorInDecodingGlobalId { encoded_value: encoded_id.clone(), decoding_error: m }),
    }
}

/// Reads the node field for a decoded global ID: the object type it names
/// must have a mapping; a role that may not select from the type's model
/// gets nothing; otherwise each field of the global ID is compared with the
/// column it maps to.
pub fn relay_node_ir_of(
    field_name: &String,
    global_id: &GlobalId,
    typename_mappings: &Vec<(String, TypenameMapping)>,
    role: &Role,
) -> (r: Result<Option<NodeSelect>, Error>)
    ensures
        match relay_node_parts(*global_id, typename_mappings@, role@) {
            Err(f) => r matches Err(e) && relay_error(e, f),
            Ok(None) => r matches Ok(None),
            Ok(Some((m, p, filters))) => r matches Ok(Some(s)) && s.field_name@ == field_name@ && s.typename@
                == global_id.typename@ && s.data_type@ == m.typename@ && s.model_source@ == m.model_source->Some_0@
                && expressions_view(s.filter_clause@) == filters && s.permission_filter@ == p.filter@,
        },
{
    let index = match find_typename(typename_mappings, &global_id.typename) {
        Some(i) => i,
        None => {
            return Err(
                Error::developer(
                    InternalDeveloperError::GlobalIDTypenameMappingNotFound { typename: global_id.typename.clone() },
                ),
            );
        },
    };
    proof {
        lemma_first_key_unique(typename_mappings@, global_id.typename@, index as int);
    }
    let mapping = &typename_mappings[index].1;
    let k = match find_key(&mapping.model_select_permissions, role) {
        Some(k) => k,
        None => {
            return Ok(None);
        },
    };
    proof {
        lemma_first_key_unique(mapping.model_select_permissions@, role@, k as int);
    }
    let permission = &mapping.model_select_permissions[k].1;
    let model_source = match &mapping.model_source {
        Some(s) => s,
        None => {
            proof {
                reveal_strlit("node");
            }
            return Err(
                Error::developer(
                    InternalDeveloperError::NoSourceDataConnector {
                        typename: global_id.typename.clone(),
                        field_name: String::from_str("node"),
                    },
                ),
            );
        },
    };
    let t = match find_key(&model_source.type_mappings, &mapping.typename) {
        Some(t) => t,
        None => {
            let description = String::from_str("type '").concat(mapping.typename.name.0.as_str()).concat(
                " (in subgraph ",
            ).concat(mapping.typename.subgraph.as_str()).concat(")").concat(
                "' not found in model source type_mappings",
            );
            proof {
                reveal_strlit("type '");
                reveal_strlit(" (in subgraph ");
                reveal_strlit(")");
                reveal_strlit("' not found in model source type_mappings");
                assert(description@ =~= "type '"@ + qualified_text(mapping.typename@)
                    + "' not found in model source type_mappings"@);
            }
            return Err(Error::engine(InternalEngineError::InternalGeneric { description }));
        },
    };
    proof {
        lemma_first_key_unique(model_source.type_mappings@, mapping.typename@, t as int);
    }
    let field_mappings = match &model_source.type_mappings[t].1 {
        TypeMapping::Object { field_mappings } => field_mappings,
    };
    let ghost whole = match id_filters(field_mappings@, global_id.id@, global_id.id.len() as int) {
        Err(f) => Err(RelayIrFailure::InvalidField(f)),
        Ok(filters) => Ok(Some((*mapping, *permission, filters))),
    };
    assert(relay_node_parts(*global_id, typename_mappings@, role@) == whole);
    let mut filter_clause: Vec<Expression> = Vec::new();
    assert(expressions_view(filter_clause@) =~= Seq::<ExpressionView>::empty());
    let mut i: usize = 0;
    while i < global_id.id.len()
        invariant
            i <= global_id.id.len(),
            relay_node_parts(*global_id, typename_mappings@, role@) == whole,
            whole == match id_filters(field_mappings@, global_id.id@, global_id.id.len() as int) {
                Err(f) => Err(RelayIrFailure::InvalidField(f)),
                Ok(filters) => Ok(Some((*mapping, *permission, filters))),
            },
            id_filters(field_mappings@, global_id.id@, i as int) == Ok::<Seq<ExpressionView>, Seq<char>>(
                expressions_view(filter_clause@),
            ),
        decreases global_id.id.len() - i,
    {
        let (field, value) = (&global_id.id[i].0, &global_id.id[i].1);
        let f = match find_key(field_mappings, field) {
            Some(f) => f,
            None => {
                proof {
                    lemma_id_filters_failure_persists(field_mappings@, global_id.id@, i + 1, global_id.id.len() as int);
                    reveal_strlit("invalid field in annotation: ");
                }
                let description = String::from_str("invalid field in annotation: ").concat(field.0.as_str());
                return Err(Error::engine(InternalEngineError::InternalGeneric { description }));
            },
        };
        proof {
            lemma_first_key_unique(field_mappings@, field@, f as int);
        }
        let e = Expression::BinaryComparisonOperator {
            column: column(field_mappings[f].1.column.clone()),
            operator: BinaryComparisonOperator::Equal,
            value: ComparisonValue::Scalar { value: value.clone() },
        };
        let ghost before = filter_clause@;
        filter_clause.push(e);
        assert(expressions_view(filter_clause@) =~= expressions_view(before).push(e@));
        i = i + 1;
    }
    let permission_filter = match &permission.filter {
        FilterPermission::AllowAll => FilterPermission::AllowAll,
        FilterPermission::Filter(e) => FilterPermission::Filter(e.duplicate()),
    };
    Ok(
        Some(
            NodeSelect {
                field_name: field_name.clone(),
                typename: global_id.typename.clone(),
                data_type: mapping.typename.duplicate(),
                model_source: model_source.duplicate(),
                filter_clause,
                permission_filter,
            },
        ),
    )
}

proof fn lemma_id_filters_failure_persists(
    fm: Seq<(FieldName, FieldMapping)>,
    id: Seq<(FieldName, JsonValue)>,
    k: int,
    n: int,
)
    requires
        1 <= k <= n <= id.len(),
        id_filters(fm, id, k) is Err,
    ensures
        id_filters(fm, id, n) == id_filters(fm, id, k),
    decreases n - k,
{
    if k < n {
        lemma_id_filters_failure_persists(fm, id, k, n - 1);
    }
}

/// Why the node field could not be built.
pub enum NodeFieldFailure {
    Type(TypeFailure),
    TypeNotFound((Seq<char>, Seq<char>)),
    NotObject((Seq<char>, Seq<char>)),
    Duplicate(Seq<char>),
}

/// Whether an error is the one reported for a failure.
pub open spec fn node_field_error(e: NodeSchemaError, f: NodeFieldFailure) -> bool {
    match f {
        NodeFieldFailure::Type(t) => type_error(e, t),
        NodeFieldFailure::TypeNotFound(n) => e matches NodeSchemaError::InternalTypeNotFound { typename } && typename@ == n,
        NodeFieldFailure::NotObject(n) => e matches NodeSchemaError::ExpectedTypeToBeObject { typename } && typename@ == n,
        NodeFieldFailure::Duplicate(n) => e matches NodeSchemaError::InternalErrorDuplicateGlobalIdSourceFound {
            typename,
        } && typename@ == n,
    }
}

/// What the models met so far give the node field: the roles that see it,
/// what it knows of each global ID source under its GraphQL name, and the
/// types registered.
pub struct NodeFieldParts {
    pub roles: Seq<(Seq<char>, ())>,
    pub mappings: Seq<(Seq<char>, TypenameMappingView)>,
    pub ids: Seq<TypeIdView>,
}

/// What the node field knows of the object type of a model.
pub open spec fn mapping_of(model: Model) -> TypenameMappingView {
    TypenameMappingView {
        typename: model.data_type@,
        model_source: match model.source {
            Some(s) => Some(s@),
            None => None,
        },
        permissions: match model.select_permissions {
            Some(p) => p@.map_values(|e: (Role, SelectPermission)| (e.0@, e.1.filter@)),
            None => Seq::empty(),
        },
    }
}

/// The parts of the node field from the first `n` models; or the failure,
/// with the types registered before it.
pub open spec fn node_field_parts(
    types: Seq<(Qualified<CustomTypeName>, TypeRepresentation)>,
    models: Seq<(Qualified<ModelName>, Model)>,
    n: int,
) -> Result<NodeFieldParts, (NodeFieldFailure, Seq<TypeIdView>)>
    decreases n,
{
    if n <= 0 || n > models.len() {
        Ok(NodeFieldParts { roles: Seq::empty(), mappings: Seq::empty(), ids: Seq::empty() })
    } else {
        match node_field_parts(types, models, n - 1) {
            Err(f) => Err(f),
            Ok(st) => {
                let m = models[n - 1].1;
                let dt = m.data_type@;
                if !m.global_id_source {
                    Ok(st)
                } else {
                    match custom_type_id(types, dt) {
                        Err(f) => Err((NodeFieldFailure::Type(f), st.ids)),
                        Ok(tid) => {
                            let ids1 = st.ids.push(tid);
                            if !has_key(types, dt) {
                                Err((NodeFieldFailure::TypeNotFound(dt), ids1))
                            } else {
                                match types[first_key(types, dt)].1 {
                                    TypeRepresentation::ScalarType { .. } => Err((NodeFieldFailure::NotObject(dt), ids1)),
                                    TypeRepresentation::Object(ot) => {
                                        let name = type_id_name(tid);
                                        if entry_present(st.mappings, name) {
                                            Err((NodeFieldFailure::Duplicate(name), ids1))
                                        } else {
                                            Ok(
                                                NodeFieldParts {
                                                    roles: upsert_roles(
                                                        st.roles,
                                                        node_roles(ot.type_permissions@, ot.global_id_fields@),
                                                    ),
                                                    mappings: st.mappings.push((name, mapping_of(m))),
                                                    ids: ids1,
                                                },
                                            )
                                        }
                                    },
                                }
                            }
                        },
                    }
                }
            },
        }
    }
}

/// The node field: of the nullable Node interface, with a non-null `ID`
/// argument `id` that every role sees.
pub open spec fn node_field_view(st: NodeFieldParts) -> FieldView {
    FieldView {
        name: "node"@,
        info: OutputAnnotationView::RootField(RootFieldAnnotationView::RelayNode(st.mappings)),
        field_type: TypeContainerView { base: BaseTypeView::Named("Node"@), nullable: true },
        arguments: seq![
            ("id"@, NamespacedView {
                data: InputFieldView {
                    name: "id"@,
                    info: InputAnnotationView::OutputField("id"@),
                    field_type: TypeContainerView { base: BaseTypeView::Named(inbuilt_name(InbuiltType::ID)), nullable: false },
                },
                visibility: VisibilityView::AllowAll(None),
            }),
        ],
    }
}

proof fn lemma_node_field_parts_failure_persists(
    types: Seq<(Qualified<CustomTypeName>, TypeRepresentation)>,
    models: Seq<(Qualified<ModelName>, Model)>,
    k: int,
    n: int,
)
    requires
        1 <= k <= n <= models.len(),
        node_field_parts(types, models, k) is Err,
    ensures
        node_field_parts(types, models, n) == node_field_parts(types, models, k),
    decreases n - k,
{
    if k < n {
        lemma_node_field_parts_failure_persists(types, models, k, n - 1);
    }
}

fn mapping_for(model: &Model) -> (r: TypenameMapping)
    ensures
        r@ == mapping_of(*model),
{
    let mut permissions: Vec<(Role, SelectPermission)> = Vec::new();
    if let Some(p) = &model.select_permissions {
        let mut i: usize = 0;
        while i < p.len()
            invariant
                i <= p.len(),
                permissions.len() == i,
                forall|j: int| 0 <= j < i ==> (#[trigger] permissions@[j]).0@ == p@[j].0@
                    && permissions@[j].1.filter@ == p@[j].1.filter@,
            decreases p.len() - i,
        {
            permissions.push((p[i].0.duplicate(), SelectPermission { filter: p[i].1.filter.duplicate() }));
            i = i + 1;
        }
    }
    let r = TypenameMapping {
        typename: model.data_type.duplicate(),
        model_source: match &model.source {
            Some(s) => Some(s.duplicate()),
            None => None,
        },
        model_select_permissions: permissions,
    };
    assert(r@.permissions =~= mapping_of(*model).permissions);
    r
}

/// The relay `node` field and the roles that see it: those that may read
/// the global ID of some object type that is a global ID source.
pub fn relay_node_field(
    types: &Types,
    models: &Vec<(Qualified<ModelName>, Model)>,
    builder: &mut Builder,
) -> (r: Result<(SchemaField, RoleAnnotations), NodeSchemaError>)
    ensures
        match node_field_parts(types@, models@, models.len() as int) {
            Ok(st) => r matches Ok((f, roles)) && f@ == node_field_view(st) && annotations_view(roles@)
                == st.roles.map_values(|p: (Seq<char>, ())| (p.0, None::<FilterView>))
                && final(builder).registered() == old(builder).registered() + st.ids.push(TypeIdView::NodeRoot),
            Err((f, ids)) => r matches Err(e) && node_field_error(e, f) && final(builder).registered() == old(
                builder,
            ).registered() + ids,
        },
        r matches Ok((f, roles)) ==> entries_distinct(entries_view(f.arguments@)),
{
    let ghost start = builder.registered();
    let mut roles: Vec<(String, ())> = Vec::new();
    let mut typename_mappings: Vec<(String, TypenameMapping)> = Vec::new();
    assert(entries_view(roles@) =~= Seq::<(Seq<char>, ())>::empty());
    assert(entries_view(typename_mappings@) =~= Seq::<(Seq<char>, TypenameMappingView)>::empty());
    assert(start + Seq::<TypeIdView>::empty() =~= start);
    let mut i: usize = 0;
    while i < models.len()
        invariant
            i <= models.len(),
            start == old(builder).registered(),
            node_field_parts(types@, models@, i as int) matches Ok(st) && st.roles == entries_view(roles@)
                && st.mappings == entries_view(typename_mappings@) && builder.registered() == start + st.ids,
            entries_distinct(entries_view(roles@)),
        decreases models.len() - i,
    {
        let ghost prev = node_field_parts(types@, models@, i as int);
        let model = &models[i].1;
        if model.global_id_source {
            let output_typename = match get_custom_output_type(types, builder, &model.data_type) {
                Ok(n) => n,
                Err(e) => {
                    proof {
                        lemma_node_field_parts_failure_persists(types@, models@, i + 1, models.len() as int);
                    }
                    return Err(e);
                },
            };
            let ghost tid = custom_type_id(types@, model.data_type@)->Ok_0;
            proof {
                let st = prev->Ok_0;
                assert(start + st.ids.push(tid) =~= (start + st.ids).push(tid));
            }
            let object_type_representation = match get_object_type_representation(types, &model.data_type) {
                Ok(o) => o,
                Err(e) => {
                    proof {
                        lemma_node_field_parts_failure_persists(types@, models@, i + 1, models.len() as int);
                    }
                    return Err(e);
                },
            };
            let annotations = get_node_interface_annotations(object_type_representation);
            add_roles(&mut roles, &annotations);
            let name = output_typename.0;
            if has_entry(&typename_mappings, name.as_str()) {
                proof {
                    lemma_node_field_parts_failure_persists(types@, models@, i + 1, models.len() as int);
                }
                return Err(NodeSchemaError::InternalErrorDuplicateGlobalIdSourceFound { typename: name });
            }
            typename_mappings.push((name, mapping_for(model)));
            proof {
                let st = prev->Ok_0;
                assert(entries_view(typename_mappings@) =~= st.mappings.push((type_id_name(tid), mapping_of(*model))));
            }
        }
        i = i + 1;
    }
    let ghost st = node_field_parts(types@, models@, models.len() as int)->Ok_0;
    let id_type = QualifiedTypeReference {
        underlying_type: QualifiedBaseType::Named(QualifiedTypeName::Inbuilt(InbuiltType::ID)),
        nullable: false,
    };
    let id_input_type = match get_input_type(types, builder, &id_type) {
        Ok(t) => t,
        Err(e) => {
            assert(false);
            return Err(e);
        },
    };
    assert(builder.registered() =~= start + st.ids);
    let id_argument = SchemaInputField {
        name: String::from_str("id"),
        info: InputAnnotation::OutputField { name: FieldName(String::from_str("id")) },
        field_type: id_input_type,
    };
    let mut arguments: Vec<(String, Namespaced<SchemaInputField>)> = Vec::new();
    arguments.push((String::from_str("id"), builder.allow_all_namespaced(id_argument, None)));
    let node = node_interface_type(builder);
    let field = SchemaField {
        name: String::from_str("node"),
        info: OutputAnnotation::RootField(RootFieldAnnotation::RelayNode { typename_mappings }),
        field_type: TypeContainer::named_null(node),
        arguments,
    };
    let visibility_roles = roles_of(&roles);
    proof {
        reveal_strlit("id");
        reveal_strlit("ID");
        reveal_strlit("node");
        reveal_strlit("Node");
        assert("ID"@ =~= inbuilt_name(InbuiltType::ID));
        assert(entries_view(field.arguments@) =~= node_field_view(st).arguments);
        assert(field@ == node_field_view(st));
        assert(builder.registered() =~= start + st.ids.push(TypeIdView::NodeRoot));
    }
    Ok((field, visibility_roles))
}

/// Setting an entry adds exactly its key to the keys present.
proof fn lemma_upsert_present<T>(s: Seq<(Seq<char>, T)>, k: Seq<char>, v: T, x: Seq<char>)
    ensures
        entry_present(upsert(s, k, v), x) <==> (entry_present(s, x) || x == k),
{
    let u = upsert(s, k, v);
    if exists|i: int| 0 <= i < s.len() && (#[trigger] s[i]).0 == k {
        let c = entry_index(s, k);
        assert(u == s.update(c, (k, v)));
        if entry_present(s, x) {
            let i = choose|i: int| 0 <= i < s.len() && (#[trigger] s[i]).0 == x;
            if i == c {
                assert(u[c].0 == k);
            } else {
                assert(u[i].0 == x);
            }
        }
        if x == k {
            assert(u[c].0 == k);
        }
        if entry_present(u, x) {
            let i = choose|i: int| 0 <= i < u.len() && (#[trigger] u[i]).0 == x;
            if i != c {
                assert(s[i].0 == x);
            }
        }
    } else {
        assert(u == s.push((k, v)));
        if entry_present(s, x) {
            let i = choose|i: int| 0 <= i < s.len() && (#[trigger] s[i]).0 == x;
            assert(u[i].0 == x);
        }
        if x == k {
            assert(u[s.len() as int].0 == k);
        }
        if entry_present(u, x) {
            let i = choose|i: int| 0 <= i < u.len() && (#[trigger] u[i]).0 == x;
            if i < s.len() {
                assert(s[i].0 == x);
            }
        }
    }
}

/// The roles set over `acc` are those of `acc` and those named in `rs`.
proof fn lemma_upsert_roles_present(
    acc: Seq<(Seq<char>, ())>,
    rs: Seq<(Seq<char>, Option<FilterView>)>,
    x: Seq<char>,
)
    ensures
        entry_present(upsert_roles(acc, rs), x) <==> (entry_present(acc, x) || exists|j: int|
            0 <= j < rs.len() && (#[trigger] rs[j]).0 == x),
    decreases rs.len(),
{
    if rs.len() > 0 {
        lemma_upsert_roles_present(acc, rs.drop_last(), x);
        lemma_upsert_present(upsert_roles(acc, rs.drop_last()), rs.last().0, (), x);
        if exists|j: int| 0 <= j < rs.drop_last().len() && (#[trigger] rs.drop_last()[j]).0 == x {
            let j = choose|j: int| 0 <= j < rs.drop_last().len() && (#[trigger] rs.drop_last()[j]).0 == x;
            assert(rs[j].0 == x);
        }
        if exists|j: int| 0 <= j < rs.len() && (#[trigger] rs[j]).0 == x {
            let j = choose|j: int| 0 <= j < rs.len() && (#[trigger] rs[j]).0 == x;
            if j < rs.len() - 1 {
                assert(rs.drop_last()[j].0 == x);
            }
        }
    }
}

/// Whether a model is a global ID source whose object type lets the role
/// read all of its global ID fields.
pub open spec fn grants_node(
    types: Seq<(Qualified<CustomTypeName>, TypeRepresentation)>,
    m: Model,
    role: Seq<char>,
) -> bool {
    m.global_id_source && has_key(types, m.data_type@) && match types[first_key(types, m.data_type@)].1 {
        TypeRepresentation::Object(ot) => exists|j: int|
            0 <= j < node_roles(ot.type_permissions@, ot.global_id_fields@).len() && (#[trigger] node_roles(
                ot.type_permissions@,
                ot.global_id_fields@,
            )[j]).0 == role,
        TypeRepresentation::ScalarType { .. } => false,
    }
}

/// Whether some model among the first `n` grants the role the node field.
pub open spec fn reads_some_global_id(
    types: Seq<(Qualified<CustomTypeName>, TypeRepresentation)>,
    models: Seq<(Qualified<ModelName>, Model)>,
    n: int,
    role: Seq<char>,
) -> bool {
    exists|i: int| 0 <= i < n && #[trigger] grants_node(types, models[i].1, role)
}

/// A role sees the node field exactly when it may read the global ID of some
/// object type that is a global ID source.
pub proof fn lemma_node_field_roles(
    types: Seq<(Qualified<CustomTypeName>, TypeRepresentation)>,
    models: Seq<(Qualified<ModelName>, Model)>,
    n: int,
    role: Seq<char>,
)
    requires
        0 <= n <= models.len(),
        node_field_parts(types, models, n) is Ok,
    ensures
        entry_present(node_field_parts(types, models, n)->Ok_0.roles, role) <==> reads_some_global_id(
            types,
            models,
            n,
            role,
        ),
    decreases n,
{
    if n > 0 {
        lemma_node_field_parts_ok_prefix(types, models, n);
        lemma_node_field_roles(types, models, n - 1, role);
        let st = node_field_parts(types, models, n - 1)->Ok_0;
        let m = models[n - 1].1;
        if reads_some_global_id(types, models, n, role) {
            let i = choose|i: int| 0 <= i < n && #[trigger] grants_node(types, models[i].1, role);
            if i < n - 1 {
                assert(reads_some_global_id(types, models, n - 1, role));
            }
        }
        if reads_some_global_id(types, models, n - 1, role) {
            let i = choose|i: int| 0 <= i < n - 1 && #[trigger] grants_node(types, models[i].1, role);
            assert(reads_some_global_id(types, models, n, role));
        }
        if m.global_id_source {
            let dt = m.data_type@;
            let ot = types[first_key(types, dt)].1->Object_0;
            let rs = node_roles(ot.type_permissions@, ot.global_id_fields@);
            lemma_upsert_roles_present(st.roles, rs, role);
            if grants_node(types, m, role) {
                assert(reads_some_global_id(types, models, n, role));
            }
        } else {
            assert(!grants_node(types, m, role));
        }
    } else {
        assert(!entry_present(Seq::<(Seq<char>, ())>::empty(), role));
    }
}

proof fn lemma_node_field_parts_ok_prefix(
    types: Seq<(Qualified<CustomTypeName>, TypeRepresentation)>,
    models: Seq<(Qualified<ModelName>, Model)>,
    n: int,
)
    requires
        1 <= n <= models.len(),
        node_field_parts(types, models, n) is Ok,
    ensures
        node_field_parts(types, models, n - 1) is Ok,
{
}

} // verus!
