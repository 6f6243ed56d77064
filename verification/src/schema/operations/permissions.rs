//! Which roles may see which fields, and with what filter.

use vstd::prelude::*;

use vstd::string::*;

use super::error::{Error, InternalDeveloperError, InternalEngineError, InternalError};
use crate::json::{json_of_text, parse_json, JsonNumber, JsonValue, JsonView};
use crate::keyed::{first_key, has_key, is_first_key, lemma_first_key_unique};
use crate::metadata::resolved::model::ModelPredicate;
use crate::metadata::resolved::subgraph::{
    QualifiedBaseType, QualifiedBaseTypeView, QualifiedTypeName, QualifiedTypeNameView,
    QualifiedTypeReference, QualifiedTypeReferenceView,
};
use crate::open_dds::ndc_client::models::{
    column, lemma_and_view, BinaryComparisonOperator, BinaryOperatorView, ColumnView, ComparisonValue, Expression,
    ExpressionView, UnaryComparisonOperator, expressions_view,
};
use crate::open_dds::names::SessionVariable;
use crate::open_dds::permissions::ValueExpression;
use crate::open_dds::types::InbuiltType;
use crate::session::{SessionVariableValue, SessionVariables};
use crate::text::{i32_of_text, parse_i32, str_eq};
use crate::metadata::resolved::command::Command;
use crate::keyed::keys_distinct;
use crate::metadata::resolved::model::{FilterPermission, FilterView, Model, SelectUniqueGraphQlDefinition};
use crate::metadata::resolved::relationship::RelationshipMapping;
use crate::metadata::resolved::types::{FieldDefinition, ObjectTypeRepresentation};
use crate::open_dds::names::{FieldName, Ident, Role};
use crate::open_dds::permissions::{CommandPermission, TypeOutputPermission};
use crate::schema::types::{annotation_view, annotations_view, NamespaceAnnotation, RoleAnnotations};

verus! {

/// The roles, in the order of the type's permissions, whose output
/// permission allows the field.
pub open spec fn allowed_roles(tp: Seq<(Role, TypeOutputPermission)>, f: Seq<char>) -> Seq<Seq<char>>
    decreases tp.len(),
{
    if tp.len() == 0 {
        Seq::empty()
    } else {
        let rest = allowed_roles(tp.drop_last(), f);
        if tp.last().1.allows(f) {
            rest.push(tp.last().0@)
        } else {
            rest
        }
    }
}

/// Whether the role may read the field of the type.
pub open spec fn may_read(ot: ObjectTypeRepresentation, f: Seq<char>, role: Seq<char>) -> bool {
    allowed_roles(ot.type_permissions@, f).contains(role)
}

/// The names of a list of roles.
pub open spec fn role_names(v: Seq<Role>) -> Seq<Seq<char>> {
    v.map_values(|r: Role| r@)
}

/// The roles whose output permission on the type allows the field.
pub fn get_allowed_roles_for_field(
    object_type_representation: &ObjectTypeRepresentation,
    field_name: &FieldName,
) -> (r: Vec<Role>)
    ensures
        role_names(r@) == allowed_roles(object_type_representation.type_permissions@, field_name@),
        keys_distinct(object_type_representation.type_permissions@) ==> role_names(r@).no_duplicates(),
{
    let tp = &object_type_representation.type_permissions;
    let mut out: Vec<Role> = Vec::new();
    let mut i: usize = 0;
    while i < tp.len()
        invariant
            i <= tp.len(),
            tp == &object_type_representation.type_permissions,
            role_names(out@) == allowed_roles(tp@.take(i as int), field_name@),
            keys_distinct(tp@) ==> role_names(out@).no_duplicates(),
            forall|k: int| 0 <= k < out@.len() ==> has_key(tp@.take(i as int), #[trigger] role_names(out@)[k]),
        decreases tp.len() - i,
    {
        let ghost before = out@;
        assert(tp@.take(i + 1).drop_last() =~= tp@.take(i as int));
        assert(tp@.take(i + 1).last() == tp@[i as int]);
        if tp[i].1.contains(field_name) {
            out.push(tp[i].0.clone());
            assert(role_names(out@) =~= role_names(before).push(tp@[i as int].0@));
            proof {
                if keys_distinct(tp@) {
                    assert forall|k: int| 0 <= k < before.len() implies (#[trigger] role_names(before)[k]) != tp@[i as int].0@ by {
                        assert(has_key(tp@.take(i as int), role_names(before)[k]));
                        let j = choose|j: int| 0 <= j < i && (#[trigger] tp@.take(i as int)[j]).0@ == role_names(before)[k];
                        assert(tp@[j].0@ != tp@[i as int].0@);
                    }
                }
            }
        }
        proof {
            assert forall|k: int| 0 <= k < out@.len() implies has_key(tp@.take(i + 1), #[trigger] role_names(out@)[k]) by {
                if k < before.len() {
                    assert(role_names(out@)[k] == role_names(before)[k]);
                    assert(has_key(tp@.take(i as int), role_names(before)[k]));
                    let j = choose|j: int| 0 <= j < i && (#[trigger] tp@.take(i as int)[j]).0@ == role_names(before)[k];
                    assert(tp@.take(i + 1)[j] == tp@.take(i as int)[j]);
                } else {
                    assert(tp@.take(i + 1)[i as int].0@ == role_names(out@)[k]);
                }
            }
        }
        i = i + 1;
    }
    assert(tp@.take(tp.len() as int) =~= tp@);
    out
}

/// Whether the list of roles holds the role.
fn holds_role(roles: &Vec<Role>, role: &Role) -> (r: bool)
    ensures
        r == role_names(roles@).contains(role@),
{
    let mut i: usize = 0;
    while i < roles.len()
        invariant
            i <= roles.len(),
            forall|j: int| 0 <= j < i ==> (#[trigger] roles@[j])@ != role@,
        decreases roles.len() - i,
    {
        if roles[i].same(role) {
            assert(role_names(roles@)[i as int] == role@);
            return true;
        }
        i = i + 1;
    }
    assert forall|j: int| 0 <= j < role_names(roles@).len() implies role_names(roles@)[j] != role@ by {
        assert(roles@[j]@ != role@);
    }
    false
}

/// Whether the role may read the field of the type.
pub fn role_may_read(ot: &ObjectTypeRepresentation, field_name: &FieldName, role: &Role) -> (r: bool)
    ensures
        r == may_read(*ot, field_name@, role@),
{
    let roles = get_allowed_roles_for_field(ot, field_name);
    holds_role(&roles, role)
}

/// The annotations of the select permissions of a model: each role with its
/// filter.
pub open spec fn select_annotations(model: Model) -> Seq<(Seq<char>, Option<FilterView>)> {
    match model.select_permissions {
        None => Seq::empty(),
        Some(p) => p@.map_values(
            |e: (Role, crate::metadata::resolved::model::SelectPermission)|
                (e.0@, Some(e.1.filter@)),
        ),
    }
}

fn annotate(role: &Role, filter: &FilterPermission) -> (r: (Role, Option<NamespaceAnnotation>))
    ensures
        r.0@ == role@,
        annotation_view(r.1) == Some(filter@),
{
    (role.clone(), Some(NamespaceAnnotation::Filter(filter.duplicate())))
}

/// The roles that may select from the model, each with its filter.
pub fn get_select_permissions_namespace_annotations(model: &Model) -> (r: RoleAnnotations)
    ensures
        annotations_view(r@) == select_annotations(*model),
{
    let mut out: RoleAnnotations = Vec::new();
    match &model.select_permissions {
        None => {
            assert(annotations_view(out@) =~= Seq::<(Seq<char>, Option<FilterView>)>::empty());
        },
        Some(permissions) => {
            let mut i: usize = 0;
            while i < permissions.len()
                invariant
                    i <= permissions.len(),
                    out.len() == i,
                    forall|j: int|
                        0 <= j < i ==> (#[trigger] out@[j]).0@ == permissions@[j].0@
                            && annotation_view(out@[j].1) == Some(permissions@[j].1.filter@),
                decreases permissions.len() - i,
            {
                out.push(annotate(&permissions[i].0, &permissions[i].1.filter));
                i = i + 1;
            }
            assert(annotations_view(out@) =~= select_annotations(*model));
        },
    }
    out
}

/// Whether the role may read every field.
pub open spec fn may_read_all(ot: ObjectTypeRepresentation, fields: Seq<Seq<char>>, role: Seq<char>) -> bool {
    forall|k: int| 0 <= k < fields.len() ==> #[trigger] may_read(ot, fields[k], role)
}

/// The names of the fields that identify an object.
pub open spec fn identifier_fields(d: SelectUniqueGraphQlDefinition) -> Seq<Seq<char>> {
    d.unique_identifier@.map_values(|e: (FieldName, FieldDefinition)| e.0@)
}

fn may_read_identifier(
    ot: &ObjectTypeRepresentation,
    select_unique: &SelectUniqueGraphQlDefinition,
    role: &Role,
) -> (r: bool)
    ensures
        r == may_read_all(*ot, identifier_fields(*select_unique), role@),
{
    let fields = &select_unique.unique_identifier;
    let ghost names = identifier_fields(*select_unique);
    let mut k: usize = 0;
    while k < fields.len()
        invariant
            k <= fields.len(),
            names == identifier_fields(*select_unique),
            names.len() == fields.len(),
            fields@ == select_unique.unique_identifier@,
            forall|j: int| 0 <= j < k ==> #[trigger] may_read(*ot, names[j], role@),
        decreases fields.len() - k,
    {
        assert(names[k as int] == fields@[k as int].0@);
        if !role_may_read(ot, &fields[k].0, role) {
            assert(!may_read(*ot, names[k as int], role@));
            return false;
        }
        k = k + 1;
    }
    true
}

/// The roles that may select from the model and read each field that
/// identifies an object, each with its filter.
pub fn get_select_one_namespace_annotations(
    model: &Model,
    object_type_representation: &ObjectTypeRepresentation,
    select_unique: &SelectUniqueGraphQlDefinition,
) -> (r: RoleAnnotations)
    ensures
        annotations_view(r@) == select_annotations(*model).filter(
            |a: (Seq<char>, Option<FilterView>)|
                may_read_all(*object_type_representation, identifier_fields(*select_unique), a.0),
        ),
{
    let ghost pred = |a: (Seq<char>, Option<FilterView>)|
        may_read_all(*object_type_representation, identifier_fields(*select_unique), a.0);
    let all = get_select_permissions_namespace_annotations(model);
    let ghost all_view = annotations_view(all@);
    let mut out: RoleAnnotations = Vec::new();
    let mut i: usize = 0;
    while i < all.len()
        invariant
            i <= all.len(),
            all_view == annotations_view(all@),
            annotations_view(out@) == all_view.take(i as int).filter(pred),
            pred == (|a: (Seq<char>, Option<FilterView>)|
                may_read_all(*object_type_representation, identifier_fields(*select_unique), a.0)),
        decreases all.len() - i,
    {
        let ghost before = out@;
        assert(all_view.take(i + 1) =~= all_view.take(i as int).push(all_view[i as int]));
        proof { all_view.take(i as int).lemma_filter_push(all_view[i as int], pred); }
        if may_read_identifier(object_type_representation, select_unique, &all[i].0) {
            let entry = duplicate_annotation(&all[i]);
            out.push(entry);
            assert(annotations_view(out@) =~= annotations_view(before).push(all_view[i as int]));
        }
        i = i + 1;
    }
    assert(all_view.take(all.len() as int) =~= all_view);
    out
}

fn duplicate_annotation(a: &(Role, Option<NamespaceAnnotation>)) -> (r: (Role, Option<NamespaceAnnotation>))
    ensures
        r.0@ == a.0@,
        annotation_view(r.1) == annotation_view(a.1),
{
    let n = match &a.1 {
        None => None,
        Some(NamespaceAnnotation::Filter(f)) => Some(NamespaceAnnotation::Filter(f.duplicate())),
    };
    (a.0.clone(), n)
}

/// A role sees the field that selects one object of a model only where it
/// has a select permission on the model, with the same filter, and may read
/// every field that identifies the object.
pub proof fn lemma_select_one_roles(
    model: Model,
    ot: ObjectTypeRepresentation,
    select_unique: SelectUniqueGraphQlDefinition,
    a: (Seq<char>, Option<FilterView>),
)
    requires
        select_annotations(model).filter(
            |x: (Seq<char>, Option<FilterView>)| may_read_all(ot, identifier_fields(select_unique), x.0),
        ).contains(a),
    ensures
        select_annotations(model).contains(a),
        may_read_all(ot, identifier_fields(select_unique), a.0),
{
    let pred = |x: (Seq<char>, Option<FilterView>)| may_read_all(ot, identifier_fields(select_unique), x.0);
    let all = select_annotations(model);
    all.lemma_filter_contains_rev(pred, a);
    let k = choose|k: int| 0 <= k < all.filter(pred).len() && all.filter(pred)[k] == a;
    all.lemma_filter_pred(pred, k);
}

/// Whether the role may read the source field and the target field of each
/// mapping.
pub open spec fn may_read_mappings(
    source: ObjectTypeRepresentation,
    target: ObjectTypeRepresentation,
    mappings: Seq<RelationshipMapping>,
    role: Seq<char>,
) -> bool {
    forall|k: int| 0 <= k < mappings.len() ==> #[trigger] may_read_mapping(source, target, mappings[k], role)
}

/// Whether the role may read the source field and the target field of a
/// mapping.
pub open spec fn may_read_mapping(
    source: ObjectTypeRepresentation,
    target: ObjectTypeRepresentation,
    m: RelationshipMapping,
    role: Seq<char>,
) -> bool {
    may_read(source, m.source_field.field_name@, role) && may_read(target, m.target_field.field_name@, role)
}

fn may_read_all_mappings(
    source: &ObjectTypeRepresentation,
    target: &ObjectTypeRepresentation,
    mappings: &[RelationshipMapping],
    role: &Role,
) -> (r: bool)
    ensures
        r == may_read_mappings(*source, *target, mappings@, role@),
{
    let mut k: usize = 0;
    while k < mappings.len()
        invariant
            k <= mappings.len(),
            forall|j: int| 0 <= j < k ==> #[trigger] may_read_mapping(*source, *target, mappings@[j], role@),
        decreases mappings.len() - k,
    {
        if !role_may_read(source, &mappings[k].source_field.field_name, role) {
            assert(!may_read_mapping(*source, *target, mappings@[k as int], role@));
            return false;
        }
        if !role_may_read(target, &mappings[k].target_field.field_name, role) {
            assert(!may_read_mapping(*source, *target, mappings@[k as int], role@));
            return false;
        }
        assert(may_read_mapping(*source, *target, mappings@[k as int], role@));
        k = k + 1;
    }
    true
}

/// The roles that may select from the target model and read both fields of
/// each mapping of the relationship, each with its filter.
pub fn get_relationship_namespace_annotations(
    model: &Model,
    source_object_type_representation: &ObjectTypeRepresentation,
    target_object_type_representation: &ObjectTypeRepresentation,
    mappings: &[RelationshipMapping],
) -> (r: RoleAnnotations)
    ensures
        annotations_view(r@) == select_annotations(*model).filter(
            |a: (Seq<char>, Option<FilterView>)|
                may_read_mappings(
                    *source_object_type_representation,
                    *target_object_type_representation,
                    mappings@,
                    a.0,
                ),
        ),
{
    let ghost pred = |a: (Seq<char>, Option<FilterView>)|
        may_read_mappings(
            *source_object_type_representation,
            *target_object_type_representation,
            mappings@,
            a.0,
        );
    let all = get_select_permissions_namespace_annotations(model);
    let ghost all_view = annotations_view(all@);
    let mut out: RoleAnnotations = Vec::new();
    let mut i: usize = 0;
    while i < all.len()
        invariant
            i <= all.len(),
            all_view == annotations_view(all@),
            annotations_view(out@) == all_view.take(i as int).filter(pred),
            pred == (|a: (Seq<char>, Option<FilterView>)|
                may_read_mappings(
                    *source_object_type_representation,
                    *target_object_type_representation,
                    mappings@,
                    a.0,
                )),
        decreases all.len() - i,
    {
        let ghost before = out@;
        assert(all_view.take(i + 1) =~= all_view.take(i as int).push(all_view[i as int]));
        proof { all_view.take(i as int).lemma_filter_push(all_view[i as int], pred); }
        if may_read_all_mappings(
            source_object_type_representation,
            target_object_type_representation,
            mappings,
            &all[i].0,
        ) {
            let entry = duplicate_annotation(&all[i]);
            out.push(entry);
            assert(annotations_view(out@) =~= annotations_view(before).push(all_view[i as int]));
        }
        i = i + 1;
    }
    assert(all_view.take(all.len() as int) =~= all_view);
    out
}

/// The roles that may execute a command, in the order of its permissions.
pub open spec fn executing_roles(perms: Seq<(Role, CommandPermission)>) -> Seq<(Seq<char>, Option<FilterView>)>
    decreases perms.len(),
{
    if perms.len() == 0 {
        Seq::empty()
    } else {
        let rest = executing_roles(perms.drop_last());
        if perms.last().1.allow_execution {
            rest.push((perms.last().0@, None))
        } else {
            rest
        }
    }
}

/// The roles that may execute the command, with no filter.
pub fn get_command_namespace_annotations(command: &Command) -> (r: RoleAnnotations)
    ensures
        annotations_view(r@) == match command.permissions {
            Some(p) => executing_roles(p@),
            None => Seq::empty(),
        },
{
    let mut out: RoleAnnotations = Vec::new();
    match &command.permissions {
        Some(perms) => {
            let mut i: usize = 0;
            while i < perms.len()
                invariant
                    i <= perms.len(),
                    annotations_view(out@) == executing_roles(perms@.take(i as int)),
                decreases perms.len() - i,
            {
                let ghost before = out@;
                assert(perms@.take(i + 1).drop_last() =~= perms@.take(i as int));
                assert(perms@.take(i + 1).last() == perms@[i as int]);
                if perms[i].1.allow_execution {
                    out.push((perms[i].0.clone(), None));
                    assert(annotations_view(out@) =~= annotations_view(before).push(
                        (perms@[i as int].0@, None),
                    ));
                }
                i = i + 1;
            }
            assert(perms@.take(perms.len() as int) =~= perms@);
        },
        None => {
            assert(annotations_view(out@) =~= Seq::<(Seq<char>, Option<FilterView>)>::empty());
        },
    }
    out
}

/// Whether an output permission allows every field of a list.
pub open spec fn allows_all(p: TypeOutputPermission, fields: Seq<FieldName>) -> bool {
    forall|k: int| 0 <= k < fields.len() ==> #[trigger] p.allows(fields[k]@)
}

/// The roles whose output permission allows every global ID field, in the
/// order of the type's permissions.
pub open spec fn node_roles(tp: Seq<(Role, TypeOutputPermission)>, fields: Seq<FieldName>) -> Seq<
    (Seq<char>, Option<FilterView>),
>
    decreases tp.len(),
{
    if tp.len() == 0 {
        Seq::empty()
    } else {
        let rest = node_roles(tp.drop_last(), fields);
        if allows_all(tp.last().1, fields) {
            rest.push((tp.last().0@, None))
        } else {
            rest
        }
    }
}

fn allows_every(p: &TypeOutputPermission, fields: &Vec<FieldName>) -> (r: bool)
    ensures
        r == allows_all(*p, fields@),
{
    let mut k: usize = 0;
    while k < fields.len()
        invariant
            k <= fields.len(),
            forall|j: int| 0 <= j < k ==> #[trigger] p.allows(fields@[j]@),
        decreases fields.len() - k,
    {
        if !p.contains(&fields[k]) {
            return false;
        }
        k = k + 1;
    }
    true
}

/// The roles that may read all the global ID fields of the type, with no
/// filter: the global ID field and the Node interface are shown to them.
pub fn get_node_interface_annotations(object_type_representation: &ObjectTypeRepresentation) -> (r:
    RoleAnnotations)
    ensures
        annotations_view(r@) == node_roles(
            object_type_representation.type_permissions@,
            object_type_representation.global_id_fields@,
        ),
{
    let tp = &object_type_representation.type_permissions;
    let fields = &object_type_representation.global_id_fields;
    let mut out: RoleAnnotations = Vec::new();
    let mut i: usize = 0;
    while i < tp.len()
        invariant
            i <= tp.len(),
            annotations_view(out@) == node_roles(tp@.take(i as int), fields@),
        decreases tp.len() - i,
    {
        let ghost before = out@;
        assert(tp@.take(i + 1).drop_last() =~= tp@.take(i as int));
        assert(tp@.take(i + 1).last() == tp@[i as int]);
        if allows_every(&tp[i].1, fields) {
            out.push((tp[i].0.clone(), None));
            assert(annotations_view(out@) =~= annotations_view(before).push((tp@[i as int].0@, None)));
        }
        i = i + 1;
    }
    assert(tp@.take(tp.len() as int) =~= tp@);
    out
}

/// The filter a field call was annotated with when the schema was built.
pub fn get_select_filter_predicate(namespaced: &Option<NamespaceAnnotation>) -> (r: Result<
    &FilterPermission,
    Error,
>)
    ensures
        match namespaced {
            Some(NamespaceAnnotation::Filter(f)) => r == Ok::<&FilterPermission, Error>(f),
            None => r matches Err(e) && e == Error::InternalError(
                InternalError::Engine(InternalEngineError::FilterPermissionAnnotationNotFound),
            ),
        },
{
    match namespaced {
        Some(NamespaceAnnotation::Filter(f)) => Ok(f),
        None => Err(Error::engine(InternalEngineError::FilterPermissionAnnotationNotFound)),
    }
}


/// Why a permission predicate could not be turned into an expression.
pub enum PredicateFailure {
    MissingSessionVariable(Seq<char>),
    TypeCast { expected: Seq<char>, found: Seq<char> },
    ArrayTypeCast,
    RelationshipPredicate,
}

pub open spec fn relationship_predicate_message() -> Seq<char> {
    "'relationship' model predicate is not supported yet."@
}

/// Whether an error is the one reported for a failure.
pub open spec fn failure_error(e: Error, f: PredicateFailure) -> bool {
    match f {
        PredicateFailure::MissingSessionVariable(n) => e matches Error::InternalError(
            InternalError::Developer(InternalDeveloperError::MissingSessionVariable { session_variable }),
        ) && session_variable@ == n,
        PredicateFailure::TypeCast { expected, found } => e matches Error::InternalError(
            InternalError::Developer(InternalDeveloperError::VariableTypeCast { expected: x, found: y }),
        ) && x@ == expected && y@ == found,
        PredicateFailure::ArrayTypeCast => e matches Error::InternalError(
            InternalError::Developer(InternalDeveloperError::VariableArrayTypeCast),
        ),
        PredicateFailure::RelationshipPredicate => e matches Error::InternalError(
            InternalError::Engine(InternalEngineError::InternalGeneric { description }),
        ) && description@ == relationship_predicate_message(),
    }
}

/// The JSON value of a session variable read as a value of the type: an
/// integer, the reading as a float, a boolean from `true` or `false`, the text
/// as a string or ID, and for a custom type the JSON value `serde_json` reads
/// from the text, or the text as a string where it is not JSON. A list type cannot be read.
pub open spec fn typecast(v: SessionVariableValue, t: QualifiedTypeReferenceView) -> Result<
    JsonView,
    PredicateFailure,
> {
    match t.underlying_type {
        QualifiedBaseTypeView::List(_) => Err(PredicateFailure::ArrayTypeCast),
        QualifiedBaseTypeView::Named(QualifiedTypeNameView::Inbuilt(InbuiltType::Int)) => match i32_of_text(
            v.text@,
        ) {
            Some(i) => Ok(
                JsonView::Number(
                    if i >= 0 {
                        JsonNumber::PosInt(i as u64)
                    } else {
                        JsonNumber::NegInt(i as i64)
                    },
                ),
            ),
            None => Err(PredicateFailure::TypeCast { expected: "int"@, found: v.text@ }),
        },
        QualifiedBaseTypeView::Named(QualifiedTypeNameView::Inbuilt(InbuiltType::Float)) => match v.float_reading {
            Some(j) => Ok(j@),
            None => Err(PredicateFailure::TypeCast { expected: "float"@, found: v.text@ }),
        },
        QualifiedBaseTypeView::Named(QualifiedTypeNameView::Inbuilt(InbuiltType::Boolean)) => if v.text@
            == "true"@ {
            Ok(JsonView::Bool(true))
        } else if v.text@ == "false"@ {
            Ok(JsonView::Bool(false))
        } else {
            Err(PredicateFailure::TypeCast { expected: "true or false"@, found: v.text@ })
        },
        QualifiedBaseTypeView::Named(QualifiedTypeNameView::Inbuilt(_)) => Ok(JsonView::String(v.text@)),
        QualifiedBaseTypeView::Named(QualifiedTypeNameView::Custom(_)) => match json_of_text(v.text@) {
            Some(j) => Ok(j),
            None => Ok(JsonView::String(v.text@)),
        },
    }
}

/// Reads a session variable as a value of the type.
pub fn typecast_session_variable(
    session_var_value: &SessionVariableValue,
    to_type: &QualifiedTypeReference,
) -> (r: Result<JsonValue, Error>)
    ensures
        match typecast(*session_var_value, to_type@) {
            Ok(j) => r matches Ok(v) && v@ == j,
            Err(f) => r matches Err(e) && failure_error(e, f),
        },
{
    let text = &session_var_value.text;
    match &to_type.underlying_type {
        QualifiedBaseType::List(_) => Err(Error::developer(InternalDeveloperError::VariableArrayTypeCast)),
        QualifiedBaseType::Named(QualifiedTypeName::Inbuilt(InbuiltType::Int)) => {
            match parse_i32(text.as_str()) {
                Some(i) => Ok(JsonValue::from_i64(i as i64)),
                None => Err(
                    Error::developer(
                        InternalDeveloperError::VariableTypeCast {
                            expected: String::from_str("int"),
                            found: text.clone(),
                        },
                    ),
                ),
            }
        },
        QualifiedBaseType::Named(QualifiedTypeName::Inbuilt(InbuiltType::Float)) => {
            match &session_var_value.float_reading {
                Some(j) => Ok(j.clone()),
                None => Err(
                    Error::developer(
                        InternalDeveloperError::VariableTypeCast {
                            expected: String::from_str("float"),
                            found: text.clone(),
                        },
                    ),
                ),
            }
        },
        QualifiedBaseType::Named(QualifiedTypeName::Inbuilt(InbuiltType::Boolean)) => {
            if str_eq(text.as_str(), "true") {
                Ok(JsonValue::Bool(true))
            } else if str_eq(text.as_str(), "false") {
                Ok(JsonValue::Bool(false))
            } else {
                Err(
                    Error::developer(
                        InternalDeveloperError::VariableTypeCast {
                            expected: String::from_str("true or false"),
                            found: text.clone(),
                        },
                    ),
                )
            }
        },
        QualifiedBaseType::Named(QualifiedTypeName::Inbuilt(_)) => Ok(JsonValue::String(text.clone())),
        QualifiedBaseType::Named(QualifiedTypeName::Custom(_)) => {
            match parse_json(text.as_str()) {
                Some(j) => Ok(j),
                None => Ok(JsonValue::String(text.clone())),
            }
        },
    }
}

/// The value a value expression stands for, read as a value of the type.
pub open spec fn comparison_value(
    ve: ValueExpression,
    t: QualifiedTypeReferenceView,
    sv: Seq<(SessionVariable, SessionVariableValue)>,
) -> Result<JsonView, PredicateFailure> {
    match ve {
        ValueExpression::Literal(j) => Ok(j@),
        ValueExpression::SessionVariable(name) => if !has_key(sv, name@) {
            Err(PredicateFailure::MissingSessionVariable(name@))
        } else {
            typecast(sv[first_key(sv, name@)].1, t)
        },
    }
}

/// The value of a value expression, read as a value of the type.
pub fn make_value_from_value_expression(
    val_expr: &ValueExpression,
    field_type: &QualifiedTypeReference,
    session_variables: &SessionVariables,
) -> (r: Result<ComparisonValue, Error>)
    ensures
        match comparison_value(*val_expr, field_type@, session_variables.0@) {
            Ok(j) => r matches Ok(v) && v@ == j,
            Err(f) => r matches Err(e) && failure_error(e, f),
        },
{
    match val_expr {
        ValueExpression::Literal(val) => Ok(ComparisonValue::Scalar { value: val.clone() }),
        ValueExpression::SessionVariable(session_var) => {
            match session_variables.get(session_var) {
                None => Err(
                    Error::developer(
                        InternalDeveloperError::MissingSessionVariable {
                            session_variable: session_var.0.clone(),
                        },
                    ),
                ),
                Some(value) => {
                    let v = typecast_session_variable(value, field_type)?;
                    Ok(ComparisonValue::Scalar { value: v })
                },
            }
        },
    }
}

/// A comparison of a column with a value expression.
pub fn make_permission_binary_boolean_expression(
    ndc_column: String,
    argument_type: &QualifiedTypeReference,
    operator: &BinaryComparisonOperator,
    value_expression: &ValueExpression,
    session_variables: &SessionVariables,
) -> (r: Result<Expression, Error>)
    ensures
        match comparison_value(*value_expression, argument_type@, session_variables.0@) {
            Ok(j) => r matches Ok(e) && e@ == (ExpressionView::Binary {
                column: (ColumnView { name: ndc_column@, path: Seq::empty() }),
                operator: operator@,
                value: j,
            }),
            Err(f) => r matches Err(e) && failure_error(e, f),
        },
{
    let value = make_value_from_value_expression(value_expression, argument_type, session_variables)?;
    Ok(
        Expression::BinaryComparisonOperator {
            column: column(ndc_column),
            operator: operator.duplicate(),
            value,
        },
    )
}

/// A unary comparison of a column.
pub fn make_permission_unary_boolean_expression(
    ndc_column: String,
    operator: &UnaryComparisonOperator,
) -> (r: Result<Expression, Error>)
    ensures
        r matches Ok(e) && e@ == (ExpressionView::Unary {
            column: (ColumnView { name: ndc_column@, path: Seq::empty() }),
            operator: *operator,
        }),
{
    Ok(Expression::UnaryComparisonOperator { column: column(ndc_column), operator: *operator })
}

/// The expression of a permission predicate, with the session variables it
/// reads replaced by their values. The first part of the predicate that cannot
/// be turned into an expression, in the order of its operands, gives the
/// failure.
pub open spec fn predicate_expression(
    p: ModelPredicate,
    sv: Seq<(SessionVariable, SessionVariableValue)>,
) -> Result<ExpressionView, PredicateFailure>
    decreases p, 0nat,
{
    match p {
        ModelPredicate::UnaryFieldComparison { ndc_column, operator, .. } => Ok(
            ExpressionView::Unary {
                column: ColumnView { name: ndc_column@, path: Seq::empty() },
                operator,
            },
        ),
        ModelPredicate::BinaryFieldComparison { ndc_column, argument_type, operator, value, .. } => {
            match comparison_value(value, argument_type@, sv) {
                Ok(j) => Ok(
                    ExpressionView::Binary {
                        column: ColumnView { name: ndc_column@, path: Seq::empty() },
                        operator: operator@,
                        value: j,
                    },
                ),
                Err(f) => Err(f),
            }
        },
        ModelPredicate::Not(q) => match predicate_expression(*q, sv) {
            Ok(e) => Ok(ExpressionView::Not(Box::new(e))),
            Err(f) => Err(f),
        },
        ModelPredicate::And(ps) => match predicates_expressions(ps, sv, ps.len() as int) {
            Ok(es) => Ok(ExpressionView::And(es)),
            Err(f) => Err(f),
        },
        ModelPredicate::Or(ps) => match predicates_expressions(ps, sv, ps.len() as int) {
            Ok(es) => Ok(ExpressionView::Or(es)),
            Err(f) => Err(f),
        },
        ModelPredicate::Relationship { .. } => Err(PredicateFailure::RelationshipPredicate),
    }
}

/// The expressions of the first `n` predicates, or the first failure among
/// them.
pub open spec fn predicates_expressions(
    ps: Vec<ModelPredicate>,
    sv: Seq<(SessionVariable, SessionVariableValue)>,
    n: int,
) -> Result<Seq<ExpressionView>, PredicateFailure>
    decreases ps, n,
{
    if n <= 0 || n > ps.len() {
        Ok(Seq::empty())
    } else {
        match predicates_expressions(ps, sv, n - 1) {
            Err(f) => Err(f),
            Ok(es) => match predicate_expression(ps[n - 1], sv) {
                Ok(e) => Ok(es.push(e)),
                Err(f) => Err(f),
            },
        }
    }
}

/// The operands of a list of predicates: where each of them gives an
/// expression, they give those expressions in order; where one of them fails,
/// the list fails.
proof fn lemma_operand_expressions(
    ps: Vec<ModelPredicate>,
    sv: Seq<(SessionVariable, SessionVariableValue)>,
    n: int,
)
    requires
        0 <= n <= ps.len(),
    ensures
        (forall|i: int| 0 <= i < n ==> (#[trigger] predicate_expression(ps@[i], sv)) is Ok) ==> (predicates_expressions(
            ps,
            sv,
            n,
        ) matches Ok(es) && es.len() == n && forall|i: int|
            0 <= i < n ==> Ok::<ExpressionView, PredicateFailure>(#[trigger] es[i]) == predicate_expression(ps@[i], sv)),
        (exists|i: int| 0 <= i < n && (#[trigger] predicate_expression(ps@[i], sv)) is Err) ==> predicates_expressions(
            ps,
            sv,
            n,
        ) is Err,
    decreases n,
{
    if n > 0 {
        lemma_operand_expressions(ps, sv, n - 1);
        if forall|i: int| 0 <= i < n ==> (#[trigger] predicate_expression(ps@[i], sv)) is Ok {
            assert(predicate_expression(ps@[n - 1], sv) is Ok);
            let es0 = predicates_expressions(ps, sv, n - 1)->Ok_0;
            let es = predicates_expressions(ps, sv, n)->Ok_0;
            assert(es == es0.push(predicate_expression(ps@[n - 1], sv)->Ok_0));
            assert forall|i: int| 0 <= i < n implies Ok::<ExpressionView, PredicateFailure>(#[trigger] es[i])
                == predicate_expression(ps@[i], sv) by {
                if i < n - 1 {
                    assert(es[i] == es0[i]);
                }
            }
        }
        if exists|i: int| 0 <= i < n && (#[trigger] predicate_expression(ps@[i], sv)) is Err {
            let i = choose|i: int| 0 <= i < n && (#[trigger] predicate_expression(ps@[i], sv)) is Err;
            if i == n - 1 {
            } else {
                assert(0 <= i < n - 1 && predicate_expression(ps@[i], sv) is Err);
            }
        }
    }
}

/// Law: an `Or` permission predicate gives the disjunction of the
/// expressions of its operands, one for each, in order, and never a
/// conjunction; it fails exactly when one of its operands fails.
pub proof fn law_or_predicate_is_disjunction(ps: Vec<ModelPredicate>, sv: Seq<(SessionVariable, SessionVariableValue)>)
    ensures
        (forall|i: int| 0 <= i < ps.len() ==> (#[trigger] predicate_expression(ps@[i], sv)) is Ok) ==> (predicate_expression(
            ModelPredicate::Or(ps),
            sv,
        ) matches Ok(ExpressionView::Or(es)) && es.len() == ps.len() && forall|i: int|
            0 <= i < ps.len() ==> Ok::<ExpressionView, PredicateFailure>(#[trigger] es[i]) == predicate_expression(ps@[i], sv)),
        (exists|i: int| 0 <= i < ps.len() && (#[trigger] predicate_expression(ps@[i], sv)) is Err) ==> predicate_expression(
            ModelPredicate::Or(ps),
            sv,
        ) is Err,
{
    lemma_operand_expressions(ps, sv, ps.len() as int);
}

/// Law: an `And` permission predicate gives the conjunction of the
/// expressions of its operands, one for each, in order; it fails exactly
/// when one of its operands fails.
pub proof fn law_and_predicate_is_conjunction(ps: Vec<ModelPredicate>, sv: Seq<(SessionVariable, SessionVariableValue)>)
    ensures
        (forall|i: int| 0 <= i < ps.len() ==> (#[trigger] predicate_expression(ps@[i], sv)) is Ok) ==> (predicate_expression(
            ModelPredicate::And(ps),
            sv,
        ) matches Ok(ExpressionView::And(es)) && es.len() == ps.len() && forall|i: int|
            0 <= i < ps.len() ==> Ok::<ExpressionView, PredicateFailure>(#[trigger] es[i]) == predicate_expression(ps@[i], sv)),
        (exists|i: int| 0 <= i < ps.len() && (#[trigger] predicate_expression(ps@[i], sv)) is Err) ==> predicate_expression(
            ModelPredicate::And(ps),
            sv,
        ) is Err,
{
    lemma_operand_expressions(ps, sv, ps.len() as int);
}

/// Law: a `Not` permission predicate gives the negation of the expression
/// of its operand, and fails exactly when its operand fails.
pub proof fn law_not_predicate_is_negation(p: ModelPredicate, sv: Seq<(SessionVariable, SessionVariableValue)>)
    ensures
        match predicate_expression(p, sv) {
            Ok(e) => predicate_expression(ModelPredicate::Not(Box::new(p)), sv) == Ok::<ExpressionView, PredicateFailure>(
                ExpressionView::Not(Box::new(e)),
            ),
            Err(_) => predicate_expression(ModelPredicate::Not(Box::new(p)), sv) is Err,
        },
{
}

/// Law: a comparison of a column with no value gives the test of that
/// column, by its data connector name, with the predicate's operator.
pub proof fn law_unary_predicate_tests_its_column(
    field: FieldName,
    ndc_column: String,
    operator: crate::open_dds::ndc_client::models::UnaryComparisonOperator,
    sv: Seq<(SessionVariable, SessionVariableValue)>,
)
    ensures
        predicate_expression(ModelPredicate::UnaryFieldComparison { field, ndc_column, operator }, sv) == Ok::<
            ExpressionView,
            PredicateFailure,
        >(ExpressionView::Unary { column: ColumnView { name: ndc_column@, path: Seq::empty() }, operator }),
{
}

/// The comparison of a column, by its data connector name, with a value.
pub open spec fn column_compared(c: Seq<char>, operator: BinaryOperatorView, v: JsonView) -> ExpressionView {
    ExpressionView::Binary { column: ColumnView { name: c, path: Seq::empty() }, operator, value: v }
}

/// Law: a comparison of a column with a literal compares the column, by its
/// data connector name, with that literal under the predicate's operator.
pub proof fn law_literal_comparison(
    field: FieldName,
    ndc_column: String,
    argument_type: QualifiedTypeReference,
    operator: BinaryComparisonOperator,
    j: JsonValue,
    sv: Seq<(SessionVariable, SessionVariableValue)>,
)
    ensures
        predicate_expression(
            ModelPredicate::BinaryFieldComparison {
                field,
                ndc_column,
                argument_type,
                operator,
                value: ValueExpression::Literal(j),
            },
            sv,
        ) == Ok::<ExpressionView, PredicateFailure>(column_compared(ndc_column@, operator@, j@)),
{
}

/// Law: a comparison of a column with a session variable compares it with
/// the variable's value (the first one set under its name, at position `k`)
/// read as the comparison's type: an `Int` type takes the 32-bit integer the
/// text writes, and fails where it writes none; a `Boolean` type takes
/// `true` or `false` and fails on any other text; a `String` or `ID` type
/// takes the text itself; a list type fails. A variable that is not set
/// fails.
pub proof fn law_session_variable_comparison(
    field: FieldName,
    ndc_column: String,
    argument_type: QualifiedTypeReference,
    operator: BinaryComparisonOperator,
    name: SessionVariable,
    sv: Seq<(SessionVariable, SessionVariableValue)>,
    k: int,
)
    ensures
        !has_key(sv, name@) ==> predicate_expression(
            session_comparison(field, ndc_column, argument_type, operator, name),
            sv,
        ) is Err,
        is_first_key(sv, name@, k) ==> session_typed(
            predicate_expression(session_comparison(field, ndc_column, argument_type, operator, name), sv),
            ndc_column@,
            operator@,
            argument_type@.underlying_type,
            sv[k].1.text@,
        ),
{
    if is_first_key(sv, name@, k) {
        lemma_first_key_unique(sv, name@, k);
        assert(comparison_value(ValueExpression::SessionVariable(name), argument_type@, sv) == typecast(sv[k].1, argument_type@));
        reveal_strlit("true");
        reveal_strlit("false");
        assert("true"@.len() != "false"@.len());
    }
}

/// The comparison of a column with a session variable.
pub open spec fn session_comparison(
    field: FieldName,
    ndc_column: String,
    argument_type: QualifiedTypeReference,
    operator: BinaryComparisonOperator,
    name: SessionVariable,
) -> ModelPredicate {
    ModelPredicate::BinaryFieldComparison { field, ndc_column, argument_type, operator, value: ValueExpression::SessionVariable(name) }
}

/// Whether a result compares the column with a session variable's text
/// read as the type: an `Int` type the 32-bit integer the text writes (an
/// error where it writes none), a `Boolean` type `true` or `false` (an error
/// on any other text), a `String` or `ID` type the text itself, and a list
/// type an error.
pub open spec fn session_typed(
    r: Result<ExpressionView, PredicateFailure>,
    c: Seq<char>,
    operator: BinaryOperatorView,
    t: QualifiedBaseTypeView,
    text: Seq<char>,
) -> bool {
    &&& t == QualifiedBaseTypeView::Named(QualifiedTypeNameView::Inbuilt(InbuiltType::Int)) ==> match i32_of_text(text) {
        Some(x) => r == Ok::<ExpressionView, PredicateFailure>(
            column_compared(
                c,
                operator,
                JsonView::Number(
                    if x >= 0 {
                        JsonNumber::PosInt(x as u64)
                    } else {
                        JsonNumber::NegInt(x as i64)
                    },
                ),
            ),
        ),
        None => r is Err,
    }
    &&& t == QualifiedBaseTypeView::Named(QualifiedTypeNameView::Inbuilt(InbuiltType::Boolean)) ==> {
        &&& text == "true"@ ==> r == Ok::<ExpressionView, PredicateFailure>(column_compared(c, operator, JsonView::Bool(true)))
        &&& text == "false"@ ==> r == Ok::<ExpressionView, PredicateFailure>(column_compared(c, operator, JsonView::Bool(false)))
        &&& text != "true"@ && text != "false"@ ==> r is Err
    }
    &&& (t == QualifiedBaseTypeView::Named(QualifiedTypeNameView::Inbuilt(InbuiltType::String)) || t
        == QualifiedBaseTypeView::Named(QualifiedTypeNameView::Inbuilt(InbuiltType::ID))) ==> r == Ok::<
        ExpressionView,
        PredicateFailure,
    >(column_compared(c, operator, JsonView::String(text)))
    &&& t is List ==> r is Err
}

/// Turns a permission predicate into an expression.
pub fn process_model_predicate(
    model_predicate: &ModelPredicate,
    session_variables: &SessionVariables,
) -> (r: Result<Expression, Error>)
    ensures
        match predicate_expression(*model_predicate, session_variables.0@) {
            Ok(x) => r matches Ok(e) && e@ == x,
            Err(f) => r matches Err(e) && failure_error(e, f),
        },
    decreases model_predicate, 1nat,
{
    match model_predicate {
        ModelPredicate::UnaryFieldComparison { ndc_column, operator, .. } => {
            make_permission_unary_boolean_expression(ndc_column.clone(), operator)
        },
        ModelPredicate::BinaryFieldComparison { ndc_column, argument_type, operator, value, .. } => {
            make_permission_binary_boolean_expression(
                ndc_column.clone(),
                argument_type,
                operator,
                value,
                session_variables,
            )
        },
        ModelPredicate::Not(predicate) => {
            let inner: &ModelPredicate = predicate;
            let expr = process_model_predicate(inner, session_variables)?;
            Ok(Expression::Not { expression: Box::new(expr) })
        },
        ModelPredicate::And(predicates) => {
            let exprs = process_model_predicates(predicates, session_variables)?;
            proof {
                lemma_and_view(exprs);
            }
            Ok(Expression::And { expressions: exprs })
        },
        ModelPredicate::Or(predicates) => {
            let exprs = process_model_predicates(predicates, session_variables)?;
            proof {
                lemma_and_view(exprs);
            }
            Ok(Expression::Or { expressions: exprs })
        },
        ModelPredicate::Relationship { .. } => Err(
            Error::engine(
                InternalEngineError::InternalGeneric {
                    description: String::from_str(
                        "'relationship' model predicate is not supported yet.",
                    ),
                },
            ),
        ),
    }
}

/// Once a failure is met among the first predicates, it is the failure of
/// any longer prefix.
proof fn lemma_failure_persists(
    ps: Vec<ModelPredicate>,
    sv: Seq<(SessionVariable, SessionVariableValue)>,
    k: int,
    n: int,
)
    requires
        1 <= k <= n <= ps.len(),
        predicates_expressions(ps, sv, k) is Err,
    ensures
        predicates_expressions(ps, sv, n) == predicates_expressions(ps, sv, k),
    decreases n - k,
{
    if k < n {
        lemma_failure_persists(ps, sv, k, n - 1);
    }
}

/// Turns each of a list of permission predicates into an expression.
fn process_model_predicates(
    predicates: &Vec<ModelPredicate>,
    session_variables: &SessionVariables,
) -> (r: Result<Vec<Expression>, Error>)
    ensures
        match predicates_expressions(*predicates, session_variables.0@, predicates.len() as int) {
            Ok(xs) => r matches Ok(es) && expressions_view(es@) == xs,
            Err(f) => r matches Err(e) && failure_error(e, f),
        },
    decreases predicates, 0nat,
{
    let mut out: Vec<Expression> = Vec::new();
    assert(expressions_view(out@) =~= Seq::<ExpressionView>::empty());
    let mut i: usize = 0;
    while i < predicates.len()
        invariant
            i <= predicates.len(),
            predicates_expressions(*predicates, session_variables.0@, i as int) == Ok::<
                Seq<ExpressionView>,
                PredicateFailure,
            >(expressions_view(out@)),
        decreases predicates.len() - i,
    {
        assert(decreases_to!(predicates => predicates[i as int]));
        let e = match process_model_predicate(&predicates[i], session_variables) {
            Ok(e) => e,
            Err(err) => {
                proof {
                    lemma_failure_persists(
                        *predicates,
                        session_variables.0@,
                        i + 1,
                        predicates.len() as int,
                    );
                }
                return Err(err);
            },
        };
        let ghost before = out@;
        out.push(e);
        assert(expressions_view(out@) =~= expressions_view(before).push(e@));
        i = i + 1;
    }
    Ok(out)
}

} // verus!
