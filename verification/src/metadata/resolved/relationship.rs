//! Relationships from an object type to a model, as the engine resolves them.

use vstd::prelude::*;
use vstd::string::*;

use super::data_connector::DataConnectorContext;
use super::error::Error;
use super::model::Model;
use super::subgraph::Qualified;
use super::types::{is_graphql_name, mk_name, ObjectTypeRepresentation};
use crate::keyed::{find_key, first_key, has_key, is_first_key, lemma_first_key_unique};
use crate::open_dds::names::{DataConnectorName, FieldName, Ident, ModelName, RelationshipName};
use crate::open_dds::relationships::{
    self, FieldAccess, RelationshipMappingSource, RelationshipMappingTarget, RelationshipType,
    RelationshipV1,
};
use crate::open_dds::types::CustomTypeName;

verus! {

/// The model a relationship leads to.
#[derive(Debug, PartialEq, Eq)]
pub enum RelationshipTarget {
    Model { model_name: Qualified<ModelName>, relationship_type: RelationshipType },
}

/// A field of the source type and the field of the target model it is
/// matched with.
#[derive(Debug, PartialEq, Eq)]
pub struct RelationshipMapping {
    pub source_field: FieldAccess,
    pub target_field: FieldAccess,
}

impl RelationshipMapping {
    /// A copy of this mapping.
    pub fn duplicate(&self) -> (r: RelationshipMapping)
        ensures
            r.source_field.field_name@ == self.source_field.field_name@,
            r.target_field.field_name@ == self.target_field.field_name@,
    {
        RelationshipMapping { source_field: self.source_field.duplicate(), target_field: self.target_field.duplicate() }
    }
}

/// A resolved relationship.
#[derive(Debug, PartialEq, Eq)]
pub struct Relationship {
    pub name: RelationshipName,
    pub field_name: String,
    pub source: Qualified<CustomTypeName>,
    pub target: RelationshipTarget,
    pub target_typename: Qualified<CustomTypeName>,
    pub mappings: Vec<RelationshipMapping>,
    pub target_capabilities: Option<RelationshipCapabilities>,
}

/// What the data connector of the target model supports.
#[derive(Debug, PartialEq, Eq)]
pub struct RelationshipCapabilities {
    pub foreach: (),
    pub relationships: bool,
}

/// The verdict on one mapping of a relationship.
pub enum MappingCheck {
    ValueSource,
    EmptySource,
    NestedSource,
    ArgumentTarget,
    EmptyTarget,
    NestedTarget,
    UnknownSource,
    UnknownTarget,
    Duplicate,
    Good,
}

pub open spec fn value_source_message() -> Seq<char> {
    "Relationship mappings from value expressions are not supported yet."@
}

pub open spec fn nested_path_message() -> Seq<char> {
    "Relationships with nested field paths are not supported yet."@
}

pub open spec fn argument_target_message() -> Seq<char> {
    "Relationship mappings to arguments expressions are not supported yet."@
}

/// The name of the first field on the source path of a mapping.
pub open spec fn source_name(m: relationships::RelationshipMapping) -> Seq<char> {
    match m.source {
        RelationshipMappingSource::FieldPath(p) => if p.len() > 0 {
            p[0].field_name@
        } else {
            Seq::empty()
        },
        _ => Seq::empty(),
    }
}

/// The name of the first field on the target path of a mapping.
pub open spec fn target_name(m: relationships::RelationshipMapping) -> Seq<char> {
    match m.target {
        RelationshipMappingTarget::ModelField(p) => if p.len() > 0 {
            p[0].field_name@
        } else {
            Seq::empty()
        },
        _ => Seq::empty(),
    }
}

/// The verdict on mapping `i`: its source must be one field of the source
/// type, its target one field of the target model, and no earlier mapping may
/// start from the same source field.
pub open spec fn mapping_check(
    rel: RelationshipV1,
    source_type: ObjectTypeRepresentation,
    target_model: Model,
    i: int,
) -> MappingCheck {
    let m = rel.mapping[i];
    match m.source {
        RelationshipMappingSource::Value(_) => MappingCheck::ValueSource,
        RelationshipMappingSource::FieldPath(sp) => if sp.len() == 0 {
            MappingCheck::EmptySource
        } else if sp.len() > 1 {
            MappingCheck::NestedSource
        } else {
            match m.target {
                RelationshipMappingTarget::Argument(_) => MappingCheck::ArgumentTarget,
                RelationshipMappingTarget::ModelField(tp) => if tp.len() == 0 {
                    MappingCheck::EmptyTarget
                } else if tp.len() > 1 {
                    MappingCheck::NestedTarget
                } else if !source_type.has_field(sp[0].field_name@) {
                    MappingCheck::UnknownSource
                } else if !has_key(target_model.type_fields@, tp[0].field_name@) {
                    MappingCheck::UnknownTarget
                } else if exists|j: int|
                    0 <= j < i && #[trigger] source_name(rel.mapping[j]) == sp[0].field_name@ {
                    MappingCheck::Duplicate
                } else {
                    MappingCheck::Good
                },
            }
        },
    }
}

/// Whether an error is the one reported for mapping `i` with the verdict.
pub open spec fn mapping_error(
    e: Error,
    rel: RelationshipV1,
    source_type_name: (Seq<char>, Seq<char>),
    target_model: Model,
    i: int,
    check: MappingCheck,
) -> bool {
    let m = rel.mapping[i];
    match check {
        MappingCheck::ValueSource => e matches Error::NotSupported { reason } && reason@
            == value_source_message(),
        MappingCheck::NestedSource | MappingCheck::NestedTarget => e matches Error::NotSupported {
            reason,
        } && reason@ == nested_path_message(),
        MappingCheck::ArgumentTarget => e matches Error::NotSupported { reason } && reason@
            == argument_target_message(),
        MappingCheck::EmptySource => e matches Error::EmptyFieldPath {
            location,
            typename,
            relationship_name,
        } && location@ == "source"@ && typename@ == source_type_name && relationship_name@
            == rel.name@,
        MappingCheck::EmptyTarget => e matches Error::EmptyFieldPath {
            location,
            typename,
            relationship_name,
        } && location@ == "target"@ && typename@ == source_type_name && relationship_name@
            == rel.name@,
        MappingCheck::UnknownSource => e matches Error::UnknownSourceFieldInRelationshipMapping {
            relationship_name,
            source_type,
            field_name,
        } && relationship_name@ == rel.name@ && source_type@ == source_type_name && field_name@
            == source_name(m),
        MappingCheck::UnknownTarget => e matches Error::UnknownTargetFieldInRelationshipMapping {
            relationship_name,
            source_type,
            model_name,
            field_name,
        } && relationship_name@ == rel.name@ && source_type@ == source_type_name && model_name@
            == target_model.name@ && field_name@ == source_name(m),
        MappingCheck::Duplicate => e matches Error::MappingExistsInRelationship {
            typename,
            field_name,
            relationship_name,
        } && typename@ == source_type_name && field_name@ == source_name(m) && relationship_name@
            == rel.name@,
        MappingCheck::Good => false,
    }
}

/// Whether all the mappings of a relationship are good.
pub open spec fn mappings_good(
    rel: RelationshipV1,
    source_type: ObjectTypeRepresentation,
    target_model: Model,
) -> bool {
    forall|i: int|
        0 <= i < rel.mapping.len() ==> #[trigger] mapping_check(rel, source_type, target_model, i)
            is Good
}

/// Whether an error is the one reported for the first mapping that is not
/// good.
pub open spec fn mappings_error(
    e: Error,
    rel: RelationshipV1,
    source_type_name: (Seq<char>, Seq<char>),
    source_type: ObjectTypeRepresentation,
    target_model: Model,
) -> bool {
    exists|i: int|
        0 <= i < rel.mapping.len() && (forall|j: int|
            0 <= j < i ==> #[trigger] mapping_check(rel, source_type, target_model, j) is Good)
            && mapping_error(
            e,
            rel,
            source_type_name,
            target_model,
            i,
            mapping_check(rel, source_type, target_model, i),
        )
}

/// Whether resolved mappings are the mappings of the relationship, one for
/// one: the single source field and the single target field of each.
pub open spec fn mappings_resolved(rel: RelationshipV1, out: Seq<RelationshipMapping>) -> bool {
    &&& out.len() == rel.mapping.len()
    &&& forall|i: int|
        0 <= i < out.len() ==> (#[trigger] out[i]).source_field.field_name@ == source_name(
            rel.mapping[i],
        ) && out[i].target_field.field_name@ == target_name(rel.mapping[i])
}

/// Whether an earlier resolved mapping starts from the field.
fn source_seen(out: &Vec<RelationshipMapping>, name: &FieldName) -> (r: bool)
    ensures
        r == exists|j: int|
            0 <= j < out.len() && (#[trigger] out[j]).source_field.field_name@ == name@,
{
    let mut k: usize = 0;
    while k < out.len()
        invariant
            k <= out.len(),
            forall|j: int| 0 <= j < k ==> (#[trigger] out[j]).source_field.field_name@ != name@,
        decreases out.len() - k,
    {
        if out[k].source_field.field_name.same(name) {
            return true;
        }
        k = k + 1;
    }
    false
}

/// Resolves the mappings of a relationship: each must go from one field of
/// the source type to one field of the target model, and no two may start
/// from the same source field. The first mapping that is not so gives the
/// error.
pub fn resolve_relationship_mappings(
    relationship: &RelationshipV1,
    source_type_name: &Qualified<CustomTypeName>,
    source_type: &ObjectTypeRepresentation,
    target_model: &Model,
) -> (r: Result<Vec<RelationshipMapping>, Error>)
    ensures
        match r {
            Ok(out) => mappings_good(*relationship, *source_type, *target_model)
                && mappings_resolved(*relationship, out@),
            Err(e) => mappings_error(e, *relationship, source_type_name@, *source_type, *target_model),
        },
{
    let ghost rel = *relationship;
    let ghost st = *source_type;
    let ghost tm = *target_model;
    let mut out: Vec<RelationshipMapping> = Vec::new();
    let mut i: usize = 0;
    while i < relationship.mapping.len()
        invariant
            rel == *relationship,
            st == *source_type,
            tm == *target_model,
            i <= relationship.mapping.len(),
            out.len() == i,
            forall|j: int| 0 <= j < i ==> #[trigger] mapping_check(rel, st, tm, j) is Good,
            forall|j: int|
                0 <= j < i ==> (#[trigger] out[j]).source_field.field_name@ == source_name(
                    rel.mapping[j],
                ) && out[j].target_field.field_name@ == target_name(rel.mapping[j]),
        decreases relationship.mapping.len() - i,
    {
        let m = &relationship.mapping[i];
        let ghost c = mapping_check(rel, st, tm, i as int);
        let source = match &m.source {
            RelationshipMappingSource::Value(_) => {
                let reason = String::from_str(
                    "Relationship mappings from value expressions are not supported yet.",
                );
                return Err(Error::NotSupported { reason });
            },
            RelationshipMappingSource::FieldPath(path) => {
                if path.len() == 0 {
                    return Err(
                        Error::EmptyFieldPath {
                            location: String::from_str("source"),
                            typename: source_type_name.duplicate(),
                            relationship_name: relationship.name.duplicate(),
                        },
                    );
                } else if path.len() > 1 {
                    let reason = String::from_str(
                        "Relationships with nested field paths are not supported yet.",
                    );
                    return Err(Error::NotSupported { reason });
                }
                &path[0]
            },
        };
        let target = match &m.target {
            RelationshipMappingTarget::Argument(_) => {
                let reason = String::from_str(
                    "Relationship mappings to arguments expressions are not supported yet.",
                );
                return Err(Error::NotSupported { reason });
            },
            RelationshipMappingTarget::ModelField(path) => {
                if path.len() == 0 {
                    return Err(
                        Error::EmptyFieldPath {
                            location: String::from_str("target"),
                            typename: source_type_name.duplicate(),
                            relationship_name: relationship.name.duplicate(),
                        },
                    );
                } else if path.len() > 1 {
                    let reason = String::from_str(
                        "Relationships with nested field paths are not supported yet.",
                    );
                    return Err(Error::NotSupported { reason });
                }
                &path[0]
            },
        };
        if !source_type.contains_field(&source.field_name) {
            return Err(
                Error::UnknownSourceFieldInRelationshipMapping {
                    relationship_name: relationship.name.duplicate(),
                    source_type: source_type_name.duplicate(),
                    field_name: source.field_name.duplicate(),
                },
            );
        }
        if find_key(&target_model.type_fields, &target.field_name).is_none() {
            return Err(
                Error::UnknownTargetFieldInRelationshipMapping {
                    relationship_name: relationship.name.duplicate(),
                    source_type: source_type_name.duplicate(),
                    model_name: target_model.name.duplicate(),
                    field_name: source.field_name.duplicate(),
                },
            );
        }
        if source_seen(&out, &source.field_name) {
            proof {
                let j = choose|j: int|
                    0 <= j < out.len() && (#[trigger] out[j]).source_field.field_name@
                        == source.field_name@;
                assert(source_name(rel.mapping[j]) == source.field_name@);
            }
            return Err(
                Error::MappingExistsInRelationship {
                    typename: source_type_name.duplicate(),
                    field_name: source.field_name.duplicate(),
                    relationship_name: relationship.name.duplicate(),
                },
            );
        }
        proof {
            if exists|j: int|
                0 <= j < i && #[trigger] source_name(rel.mapping[j]) == source.field_name@ {
                let j = choose|j: int|
                    0 <= j < i && #[trigger] source_name(rel.mapping[j]) == source.field_name@;
                assert(out[j].source_field.field_name@ == source.field_name@);
            }
            assert(mapping_check(rel, st, tm, i as int) is Good);
        }
        out.push(RelationshipMapping { source_field: source.duplicate(), target_field: target.duplicate() });
        i = i + 1;
    }
    Ok(out)
}

/// What the data connector of a target model supports, as far as a
/// relationship needs it.
pub enum CapabilitiesOutcome {
    NoSource,
    UnknownDataConnector,
    NoForEach,
    Supported(bool),
}

pub open spec fn capabilities_outcome(
    target_model: Model,
    data_connectors: Seq<(Qualified<DataConnectorName>, DataConnectorContext)>,
) -> CapabilitiesOutcome {
    match target_model.source {
        None => CapabilitiesOutcome::NoSource,
        Some(source) => {
            let key = source.data_connector.name@;
            if !has_key(data_connectors, key) {
                CapabilitiesOutcome::UnknownDataConnector
            } else {
                let context = data_connectors[first_key(data_connectors, key)].1;
                if !context.supports_variables {
                    CapabilitiesOutcome::NoForEach
                } else {
                    CapabilitiesOutcome::Supported(context.supports_relationships)
                }
            }
        },
    }
}

/// Whether the outcome lets the relationship be resolved.
pub open spec fn capabilities_ok(o: CapabilitiesOutcome) -> bool {
    o is NoSource || o is Supported
}

/// The capabilities recorded for an outcome that lets the relationship be
/// resolved.
pub open spec fn capabilities_of(o: CapabilitiesOutcome) -> Option<RelationshipCapabilities> {
    match o {
        CapabilitiesOutcome::Supported(b) => Some(RelationshipCapabilities { foreach: (), relationships: b }),
        _ => None,
    }
}

/// Whether an error is the one reported for an outcome that does not let
/// the relationship be resolved.
pub open spec fn capabilities_error(
    e: Error,
    o: CapabilitiesOutcome,
    typename: (Seq<char>, Seq<char>),
    relationship_name: Seq<char>,
    target_model: Model,
) -> bool {
    match o {
        CapabilitiesOutcome::UnknownDataConnector => e matches Error::UnknownModelDataConnector {
            model_name,
            data_connector,
        } && model_name@ == target_model.name@ && data_connector@
            == target_model.source.unwrap().data_connector.name@,
        CapabilitiesOutcome::NoForEach => e matches Error::RelationshipTargetDoesNotSupportForEach {
            typename: t,
            relationship_name: n,
            data_connector_name: d,
        } && t@ == typename && n@ == relationship_name && d@
            == target_model.source.unwrap().data_connector.name@,
        _ => false,
    }
}

/// What the data connector of a target model supports: nothing to say where
/// the model has no source, an error where its data connector is unknown or
/// does not support queries with variables.
pub fn get_relationship_capabilities(
    typename: &Qualified<CustomTypeName>,
    relationship_name: &RelationshipName,
    target_model: &Model,
    data_connectors: &Vec<(Qualified<DataConnectorName>, DataConnectorContext)>,
) -> (r: Result<Option<RelationshipCapabilities>, Error>)
    ensures
        ({
            let o = capabilities_outcome(*target_model, data_connectors@);
            if capabilities_ok(o) {
                r == Ok::<Option<RelationshipCapabilities>, Error>(capabilities_of(o))
            } else {
                r matches Err(e) && capabilities_error(e, o, typename@, relationship_name@, *target_model)
            }
        }),
{
    let source = match &target_model.source {
        Some(source) => source,
        None => {
            return Ok(None);
        },
    };
    let found = find_key(data_connectors, &source.data_connector.name);
    let index = match found {
        Some(index) => index,
        None => {
            return Err(
                Error::UnknownModelDataConnector {
                    model_name: target_model.name.duplicate(),
                    data_connector: source.data_connector.name.duplicate(),
                },
            );
        },
    };
    proof {
        lemma_first_key_unique(data_connectors@, source.data_connector.name@, index as int);
    }
    let context = &data_connectors[index].1;
    if !context.supports_variables {
        return Err(
            Error::RelationshipTargetDoesNotSupportForEach {
                typename: typename.duplicate(),
                relationship_name: relationship_name.duplicate(),
                data_connector_name: source.data_connector.name.duplicate(),
            },
        );
    }
    Ok(Some(RelationshipCapabilities { foreach: (), relationships: context.supports_relationships }))
}

/// The subgraph of the model a relationship leads to: the one it names, else
/// the subgraph of the relationship.
pub open spec fn target_model_key(rel: RelationshipV1, subgraph: Seq<char>) -> (Seq<char>, Seq<char>) {
    match rel.target {
        relationships::RelationshipTarget::Model(t) => (
            match t.spec_subgraph() {
                Some(g) => g,
                None => subgraph,
            },
            t.name@,
        ),
    }
}

/// The type of the relationship.
pub open spec fn target_relationship_type(rel: RelationshipV1) -> RelationshipType {
    match rel.target {
        relationships::RelationshipTarget::Model(t) => t.relationship_type,
    }
}

/// Resolves a relationship of a type of the subgraph: its target model must
/// be known, the data connector of that model must support it, its mappings
/// must be good, and its name must be a GraphQL name. These are checked in
/// that order, and the first that fails gives the error.
pub fn resolve_relationship(
    relationship: &RelationshipV1,
    subgraph: &str,
    models: &Vec<(Qualified<ModelName>, Model)>,
    data_connectors: &Vec<(Qualified<DataConnectorName>, DataConnectorContext)>,
    source_type: &ObjectTypeRepresentation,
) -> (r: Result<Relationship, Error>)
    ensures
        ({
            let source_name = (subgraph@, relationship.source@);
            let key = target_model_key(*relationship, subgraph@);
            if !has_key(models@, key) {
                r matches Err(Error::UnknownTargetModelUsedInRelationship {
                    typename,
                    relationship_name,
                    model_name,
                }) && typename@ == source_name && relationship_name@ == relationship.name@
                    && model_name@ == key
            } else {
                let target_model = models@[first_key(models@, key)].1;
                let o = capabilities_outcome(target_model, data_connectors@);
                if !capabilities_ok(o) {
                    r matches Err(e) && capabilities_error(
                        e,
                        o,
                        source_name,
                        relationship.name@,
                        target_model,
                    )
                } else if !mappings_good(*relationship, *source_type, target_model) {
                    r matches Err(e) && mappings_error(
                        e,
                        *relationship,
                        source_name,
                        *source_type,
                        target_model,
                    )
                } else if !is_graphql_name(relationship.name@) {
                    r matches Err(Error::InvalidGraphQlName { name }) && name@ == relationship.name@
                } else {
                    r matches Ok(out) && out.name@ == relationship.name@ && out.field_name@
                        == relationship.name@ && out.source@ == source_name && (out.target matches RelationshipTarget::Model {
                        model_name,
                        relationship_type,
                    } && model_name@ == key && relationship_type == target_relationship_type(
                        *relationship,
                    )) && out.target_typename@ == target_model.data_type@ && mappings_resolved(
                        *relationship,
                        out.mappings@,
                    ) && out.target_capabilities == capabilities_of(o)
                }
            }
        }),
{
    let source_type_name = Qualified::new(String::from_str(subgraph), relationship.source.duplicate());
    let (relationship_target, target_model) = match &relationship.target {
        relationships::RelationshipTarget::Model(target) => {
            let target_subgraph = match target.subgraph() {
                Some(g) => String::from_str(g),
                None => String::from_str(subgraph),
            };
            let key = Qualified::new(target_subgraph, target.name.duplicate());
            let index = match find_key(models, &key) {
                Some(index) => index,
                None => {
                    return Err(
                        Error::UnknownTargetModelUsedInRelationship {
                            typename: source_type_name,
                            relationship_name: relationship.name.duplicate(),
                            model_name: key,
                        },
                    );
                },
            };
            proof {
                lemma_first_key_unique(models@, key@, index as int);
            }
            (
                RelationshipTarget::Model {
                    model_name: key,
                    relationship_type: target.relationship_type,
                },
                &models[index].1,
            )
        },
    };
    let target_capabilities = get_relationship_capabilities(
        &source_type_name,
        &relationship.name,
        target_model,
        data_connectors,
    )?;
    let mappings = resolve_relationship_mappings(
        relationship,
        &source_type_name,
        source_type,
        target_model,
    )?;
    let field_name = mk_name(relationship.name.0.as_str())?;
    Ok(
        Relationship {
            name: relationship.name.duplicate(),
            field_name,
            source: source_type_name,
            target: relationship_target,
            target_typename: target_model.data_type.duplicate(),
            mappings,
            target_capabilities,
        },
    )
}

/// No two mappings of a resolved relationship start from the same source
/// field.
pub proof fn lemma_resolved_mappings_distinct(
    rel: RelationshipV1,
    source_type: ObjectTypeRepresentation,
    target_model: Model,
    out: Seq<RelationshipMapping>,
)
    requires
        mappings_good(rel, source_type, target_model),
        mappings_resolved(rel, out),
    ensures
        forall|i: int, j: int|
            0 <= i < j < out.len() ==> (#[trigger] out[i]).source_field.field_name@
                != (#[trigger] out[j]).source_field.field_name@,
{
    assert forall|i: int, j: int| 0 <= i < j < out.len() implies (#[trigger] out[i]).source_field.field_name@
        != (#[trigger] out[j]).source_field.field_name@ by {
        assert(mapping_check(rel, source_type, target_model, j) is Good);
        assert(mapping_check(rel, source_type, target_model, i) is Good);
        if source_name(rel.mapping[i]) == source_name(rel.mapping[j]) {
            assert(exists|k: int|
                0 <= k < j && #[trigger] source_name(rel.mapping[k]) == source_name(rel.mapping[j]));
        }
    }
}

} // verus!
