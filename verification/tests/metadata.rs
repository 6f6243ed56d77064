use engine::metadata::resolved::data_connector::{DataConnector, DataConnectorContext, ResolvedDataConnectorUrl};
use engine::metadata::resolved::error::Error;
use engine::metadata::resolved::model::{Model, ModelGraphQlApi, ModelSource};
use engine::metadata::resolved::relationship::{resolve_relationship, RelationshipTarget};
use engine::metadata::resolved::subgraph::{Qualified, QualifiedBaseType, QualifiedTypeName, QualifiedTypeReference};
use engine::metadata::resolved::types::{mk_name, FieldDefinition, ObjectTypeRepresentation};
use engine::open_dds::names::{DataConnectorName, FieldName, ModelName, RelationshipName};
use engine::open_dds::relationships::{
    FieldAccess, ModelRelationshipTarget, RelationshipMapping, RelationshipMappingSource, RelationshipMappingTarget,
    RelationshipTarget as OpenDdTarget, RelationshipType, RelationshipV1,
};
use engine::open_dds::types::{CustomTypeName, InbuiltType};

fn q<T>(subgraph: &str, name: T) -> Qualified<T> {
    Qualified { subgraph: subgraph.to_string(), name }
}

fn int_field() -> FieldDefinition {
    FieldDefinition {
        field_type: QualifiedTypeReference {
            underlying_type: QualifiedBaseType::Named(QualifiedTypeName::Inbuilt(InbuiltType::Int)),
            nullable: false,
        },
    }
}

fn author_type() -> ObjectTypeRepresentation {
    ObjectTypeRepresentation {
        fields: vec![(FieldName("id".to_string()), int_field()), (FieldName("name".to_string()), int_field())],
        relationships: vec![],
        type_permissions: vec![],
        global_id_fields: vec![],
        graphql_output_type_name: Some("Author".to_string()),
        graphql_input_type_name: Some("AuthorInput".to_string()),
    }
}

fn connector(name: &str) -> DataConnector {
    DataConnector {
        name: q("app", DataConnectorName(name.to_string())),
        url: ResolvedDataConnectorUrl::SingleUrl("http://localhost:8100".to_string()),
        headers: vec![],
    }
}

fn articles_model() -> Model {
    Model {
        name: q("app", ModelName("articles".to_string())),
        data_type: q("app", CustomTypeName("article".to_string())),
        type_fields: vec![(FieldName("author_id".to_string()), int_field())],
        global_id_fields: vec![],
        global_id_source: false,
        arguments: vec![],
        graphql_api: ModelGraphQlApi { select_uniques: vec![], select_many: None, arguments_input_type: None, filter_expression: None, order_by_expression: None },
        source: Some(ModelSource {
            data_connector: connector("db"),
            collection: "article".to_string(),
            type_mappings: vec![],
            argument_mappings: vec![],
        }),
        select_permissions: None,
    }
}

fn contexts(variables: bool, relationships: bool) -> Vec<(Qualified<DataConnectorName>, DataConnectorContext)> {
    vec![(
        q("app", DataConnectorName("db".to_string())),
        DataConnectorContext {
            url: ResolvedDataConnectorUrl::SingleUrl("http://localhost:8100".to_string()),
            headers: vec![],
            supports_variables: variables,
            supports_relationships: relationships,
        },
    )]
}

fn path(fields: &[&str]) -> Vec<FieldAccess> {
    fields.iter().map(|f| FieldAccess { field_name: FieldName(f.to_string()) }).collect()
}

fn mapping(source: &[&str], target: &[&str]) -> RelationshipMapping {
    RelationshipMapping {
        source: RelationshipMappingSource::FieldPath(path(source)),
        target: RelationshipMappingTarget::ModelField(path(target)),
    }
}

fn relationship(name: &str, mappings: Vec<RelationshipMapping>) -> RelationshipV1 {
    RelationshipV1 {
        name: RelationshipName(name.to_string()),
        source: CustomTypeName("author".to_string()),
        target: OpenDdTarget::Model(ModelRelationshipTarget {
            name: ModelName("articles".to_string()),
            namespace: None,
            subgraph: None,
            relationship_type: RelationshipType::Array,
        }),
        mapping: mappings,
    }
}

fn models() -> Vec<(Qualified<ModelName>, Model)> {
    vec![(q("app", ModelName("articles".to_string())), articles_model())]
}

#[test]
fn relationship_resolves_with_capabilities() {
    let rel = relationship("articles", vec![mapping(&["id"], &["author_id"])]);
    let r = resolve_relationship(&rel, "app", &models(), &contexts(true, true), &author_type()).unwrap();
    assert_eq!(r.field_name, "articles");
    assert_eq!(r.source, q("app", CustomTypeName("author".to_string())));
    assert_eq!(r.target_typename, q("app", CustomTypeName("article".to_string())));
    assert_eq!(
        r.target,
        RelationshipTarget::Model { model_name: q("app", ModelName("articles".to_string())), relationship_type: RelationshipType::Array }
    );
    assert_eq!(r.mappings.len(), 1);
    assert_eq!(r.mappings[0].source_field.field_name, FieldName("id".to_string()));
    assert_eq!(r.mappings[0].target_field.field_name, FieldName("author_id".to_string()));
    let caps = r.target_capabilities.unwrap();
    assert!(caps.relationships);
}

#[test]
fn relationship_to_unknown_model_fails() {
    let mut rel = relationship("articles", vec![]);
    rel.target = OpenDdTarget::Model(ModelRelationshipTarget {
        name: ModelName("articles".to_string()),
        namespace: None,
        subgraph: Some("other".to_string()),
        relationship_type: RelationshipType::Object,
    });
    match resolve_relationship(&rel, "app", &models(), &contexts(true, false), &author_type()) {
        Err(Error::UnknownTargetModelUsedInRelationship { model_name, .. }) => {
            assert_eq!(model_name, q("other", ModelName("articles".to_string())));
        }
        other => panic!("unexpected: {:?}", other),
    }
}

#[test]
fn relationship_needs_foreach_support() {
    let rel = relationship("articles", vec![mapping(&["id"], &["author_id"])]);
    match resolve_relationship(&rel, "app", &models(), &contexts(false, true), &author_type()) {
        Err(Error::RelationshipTargetDoesNotSupportForEach { data_connector_name, .. }) => {
            assert_eq!(data_connector_name, q("app", DataConnectorName("db".to_string())));
        }
        other => panic!("unexpected: {:?}", other),
    }
}

#[test]
fn relationship_with_unknown_data_connector_fails() {
    let rel = relationship("articles", vec![mapping(&["id"], &["author_id"])]);
    let r = resolve_relationship(&rel, "app", &models(), &vec![], &author_type());
    assert!(matches!(r, Err(Error::UnknownModelDataConnector { .. })));
}

#[test]
fn relationship_mapping_errors_come_in_order() {
    let cases: Vec<(Vec<RelationshipMapping>, &str)> = vec![
        (vec![mapping(&[], &["author_id"])], "EmptyFieldPath"),
        (vec![mapping(&["id", "name"], &["author_id"])], "NotSupported"),
        (vec![mapping(&["id"], &[])], "EmptyFieldPath"),
        (vec![mapping(&["missing"], &["author_id"])], "UnknownSource"),
        (vec![mapping(&["id"], &["missing"])], "UnknownTarget"),
        (vec![mapping(&["id"], &["author_id"]), mapping(&["id"], &["author_id"])], "Duplicate"),
    ];
    for (mappings, expected) in cases {
        let rel = relationship("articles", mappings);
        let err = resolve_relationship(&rel, "app", &models(), &contexts(true, true), &author_type()).unwrap_err();
        let kind = match err {
            Error::EmptyFieldPath { .. } => "EmptyFieldPath",
            Error::NotSupported { .. } => "NotSupported",
            Error::UnknownSourceFieldInRelationshipMapping { .. } => "UnknownSource",
            Error::UnknownTargetFieldInRelationshipMapping { field_name, .. } => {
                assert_eq!(field_name, FieldName("id".to_string()));
                "UnknownTarget"
            }
            Error::MappingExistsInRelationship { .. } => "Duplicate",
            other => panic!("unexpected: {:?}", other),
        };
        assert_eq!(kind, expected);
    }
}

#[test]
fn value_source_mapping_is_not_supported() {
    let m = RelationshipMapping {
        source: RelationshipMappingSource::Value(engine::open_dds::permissions::ValueExpression::Literal(
            engine::json::JsonValue::Null,
        )),
        target: RelationshipMappingTarget::ModelField(path(&["author_id"])),
    };
    let rel = relationship("articles", vec![m]);
    match resolve_relationship(&rel, "app", &models(), &contexts(true, true), &author_type()) {
        Err(Error::NotSupported { reason }) => {
            assert_eq!(reason, "Relationship mappings from value expressions are not supported yet.")
        }
        other => panic!("unexpected: {:?}", other),
    }
}

#[test]
fn relationship_name_must_be_a_graphql_name() {
    let rel = relationship("my-articles", vec![mapping(&["id"], &["author_id"])]);
    match resolve_relationship(&rel, "app", &models(), &contexts(true, true), &author_type()) {
        Err(Error::InvalidGraphQlName { name }) => assert_eq!(name, "my-articles"),
        other => panic!("unexpected: {:?}", other),
    }
}

#[test]
fn graphql_names() {
    assert_eq!(mk_name("_abc1").unwrap(), "_abc1");
    assert!(mk_name("1abc").is_err());
    assert!(mk_name("").is_err());
}
