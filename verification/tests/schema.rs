use engine::schema::types::input_type::get_input_type;
use engine::schema::types::model_filter::build_scalar_comparison_input;
use engine::metadata::resolved::data_connector::{DataConnector, ResolvedDataConnectorUrl};
use engine::metadata::resolved::model::ModelSource;
use engine::open_dds::names::{ArgumentName, DataConnectorName};
use engine::schema::types::model_arguments::build_model_arguments_input_schema;
use engine::metadata::resolved::model::{ComparisonExpressionInfo, Model, ModelFilterExpression, ModelGraphQlApi};
use engine::metadata::resolved::subgraph::{Qualified, QualifiedBaseType, QualifiedTypeName, QualifiedTypeReference};
use engine::metadata::resolved::types::{FieldDefinition, ObjectTypeRepresentation, TypeRepresentation};
use engine::open_dds::names::{FieldName, ModelName, Role};
use engine::open_dds::permissions::TypeOutputPermission;
use engine::open_dds::types::{CustomTypeName, InbuiltType};
use engine::schema::error::Error;
use engine::schema::graphql::{BaseTypeContainer, Builder, GlobalIdFields, Namespaced, OutputAnnotation, RegisteredTypeName, SchemaField, TypeContainer, TypeInfo, Visibility};
use engine::schema::operations::relay::node_interface_schema;
use engine::schema::normalized::{InputAnnotation, ModelFilterArgument};
use engine::schema::types::model_arguments::get_model_arguments_input_field;
use engine::schema::types::model_filter::build_model_filter_expression_input_schema;
use engine::schema::types::output_type::{get_object_type_representation, get_output_type, make_hasura_phantom_field, node_interface_type, object_type_fields, output_type_schema};
use engine::schema::operations::select_many::generate_select_many_arguments;
use engine::metadata::resolved::relationship::{Relationship, RelationshipMapping, RelationshipTarget};
use engine::metadata::resolved::model::{FilterPermission, SelectPermission};
use engine::open_dds::names::RelationshipName;
use engine::open_dds::relationships::{FieldAccess, RelationshipType};
use engine::schema::types::NamespaceAnnotation;
use engine::metadata::resolved::command::{Command, CommandGraphQlApi, CommandSource};
use engine::open_dds::commands::{DataConnectorCommand, GraphQlRootFieldKind};
use engine::open_dds::names::CommandName;
use engine::open_dds::permissions::CommandPermission;
use engine::schema::graphql::RootFieldAnnotation;
use engine::schema::operations::commands::command_field;
use engine::schema::types::mutation_root::mutation_root_schema;
use engine::schema::types::query_root::query_root_schema;
use engine::schema::operations::select_one::select_one_field;
use engine::schema::operations::select_many::select_many_field;
use engine::schema::operations::relay::relay_node_field;
use engine::metadata::resolved::model::{ModelOrderByExpression, SelectManyGraphQlDefinition, SelectUniqueGraphQlDefinition};
use engine::schema::graphql::RootFieldKind;

fn q<T>(name: T) -> Qualified<T> {
    Qualified { subgraph: "app".to_string(), name }
}

fn int_field() -> FieldDefinition {
    FieldDefinition {
        field_type: QualifiedTypeReference { underlying_type: QualifiedBaseType::Named(QualifiedTypeName::Inbuilt(InbuiltType::Int)), nullable: false },
    }
}

fn types() -> Vec<(Qualified<CustomTypeName>, TypeRepresentation)> {
    vec![
        (
            q(CustomTypeName("article".to_string())),
            TypeRepresentation::Object(ObjectTypeRepresentation {
                fields: vec![(FieldName("id".to_string()), int_field())],
                relationships: vec![],
                type_permissions: vec![(Role::new("user"), TypeOutputPermission { allowed_fields: vec![FieldName("id".to_string())] })],
                global_id_fields: vec![],
                graphql_output_type_name: Some("Article".to_string()),
        graphql_input_type_name: Some("ArticleInput".to_string()),
            }),
        ),
        (q(CustomTypeName("uuid".to_string())), TypeRepresentation::ScalarType { graphql_type_name: Some("Uuid".to_string()) }),
        (q(CustomTypeName("blob".to_string())), TypeRepresentation::ScalarType { graphql_type_name: None }),
    ]
}

fn named(n: &str, nullable: bool) -> TypeContainer {
    TypeContainer { base: BaseTypeContainer::Named(RegisteredTypeName(n.to_string())), nullable }
}

#[test]
fn output_types_follow_type_references() {
    let mut builder = Builder::new();
    let t = QualifiedTypeReference {
        underlying_type: QualifiedBaseType::List(Box::new(QualifiedTypeReference {
            underlying_type: QualifiedBaseType::Named(QualifiedTypeName::Custom(q(CustomTypeName("article".to_string())))),
            nullable: false,
        })),
        nullable: true,
    };
    let out = get_output_type(&types(), &mut builder, &t).unwrap();
    assert_eq!(out, TypeContainer { base: BaseTypeContainer::List(Box::new(named("Article", false))), nullable: true });
    let scalar = QualifiedTypeReference {
        underlying_type: QualifiedBaseType::Named(QualifiedTypeName::Custom(q(CustomTypeName("uuid".to_string())))),
        nullable: true,
    };
    assert_eq!(get_output_type(&types(), &mut builder, &scalar).unwrap(), named("Uuid", true));
    let int = QualifiedTypeReference { underlying_type: QualifiedBaseType::Named(QualifiedTypeName::Inbuilt(InbuiltType::ID)), nullable: false };
    assert_eq!(get_output_type(&types(), &mut builder, &int).unwrap(), named("ID", false));
}

#[test]
fn output_type_errors() {
    let mut builder = Builder::new();
    let missing = QualifiedTypeReference {
        underlying_type: QualifiedBaseType::Named(QualifiedTypeName::Custom(q(CustomTypeName("nope".to_string())))),
        nullable: true,
    };
    assert!(matches!(get_output_type(&types(), &mut builder, &missing), Err(Error::InternalTypeNotFound { .. })));
    let unnamed = QualifiedTypeReference {
        underlying_type: QualifiedBaseType::Named(QualifiedTypeName::Custom(q(CustomTypeName("blob".to_string())))),
        nullable: true,
    };
    assert!(matches!(get_output_type(&types(), &mut builder, &unnamed), Err(Error::NoGraphQlTypeNameForScalar { .. })));
    assert!(matches!(
        get_object_type_representation(&types(), &q(CustomTypeName("uuid".to_string()))),
        Err(Error::ExpectedTypeToBeObject { .. })
    ));
}

#[test]
fn node_interface_is_named_node() {
    let mut builder = Builder::new();
    assert_eq!(node_interface_type(&mut builder), RegisteredTypeName("Node".to_string()));
    assert_eq!(make_hasura_phantom_field("id"), "__hasura_phantom_field__id");
}

fn model(filter: Option<ModelFilterExpression>, args: Option<String>) -> Model {
    Model {
        name: q(ModelName("articles".to_string())),
        data_type: q(CustomTypeName("article".to_string())),
        type_fields: vec![],
        global_id_fields: vec![],
        global_id_source: false,
        arguments: vec![],
        graphql_api: ModelGraphQlApi { select_uniques: vec![], select_many: None, arguments_input_type: args, filter_expression: filter, order_by_expression: None },
        source: None,
        select_permissions: None,
    }
}

fn filter_expression(operator: &str) -> ModelFilterExpression {
    ModelFilterExpression {
        where_type_name: "ArticleBoolExp".to_string(),
        scalar_fields: vec![(
            FieldName("id".to_string()),
            ComparisonExpressionInfo {
                scalar_type_name: "int4".to_string(),
                graphql_type_name: "Int4ComparisonExp".to_string(),
                ndc_column: "id".to_string(),
                operators: vec![(operator.to_string(), int_field().field_type)],
            },
        )],
    }
}

#[test]
fn boolean_expression_type_has_logical_and_column_fields() {
    let mut builder = Builder::new();
    let models = vec![(q(ModelName("articles".to_string())), model(Some(filter_expression("_gt")), None))];
    let TypeInfo::InputObject(o) = build_model_filter_expression_input_schema(
        &types(),
        &models,
        &mut builder,
        &"ArticleBoolExp".to_string(),
        &q(ModelName("articles".to_string())),
    )
    .unwrap() else { panic!("expected an input object type") };
    assert_eq!(o.name, "ArticleBoolExp");
    let names: Vec<&str> = o.fields.iter().map(|(n, _)| n.as_str()).collect();
    assert_eq!(names, vec!["_not", "_and", "_or", "id"]);
    let id = &o.fields[3].1;
    assert_eq!(id.data.field_type, named("Int4ComparisonExp", true));
    assert_eq!(id.data.info, InputAnnotation::ModelFilterArgument(ModelFilterArgument::Field { ndc_column: "id".to_string() }));
    match &id.visibility {
        Visibility::Conditional(roles) => {
            assert_eq!(roles.len(), 1);
            assert_eq!(roles[0].0, Role::new("user"));
        }
        other => panic!("unexpected: {:?}", other),
    }
    assert_eq!(o.fields[1].1.data.field_type, TypeContainer { base: BaseTypeContainer::List(Box::new(named("ArticleBoolExp", false))), nullable: true });
}

#[test]
fn boolean_expression_type_rejects_bad_operator_names() {
    let mut builder = Builder::new();
    let models = vec![(q(ModelName("articles".to_string())), model(Some(filter_expression("greater-than")), None))];
    match build_model_filter_expression_input_schema(&types(), &models, &mut builder, &"T".to_string(), &q(ModelName("articles".to_string()))) {
        Err(Error::InvalidGraphQlName { name }) => assert_eq!(name, "greater-than"),
        other => panic!("unexpected: {:?}", other),
    }
    assert!(matches!(
        build_model_filter_expression_input_schema(&types(), &models, &mut builder, &"T".to_string(), &q(ModelName("x".to_string()))),
        Err(Error::InternalModelNotFound { .. })
    ));
}

#[test]
fn model_arguments_field_needs_an_input_type() {
    let mut builder = Builder::new();
    let f = get_model_arguments_input_field(&mut builder, &model(None, Some("ArticleArgs".to_string()))).unwrap();
    assert_eq!(f.name, "args");
    assert_eq!(f.field_type, named("ArticleArgs", false));
    assert!(matches!(
        get_model_arguments_input_field(&mut builder, &model(None, None)),
        Err(Error::NoArgumentsInputTypeForSelectMany { .. })
    ));
}

#[test]
fn input_types_follow_type_references() {
    let mut builder = Builder::new();
    let t = QualifiedTypeReference {
        underlying_type: QualifiedBaseType::List(Box::new(QualifiedTypeReference {
            underlying_type: QualifiedBaseType::Named(QualifiedTypeName::Custom(q(CustomTypeName("article".to_string())))),
            nullable: true,
        })),
        nullable: false,
    };
    let out = get_input_type(&types(), &mut builder, &t).unwrap();
    assert_eq!(out, TypeContainer { base: BaseTypeContainer::List(Box::new(named("ArticleInput", true))), nullable: false });
    let unnamed = QualifiedTypeReference {
        underlying_type: QualifiedBaseType::Named(QualifiedTypeName::Custom(q(CustomTypeName("blob".to_string())))),
        nullable: true,
    };
    assert!(matches!(get_input_type(&types(), &mut builder, &unnamed), Err(Error::NoGraphQlTypeNameForScalar { .. })));
}

#[test]
fn scalar_comparison_input_has_nullable_operators() {
    let mut builder = Builder::new();
    let ops = vec![("_eq".to_string(), int_field().field_type), ("_in".to_string(), QualifiedTypeReference {
        underlying_type: QualifiedBaseType::List(Box::new(int_field().field_type)),
        nullable: false,
    })];
    let TypeInfo::InputObject(o) =
        build_scalar_comparison_input(&types(), &mut builder, &"IntComparisonExp".to_string(), &ops).unwrap() else { panic!("expected an input object type") };
    assert_eq!(o.name, "IntComparisonExp");
    assert_eq!(o.fields.len(), 2);
    assert_eq!(o.fields[0].0, "_eq");
    assert_eq!(o.fields[0].1.data.field_type, named("Int", true));
    assert_eq!(o.fields[0].1.data.info, InputAnnotation::ModelFilterScalarExpression);
    assert_eq!(
        o.fields[1].1.data.field_type,
        TypeContainer { base: BaseTypeContainer::List(Box::new(named("Int", false))), nullable: true }
    );
    assert_eq!(o.fields[1].1.visibility, Visibility::AllowAll(None));
}

#[test]
fn model_arguments_input_schema_maps_arguments() {
    let mut m = model(None, Some("ArticleArgs".to_string()));
    m.arguments = vec![
        (ArgumentName("author_id".to_string()), int_field().field_type),
        (ArgumentName("limit".to_string()), int_field().field_type),
    ];
    m.source = Some(ModelSource {
        data_connector: DataConnector {
            name: q(DataConnectorName("db".to_string())),
            url: ResolvedDataConnectorUrl::SingleUrl("http://db".to_string()),
            headers: vec![],
        },
        collection: "articles".to_string(),
        type_mappings: vec![],
        argument_mappings: vec![(ArgumentName("author_id".to_string()), "author".to_string())],
    });
    let models = vec![(q(ModelName("articles".to_string())), m)];
    let mut builder = Builder::new();
    let TypeInfo::InputObject(o) = build_model_arguments_input_schema(
        &types(),
        &models,
        &mut builder,
        &"ArticleArgs".to_string(),
        &q(ModelName("articles".to_string())),
    )
    .unwrap() else { panic!("expected an input object type") };
    assert_eq!(o.name, "ArticleArgs");
    let names: Vec<&str> = o.fields.iter().map(|(n, _)| n.as_str()).collect();
    assert_eq!(names, vec!["author_id", "limit"]);
    match &o.fields[0].1.data.info {
        InputAnnotation::ModelArgument { ndc_table_argument, .. } => assert_eq!(ndc_table_argument.as_deref(), Some("author")),
        other => panic!("unexpected: {:?}", other),
    }
    match &o.fields[1].1.data.info {
        InputAnnotation::ModelArgument { ndc_table_argument, .. } => assert_eq!(ndc_table_argument, &None),
        other => panic!("unexpected: {:?}", other),
    }
    assert_eq!(o.fields[0].1.data.field_type, named("Int", false));
    assert!(matches!(
        build_model_arguments_input_schema(&types(), &models, &mut builder, &"X".to_string(), &q(ModelName("y".to_string()))),
        Err(Error::InternalModelNotFound { .. })
    ));
}

fn node_types() -> Vec<(Qualified<CustomTypeName>, TypeRepresentation)> {
    vec![
        (
            q(CustomTypeName("article".to_string())),
            TypeRepresentation::Object(ObjectTypeRepresentation {
                fields: vec![(FieldName("id".to_string()), int_field())],
                relationships: vec![],
                type_permissions: vec![
                    (Role::new("user"), TypeOutputPermission { allowed_fields: vec![FieldName("id".to_string())] }),
                    (Role::new("guest"), TypeOutputPermission { allowed_fields: vec![] }),
                ],
                global_id_fields: vec![FieldName("id".to_string())],
                graphql_output_type_name: Some("Article".to_string()),
                graphql_input_type_name: None,
            }),
        ),
        (q(CustomTypeName("uuid".to_string())), TypeRepresentation::ScalarType { graphql_type_name: Some("Uuid".to_string()) }),
    ]
}

fn source_model(data_type: &str) -> (Qualified<ModelName>, Model) {
    let mut m = model(None, None);
    m.data_type = q(CustomTypeName(data_type.to_string()));
    m.global_id_source = true;
    m.global_id_fields = vec![FieldName("id".to_string())];
    (q(ModelName("articles".to_string())), m)
}

#[test]
fn node_interface_lists_global_id_sources() {
    let mut builder = Builder::new();
    let plain = (q(ModelName("authors".to_string())), model(None, None));
    let models = vec![plain, source_model("article")];
    let iface = node_interface_schema(&mut builder, &node_types(), &models).unwrap();
    let user_only = vec![(Role::new("user"), None)];
    assert_eq!(iface.name, "Node");
    assert_eq!(
        iface.fields,
        vec![(
            "id".to_string(),
            Namespaced {
                data: SchemaField {
                    name: "id".to_string(),
                    info: OutputAnnotation::RelayNodeInterfaceID {
                        typename_mappings: vec![("Article".to_string(), GlobalIdFields(vec![FieldName("id".to_string())]))],
                    },
                    field_type: named("ID", false),
                    arguments: vec![],
                },
                visibility: Visibility::Conditional(vec![(Role::new("user"), None)]),
            },
        )]
    );
    assert_eq!(
        iface.implemented_by,
        vec![("Article".to_string(), Namespaced { data: (), visibility: Visibility::Conditional(user_only) })]
    );
}

#[test]
fn node_interface_without_sources_has_no_roles() {
    let mut builder = Builder::new();
    let models = vec![(q(ModelName("authors".to_string())), model(None, None))];
    let iface = node_interface_schema(&mut builder, &node_types(), &models).unwrap();
    assert!(iface.implemented_by.is_empty());
    assert_eq!(iface.fields[0].1.visibility, Visibility::Conditional(vec![]));
}

#[test]
fn node_interface_rejects_scalar_and_unknown_sources() {
    let mut builder = Builder::new();
    let scalar = node_interface_schema(&mut builder, &node_types(), &vec![source_model("uuid")]);
    assert!(matches!(scalar, Err(Error::ExpectedTypeToBeObject { typename }) if typename == q(CustomTypeName("uuid".to_string()))));
    let missing = node_interface_schema(&mut builder, &node_types(), &vec![source_model("nothing")]);
    assert!(matches!(missing, Err(Error::InternalTypeNotFound { typename }) if typename == q(CustomTypeName("nothing".to_string()))));
}

fn article_with_author() -> Vec<(Qualified<CustomTypeName>, TypeRepresentation)> {
    let author_rel = Relationship {
        name: RelationshipName("author".to_string()),
        field_name: "author".to_string(),
        source: q(CustomTypeName("article".to_string())),
        target: RelationshipTarget::Model { model_name: q(ModelName("authors".to_string())), relationship_type: RelationshipType::Object },
        target_typename: q(CustomTypeName("author".to_string())),
        mappings: vec![RelationshipMapping {
            source_field: FieldAccess { field_name: FieldName("id".to_string()) },
            target_field: FieldAccess { field_name: FieldName("id".to_string()) },
        }],
        target_capabilities: None,
    };
    let user_reads_id = || vec![(Role::new("user"), TypeOutputPermission { allowed_fields: vec![FieldName("id".to_string())] })];
    vec![
        (
            q(CustomTypeName("article".to_string())),
            TypeRepresentation::Object(ObjectTypeRepresentation {
                fields: vec![(FieldName("id".to_string()), int_field())],
                relationships: vec![("author".to_string(), author_rel)],
                type_permissions: user_reads_id(),
                global_id_fields: vec![FieldName("id".to_string())],
                graphql_output_type_name: Some("Article".to_string()),
                graphql_input_type_name: None,
            }),
        ),
        (
            q(CustomTypeName("author".to_string())),
            TypeRepresentation::Object(ObjectTypeRepresentation {
                fields: vec![(FieldName("id".to_string()), int_field())],
                relationships: vec![],
                type_permissions: user_reads_id(),
                global_id_fields: vec![],
                graphql_output_type_name: Some("Author".to_string()),
                graphql_input_type_name: None,
            }),
        ),
        (
            q(CustomTypeName("post".to_string())),
            TypeRepresentation::Object(ObjectTypeRepresentation {
                fields: vec![(FieldName("code".to_string()), int_field())],
                relationships: vec![],
                type_permissions: vec![(Role::new("user"), TypeOutputPermission { allowed_fields: vec![FieldName("code".to_string())] })],
                global_id_fields: vec![FieldName("code".to_string())],
                graphql_output_type_name: Some("Post".to_string()),
                graphql_input_type_name: None,
            }),
        ),
        (q(CustomTypeName("uuid".to_string())), TypeRepresentation::ScalarType { graphql_type_name: Some("Uuid".to_string()) }),
    ]
}

fn authors_model() -> (Qualified<ModelName>, Model) {
    let mut m = model(None, None);
    m.name = q(ModelName("authors".to_string()));
    m.data_type = q(CustomTypeName("author".to_string()));
    m.select_permissions = Some(vec![(Role::new("user"), SelectPermission { filter: FilterPermission::AllowAll })]);
    (q(ModelName("authors".to_string())), m)
}

fn id_field(info: OutputAnnotation, nullable: bool, base_name: &str) -> SchemaField {
    SchemaField { name: "id".to_string(), info, field_type: named(base_name, nullable), arguments: vec![] }
}

#[test]
fn object_type_fields_cover_fields_and_relationships() {
    let mut builder = Builder::new();
    let types = article_with_author();
    let article = get_object_type_representation(&types, &q(CustomTypeName("article".to_string()))).unwrap();
    let fields = object_type_fields(&types, &vec![authors_model()], &mut builder, article).unwrap();
    assert_eq!(fields.len(), 2);
    assert_eq!(fields[0].0, "id");
    assert_eq!(
        fields[0].1,
        Namespaced {
            data: id_field(OutputAnnotation::Field { name: FieldName("id".to_string()) }, false, "Int"),
            visibility: Visibility::Conditional(vec![(Role::new("user"), None)]),
        }
    );
    assert_eq!(fields[1].0, "author");
    let author = &fields[1].1;
    assert_eq!(author.data.name, "author");
    assert_eq!(author.data.field_type, named("Author", true));
    assert!(author.data.arguments.is_empty());
    match &author.data.info {
        OutputAnnotation::RelationshipToModel(a) => {
            assert_eq!(a.model_name, q(ModelName("authors".to_string())));
            assert_eq!(a.target_type, q(CustomTypeName("author".to_string())));
            assert_eq!(a.relationship_type, RelationshipType::Object);
            assert_eq!(a.mappings.len(), 1);
        }
        other => panic!("unexpected annotation {:?}", other),
    }
    assert_eq!(
        author.visibility,
        Visibility::Conditional(vec![(Role::new("user"), Some(NamespaceAnnotation::Filter(FilterPermission::AllowAll)))])
    );
}

#[test]
fn object_type_fields_need_the_target_model() {
    let mut builder = Builder::new();
    let types = article_with_author();
    let article = get_object_type_representation(&types, &q(CustomTypeName("article".to_string()))).unwrap();
    let r = object_type_fields(&types, &vec![], &mut builder, article);
    assert!(matches!(r, Err(Error::InternalModelNotFound { model_name }) if model_name == q(ModelName("authors".to_string()))));
}

#[test]
fn output_type_schema_adds_global_id_and_node_interface() {
    let mut builder = Builder::new();
    let types = article_with_author();
    let info = output_type_schema(&types, &vec![], &mut builder, &q(CustomTypeName("post".to_string())), &"Post".to_string()).unwrap();
    let TypeInfo::Object(o) = info else { panic!("expected an object type") };
    assert_eq!(o.name, "Post");
    assert_eq!(o.fields.len(), 2);
    assert_eq!(o.fields[0].0, "code");
    assert_eq!(o.fields[1].0, "id");
    assert_eq!(
        o.fields[1].1,
        Namespaced {
            data: id_field(OutputAnnotation::GlobalIDField { global_id_fields: GlobalIdFields(vec![FieldName("code".to_string())]) }, false, "ID"),
            visibility: Visibility::Conditional(vec![(Role::new("user"), None)]),
        }
    );
    assert_eq!(
        o.interfaces,
        vec![("Node".to_string(), Namespaced { data: (), visibility: Visibility::Conditional(vec![(Role::new("user"), None)]) })]
    );
}

#[test]
fn output_type_schema_rejects_a_field_named_id_beside_a_global_id() {
    let mut builder = Builder::new();
    let types = article_with_author();
    let r = output_type_schema(&types, &vec![authors_model()], &mut builder, &q(CustomTypeName("article".to_string())), &"Article".to_string());
    assert!(matches!(r, Err(Error::DuplicateFieldNameGeneratedInObjectType { field_name, typename })
        if field_name == "id" && typename == q(CustomTypeName("article".to_string()))));
}

#[test]
fn output_type_schema_without_global_id_has_no_interface() {
    let mut builder = Builder::new();
    let types = article_with_author();
    let info = output_type_schema(&types, &vec![], &mut builder, &q(CustomTypeName("author".to_string())), &"Author".to_string()).unwrap();
    let TypeInfo::Object(o) = info else { panic!("expected an object type") };
    assert_eq!(o.fields.len(), 1);
    assert!(o.interfaces.is_empty());
}

#[test]
fn output_type_schema_errors() {
    let mut builder = Builder::new();
    let types = article_with_author();
    let scalar = output_type_schema(&types, &vec![], &mut builder, &q(CustomTypeName("uuid".to_string())), &"Uuid".to_string());
    assert!(matches!(scalar, Err(Error::InternalUnsupported { summary }) if summary == "a scalar type uuid (in subgraph app) mapping to non-scalar GraphQL types"));
    let missing = output_type_schema(&types, &vec![], &mut builder, &q(CustomTypeName("nothing".to_string())), &"Nothing".to_string());
    assert!(matches!(missing, Err(Error::InternalTypeNotFound { .. })));
}

#[test]
fn select_many_arguments_are_limit_offset_and_where() {
    let mut builder = Builder::new();
    let plain = generate_select_many_arguments(&mut builder, &model(None, None)).unwrap();
    let names: Vec<&str> = plain.iter().map(|(n, _)| n.as_str()).collect();
    assert_eq!(names, vec!["limit", "offset"]);
    assert_eq!(plain[0].1.data.info, InputAnnotation::ModelLimitArgument);
    assert_eq!(plain[1].1.data.field_type, named("Int", true));
    let filtered = generate_select_many_arguments(&mut builder, &model(Some(filter_expression("_eq")), None)).unwrap();
    assert_eq!(filtered[2].0, "where");
    assert_eq!(filtered[2].1.data.field_type, named("ArticleBoolExp", true));
    assert_eq!(filtered[2].1.visibility, Visibility::AllowAll(None));
}

fn command(name: &str, kind: GraphQlRootFieldKind, argument: &str) -> (Qualified<CommandName>, Command) {
    let c = Command {
        name: q(CommandName(name.to_string())),
        output_type: QualifiedTypeReference {
            underlying_type: QualifiedBaseType::Named(QualifiedTypeName::Custom(q(CustomTypeName("article".to_string())))),
            nullable: true,
        },
        arguments: vec![(ArgumentName(argument.to_string()), int_field().field_type)],
        graphql_api: Some(CommandGraphQlApi { root_field_name: name.to_string(), root_field_kind: kind }),
        source: Some(CommandSource {
            data_connector: DataConnector {
                name: q(DataConnectorName("db".to_string())),
                url: ResolvedDataConnectorUrl::SingleUrl("http://db".to_string()),
                headers: vec![],
            },
            source: DataConnectorCommand::Procedure(name.to_string()),
            type_mappings: vec![],
            argument_mappings: vec![(ArgumentName(argument.to_string()), format!("{}_arg", argument))],
        }),
        underlying_object_typename: Some(q(CustomTypeName("article".to_string()))),
        permissions: Some(vec![(Role::new("admin"), CommandPermission { role: Role::new("admin"), allow_execution: true })]),
    };
    (q(CommandName(name.to_string())), c)
}

#[test]
fn command_field_maps_arguments_and_roles() {
    let mut builder = Builder::new();
    let (_, c) = command("publish", GraphQlRootFieldKind::Mutation, "id");
    let (name, field) = command_field(&types(), &mut builder, &c, "publish".to_string()).unwrap();
    assert_eq!(name, "publish");
    assert_eq!(field.data.field_type, named("Article", true));
    assert_eq!(field.data.arguments.len(), 1);
    assert_eq!(field.data.arguments[0].0, "id");
    assert_eq!(
        field.data.arguments[0].1.data.info,
        InputAnnotation::CommandArgument { argument_type: int_field().field_type, ndc_func_proc_argument: Some("id_arg".to_string()) }
    );
    assert_eq!(field.data.arguments[0].1.visibility, Visibility::AllowAll(None));
    assert_eq!(field.visibility, Visibility::Conditional(vec![(Role::new("admin"), None)]));
    assert!(matches!(field.data.info, OutputAnnotation::RootField(RootFieldAnnotation::Command { .. })));
}

#[test]
fn command_field_rejects_bad_argument_names() {
    let mut builder = Builder::new();
    let (_, c) = command("publish", GraphQlRootFieldKind::Mutation, "not a name");
    let r = command_field(&types(), &mut builder, &c, "publish".to_string());
    assert!(matches!(r, Err(Error::InvalidGraphQlName { name }) if name == "not a name"));
}

#[test]
fn mutation_root_has_the_mutation_commands() {
    let mut builder = Builder::new();
    let commands = vec![
        command("publish", GraphQlRootFieldKind::Mutation, "id"),
        command("lookup", GraphQlRootFieldKind::Query, "id"),
    ];
    let o = mutation_root_schema(&mut builder, &types(), &commands).unwrap();
    assert_eq!(o.name, "Mutation");
    let names: Vec<&str> = o.fields.iter().map(|(n, _)| n.as_str()).collect();
    assert_eq!(names, vec!["publish"]);
    assert!(o.interfaces.is_empty());
}

fn posts_model() -> (Qualified<ModelName>, Model) {
    let mut m = model(None, None);
    m.name = q(ModelName("posts".to_string()));
    m.data_type = q(CustomTypeName("post".to_string()));
    m.global_id_source = true;
    m.global_id_fields = vec![FieldName("code".to_string())];
    m.select_permissions = Some(vec![(Role::new("user"), SelectPermission { filter: FilterPermission::AllowAll })]);
    m.graphql_api.select_uniques = vec![SelectUniqueGraphQlDefinition {
        query_root_field: "PostByCode".to_string(),
        unique_identifier: vec![(FieldName("code".to_string()), int_field())],
    }];
    m.graphql_api.select_many = Some(SelectManyGraphQlDefinition { query_root_field: "Posts".to_string() });
    (q(ModelName("posts".to_string())), m)
}

#[test]
fn select_one_field_takes_the_unique_identifier() {
    let mut builder = Builder::new();
    let (_, m) = posts_model();
    let (name, field) = select_one_field(&article_with_author(), &mut builder, &m, &m.graphql_api.select_uniques[0], &"Query".to_string()).unwrap();
    assert_eq!(name, "PostByCode");
    assert_eq!(field.data.field_type, named("Post", true));
    assert_eq!(field.data.arguments.len(), 1);
    assert_eq!(field.data.arguments[0].0, "code");
    assert_eq!(field.data.arguments[0].1.data.info, InputAnnotation::ModelUniqueIdentifierArgument { field_name: FieldName("code".to_string()) });
    assert_eq!(field.visibility, Visibility::Conditional(vec![(Role::new("user"), Some(NamespaceAnnotation::Filter(FilterPermission::AllowAll)))]));
    assert!(matches!(field.data.info, OutputAnnotation::RootField(RootFieldAnnotation::Model { kind: RootFieldKind::SelectOne, .. })));
}

#[test]
fn select_many_field_is_a_list_with_paging_arguments() {
    let mut builder = Builder::new();
    let (_, m) = posts_model();
    let sm = SelectManyGraphQlDefinition { query_root_field: "Posts".to_string() };
    let (name, field) = select_many_field(&article_with_author(), &mut builder, &m, &sm, &"Query".to_string()).unwrap();
    assert_eq!(name, "Posts");
    assert_eq!(
        field.data.field_type,
        TypeContainer { base: BaseTypeContainer::List(Box::new(named("Post", false))), nullable: true }
    );
    let names: Vec<&str> = field.data.arguments.iter().map(|(n, _)| n.as_str()).collect();
    assert_eq!(names, vec!["limit", "offset"]);
}

#[test]
fn select_many_field_needs_an_arguments_type_for_arguments() {
    let mut builder = Builder::new();
    let (_, mut m) = posts_model();
    m.arguments = vec![(ArgumentName("since".to_string()), int_field().field_type)];
    let sm = SelectManyGraphQlDefinition { query_root_field: "Posts".to_string() };
    let r = select_many_field(&article_with_author(), &mut builder, &m, &sm, &"Query".to_string());
    assert!(matches!(r, Err(Error::NoArgumentsInputTypeForSelectMany { model_name }) if model_name == q(ModelName("posts".to_string()))));
}

#[test]
fn node_field_knows_each_global_id_source() {
    let mut builder = Builder::new();
    let (field, roles) = relay_node_field(&article_with_author(), &vec![posts_model()], &mut builder).unwrap();
    assert_eq!(field.name, "node");
    assert_eq!(field.field_type, named("Node", true));
    assert_eq!(field.arguments[0].0, "id");
    assert_eq!(field.arguments[0].1.data.field_type, named("ID", false));
    assert_eq!(roles, vec![(Role::new("user"), None)]);
    match &field.info {
        OutputAnnotation::RootField(RootFieldAnnotation::RelayNode { typename_mappings }) => {
            assert_eq!(typename_mappings.len(), 1);
            assert_eq!(typename_mappings[0].0, "Post");
            assert_eq!(typename_mappings[0].1.typename, q(CustomTypeName("post".to_string())));
        }
        other => panic!("unexpected annotation {:?}", other),
    }
}

#[test]
fn node_field_rejects_two_sources_of_one_type() {
    let mut builder = Builder::new();
    let r = relay_node_field(&article_with_author(), &vec![posts_model(), posts_model()], &mut builder);
    assert!(matches!(r, Err(Error::InternalErrorDuplicateGlobalIdSourceFound { typename }) if typename == "Post"));
}

#[test]
fn query_root_has_model_command_and_node_fields() {
    let mut builder = Builder::new();
    let commands = vec![command("lookup", GraphQlRootFieldKind::Query, "id"), command("publish", GraphQlRootFieldKind::Mutation, "id")];
    let o = query_root_schema(&mut builder, &article_with_author(), &vec![posts_model()], &commands).unwrap();
    assert_eq!(o.name, "Query");
    let names: Vec<&str> = o.fields.iter().map(|(n, _)| n.as_str()).collect();
    assert_eq!(names, vec!["PostByCode", "Posts", "lookup", "node"]);
    assert_eq!(o.fields[3].1.visibility, Visibility::Conditional(vec![(Role::new("user"), None)]));
}

#[test]
fn query_root_rejects_a_root_field_named_node() {
    let mut builder = Builder::new();
    let commands = vec![command("node", GraphQlRootFieldKind::Query, "id")];
    let r = query_root_schema(&mut builder, &article_with_author(), &vec![], &commands);
    assert!(matches!(r, Err(Error::DuplicateFieldNameGeneratedInObjectType { field_name, typename })
        if field_name == "node" && typename == Qualified { subgraph: "-".to_string(), name: CustomTypeName("Query".to_string()) }));
}

#[test]
fn select_many_arguments_include_order_by_when_the_model_has_one() {
    let mut builder = Builder::new();
    let mut m = model(Some(filter_expression("_eq")), None);
    m.graphql_api.order_by_expression = Some(ModelOrderByExpression { order_by_type_name: "ArticleOrderBy".to_string() });
    let args = generate_select_many_arguments(&mut builder, &m).unwrap();
    let names: Vec<&str> = args.iter().map(|(n, _)| n.as_str()).collect();
    assert_eq!(names, vec!["limit", "offset", "order_by", "where"]);
    assert_eq!(args[2].1.data.info, InputAnnotation::ModelOrderByExpression);
    assert_eq!(
        args[2].1.data.field_type,
        TypeContainer { base: BaseTypeContainer::List(Box::new(named("ArticleOrderBy", false))), nullable: true }
    );
    assert_eq!(args[2].1.visibility, Visibility::AllowAll(None));
}
