use engine::metadata::resolved::data_connector::{DataConnector, ResolvedDataConnectorUrl};
use engine::metadata::resolved::model::{FilterPermission, ModelSource, SelectPermission};
use engine::metadata::resolved::subgraph::{Qualified, QualifiedBaseType, QualifiedTypeName, QualifiedTypeReference};
use engine::metadata::resolved::types::{FieldMapping, TypeMapping};
use engine::open_dds::names::{DataConnectorName, FieldName, ModelName, Role};
use engine::open_dds::ndc_client::models::{Argument, BinaryComparisonOperator, ComparisonTarget, ComparisonValue, Expression};
use engine::open_dds::types::{CustomTypeName, InbuiltType};
use engine::schema::graphql::{BaseTypeContainer, OutputAnnotation, RegisteredTypeName, RootFieldAnnotation, RootFieldKind, TypeContainer};
use engine::schema::normalized::{
    Annotation, FieldCall, InputAnnotation, InputField, InputValue, ModelFilterArgument, NormalizedField,
    NormalizedSelectionSet,
};
use engine::schema::operations::error::{Error, InternalDeveloperError, InternalEngineError, InternalError};
use engine::schema::operations::relay::{decode_global_id, TypenameMapping};
use engine::schema::operations::select_many::select_many_generate_ir;
use engine::schema::types::query_root::generate_root_field_ir;
use engine::schema::types::root_field::{MutationRootField, QueryRootField, RootField};
use engine::schema::types::{mutation_root, query_root};
use engine::metadata::resolved::command::CommandSource;
use engine::open_dds::commands::DataConnectorCommand;
use engine::open_dds::names::CommandName;
use engine::schema::types::NamespaceAnnotation;

fn input(name: &str, info: InputAnnotation, value: InputValue) -> InputField {
    InputField { name: name.to_string(), info, value }
}

fn source() -> ModelSource {
    ModelSource {
        data_connector: DataConnector {
            name: Qualified { subgraph: "app".to_string(), name: DataConnectorName("db".to_string()) },
            url: ResolvedDataConnectorUrl::SingleUrl("http://db".to_string()),
            headers: vec![],
        },
        collection: "article".to_string(),
        type_mappings: vec![(
            Qualified { subgraph: "app".to_string(), name: CustomTypeName("article".to_string()) },
            TypeMapping::Object { field_mappings: vec![(FieldName("id".to_string()), FieldMapping { column: "article_id".to_string() })] },
        )],
        argument_mappings: vec![],
    }
}

fn model_name() -> Qualified<ModelName> {
    Qualified { subgraph: "app".to_string(), name: ModelName("articles".to_string()) }
}

fn article() -> Qualified<CustomTypeName> {
    Qualified { subgraph: "app".to_string(), name: CustomTypeName("article".to_string()) }
}

fn allow_all() -> Option<NamespaceAnnotation> {
    Some(NamespaceAnnotation::Filter(FilterPermission::AllowAll))
}

fn many_call(arguments: Vec<InputField>, namespaced: Option<NamespaceAnnotation>) -> FieldCall {
    FieldCall { name: "articles".to_string(), arguments, namespaced }
}

fn where_id_equals(value: i64) -> InputField {
    input(
        "where",
        InputAnnotation::ModelFilterExpression,
        InputValue::Object(vec![input(
            "id",
            InputAnnotation::ModelFilterArgument(ModelFilterArgument::Field { ndc_column: "article_id".to_string() }),
            InputValue::Object(vec![input("_eq", InputAnnotation::ModelFilterScalarExpression, InputValue::Integer(value))]),
        )]),
    )
}

fn model_argument(name: &str, target: &str, value: i64) -> InputField {
    input(
        name,
        InputAnnotation::ModelArgument {
            argument_type: QualifiedTypeReference {
                underlying_type: QualifiedBaseType::Named(QualifiedTypeName::Inbuilt(InbuiltType::Int)),
                nullable: false,
            },
            ndc_table_argument: Some(target.to_string()),
        },
        InputValue::Integer(value),
    )
}

#[test]
fn select_many_reads_limit_offset_where_arguments_and_order_by() {
    let order = input("order_by", InputAnnotation::ModelOrderByExpression, InputValue::List(vec![]));
    let call = many_call(
        vec![
            input("limit", InputAnnotation::ModelLimitArgument, InputValue::Integer(10)),
            input("offset", InputAnnotation::ModelOffsetArgument, InputValue::Integer(5)),
            where_id_equals(3),
            input("args", InputAnnotation::ModelArgumentsExpression, InputValue::Object(vec![model_argument("a", "x", 1)])),
            order,
        ],
        allow_all(),
    );
    let ir = select_many_generate_ir(&call, &source(), &model_name()).unwrap();
    assert_eq!(ir.field_name, "articles");
    assert_eq!(ir.limit, Some(10));
    assert_eq!(ir.offset, Some(5));
    assert_eq!(
        ir.filter_clause,
        vec![Expression::BinaryComparisonOperator {
            column: ComparisonTarget::Column { name: "article_id".to_string(), path: vec![] },
            operator: BinaryComparisonOperator::Equal,
            value: ComparisonValue::Scalar { value: InputValue::Integer(3).as_json() },
        }]
    );
    assert_eq!(ir.arguments, vec![("x".to_string(), Argument::Literal { value: InputValue::Integer(1).as_json() })]);
    assert_eq!(ir.order_by.map(|a| a.name.clone()), Some("order_by".to_string()));
    assert_eq!(ir.permission_filter, FilterPermission::AllowAll);
    assert_eq!(ir.usage_counts.models_used, vec![(model_name(), 1)]);
    assert!(ir.usage_counts.commands_used.is_empty());
}

#[test]
fn select_many_without_arguments_has_no_limit_or_offset() {
    let call = many_call(vec![], allow_all());
    let ir = select_many_generate_ir(&call, &source(), &model_name()).unwrap();
    assert_eq!(ir.limit, None);
    assert_eq!(ir.offset, None);
    assert!(ir.filter_clause.is_empty());
    assert!(ir.arguments.is_empty());
    assert!(ir.order_by.is_none());
}

#[test]
fn select_many_later_limit_replaces_earlier() {
    let call = many_call(
        vec![
            input("limit", InputAnnotation::ModelLimitArgument, InputValue::Integer(10)),
            input("limit", InputAnnotation::ModelLimitArgument, InputValue::Integer(2)),
        ],
        allow_all(),
    );
    assert_eq!(select_many_generate_ir(&call, &source(), &model_name()).unwrap().limit, Some(2));
}

#[test]
fn select_many_errors() {
    let negative = many_call(vec![input("limit", InputAnnotation::ModelLimitArgument, InputValue::Integer(-1))], allow_all());
    assert!(matches!(
        select_many_generate_ir(&negative, &source(), &model_name()),
        Err(Error::UnexpectedValue { expected }) if expected == "integer"
    ));
    let too_big = many_call(vec![input("offset", InputAnnotation::ModelOffsetArgument, InputValue::Integer(1 << 32))], allow_all());
    assert!(matches!(select_many_generate_ir(&too_big, &source(), &model_name()), Err(Error::UnexpectedValue { .. })));
    let not_object = many_call(vec![input("args", InputAnnotation::ModelArgumentsExpression, InputValue::Null)], allow_all());
    match select_many_generate_ir(&not_object, &source(), &model_name()) {
        Err(Error::InternalError(InternalError::Engine(InternalEngineError::InternalGeneric { description }))) => {
            assert_eq!(description, "Expected object value for model arguments")
        }
        r => panic!("unexpected {:?}", r.map(|s| s.field_name)),
    }
    let where_not_object = many_call(vec![input("where", InputAnnotation::ModelFilterExpression, InputValue::Integer(1))], allow_all());
    assert!(matches!(
        select_many_generate_ir(&where_not_object, &source(), &model_name()),
        Err(Error::UnexpectedValue { expected }) if expected == "object"
    ));
    let odd = many_call(vec![input("x", InputAnnotation::ModelFilterScalarExpression, InputValue::Null)], allow_all());
    assert!(matches!(
        select_many_generate_ir(&odd, &source(), &model_name()),
        Err(Error::InternalError(InternalError::Engine(InternalEngineError::UnexpectedAnnotation { annotation })))
            if annotation == Annotation::Input(InputAnnotation::ModelFilterScalarExpression)
    ));
    assert!(matches!(
        select_many_generate_ir(&many_call(vec![], None), &source(), &model_name()),
        Err(Error::InternalError(InternalError::Engine(InternalEngineError::FilterPermissionAnnotationNotFound)))
    ));
}

#[test]
fn integer_arguments_read_as_u32_within_range() {
    assert_eq!(InputValue::Integer(4294967295).as_int_u32().unwrap(), 4294967295);
    assert_eq!(InputValue::Integer(0).as_int_u32().unwrap(), 0);
    assert!(InputValue::Integer(4294967296).as_int_u32().is_err());
    assert!(InputValue::String("1".to_string()).as_int_u32().is_err());
}

#[test]
fn expected_argument_finds_the_first_argument_of_the_name() {
    let call = FieldCall {
        name: "f".to_string(),
        arguments: vec![
            input("a", InputAnnotation::ModelLimitArgument, InputValue::Integer(1)),
            input("b", InputAnnotation::ModelLimitArgument, InputValue::Integer(2)),
        ],
        namespaced: None,
    };
    assert_eq!(call.expected_argument("b").unwrap().value, InputValue::Integer(2));
    assert!(matches!(call.expected_argument("c"), Err(Error::ArgumentNotFound { argument_name }) if argument_name == "c"));
}

fn container() -> TypeContainer {
    TypeContainer { base: BaseTypeContainer::Named(RegisteredTypeName("Article".to_string())), nullable: true }
}

fn root_field(alias: &str, name: &str, arguments: Vec<InputField>, info: Annotation, namespaced: Option<NamespaceAnnotation>) -> NormalizedField {
    NormalizedField {
        alias: alias.to_string(),
        field_call: FieldCall { name: name.to_string(), arguments, namespaced },
        info,
        type_container: container(),
        selection_set: NormalizedSelectionSet { typename: Some("Article".to_string()), fields: vec![] },
    }
}

fn model_root(kind: RootFieldKind, source: Option<ModelSource>) -> Annotation {
    Annotation::Output(OutputAnnotation::RootField(RootFieldAnnotation::Model {
        data_type: article(),
        source,
        kind,
        name: model_name(),
    }))
}

fn unique_id(value: i64) -> InputField {
    input("id", InputAnnotation::ModelUniqueIdentifierArgument { field_name: FieldName("id".to_string()) }, InputValue::Integer(value))
}

fn node_mappings() -> Vec<(String, TypenameMapping)> {
    vec![(
        "Article".to_string(),
        TypenameMapping {
            typename: article(),
            model_source: Some(source()),
            model_select_permissions: vec![(Role::new("user"), SelectPermission { filter: FilterPermission::AllowAll })],
        },
    )]
}

fn query_field<'a, 's>(r: &'a RootField<'s>) -> &'a QueryRootField<'s> {
    match r {
        RootField::QueryRootField(q) => q,
        RootField::MutationRootField(m) => panic!("unexpected {:?}", m),
    }
}

fn mutation_field<'a, 's>(r: &'a RootField<'s>) -> &'a MutationRootField<'s> {
    match r {
        RootField::MutationRootField(m) => m,
        RootField::QueryRootField(q) => panic!("unexpected {:?}", q),
    }
}

#[test]
fn query_ir_answers_each_root_field_under_its_alias() {
    let selection = NormalizedSelectionSet {
        typename: Some("Query".to_string()),
        fields: vec![
            root_field("t", "__typename", vec![], model_root(RootFieldKind::SelectOne, None), None),
            root_field("s", "__schema", vec![], model_root(RootFieldKind::SelectOne, None), None),
            root_field(
                "ty",
                "__type",
                vec![input("name", InputAnnotation::ModelLimitArgument, InputValue::String("Article".to_string()))],
                model_root(RootFieldKind::SelectOne, None),
                None,
            ),
            root_field("one", "ArticleByID", vec![unique_id(7)], model_root(RootFieldKind::SelectOne, Some(source())), allow_all()),
            root_field(
                "many",
                "articles",
                vec![input("limit", InputAnnotation::ModelLimitArgument, InputValue::Integer(3))],
                model_root(RootFieldKind::SelectMany, Some(source())),
                allow_all(),
            ),
            root_field(
                "n",
                "node",
                vec![input("id", InputAnnotation::OutputField { name: FieldName("id".to_string()) }, InputValue::Id("eyJ9".to_string()))],
                Annotation::Output(OutputAnnotation::RootField(RootFieldAnnotation::RelayNode { typename_mappings: node_mappings() })),
                None,
            ),
        ],
    };
    let role = Role::new("user");
    let ir = query_root::generate_ir(&selection, &role).unwrap();
    let aliases: Vec<&str> = ir.iter().map(|(a, _)| a.as_str()).collect();
    assert_eq!(aliases, vec!["t", "s", "ty", "one", "many", "n"]);
    assert!(matches!(query_field(&ir[0].1), QueryRootField::TypeName { typename } if typename == "Query"));
    assert!(matches!(query_field(&ir[1].1), QueryRootField::SchemaField { role, .. } if role.0 == "user"));
    assert!(matches!(query_field(&ir[2].1), QueryRootField::TypeField { typename, .. } if typename == "Article"));
    match query_field(&ir[3].1) {
        QueryRootField::ModelSelectOne { ir, .. } => {
            assert_eq!(ir.field_name, "ArticleByID");
            assert_eq!(ir.filter_clause.len(), 1);
            assert_eq!(ir.usage_counts.models_used, vec![(model_name(), 1)]);
        }
        other => panic!("unexpected {:?}", other),
    }
    assert!(matches!(query_field(&ir[4].1), QueryRootField::ModelSelectMany { ir, .. } if ir.limit == Some(3)));
    match query_field(&ir[5].1) {
        QueryRootField::NodeRequest { encoded_id, typename_mappings, field } => {
            assert_eq!(encoded_id, "eyJ9");
            assert_eq!(typename_mappings.len(), 1);
            assert_eq!(field.alias, "n");
        }
        other => panic!("unexpected {:?}", other),
    }
}

#[test]
fn query_ir_without_a_typename_fails() {
    let selection = NormalizedSelectionSet { typename: None, fields: vec![] };
    assert!(matches!(query_root::generate_ir(&selection, &Role::new("user")), Err(Error::NoTypenameFound)));
}

#[test]
fn query_ir_reports_the_first_failing_field() {
    let selection = NormalizedSelectionSet {
        typename: Some("Query".to_string()),
        fields: vec![
            root_field("t", "__typename", vec![], model_root(RootFieldKind::SelectOne, None), None),
            root_field("a", "articles", vec![], model_root(RootFieldKind::SelectMany, None), allow_all()),
            root_field("b", "articles", vec![], model_root(RootFieldKind::SelectMany, Some(source())), None),
        ],
    };
    match query_root::generate_ir(&selection, &Role::new("user")) {
        Err(Error::InternalError(InternalError::Developer(InternalDeveloperError::NoSourceDataConnector { typename, field_name }))) => {
            assert_eq!(typename, "Query");
            assert_eq!(field_name, "articles");
        }
        other => panic!("unexpected {:?}", other.map(|v| v.len())),
    }
}

#[test]
fn root_field_errors() {
    let role = Role::new("user");
    let query = "Query".to_string();
    let bad_name = root_field(
        "ty",
        "__type",
        vec![input("name", InputAnnotation::ModelLimitArgument, InputValue::String("not a name".to_string()))],
        model_root(RootFieldKind::SelectOne, None),
        None,
    );
    assert!(matches!(
        generate_root_field_ir(&query, &bad_name, &role),
        Err(Error::TypeFieldInvalidGraphQlName { name }) if name == "not a name"
    ));
    let no_name = root_field("ty", "__type", vec![], model_root(RootFieldKind::SelectOne, None), None);
    assert!(matches!(
        generate_root_field_ir(&query, &no_name, &role),
        Err(Error::ArgumentNotFound { argument_name }) if argument_name == "name"
    ));
    let plain = root_field("x", "x", vec![], Annotation::Output(OutputAnnotation::Field { name: FieldName("x".to_string()) }), None);
    assert!(matches!(
        generate_root_field_ir(&query, &plain, &role),
        Err(Error::InternalError(InternalError::Engine(InternalEngineError::UnexpectedAnnotation { annotation })))
            if annotation == Annotation::Output(OutputAnnotation::Field { name: FieldName("x".to_string()) })
    ));
    let node_without_id = root_field(
        "n",
        "node",
        vec![input("id", InputAnnotation::OutputField { name: FieldName("id".to_string()) }, InputValue::Integer(1))],
        Annotation::Output(OutputAnnotation::RootField(RootFieldAnnotation::RelayNode { typename_mappings: node_mappings() })),
        None,
    );
    assert!(matches!(
        generate_root_field_ir(&query, &node_without_id, &role),
        Err(Error::UnexpectedValue { expected }) if expected == "id"
    ));
}

#[test]
fn global_ids_decode_from_standard_base64() {
    let bytes = decode_global_id(&"eyJhIjoxfQ==".to_string()).unwrap();
    assert_eq!(bytes, b"{\"a\":1}".to_vec());
    match decode_global_id(&"not base64!".to_string()) {
        Err(Error::ErrorInDecodingGlobalId { encoded_value, decoding_error }) => {
            assert_eq!(encoded_value, "not base64!");
            assert!(!decoding_error.is_empty());
        }
        other => panic!("unexpected {:?}", other),
    }
}

fn command_root(source: Option<CommandSource>) -> Annotation {
    Annotation::Output(OutputAnnotation::RootField(RootFieldAnnotation::Command {
        name: Qualified { subgraph: "app".to_string(), name: CommandName("add_article".to_string()) },
        source,
        underlying_object_typename: Some(article()),
    }))
}

fn procedure_source() -> CommandSource {
    let model = source();
    CommandSource {
        data_connector: model.data_connector,
        source: DataConnectorCommand::Procedure("add_article".to_string()),
        type_mappings: model.type_mappings,
        argument_mappings: vec![],
    }
}

#[test]
fn mutation_ir_answers_typename_and_commands() {
    let selection = NormalizedSelectionSet {
        typename: Some("Mutation".to_string()),
        fields: vec![
            root_field("t", "__typename", vec![], command_root(None), None),
            root_field("add", "addArticle", vec![], command_root(Some(procedure_source())), None),
        ],
    };
    let ir = mutation_root::generate_ir(&selection).unwrap();
    assert_eq!(ir.len(), 2);
    assert!(matches!(mutation_field(&ir[0].1), MutationRootField::TypeName { typename } if typename == "Mutation"));
    match mutation_field(&ir[1].1) {
        MutationRootField::CommandRepresentation { ir, .. } => {
            assert_eq!(ir.field_name, "addArticle");
            assert_eq!(ir.ndc_source, DataConnectorCommand::Procedure("add_article".to_string()));
            assert_eq!(ir.type_container, container());
        }
        other => panic!("unexpected {:?}", other),
    }
    assert_eq!(ir[1].0, "add");
}

#[test]
fn mutation_ir_errors() {
    let no_source = NormalizedSelectionSet {
        typename: Some("Mutation".to_string()),
        fields: vec![root_field("add", "addArticle", vec![], command_root(None), None)],
    };
    assert!(matches!(
        mutation_root::generate_ir(&no_source),
        Err(Error::InternalError(InternalError::Developer(InternalDeveloperError::NoSourceDataConnector { typename, .. }))) if typename == "Mutation"
    ));
    let model_field = NormalizedSelectionSet {
        typename: Some("Mutation".to_string()),
        fields: vec![root_field("m", "articles", vec![], model_root(RootFieldKind::SelectMany, Some(source())), None)],
    };
    assert!(matches!(
        mutation_root::generate_ir(&model_field),
        Err(Error::InternalError(InternalError::Engine(InternalEngineError::UnexpectedAnnotation { .. })))
    ));
    assert!(matches!(mutation_root::generate_ir(&NormalizedSelectionSet { typename: None, fields: vec![] }), Err(Error::NoTypenameFound)));
}
