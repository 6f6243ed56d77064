use engine::json::{JsonNumber, JsonValue};
use engine::metadata::resolved::subgraph::{Qualified, QualifiedBaseType, QualifiedTypeName, QualifiedTypeReference};
use engine::metadata::resolved::types::{FieldMapping, TypeMapping};
use engine::open_dds::names::FieldName;
use engine::open_dds::ndc_client::models::{
    Argument, BinaryComparisonOperator, ComparisonTarget, ComparisonValue, Expression, UnaryComparisonOperator,
};
use engine::open_dds::types::{CustomTypeName, InbuiltType};
use engine::schema::normalized::{NormalizedField, NormalizedSelectionSet};
use engine::schema::graphql::{BaseTypeContainer, GlobalIdFields, ModelRelationshipAnnotation, OutputAnnotation, RegisteredTypeName, RootFieldAnnotation, TypeContainer};
use engine::schema::types::output_type::{generate_selection_set_ir, FieldSelection};
use engine::open_dds::names::RelationshipName;
use engine::open_dds::relationships::RelationshipType;
use engine::schema::normalized::{Annotation, InputAnnotation, InputField, ModelFilterArgument, InputValue};
use engine::metadata::resolved::data_connector::{DataConnector, ResolvedDataConnectorUrl};
use engine::metadata::resolved::model::{FilterPermission, ModelSource};
use engine::open_dds::names::DataConnectorName;
use engine::schema::operations::select_one::{select_one_generate_ir, FieldCall};
use engine::schema::types::NamespaceAnnotation;
use engine::metadata::resolved::model::SelectPermission;
use engine::open_dds::names::Role;
use engine::schema::operations::relay::{relay_node_ir_of, GlobalId, TypenameMapping};
use engine::schema::operations::commands::command_generate_ir;
use engine::metadata::resolved::command::CommandSource;
use engine::open_dds::commands::DataConnectorCommand;
use engine::open_dds::names::{CommandName, ModelName};
use engine::schema::operations::error::{Error, InternalDeveloperError, InternalEngineError, InternalError};
use engine::schema::types::arguments::map_argument_value_to_ndc_type;
use engine::schema::types::command_arguments::build_ndc_command_arguments;
use engine::schema::types::model_arguments::build_ndc_model_arguments;
use engine::schema::types::model_filter::{build_is_null_expression, resolve_filter_expression};

fn field(name: &str, info: InputAnnotation, value: InputValue) -> InputField {
    InputField { name: name.to_string(), info, value }
}

fn column(name: &str) -> ComparisonTarget {
    ComparisonTarget::Column { name: name.to_string(), path: vec![] }
}

fn column_filter(column_name: &str, ops: Vec<InputField>) -> InputField {
    field(
        column_name,
        InputAnnotation::ModelFilterArgument(ModelFilterArgument::Field { ndc_column: column_name.to_string() }),
        InputValue::Object(ops),
    )
}

fn op(name: &str, value: InputValue) -> InputField {
    field(name, InputAnnotation::ModelFilterScalarExpression, value)
}

#[test]
fn where_comparisons_become_expressions() {
    let w = vec![column_filter(
        "id",
        vec![op("_eq", InputValue::Integer(3)), op("_gt", InputValue::Integer(1)), op("_is_null", InputValue::Boolean(false))],
    )];
    let e = resolve_filter_expression(&w).unwrap();
    assert_eq!(
        e,
        vec![
            Expression::BinaryComparisonOperator {
                column: column("id"),
                operator: BinaryComparisonOperator::Equal,
                value: ComparisonValue::Scalar { value: JsonValue::Number(JsonNumber::PosInt(3)) },
            },
            Expression::BinaryComparisonOperator {
                column: column("id"),
                operator: BinaryComparisonOperator::Other { name: "_gt".to_string() },
                value: ComparisonValue::Scalar { value: JsonValue::Number(JsonNumber::PosInt(1)) },
            },
            Expression::Not {
                expression: Box::new(Expression::UnaryComparisonOperator {
                    column: column("id"),
                    operator: UnaryComparisonOperator::IsNull,
                }),
            },
        ]
    );
}

#[test]
fn where_logical_operators_nest() {
    let inner = || InputValue::Object(vec![column_filter("title", vec![op("_eq", InputValue::String("x".to_string()))])]);
    let eq_title = || Expression::BinaryComparisonOperator {
        column: column("title"),
        operator: BinaryComparisonOperator::Equal,
        value: ComparisonValue::Scalar { value: JsonValue::String("x".to_string()) },
    };
    let w = vec![
        field("_and", InputAnnotation::ModelFilterArgument(ModelFilterArgument::AndOp), InputValue::List(vec![inner()])),
        field("_or", InputAnnotation::ModelFilterArgument(ModelFilterArgument::OrOp), InputValue::List(vec![inner(), inner()])),
        field("_not", InputAnnotation::ModelFilterArgument(ModelFilterArgument::NotOp), inner()),
    ];
    let e = resolve_filter_expression(&w).unwrap();
    let conj = || Expression::And { expressions: vec![eq_title()] };
    assert_eq!(
        e,
        vec![
            Expression::And { expressions: vec![conj()] },
            Expression::Or { expressions: vec![conj(), conj()] },
            Expression::Not { expression: Box::new(conj()) },
        ]
    );
}

#[test]
fn where_with_unexpected_values_fails() {
    let w = vec![field("_and", InputAnnotation::ModelFilterArgument(ModelFilterArgument::AndOp), InputValue::Integer(1))];
    assert!(matches!(resolve_filter_expression(&w), Err(Error::UnexpectedValue { expected }) if expected == "list"));
    let w = vec![column_filter("id", vec![op("_is_null", InputValue::Integer(1))])];
    assert!(matches!(resolve_filter_expression(&w), Err(Error::UnexpectedValue { expected }) if expected == "boolean"));
    let w = vec![field("x", InputAnnotation::ModelFilterExpression, InputValue::Null)];
    assert!(matches!(
        resolve_filter_expression(&w),
        Err(Error::InternalError(InternalError::Engine(InternalEngineError::UnexpectedAnnotation { annotation })))
            if annotation == Annotation::Input(InputAnnotation::ModelFilterExpression)
    ));
}

#[test]
fn is_null_true_is_a_plain_test() {
    let e = build_is_null_expression("c".to_string(), &InputValue::Boolean(true)).unwrap();
    assert_eq!(e, Expression::UnaryComparisonOperator { column: column("c"), operator: UnaryComparisonOperator::IsNull });
}

fn int_type() -> QualifiedTypeReference {
    QualifiedTypeReference { underlying_type: QualifiedBaseType::Named(QualifiedTypeName::Inbuilt(InbuiltType::Int)), nullable: true }
}

fn point_type() -> Qualified<CustomTypeName> {
    Qualified { subgraph: "app".to_string(), name: CustomTypeName("point".to_string()) }
}

fn mappings() -> Vec<(Qualified<CustomTypeName>, TypeMapping)> {
    vec![(
        point_type(),
        TypeMapping::Object {
            field_mappings: vec![
                (FieldName("x".to_string()), FieldMapping { column: "x_col".to_string() }),
                (FieldName("y".to_string()), FieldMapping { column: "y_col".to_string() }),
            ],
        },
    )]
}

fn object_field(name: &str, value: InputValue) -> InputField {
    field(name, InputAnnotation::InputObjectField { field_name: FieldName(name.to_string()), field_type: int_type() }, value)
}

#[test]
fn argument_objects_use_mapped_columns() {
    let t = QualifiedTypeReference {
        underlying_type: QualifiedBaseType::List(Box::new(QualifiedTypeReference {
            underlying_type: QualifiedBaseType::Named(QualifiedTypeName::Custom(point_type())),
            nullable: false,
        })),
        nullable: true,
    };
    let v = InputValue::List(vec![InputValue::Object(vec![object_field("x", InputValue::Integer(1)), object_field("y", InputValue::Null)])]);
    let j = map_argument_value_to_ndc_type(&"points".to_string(), &t, &v, &mappings()).unwrap();
    assert_eq!(
        j,
        JsonValue::Array(vec![JsonValue::Object(vec![
            ("x_col".to_string(), JsonValue::Number(JsonNumber::PosInt(1))),
            ("y_col".to_string(), JsonValue::Null),
        ])])
    );
}

#[test]
fn argument_errors() {
    let custom = QualifiedTypeReference {
        underlying_type: QualifiedBaseType::Named(QualifiedTypeName::Custom(Qualified {
            subgraph: "app".to_string(),
            name: CustomTypeName("other".to_string()),
        })),
        nullable: true,
    };
    match map_argument_value_to_ndc_type(&"p".to_string(), &custom, &InputValue::Object(vec![]), &mappings()) {
        Err(Error::InternalError(InternalError::Developer(InternalDeveloperError::TypeMappingNotFoundForArgument {
            argument_name,
            ..
        }))) => assert_eq!(argument_name, "p"),
        other => panic!("unexpected: {:?}", other),
    }
    let point = QualifiedTypeReference { underlying_type: QualifiedBaseType::Named(QualifiedTypeName::Custom(point_type())), nullable: true };
    match map_argument_value_to_ndc_type(&"p".to_string(), &point, &InputValue::Object(vec![object_field("z", InputValue::Integer(1))]), &mappings()) {
        Err(Error::InternalError(InternalError::Engine(InternalEngineError::InternalGeneric { description }))) => {
            assert_eq!(description, "unable to find mapping for field z")
        }
        other => panic!("unexpected: {:?}", other),
    }
    assert!(matches!(
        map_argument_value_to_ndc_type(&"p".to_string(), &int_type(), &InputValue::String("1".to_string()), &mappings()),
        Err(Error::UnexpectedValue { expected }) if expected == "integer"
    ));
}

#[test]
fn command_argument_goes_under_its_connector_name() {
    let arg = field(
        "id",
        InputAnnotation::CommandArgument { argument_type: int_type(), ndc_func_proc_argument: Some("author_id".to_string()) },
        InputValue::Integer(5),
    );
    let args = build_ndc_command_arguments(&"get_author".to_string(), &arg, &vec![]).unwrap();
    assert_eq!(args, vec![("author_id".to_string(), JsonValue::Number(JsonNumber::PosInt(5)))]);
    let no_source = field("id", InputAnnotation::CommandArgument { argument_type: int_type(), ndc_func_proc_argument: None }, InputValue::Integer(5));
    assert!(matches!(
        build_ndc_command_arguments(&"get_author".to_string(), &no_source, &vec![]),
        Err(Error::InternalError(InternalError::Developer(InternalDeveloperError::NoArgumentSource { .. })))
    ));
}

#[test]
fn model_arguments_later_ones_replace_earlier() {
    let arg = |name: &str, target: &str, v: i64| {
        field(name, InputAnnotation::ModelArgument { argument_type: int_type(), ndc_table_argument: Some(target.to_string()) }, InputValue::Integer(v))
    };
    let fields = vec![arg("a", "limit", 1), arg("b", "offset", 2), arg("c", "limit", 3)];
    let args = build_ndc_model_arguments(&"articles".to_string(), &fields.iter().collect(), &vec![]).unwrap();
    assert_eq!(
        args,
        vec![
            ("limit".to_string(), Argument::Literal { value: JsonValue::Number(JsonNumber::PosInt(3)) }),
            ("offset".to_string(), Argument::Literal { value: JsonValue::Number(JsonNumber::PosInt(2)) }),
        ]
    );
}

fn article_source() -> ModelSource {
    ModelSource {
        data_connector: DataConnector {
            name: Qualified { subgraph: "app".to_string(), name: DataConnectorName("db".to_string()) },
            url: ResolvedDataConnectorUrl::SingleUrl("http://db".to_string()),
            headers: vec![],
        },
        collection: "article".to_string(),
        type_mappings: vec![(
            Qualified { subgraph: "app".to_string(), name: CustomTypeName("article".to_string()) },
            TypeMapping::Object { field_mappings: vec![(FieldName("id".to_string()), FieldMapping { column: "article_id".to_string() })] },
        )],
        argument_mappings: vec![],
    }
}

fn unique_id(value: i64) -> InputField {
    InputField {
        name: "id".to_string(),
        info: InputAnnotation::ModelUniqueIdentifierArgument { field_name: FieldName("id".to_string()) },
        value: InputValue::Integer(value),
    }
}

fn articles_model_name() -> Qualified<ModelName> {
    Qualified { subgraph: "app".to_string(), name: ModelName("articles".to_string()) }
}

fn article_type() -> Qualified<CustomTypeName> {
    Qualified { subgraph: "app".to_string(), name: CustomTypeName("article".to_string()) }
}

#[test]
fn select_one_compares_each_identifier_with_its_column() {
    let call = FieldCall { name: "ArticleByID".to_string(), arguments: vec![unique_id(7)], namespaced: Some(NamespaceAnnotation::Filter(FilterPermission::AllowAll)) };
    let ir = select_one_generate_ir(&call, &article_type(), &article_source(), &articles_model_name()).unwrap();
    assert_eq!(ir.field_name, "ArticleByID");
    assert!(ir.arguments.is_empty());
    assert_eq!(ir.permission_filter, FilterPermission::AllowAll);
    assert_eq!(ir.usage_counts.models_used, vec![(articles_model_name(), 1)]);
    assert!(ir.usage_counts.commands_used.is_empty());
    assert_eq!(
        ir.filter_clause,
        vec![Expression::BinaryComparisonOperator {
            column: ComparisonTarget::Column { name: "article_id".to_string(), path: vec![] },
            operator: BinaryComparisonOperator::Equal,
            value: ComparisonValue::Scalar { value: InputValue::Integer(7).as_json() },
        }]
    );
}

#[test]
fn select_one_errors() {
    let call = |args: Vec<InputField>, namespaced: Option<NamespaceAnnotation>| FieldCall { name: "ArticleByID".to_string(), arguments: args, namespaced };
    let other = Qualified { subgraph: "app".to_string(), name: CustomTypeName("author".to_string()) };
    match select_one_generate_ir(&call(vec![unique_id(1)], None), &other, &article_source(), &articles_model_name()) {
        Err(Error::InternalError(InternalError::Engine(InternalEngineError::InternalGeneric { description }))) => {
            assert_eq!(description, "type 'author (in subgraph app)' not found in source type_mappings")
        }
        r => panic!("unexpected {:?}", r),
    }
    let odd = InputField { name: "x".to_string(), info: InputAnnotation::ModelFilterExpression, value: InputValue::Null };
    assert!(matches!(
        select_one_generate_ir(&call(vec![odd], None), &article_type(), &article_source(), &articles_model_name()),
        Err(Error::InternalError(InternalError::Engine(InternalEngineError::UnexpectedAnnotation { annotation })))
            if annotation == Annotation::Input(InputAnnotation::ModelFilterExpression)
    ));
    let bad = InputField {
        name: "code".to_string(),
        info: InputAnnotation::ModelUniqueIdentifierArgument { field_name: FieldName("code".to_string()) },
        value: InputValue::Null,
    };
    match select_one_generate_ir(&call(vec![bad], None), &article_type(), &article_source(), &articles_model_name()) {
        Err(Error::InternalError(InternalError::Engine(InternalEngineError::InternalGeneric { description }))) => {
            assert_eq!(description, "invalid unique identifier field in annotation: code")
        }
        r => panic!("unexpected {:?}", r),
    }
    assert!(matches!(
        select_one_generate_ir(&call(vec![unique_id(1)], None), &article_type(), &article_source(), &articles_model_name()),
        Err(Error::InternalError(InternalError::Engine(InternalEngineError::FilterPermissionAnnotationNotFound)))
    ));
}

fn article_mapping(source: Option<ModelSource>) -> Vec<(String, TypenameMapping)> {
    vec![(
        "Article".to_string(),
        TypenameMapping {
            typename: article_type(),
            model_source: source,
            model_select_permissions: vec![(Role::new("user"), SelectPermission { filter: FilterPermission::AllowAll })],
        },
    )]
}

fn global_id(typename: &str, field: &str) -> GlobalId {
    GlobalId { version: 1, typename: typename.to_string(), id: vec![(FieldName(field.to_string()), JsonValue::String("a1".to_string()))] }
}

#[test]
fn node_ir_compares_global_id_fields_with_their_columns() {
    let node = relay_node_ir_of(&"node".to_string(), &global_id("Article", "id"), &article_mapping(Some(article_source())), &Role::new("user"))
        .unwrap()
        .unwrap();
    assert_eq!(node.field_name, "node");
    assert_eq!(node.typename, "Article");
    assert_eq!(node.data_type, article_type());
    assert_eq!(node.model_source, article_source());
    assert_eq!(node.permission_filter, FilterPermission::AllowAll);
    assert_eq!(
        node.filter_clause,
        vec![Expression::BinaryComparisonOperator {
            column: ComparisonTarget::Column { name: "article_id".to_string(), path: vec![] },
            operator: BinaryComparisonOperator::Equal,
            value: ComparisonValue::Scalar { value: JsonValue::String("a1".to_string()) },
        }]
    );
}

#[test]
fn node_ir_is_empty_for_a_role_without_select_permission() {
    let r = relay_node_ir_of(&"node".to_string(), &global_id("Article", "id"), &article_mapping(Some(article_source())), &Role::new("guest"));
    assert!(matches!(r, Ok(None)));
}

#[test]
fn node_ir_errors() {
    let missing = relay_node_ir_of(&"node".to_string(), &global_id("Author", "id"), &article_mapping(Some(article_source())), &Role::new("user"));
    assert!(matches!(missing, Err(Error::InternalError(InternalError::Developer(InternalDeveloperError::GlobalIDTypenameMappingNotFound { typename }))) if typename == "Author"));
    let no_source = relay_node_ir_of(&"node".to_string(), &global_id("Article", "id"), &article_mapping(None), &Role::new("user"));
    assert!(matches!(no_source, Err(Error::InternalError(InternalError::Developer(InternalDeveloperError::NoSourceDataConnector { typename, field_name })))
        if typename == "Article" && field_name == "node"));
    match relay_node_ir_of(&"node".to_string(), &global_id("Article", "code"), &article_mapping(Some(article_source())), &Role::new("user")) {
        Err(Error::InternalError(InternalError::Engine(InternalEngineError::InternalGeneric { description }))) => {
            assert_eq!(description, "invalid field in annotation: code")
        }
        r => panic!("unexpected {:?}", r),
    }
}

fn command_source() -> CommandSource {
    let model = article_source();
    CommandSource {
        data_connector: model.data_connector,
        source: DataConnectorCommand::Function("get_article".to_string()),
        type_mappings: model.type_mappings,
        argument_mappings: vec![],
    }
}

fn command_argument(name: &str, ndc: Option<&str>, value: InputValue) -> InputField {
    InputField {
        name: name.to_string(),
        info: InputAnnotation::CommandArgument {
            argument_type: QualifiedTypeReference {
                underlying_type: QualifiedBaseType::Named(QualifiedTypeName::Inbuilt(InbuiltType::Int)),
                nullable: false,
            },
            ndc_func_proc_argument: ndc.map(|n| n.to_string()),
        },
        value,
    }
}

#[test]
fn command_ir_passes_arguments_under_their_data_connector_names() {
    let call = FieldCall {
        name: "getArticle".to_string(),
        arguments: vec![command_argument("id", Some("article_id"), InputValue::Integer(3))],
        namespaced: None,
    };
    let name = Qualified { subgraph: "app".to_string(), name: CommandName("get_article".to_string()) };
    let field = as_field(call);
    let ir = command_generate_ir(&name, &field, &Some(article_type()), &command_source()).unwrap();
    assert_eq!(ir.command_name, name);
    assert_eq!(ir.field_name, "getArticle");
    assert_eq!(ir.ndc_source, DataConnectorCommand::Function("get_article".to_string()));
    assert_eq!(ir.arguments, vec![("article_id".to_string(), InputValue::Integer(3).as_json())]);
    assert_eq!(ir.type_container, article_container());
    assert!(ir.selection.fields.is_empty());
    assert_eq!(ir.usage_counts.commands_used, vec![(Qualified { subgraph: "app".to_string(), name: CommandName("get_article".to_string()) }, 1)]);
    assert!(ir.usage_counts.models_used.is_empty());
}

fn article_container() -> TypeContainer {
    TypeContainer { base: BaseTypeContainer::Named(RegisteredTypeName("Article".to_string())), nullable: true }
}

fn no_call(name: &str) -> FieldCall {
    FieldCall { name: name.to_string(), arguments: vec![], namespaced: None }
}

fn output_field(alias: &str, info: OutputAnnotation, selection: NormalizedSelectionSet) -> NormalizedField {
    NormalizedField {
        alias: alias.to_string(),
        field_call: no_call(alias),
        info: Annotation::Output(info),
        type_container: article_container(),
        selection_set: selection,
    }
}

fn empty_selection() -> NormalizedSelectionSet {
    NormalizedSelectionSet { typename: None, fields: vec![] }
}

fn as_field(call: FieldCall) -> NormalizedField {
    NormalizedField {
        alias: call.name.clone(),
        field_call: call,
        info: Annotation::Output(OutputAnnotation::Field { name: FieldName("x".to_string()) }),
        type_container: article_container(),
        selection_set: empty_selection(),
    }
}

fn article_mappings() -> Vec<(FieldName, FieldMapping)> {
    vec![
        (FieldName("id".to_string()), FieldMapping { column: "article_id".to_string() }),
        (FieldName("title".to_string()), FieldMapping { column: "title".to_string() }),
    ]
}

#[test]
fn selection_ir_maps_fields_to_columns() {
    let selection = NormalizedSelectionSet {
        typename: Some("Article".to_string()),
        fields: vec![
            output_field("t", OutputAnnotation::Field { name: FieldName("title".to_string()) }, empty_selection()),
            output_field("__typename", OutputAnnotation::RootField(RootFieldAnnotation::Introspection), empty_selection()),
            output_field("id", OutputAnnotation::GlobalIDField { global_id_fields: GlobalIdFields(vec![FieldName("id".to_string())]) }, empty_selection()),
        ],
    };
    let ir = generate_selection_set_ir(&selection, &article_mappings()).unwrap();
    let got: Vec<(String, String)> = ir
        .fields
        .iter()
        .map(|(a, f)| match f {
            FieldSelection::Column { column } => (a.clone(), column.clone()),
            FieldSelection::Relationship { .. } => panic!("unexpected relationship"),
        })
        .collect();
    assert_eq!(
        got,
        vec![("t".to_string(), "title".to_string()), ("hasura_global_id_col_id_id".to_string(), "article_id".to_string())]
    );
}

#[test]
fn selection_ir_keeps_relationship_fields_and_reports_errors() {
    let selection = NormalizedSelectionSet {
        typename: None,
        fields: vec![output_field("author", OutputAnnotation::RelationshipToModel(ModelRelationshipAnnotation {
            source_type: article_type(),
            relationship_name: RelationshipName("author".to_string()),
            model_name: articles_model_name(),
            target_type: article_type(),
            relationship_type: RelationshipType::Object,
            mappings: vec![],
        }), empty_selection())],
    };
    let ir = generate_selection_set_ir(&selection, &article_mappings()).unwrap();
    assert!(matches!(&ir.fields[0].1, FieldSelection::Relationship { field } if field.alias == "author"));
    let bad = NormalizedSelectionSet {
        typename: None,
        fields: vec![output_field("x", OutputAnnotation::Field { name: FieldName("body".to_string()) }, empty_selection())],
    };
    match generate_selection_set_ir(&bad, &article_mappings()) {
        Err(Error::InternalError(InternalError::Engine(InternalEngineError::InternalGeneric { description }))) => {
            assert_eq!(description, "invalid field in annotation: body")
        }
        r => panic!("unexpected {:?}", r),
    }
    let node = NormalizedSelectionSet {
        typename: None,
        fields: vec![output_field("id", OutputAnnotation::RelayNodeInterfaceID { typename_mappings: vec![] }, empty_selection())],
    };
    match generate_selection_set_ir(&node, &article_mappings()) {
        Err(Error::InternalError(InternalError::Engine(InternalEngineError::InternalGeneric { description }))) => {
            assert_eq!(description, "typename not found while resolving NodeInterfaceId")
        }
        r => panic!("unexpected {:?}", r),
    }
    let arg = NormalizedSelectionSet {
        typename: None,
        fields: vec![NormalizedField {
            alias: "a".to_string(),
            field_call: no_call("a"),
            info: Annotation::Input(InputAnnotation::ModelLimitArgument),
            type_container: article_container(),
            selection_set: empty_selection(),
        }],
    };
    assert!(matches!(
        generate_selection_set_ir(&arg, &article_mappings()),
        Err(Error::InternalError(InternalError::Engine(InternalEngineError::UnexpectedAnnotation { annotation })))
            if annotation == Annotation::Input(InputAnnotation::ModelLimitArgument)
    ));
}

#[test]
fn command_ir_errors() {
    let name = Qualified { subgraph: "app".to_string(), name: CommandName("get_article".to_string()) };
    let other = Some(Qualified { subgraph: "app".to_string(), name: CustomTypeName("author".to_string()) });
    let call = FieldCall { name: "getArticle".to_string(), arguments: vec![], namespaced: None };
    match command_generate_ir(&name, &as_field(call), &other, &command_source()) {
        Err(Error::InternalError(InternalError::Engine(InternalEngineError::InternalGeneric { description }))) => {
            assert_eq!(description, "type 'author (in subgraph app)' not found in command source type_mappings")
        }
        r => panic!("unexpected {:?}", r),
    }
    let call = FieldCall {
        name: "getArticle".to_string(),
        arguments: vec![command_argument("id", None, InputValue::Integer(3))],
        namespaced: None,
    };
    assert!(matches!(
        command_generate_ir(&name, &as_field(call), &None, &command_source()),
        Err(Error::InternalError(InternalError::Developer(InternalDeveloperError::NoArgumentSource { field_name, argument_name })))
            if field_name == "getArticle" && argument_name == "id"
    ));
}
