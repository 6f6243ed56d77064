use engine::json::{JsonNumber, JsonValue};
use engine::metadata::resolved::command::Command;
use engine::metadata::resolved::model::{
    FilterPermission, Model, ModelGraphQlApi, ModelPredicate, SelectPermission, SelectUniqueGraphQlDefinition,
};
use engine::metadata::resolved::relationship::RelationshipMapping;
use engine::metadata::resolved::subgraph::{Qualified, QualifiedBaseType, QualifiedTypeName, QualifiedTypeReference};
use engine::metadata::resolved::types::{FieldDefinition, ObjectTypeRepresentation};
use engine::open_dds::names::{CommandName, FieldName, ModelName, Role, SessionVariable};
use engine::open_dds::ndc_client::models::{
    BinaryComparisonOperator, ComparisonTarget, ComparisonValue, Expression, UnaryComparisonOperator,
};
use engine::open_dds::permissions::{CommandPermission, TypeOutputPermission, ValueExpression};
use engine::open_dds::relationships::FieldAccess;
use engine::open_dds::types::{CustomTypeName, InbuiltType};
use engine::schema::operations::error::{Error, InternalDeveloperError, InternalError};
use engine::schema::operations::permissions::{
    get_allowed_roles_for_field, get_command_namespace_annotations, get_node_interface_annotations,
    get_relationship_namespace_annotations, get_select_one_namespace_annotations,
    get_select_permissions_namespace_annotations, process_model_predicate, typecast_session_variable,
};
use engine::schema::types::NamespaceAnnotation;
use engine::session::{SessionVariableValue, SessionVariables};

fn q<T>(name: T) -> Qualified<T> {
    Qualified { subgraph: "app".to_string(), name }
}

fn ty(t: QualifiedTypeName) -> QualifiedTypeReference {
    QualifiedTypeReference { underlying_type: QualifiedBaseType::Named(t), nullable: true }
}

fn fields(names: &[&str]) -> Vec<FieldName> {
    names.iter().map(|n| FieldName(n.to_string())).collect()
}

fn object_type() -> ObjectTypeRepresentation {
    let field = |n: &str| (FieldName(n.to_string()), FieldDefinition { field_type: ty(QualifiedTypeName::Inbuilt(InbuiltType::Int)) });
    ObjectTypeRepresentation {
        fields: vec![field("id"), field("title"), field("secret")],
        relationships: vec![],
        type_permissions: vec![
            (Role::new("admin"), TypeOutputPermission { allowed_fields: fields(&["id", "title", "secret"]) }),
            (Role::new("user"), TypeOutputPermission { allowed_fields: fields(&["id", "title"]) }),
            (Role::new("guest"), TypeOutputPermission { allowed_fields: fields(&["title"]) }),
        ],
        global_id_fields: fields(&["id"]),
        graphql_output_type_name: Some("Article".to_string()),
        graphql_input_type_name: Some("ArticleInput".to_string()),
    }
}

fn is_null_on(column: &str) -> Expression {
    Expression::UnaryComparisonOperator {
        column: ComparisonTarget::Column { name: column.to_string(), path: vec![] },
        operator: UnaryComparisonOperator::IsNull,
    }
}

fn model() -> Model {
    Model {
        name: q(ModelName("articles".to_string())),
        data_type: q(CustomTypeName("article".to_string())),
        type_fields: vec![],
        global_id_fields: vec![],
        global_id_source: false,
        arguments: vec![],
        graphql_api: ModelGraphQlApi { select_uniques: vec![], select_many: None, arguments_input_type: None, filter_expression: None, order_by_expression: None },
        source: None,
        select_permissions: Some(vec![
            (Role::new("admin"), SelectPermission { filter: FilterPermission::AllowAll }),
            (Role::new("user"), SelectPermission { filter: FilterPermission::Filter(is_null_on("deleted_at")) }),
            (Role::new("guest"), SelectPermission { filter: FilterPermission::AllowAll }),
        ]),
    }
}

fn role_names(annotations: &[(Role, Option<NamespaceAnnotation>)]) -> Vec<String> {
    annotations.iter().map(|(r, _)| r.0.clone()).collect()
}

#[test]
fn allowed_roles_follow_type_permissions() {
    let roles: Vec<String> = get_allowed_roles_for_field(&object_type(), &FieldName("id".to_string()))
        .into_iter()
        .map(|r| r.0)
        .collect();
    assert_eq!(roles, vec!["admin", "user"]);
}

#[test]
fn select_annotations_carry_each_filter() {
    let annotations = get_select_permissions_namespace_annotations(&model());
    assert_eq!(role_names(&annotations), vec!["admin", "user", "guest"]);
    assert_eq!(annotations[0].1, Some(NamespaceAnnotation::Filter(FilterPermission::AllowAll)));
    assert_eq!(annotations[1].1, Some(NamespaceAnnotation::Filter(FilterPermission::Filter(is_null_on("deleted_at")))));
}

#[test]
fn select_one_needs_every_identifier_field() {
    let unique = SelectUniqueGraphQlDefinition {
        query_root_field: "article_by_id".to_string(),
        unique_identifier: vec![(FieldName("id".to_string()), FieldDefinition { field_type: ty(QualifiedTypeName::Inbuilt(InbuiltType::Int)) })],
    };
    let annotations = get_select_one_namespace_annotations(&model(), &object_type(), &unique);
    assert_eq!(role_names(&annotations), vec!["admin", "user"]);
}

#[test]
fn relationship_needs_both_mapped_fields() {
    let mappings = vec![RelationshipMapping {
        source_field: FieldAccess { field_name: FieldName("title".to_string()) },
        target_field: FieldAccess { field_name: FieldName("secret".to_string()) },
    }];
    let annotations = get_relationship_namespace_annotations(&model(), &object_type(), &object_type(), &mappings);
    assert_eq!(role_names(&annotations), vec!["admin"]);
}

fn bare_command(name: &str) -> Command {
    Command {
        name: q(CommandName(name.to_string())),
        output_type: QualifiedTypeReference {
            underlying_type: QualifiedBaseType::Named(QualifiedTypeName::Inbuilt(InbuiltType::String)),
            nullable: true,
        },
        arguments: vec![],
        graphql_api: None,
        source: None,
        underlying_object_typename: None,
        permissions: None,
    }
}

#[test]
fn command_annotations_keep_executing_roles() {
    let command = Command {
        permissions: Some(vec![
            (Role::new("admin"), CommandPermission { role: Role::new("admin"), allow_execution: true }),
            (Role::new("user"), CommandPermission { role: Role::new("user"), allow_execution: false }),
        ]),
        ..bare_command("get_article")
    };
    let annotations = get_command_namespace_annotations(&command);
    assert_eq!(role_names(&annotations), vec!["admin"]);
    assert_eq!(annotations[0].1, None);
    let none = bare_command("x");
    assert!(get_command_namespace_annotations(&none).is_empty());
}

#[test]
fn node_interface_needs_all_global_id_fields() {
    let annotations = get_node_interface_annotations(&object_type());
    assert_eq!(role_names(&annotations), vec!["admin", "user"]);
}

fn session(pairs: &[(&str, &str)]) -> SessionVariables {
    SessionVariables(pairs.iter().map(|(k, v)| (SessionVariable(k.to_string()), value(v))).collect())
}

fn value(text: &str) -> SessionVariableValue {
    SessionVariableValue { text: text.to_string(), float_reading: None }
}

#[test]
fn session_variables_are_typecast() {
    let int = ty(QualifiedTypeName::Inbuilt(InbuiltType::Int));
    assert_eq!(typecast_session_variable(&value("-42"), &int).unwrap(), JsonValue::Number(JsonNumber::NegInt(-42)));
    assert_eq!(typecast_session_variable(&value("+7"), &int).unwrap(), JsonValue::Number(JsonNumber::PosInt(7)));
    match typecast_session_variable(&value("2147483648"), &int) {
        Err(Error::InternalError(InternalError::Developer(InternalDeveloperError::VariableTypeCast { expected, found }))) => {
            assert_eq!(expected, "int");
            assert_eq!(found, "2147483648");
        }
        other => panic!("unexpected: {:?}", other),
    }
    let boolean = ty(QualifiedTypeName::Inbuilt(InbuiltType::Boolean));
    assert_eq!(typecast_session_variable(&value("true"), &boolean).unwrap(), JsonValue::Bool(true));
    assert!(typecast_session_variable(&value("True"), &boolean).is_err());
    let string = ty(QualifiedTypeName::Inbuilt(InbuiltType::String));
    assert_eq!(typecast_session_variable(&value("42"), &string).unwrap(), JsonValue::String("42".to_string()));
    let custom = ty(QualifiedTypeName::Custom(q(CustomTypeName("uuid".to_string()))));
    assert_eq!(typecast_session_variable(&value("abc"), &custom).unwrap(), JsonValue::String("abc".to_string()));
    assert_eq!(
        typecast_session_variable(&value("[1, -2, {\"a\": null}]"), &custom).unwrap(),
        JsonValue::Array(vec![
            JsonValue::Number(JsonNumber::PosInt(1)),
            JsonValue::Number(JsonNumber::NegInt(-2)),
            JsonValue::Object(vec![("a".to_string(), JsonValue::Null)]),
        ])
    );
    assert_eq!(typecast_session_variable(&value("1"), &custom).unwrap(), JsonValue::Number(JsonNumber::PosInt(1)));
    let list = QualifiedTypeReference { underlying_type: QualifiedBaseType::List(Box::new(int)), nullable: true };
    assert!(matches!(
        typecast_session_variable(&value("1"), &list),
        Err(Error::InternalError(InternalError::Developer(InternalDeveloperError::VariableArrayTypeCast)))
    ));
}

#[test]
fn int_session_variables_read_like_i32_parsing() {
    let int = ty(QualifiedTypeName::Inbuilt(InbuiltType::Int));
    assert_eq!(typecast_session_variable(&value("-2147483648"), &int).unwrap(), JsonValue::Number(JsonNumber::NegInt(-2147483648)));
    assert_eq!(typecast_session_variable(&value("2147483647"), &int).unwrap(), JsonValue::Number(JsonNumber::PosInt(2147483647)));
    assert_eq!(typecast_session_variable(&value("007"), &int).unwrap(), JsonValue::Number(JsonNumber::PosInt(7)));
    for bad in ["", "-", "+", "1a", " 1", "-2147483649", "99999999999999999999", "1.0"] {
        assert!(typecast_session_variable(&value(bad), &int).is_err(), "{bad}");
    }
}

#[test]
fn float_session_variable_uses_its_reading() {
    let float = ty(QualifiedTypeName::Inbuilt(InbuiltType::Float));
    let bits = 1.5f64.to_bits();
    let mut v = value("1.5");
    v.float_reading = Some(JsonValue::Number(JsonNumber::Float(bits)));
    assert_eq!(typecast_session_variable(&v, &float).unwrap(), JsonValue::Number(JsonNumber::Float(bits)));
    assert!(typecast_session_variable(&value("x"), &float).is_err());
}

fn user_id_predicate() -> ModelPredicate {
    ModelPredicate::BinaryFieldComparison {
        field: FieldName("author_id".to_string()),
        ndc_column: "author_id".to_string(),
        argument_type: ty(QualifiedTypeName::Inbuilt(InbuiltType::Int)),
        operator: BinaryComparisonOperator::Equal,
        value: ValueExpression::SessionVariable(SessionVariable("x-hasura-user-id".to_string())),
    }
}

#[test]
fn predicates_read_session_variables() {
    let p = ModelPredicate::And(vec![
        user_id_predicate(),
        ModelPredicate::Not(Box::new(ModelPredicate::UnaryFieldComparison {
            field: FieldName("deleted_at".to_string()),
            ndc_column: "deleted_at".to_string(),
            operator: UnaryComparisonOperator::IsNull,
        })),
    ]);
    let e = process_model_predicate(&p, &session(&[("x-hasura-user-id", "7")])).unwrap();
    let expected = Expression::And {
        expressions: vec![
            Expression::BinaryComparisonOperator {
                column: ComparisonTarget::Column { name: "author_id".to_string(), path: vec![] },
                operator: BinaryComparisonOperator::Equal,
                value: ComparisonValue::Scalar { value: JsonValue::Number(JsonNumber::PosInt(7)) },
            },
            Expression::Not { expression: Box::new(is_null_on("deleted_at")) },
        ],
    };
    assert_eq!(e, expected);
}

#[test]
fn predicate_with_missing_session_variable_fails() {
    match process_model_predicate(&user_id_predicate(), &session(&[])) {
        Err(Error::InternalError(InternalError::Developer(InternalDeveloperError::MissingSessionVariable {
            session_variable,
        }))) => assert_eq!(session_variable, "x-hasura-user-id"),
        other => panic!("unexpected: {:?}", other),
    }
}

#[test]
fn relationship_predicates_are_not_supported() {
    let p = ModelPredicate::Or(vec![ModelPredicate::Relationship {
        name: engine::open_dds::names::RelationshipName("author".to_string()),
        predicate: Box::new(user_id_predicate()),
    }]);
    let err = process_model_predicate(&p, &session(&[])).unwrap_err();
    assert!(format!("{:?}", err).contains("'relationship' model predicate is not supported yet."));
}
