use engine::execute::process_response::get_single_rowset;
use engine::execute::query_plan::{
    assign_with_join_ids, generate_execution_tree, generate_query_plan, plan_mutation, plan_query, LoweredCommand,
    ModelSelection, LoweredMutationField, NodeQueryPlan, ProcessResponseAs, LoweredQueryField, LoweredRootField,
};
use engine::open_dds::commands::DataConnectorCommand;
use engine::execute::operation::{field_response, FieldStep};
use engine::open_dds::names::{CommandName, Role};
use engine::schema::graphql::{BaseTypeContainer, RegisteredTypeName, TypeContainer};
use engine::execute::remote_joins::{JoinLocations, Location, MonotonicCounter, RemoteJoin};
use engine::http::{greeting, GraphQLError, Response};
use engine::json::{JsonNumber, JsonValue};
use engine::metadata::resolved::data_connector::{DataConnector, ResolvedDataConnectorUrl};
use engine::metadata::resolved::subgraph::Qualified;
use engine::open_dds::names::DataConnectorName;
use engine::open_dds::ndc_client::models::RowSet;

fn connector(name: &str) -> DataConnector {
    DataConnector {
        name: Qualified { subgraph: "app".to_string(), name: DataConnectorName(name.to_string()) },
        url: ResolvedDataConnectorUrl::SingleUrl(format!("http://{}", name)),
        headers: vec![],
    }
}

fn join(target: &str, query: i64) -> RemoteJoin {
    RemoteJoin {
        target_ndc_ir: JsonValue::Number(JsonNumber::PosInt(query as u64)),
        target_data_connector: connector(target),
        join_columns: vec![("author_id".to_string(), ("__hasura_phantom_field__author_id".to_string(), "id".to_string()))],
    }
}

fn leaf(node: Option<RemoteJoin>) -> Location<RemoteJoin> {
    Location { join_node: node, rest: JoinLocations::new() }
}

#[test]
fn counter_counts_from_one() {
    let mut c = MonotonicCounter::new();
    assert_eq!(c.get_next(), 1);
    assert_eq!(c.get_next(), 2);
    assert_eq!(c.get_next(), 3);
}

#[test]
fn equal_joins_share_a_join_id() {
    let nested = JoinLocations { locations: vec![("c".to_string(), leaf(Some(join("db2", 1))))] };
    let tree = JoinLocations {
        locations: vec![
            ("a".to_string(), leaf(Some(join("db2", 1)))),
            ("b".to_string(), Location { join_node: Some(join("db3", 2)), rest: nested }),
            ("d".to_string(), leaf(None)),
        ],
    };
    let out = assign_with_join_ids(tree).unwrap();
    let a = out.locations[0].1.join_node.as_ref().unwrap().1;
    let b = out.locations[1].1.join_node.as_ref().unwrap().1;
    let c = out.locations[1].1.rest.locations[0].1.join_node.as_ref().unwrap().1;
    assert_eq!(a, 1);
    assert_eq!(b, 2);
    assert_eq!(c, 1);
    assert!(out.locations[2].1.join_node.is_none());
}

#[test]
fn execution_tree_keeps_query_and_connector() {
    let tree = JoinLocations { locations: vec![("a".to_string(), leaf(Some(join("db2", 1))))] };
    let t = generate_execution_tree(JsonValue::Bool(true), connector("db"), tree).unwrap();
    assert_eq!(t.root_node.query, JsonValue::Bool(true));
    assert_eq!(t.root_node.data_connector, connector("db"));
    assert_eq!(t.remote_executions.locations[0].1.join_node.as_ref().unwrap().1, 1);
}

#[test]
fn single_rowset_is_the_first() {
    let first = RowSet { aggregates: None, rows: Some(vec![vec![("id".to_string(), JsonValue::Null)]]) };
    let second = RowSet { aggregates: None, rows: None };
    assert_eq!(get_single_rowset(vec![first, second]).unwrap(), RowSet { aggregates: None, rows: Some(vec![vec![("id".to_string(), JsonValue::Null)]]) });
    match get_single_rowset(vec![]) {
        Err(e) => assert!(format!("{:?}", e).contains("missing rowset")),
        Ok(_) => panic!("expected an error"),
    }
}

#[test]
fn responses() {
    let ok = Response::ok(vec![("a".to_string(), JsonValue::Null)]);
    assert_eq!(ok.status_code, 200);
    assert!(!ok.does_contains_error());
    let err = Response::error_message_with_status(400, "bad".to_string());
    assert_eq!(err.status_code, 400);
    assert!(err.data.is_none());
    assert!(err.does_contains_error());
    assert_eq!(err.errors.unwrap()[0], GraphQLError { message: "bad".to_string(), path: None, extensions: None });
    let partial = Response::partial(vec![], vec![GraphQLError { message: "x".to_string(), path: None, extensions: None }]);
    assert_eq!(partial.status_code, 200);
    assert!(partial.data.is_some() && partial.does_contains_error());
}

#[test]
fn greeting_names_the_caller() {
    assert_eq!(greeting("Ada"), "Hello, Ada!");
}

fn selection(query: bool) -> ModelSelection {
    ModelSelection {
        query: JsonValue::Bool(query),
        data_connector: connector("db"),
        join_locations: JoinLocations { locations: vec![("a".to_string(), leaf(Some(join("db2", 1))))] },
    }
}

fn command(source: DataConnectorCommand) -> LoweredCommand {
    LoweredCommand {
        field_name: "get_article".to_string(),
        command_name: Qualified { subgraph: "app".to_string(), name: CommandName("get_article".to_string()) },
        type_container: TypeContainer { base: BaseTypeContainer::Named(RegisteredTypeName("Article".to_string())), nullable: true },
        ndc_source: source,
        query: JsonValue::Null,
        data_connector: connector("db"),
        join_locations: JoinLocations::new(),
    }
}

#[test]
fn select_one_is_planned_as_an_object_query() {
    let plan = plan_query(LoweredQueryField::ModelSelectOne { field_name: "ArticleByID".to_string(), selection: selection(true) }).unwrap();
    let NodeQueryPlan::NDCQueryExecution(e) = plan else { panic!("expected a query") };
    assert_eq!(e.execution_span_attribute, "execute_model_select_one");
    assert_eq!(e.field_span_attribute, "ArticleByID");
    assert!(matches!(e.process_response_as, ProcessResponseAs::Object));
    assert_eq!(e.execution_tree.root_node.query, JsonValue::Bool(true));
    assert_eq!(e.execution_tree.remote_executions.locations[0].1.join_node.as_ref().unwrap().1, 1);
}

#[test]
fn select_many_is_planned_as_an_array_query() {
    let plan = plan_query(LoweredQueryField::ModelSelectMany { field_name: "Articles".to_string(), selection: selection(false) }).unwrap();
    let NodeQueryPlan::NDCQueryExecution(e) = plan else { panic!("expected a query") };
    assert_eq!(e.execution_span_attribute, "execute_model_select_many");
    assert!(matches!(e.process_response_as, ProcessResponseAs::Array));
}

#[test]
fn node_select_without_selection_stays_empty() {
    assert!(matches!(plan_query(LoweredQueryField::NodeSelect(None)).unwrap(), NodeQueryPlan::RelayNodeSelect(None)));
    let plan = plan_query(LoweredQueryField::NodeSelect(Some(selection(true)))).unwrap();
    let NodeQueryPlan::RelayNodeSelect(Some(e)) = plan else { panic!("expected a node query") };
    assert_eq!(e.execution_span_attribute, "execute_node");
    assert_eq!(e.field_span_attribute, "node");
}

#[test]
fn typename_and_introspection_are_planned_as_they_are() {
    let plan = plan_query(LoweredQueryField::TypeName { typename: "Query".to_string() }).unwrap();
    assert!(matches!(plan, NodeQueryPlan::TypeName { typename } if typename == "Query"));
    let plan = plan_query(LoweredQueryField::SchemaField { role: Role::new("user") }).unwrap();
    assert!(matches!(plan, NodeQueryPlan::SchemaField { role } if role == Role::new("user")));
}

#[test]
fn commands_must_come_from_the_right_root() {
    let plan = plan_query(LoweredQueryField::CommandRepresentation(command(DataConnectorCommand::Function("f".to_string())))).unwrap();
    let NodeQueryPlan::NDCQueryExecution(e) = plan else { panic!("expected a query") };
    assert_eq!(e.execution_span_attribute, "execute_command");
    assert_eq!(e.field_span_attribute, "get_article");
    assert!(matches!(e.process_response_as, ProcessResponseAs::CommandResponse { .. }));
    let err = plan_query(LoweredQueryField::CommandRepresentation(command(DataConnectorCommand::Procedure("p".to_string())))).unwrap_err();
    assert!(format!("{:?}", err).contains("unexpected procedure for command in Query root field"));
    let err = plan_mutation(LoweredMutationField::CommandRepresentation(command(DataConnectorCommand::Function("f".to_string())))).unwrap_err();
    assert!(format!("{:?}", err).contains("unexpected function for command in Mutation root field"));
    let plan = plan_mutation(LoweredMutationField::CommandRepresentation(command(DataConnectorCommand::Procedure("p".to_string())))).unwrap();
    assert!(matches!(plan, NodeQueryPlan::NDCMutationExecution(m) if m.execution_span_attribute == "execute_command"));
}

#[test]
fn query_plan_keeps_aliases_and_stops_at_the_first_error() {
    let ir = vec![
        ("t".to_string(), LoweredRootField::QueryRootField(LoweredQueryField::TypeName { typename: "Query".to_string() })),
        ("n".to_string(), LoweredRootField::QueryRootField(LoweredQueryField::NodeSelect(None))),
    ];
    let plan = generate_query_plan(ir).unwrap();
    assert_eq!(plan.len(), 2);
    assert_eq!(plan[0].0, "t");
    assert_eq!(plan[1].0, "n");
    let bad = vec![
        ("t".to_string(), LoweredRootField::QueryRootField(LoweredQueryField::TypeName { typename: "Query".to_string() })),
        ("p".to_string(), LoweredRootField::QueryRootField(LoweredQueryField::CommandRepresentation(command(DataConnectorCommand::Procedure("p".to_string()))))),
    ];
    assert!(generate_query_plan(bad).is_err());
}

#[test]
fn field_steps_follow_the_plan() {
    let plan = NodeQueryPlan::TypeName { typename: "Query".to_string() };
    assert!(matches!(field_response(&plan), FieldStep::Value(JsonValue::String(s)) if s == "Query"));
    let plan = NodeQueryPlan::RelayNodeSelect(None);
    assert!(matches!(field_response(&plan), FieldStep::Value(JsonValue::Null)));
    let plan = NodeQueryPlan::SchemaField { role: Role::new("user") };
    assert!(matches!(field_response(&plan), FieldStep::Introspection));
    let plan = plan_query(LoweredQueryField::ModelSelectMany { field_name: "Articles".to_string(), selection: selection(true) }).unwrap();
    assert!(matches!(field_response(&plan), FieldStep::Query(e) if e.field_span_attribute == "Articles"));
    let plan = plan_mutation(LoweredMutationField::CommandRepresentation(command(DataConnectorCommand::Procedure("p".to_string())))).unwrap();
    assert!(matches!(field_response(&plan), FieldStep::Mutation(m) if m.field_span_attribute == "get_article"));
}
