use engine::open_dds::commands::{Command, CommandV1};
use engine::open_dds::names::{CommandName, ModelName};
use engine::open_dds::ndc_client::urlencode;
use engine::open_dds::relationships::{ModelRelationshipTarget, RelationshipType};
use engine::open_dds::types::{BaseType, CustomTypeName, InbuiltType, TypeName, TypeReference};

fn named(name: TypeName, nullable: bool) -> TypeReference {
    TypeReference { underlying_type: BaseType::Named(name), nullable }
}

#[test]
fn type_reference_reads_nested_lists() {
    let t = TypeReference::deserialize("[String!]!").unwrap();
    let expected = TypeReference {
        underlying_type: BaseType::List(Box::new(named(TypeName::Inbuilt(InbuiltType::String), false))),
        nullable: false,
    };
    assert_eq!(t, expected);
}

#[test]
fn type_reference_reads_custom_nullable_name() {
    let t = TypeReference::deserialize("author").unwrap();
    assert_eq!(t, named(TypeName::Custom(CustomTypeName("author".to_string())), true));
}

#[test]
fn type_reference_prints_what_it_reads() {
    for text in ["Int", "Int!", "[Int]", "[[ID!]]!", "article", "[article!]"] {
        let t = TypeReference::deserialize(text).unwrap();
        assert_eq!(t.to_string(), text);
    }
}

#[test]
fn type_reference_rejects_bad_text() {
    for text in ["", "!", "[Int", "Int]", "1abc", "[]", "Int!!"] {
        let e = TypeReference::deserialize(text).unwrap_err();
        assert_eq!(e, "data did not match any variant of untagged enum TypeName");
    }
}

#[test]
fn custom_type_name_rejects_inbuilt_and_invalid_names() {
    assert_eq!(CustomTypeName::new("author_1".to_string()).unwrap(), CustomTypeName("author_1".to_string()));
    assert_eq!(
        CustomTypeName::new("String".to_string()).unwrap_err(),
        "invalid custom type name: String"
    );
    assert_eq!(
        CustomTypeName::new("9lives".to_string()).unwrap_err(),
        "invalid custom type name: 9lives"
    );
}

#[test]
fn inbuilt_names_round_trip() {
    for t in [InbuiltType::ID, InbuiltType::Int, InbuiltType::Float, InbuiltType::Boolean, InbuiltType::String] {
        assert_eq!(InbuiltType::from_name(t.name()), Some(t));
    }
    assert_eq!(InbuiltType::from_name("int"), None);
}

#[test]
fn command_upgrade_gives_latest_version() {
    let v1 = CommandV1 {
        name: CommandName("get_author".to_string()),
        output_type: named(TypeName::Inbuilt(InbuiltType::Int), true),
        arguments: vec![],
        source: None,
        graphql: None,
    };
    let upgraded = Command::V1(v1).upgrade();
    assert_eq!(upgraded.name, CommandName("get_author".to_string()));
}

#[test]
fn urlencode_escapes_reserved_bytes() {
    assert_eq!(urlencode("a b&c=d"), "a+b%26c%3Dd");
    assert_eq!(urlencode("*-._AZaz09"), "*-._AZaz09");
    assert_eq!(urlencode("é/"), "%C3%A9%2F");
}

#[test]
fn relationship_target_prefers_subgraph_over_namespace() {
    let target = ModelRelationshipTarget {
        name: ModelName("articles".to_string()),
        namespace: Some("old".to_string()),
        subgraph: Some("new".to_string()),
        relationship_type: RelationshipType::Array,
    };
    assert_eq!(target.subgraph(), Some("new"));
    let legacy = ModelRelationshipTarget { subgraph: None, ..target };
    assert_eq!(legacy.subgraph(), Some("old"));
    let none = ModelRelationshipTarget { namespace: None, ..legacy };
    assert_eq!(none.subgraph(), None);
}
