use net_sink::{
    attribute_matches,
    InstanceType, OneOrMany, QueryableSchema, SchemaType, Subschemas,
    ComponentSchema, ComponentType, CustomAttribute, Metadata, MetadataValue, QueryError,
    RootSchema, SchemaEntry, SchemaError, SchemaObject, SchemaQuerier,
};

fn bare(metadata: Metadata) -> SchemaObject {
    SchemaObject {
        metadata,
        description: None,
        title: None,
        subschemas: None,
        instance_type: Some(OneOrMany::One(InstanceType::Object)),
        const_value: None,
        enum_values: None,
    }
}

fn object(entries: Vec<(&str, MetadataValue)>) -> SchemaObject {
    bare(Metadata::Object(entries.into_iter().map(|(k, v)| (k.to_string(), v)).collect()))
}

fn kv(key: &str, value: &str) -> CustomAttribute {
    CustomAttribute::KeyValue { key: key.to_string(), value: value.to_string() }
}

fn root() -> RootSchema {
    RootSchema {
        definitions: vec![
            ("a_bool".to_string(), SchemaEntry::Bool(true)),
            (
                "b_sink".to_string(),
                SchemaEntry::Object(object(vec![
                    ("docs::component_type", MetadataValue::Str("sink".to_string())),
                    ("docs::component_name", MetadataValue::Str("statsd".to_string())),
                    ("docs::advanced", MetadataValue::Bool(true)),
                ])),
            ),
            (
                "c_source".to_string(),
                SchemaEntry::Object(object(vec![
                    ("docs::component_type", MetadataValue::Str("source".to_string())),
                    (
                        "docs::tags",
                        MetadataValue::Array(vec![Some("x".to_string()), Some("y".to_string())]),
                    ),
                ])),
            ),
            (
                "d_plain".to_string(),
                SchemaEntry::Object(bare(Metadata::Absent)),
            ),
        ],
    }
}

#[test]
fn query_without_constraints_matches_every_object() {
    let q = SchemaQuerier::new(root());
    assert_eq!(q.query().run().len(), 3);
}

#[test]
fn query_by_key_value_and_flag() {
    let q = SchemaQuerier::new(root());
    let found = q.query().with_custom_attribute(kv("docs::component_type", "sink")).run();
    assert_eq!(found.len(), 1);
    let flagged = q
        .query()
        .with_custom_attribute(CustomAttribute::Flag("docs::advanced".to_string()))
        .run_single()
        .ok()
        .unwrap();
    assert!(matches!(flagged.has_flag_attribute(&"docs::advanced".to_string()), Ok(true)));
    let tagged = q.query().with_custom_attribute(kv("docs::tags", "y")).run();
    assert_eq!(tagged.len(), 1);
    assert!(tagged[0].schema().can_read_attribute(&"docs::tags".to_string()));
    assert!(matches!(
        tagged[0].get_attribute(&"docs::tags".to_string()),
        Err(QueryError::AttributeMultipleValues)
    ));
    assert!(q.query().with_custom_attribute(kv("docs::tags", "z")).run().is_empty());
    assert!(q.query().with_custom_attribute(CustomAttribute::Flag("docs::component_type".to_string())).run().is_empty());
}

#[test]
fn run_single_reports_counts() {
    let q = SchemaQuerier::new(root());
    assert!(matches!(q.query().run_single(), Err(QueryError::MultipleMatches { len: 3 })));
    assert!(matches!(
        q.query().with_custom_attribute(kv("docs::component_type", "transform")).run_single(),
        Err(QueryError::NoMatches)
    ));
}

#[test]
fn attributes_of_a_schema() {
    let r = root();
    let obj = match &r.definitions[1].1 {
        SchemaEntry::Object(o) => o,
        SchemaEntry::Bool(_) => unreachable!(),
    };
    assert!(matches!(obj.has_flag_attribute(&"docs::missing".to_string()), Ok(false)));
    assert!(matches!(
        obj.has_flag_attribute(&"docs::component_name".to_string()),
        Err(QueryError::AttributeNotFlag)
    ));
    match obj.get_attribute(&"docs::component_name".to_string()) {
        Ok(Some(CustomAttribute::KeyValue { key, value })) => {
            assert_eq!(key, "docs::component_name");
            assert_eq!(value, "statsd");
        }
        _ => panic!("expected a key/value attribute"),
    }
    assert_eq!(QueryError::AttributeNotFlag.message(), "found matching attribute but was not a flag");
}

#[test]
fn component_schema_from_query() {
    let q = SchemaQuerier::new(root());
    let s = q.query().with_custom_attribute(kv("docs::component_type", "sink")).run_single().ok().unwrap();
    let c = ComponentSchema::try_from(s).ok().unwrap();
    assert_eq!(c.component_type(), ComponentType::Sink);
    assert_eq!(c.component_name(), "statsd");
    assert!(matches!(c.has_flag_attribute(&"docs::advanced".to_string()), Ok(true)));
    assert!(matches!(c.schema_type(), SchemaType::Typed(OneOrMany::One(InstanceType::Object))));
    match c.get_attributes(&"docs::component_type".to_string()) {
        Some(OneOrMany::One(CustomAttribute::KeyValue { value, .. })) => assert_eq!(value, "sink"),
        _ => panic!("expected one key/value"),
    }
}

#[test]
fn component_schema_needs_a_name() {
    let q = SchemaQuerier::new(root());
    let s = q.query().with_custom_attribute(kv("docs::component_type", "source")).run_single().ok().unwrap();
    match ComponentSchema::try_from(s) {
        Err(SchemaError::InvalidComponentSchema { pointer, reason }) => {
            assert_eq!(pointer, "docs::component_name");
            assert_eq!(reason, "attribute must be present");
        }
        Ok(_) => panic!("a component needs a name"),
    }
}

#[test]
fn schema_type_by_keyword() {
    let typed = bare(Metadata::Absent);
    assert!(matches!(typed.schema_type(), SchemaType::Typed(OneOrMany::One(InstanceType::Object))));

    let mut constant = bare(Metadata::Absent);
    constant.instance_type = None;
    constant.const_value = Some(serde_json::Value::Bool(true));
    match constant.schema_type() {
        SchemaType::Constant(v) => assert_eq!(*v, serde_json::Value::Bool(true)),
        _ => panic!("expected a constant"),
    }

    let mut enumerated = bare(Metadata::Absent);
    enumerated.instance_type = None;
    enumerated.enum_values = Some(vec![serde_json::Value::from("a"), serde_json::Value::from("b")]);
    match enumerated.schema_type() {
        SchemaType::Enum(v) => assert_eq!(v.len(), 2),
        _ => panic!("expected enumerated values"),
    }

    let mut many = bare(Metadata::Absent);
    many.instance_type = Some(OneOrMany::Many(vec![InstanceType::String, InstanceType::Null]));
    match many.schema_type() {
        SchemaType::Typed(OneOrMany::Many(v)) => assert_eq!(v, vec![InstanceType::String, InstanceType::Null]),
        _ => panic!("expected several types"),
    }

    let mut one_of = bare(Metadata::Absent);
    one_of.subschemas = Some(Subschemas { all_of: None, one_of: Some(vec![bare(Metadata::Absent), bare(Metadata::Absent)]) });
    match one_of.schema_type() {
        SchemaType::OneOf(v) => assert_eq!(v.len(), 2),
        _ => panic!("expected oneOf"),
    }

    let mut described = bare(Metadata::Absent);
    described.description = Some("The address.".to_string());
    assert_eq!(described.description(), Some("The address."));
    assert_eq!(described.title(), None);
}

#[test]
fn array_match_skips_non_strings() {
    let m = vec![(
        "docs::labels".to_string(),
        MetadataValue::Array(vec![None, Some("b".to_string())]),
    )];
    assert!(attribute_matches(&m, &kv("docs::labels", "b")));
    assert!(!attribute_matches(&m, &kv("docs::labels", "a")));
    assert!(!attribute_matches(&m, &CustomAttribute::Flag("docs::labels".to_string())));
    let o = object(vec![("docs::labels", MetadataValue::Array(vec![None]))]);
    assert!(!o.can_read_attribute(&"docs::labels".to_string()));
    assert!(o.can_read_attribute(&"docs::other".to_string()));
    assert!(!bare(Metadata::NotObject).can_read_attribute(&"docs::other".to_string()));
}
