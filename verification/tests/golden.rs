//! The properties the library is built around.

use filterspec::{
    leaves, parse, render, Column, Conjunction, FieldType, Json, Node, Query, Schema,
};
use rand::rngs::StdRng;
use rand::{Rng, SeedableRng};
use serde_json::Value;

fn column(name: &str, field_type: FieldType) -> Column {
    Column {
        column: name.into(),
        field_type,
        relation: None,
    }
}

fn object(entries: Vec<(&str, Value)>) -> Value {
    let mut map = serde_json::Map::new();
    for (key, value) in entries {
        map.insert(key.to_string(), value);
    }
    Value::Object(map)
}

/// Reads a filter out of the JSON a client would send.
fn node_of(json: &Value) -> Node {
    match json.get("children").and_then(Value::as_array) {
        Some(children) => Node::Group {
            conjunction: match json["conjunction"].as_str() {
                Some("$and") => Conjunction::And,
                Some("$or") => Conjunction::Or,
                Some("$not") => Conjunction::Not,
                other => panic!("no conjunction: {other:?}"),
            },
            children: children.iter().map(node_of).collect(),
        },
        None => Node::Leaf {
            field_type: match json["type"].as_str() {
                Some("string") => FieldType::String,
                Some("number") => FieldType::Number,
                other => panic!("no field type: {other:?}"),
            },
            field: json["field"].as_str().expect("a field").to_string(),
            relation: None,
            operator: json["operator"].as_str().expect("an operator").to_string(),
            value: Json::from_value(json["value"].clone()),
        },
    }
}

/// Every leaf that goes into the tree has to come out of it.
#[test]
fn fold_keeps_every_leaf() {
    let mut schema = Schema::new();
    schema.insert("name".to_string(), column("name", FieldType::String));
    schema.insert(
        "serviceId".to_string(),
        column("service_id", FieldType::Number),
    );

    let mut rng = StdRng::seed_from_u64(20_260_825);

    for _ in 0..500 {
        let node_json = random_node(&mut rng, 0);
        let expected = count_leaves(&node_json);

        let node = node_of(&node_json);
        let spec = parse(&node, &schema).expect("the tree is allowed");
        assert_eq!(
            leaves(&spec).len(),
            expected,
            "leaves were lost on {node_json}"
        );

        let query = Query {
            scope: Vec::new(),
            filter: Some(node),
        };
        let (sql, args) = render(&query, &schema).expect("the tree is allowed");
        assert_eq!(
            sql.matches('$').count(),
            args.len(),
            "placeholders and arguments differ: {sql}"
        );
    }
}

fn random_node(rng: &mut StdRng, depth: u32) -> Value {
    if depth >= 3 || rng.gen_range(0..3) == 0 {
        return if rng.gen_bool(0.5) {
            object(vec![
                ("type", Value::from("string")),
                ("field", Value::from("name")),
                ("operator", Value::from("$eq")),
                ("value", Value::from("v")),
            ])
        } else {
            object(vec![
                ("type", Value::from("number")),
                ("field", Value::from("serviceId")),
                ("operator", Value::from("$eq")),
                ("value", Value::from(rng.gen_range(0..100))),
            ])
        };
    }

    let conjunction = ["$and", "$or", "$not"][rng.gen_range(0..3)];
    let children: Vec<Value> = (0..rng.gen_range(1..4))
        .map(|_| random_node(rng, depth + 1))
        .collect();

    object(vec![
        ("conjunction", Value::from(conjunction)),
        ("children", Value::from(children)),
    ])
}

fn count_leaves(node: &Value) -> usize {
    match node.get("children").and_then(Value::as_array) {
        Some(children) => children.iter().map(count_leaves).sum(),
        None => 1,
    }
}

/// Makes sure no field name from the request reaches the SQL text.
#[test]
fn schema_is_the_only_source_of_identifiers() {
    let mut schema = Schema::new();
    schema.insert("name".to_string(), column("name", FieldType::String));

    let node = node_of(&object(vec![
        ("type", Value::from("string")),
        ("field", Value::from("name\"; DROP TABLE task; --")),
        ("operator", Value::from("$eq")),
        ("value", Value::from("x")),
    ]));

    let query = Query {
        scope: Vec::new(),
        filter: Some(node),
    };

    assert!(
        render(&query, &schema).is_err(),
        "a field outside the schema has to be an error"
    );
}
