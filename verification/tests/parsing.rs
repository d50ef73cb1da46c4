//! What is accepted, what it becomes, and why the rest is rejected.

use filterspec::parse::misfit_error;
use filterspec::{
    is_valueless, leaves, parse, positive_of, supports, Column, Conjunction, Error, FieldType,
    Json, Node, Pred, Schema, Spec,
};
use serde_json::Value;

fn schema() -> Schema {
    let mut schema = Schema::new();
    for (field, field_type) in [
        ("name", FieldType::String),
        ("serviceId", FieldType::Number),
        ("createdAt", FieldType::Date),
        ("active", FieldType::Boolean),
    ] {
        schema.insert(
            field.to_string(),
            Column {
                column: format!("{field}_column"),
                field_type,
                relation: None,
            },
        );
    }
    schema
}

fn text(value: &str) -> Json {
    Json::String(value.to_string())
}

fn leaf(field_type: FieldType, field: &str, operator: &str, value: Json) -> Node {
    Node::Leaf {
        field_type,
        field: field.to_string(),
        relation: None,
        operator: operator.to_string(),
        value,
    }
}

fn name_is(value: &str) -> Node {
    leaf(FieldType::String, "name", "$eq", text(value))
}

fn name_pred(value: &str) -> Pred {
    Pred {
        column: "name_column".to_string(),
        relation: None,
        field_type: FieldType::String,
        operator: "$eq".to_string(),
        value: Some(text(value)),
        range: None,
    }
}

fn group(conjunction: Conjunction, children: Vec<Node>) -> Node {
    Node::Group {
        conjunction,
        children,
    }
}

#[test]
fn groups_fold_into_one_node() {
    let children = || vec![name_is("a"), name_is("b")];
    let folded = || vec![Spec::Pred(name_pred("a")), Spec::Pred(name_pred("b"))];
    assert_eq!(
        parse(&group(Conjunction::And, children()), &schema()),
        Ok(Spec::And(folded()))
    );
    assert_eq!(
        parse(&group(Conjunction::Or, children()), &schema()),
        Ok(Spec::Or(folded()))
    );
    assert_eq!(
        parse(&group(Conjunction::Not, children()), &schema()),
        Ok(Spec::Not(Box::new(Spec::And(folded()))))
    );
}

#[test]
fn not_operators_wrap_the_positive_one() {
    let node = leaf(FieldType::String, "name", "$neq", text("a"));
    assert_eq!(
        parse(&node, &schema()),
        Ok(Spec::Not(Box::new(Spec::Pred(name_pred("a")))))
    );
}

#[test]
fn valueless_operators_drop_the_value() {
    let node = leaf(FieldType::Date, "createdAt", "$is_not_today", text("ignored"));
    assert_eq!(
        parse(&node, &schema()),
        Ok(Spec::Not(Box::new(Spec::Pred(Pred {
            column: "createdAt_column".to_string(),
            relation: None,
            field_type: FieldType::Date,
            operator: "$is_today".to_string(),
            value: None,
            range: None,
        }))))
    );
}

#[test]
fn leaves_come_out_in_order() {
    let node = group(
        Conjunction::Or,
        vec![
            name_is("a"),
            group(Conjunction::Not, vec![name_is("b"), name_is("c")]),
            leaf(FieldType::String, "name", "$neq", text("d")),
        ],
    );
    let spec = parse(&node, &schema()).unwrap();
    let found: Vec<Pred> = leaves(&spec).into_iter().cloned().collect();
    assert_eq!(
        found,
        vec![name_pred("a"), name_pred("b"), name_pred("c"), name_pred("d")]
    );
    assert_eq!(leaves(&spec.clone()).len(), 4);
}

#[test]
fn the_first_error_is_reported() {
    let node = group(
        Conjunction::And,
        vec![
            name_is("a"),
            leaf(FieldType::String, "nope", "$eq", text("b")),
            group(Conjunction::Or, Vec::new()),
        ],
    );
    assert_eq!(
        parse(&node, &schema()),
        Err(Error::UnknownField("nope".to_string()))
    );
}

#[test]
fn an_empty_group_is_rejected() {
    for conjunction in [Conjunction::And, Conjunction::Or, Conjunction::Not] {
        let error = parse(&group(conjunction, Vec::new()), &schema()).unwrap_err();
        assert_eq!(error, Error::EmptyGroup);
        assert_eq!(error.to_string(), "empty group");
    }
}

#[test]
fn an_unknown_field_is_rejected() {
    let error = parse(
        &leaf(FieldType::String, "password", "$eq", text("x")),
        &schema(),
    )
    .unwrap_err();
    assert_eq!(error.to_string(), "unknown field: password");
}

#[test]
fn a_wrong_type_is_rejected() {
    let error = parse(&leaf(FieldType::Date, "name", "$eq", text("x")), &schema()).unwrap_err();
    assert_eq!(
        error,
        Error::TypeMismatch("field name is string, filter says date".to_string())
    );
    assert_eq!(
        error.to_string(),
        "type mismatch: field name is string, filter says date"
    );
}

#[test]
fn an_unsupported_operator_is_rejected() {
    let error = parse(
        &leaf(FieldType::Boolean, "active", "$gt", Json::Bool(true)),
        &schema(),
    )
    .unwrap_err();
    assert_eq!(
        error,
        Error::UnsupportedOperator("$gt on boolean".to_string())
    );
    assert_eq!(error.to_string(), "unsupported operator: $gt on boolean");
}

#[test]
fn the_remaining_messages() {
    assert_eq!(Error::InvalidNode.to_string(), "invalid node");
    assert_eq!(FieldType::String.to_string(), "string");
    assert_eq!(FieldType::Number.to_string(), "number");
    assert_eq!(FieldType::Date.to_string(), "date");
    assert_eq!(FieldType::Boolean.to_string(), "boolean");
}

#[test]
fn a_value_that_does_not_fit_is_shown_as_json() {
    let mut map = serde_json::Map::new();
    map.insert("b".to_string(), Value::from(true));
    map.insert("a".to_string(), Value::from("x\"y"));
    let array = Value::from(vec![Value::Null, Value::from(1), Value::from("\n")]);
    for (value, shown) in [
        (Value::Null, "null"),
        (Value::from(false), "false"),
        (Value::from(-3), "-3"),
        (Value::from(1.5), "1.5"),
        (array, "[null,1,\"\\n\"]"),
        (Value::Object(map), "{\"a\":\"x\\\"y\",\"b\":true}"),
    ] {
        let node = leaf(FieldType::String, "name", "$eq", Json::from_value(value));
        let error = parse(&node, &schema()).unwrap_err();
        assert_eq!(
            error.to_string(),
            format!("invalid value: expected string, got {shown}")
        );
        assert_eq!(error, misfit_error(FieldType::String, shown));
    }
    let node = leaf(FieldType::Number, "serviceId", "$eq", text("a\"b"));
    assert_eq!(
        parse(&node, &schema()),
        Err(Error::InvalidValue("expected number, got \"a\\\"b\"".to_string()))
    );
    let node = leaf(FieldType::Boolean, "active", "$eq", Json::Null);
    assert_eq!(
        parse(&node, &schema()),
        Err(Error::InvalidValue("expected boolean, got null".to_string()))
    );
    let node = leaf(FieldType::Date, "createdAt", "$eq", Json::Bool(true));
    assert_eq!(
        parse(&node, &schema()),
        Err(Error::InvalidValue("expected date, got true".to_string()))
    );
}

#[test]
fn between_wants_a_pair_of_dates() {
    for (value, detail) in [
        (Json::Null, "$between expects a pair"),
        (text("2026-01-01"), "$between expects a pair"),
        (Json::Array(vec![text("2026-01-01")]), "$between expects a pair"),
        (
            Json::Array(vec![text("a"), text("b"), text("c")]),
            "$between expects a pair",
        ),
        (
            Json::Array(vec![text("2026-01-01"), Json::Null]),
            "$between expects two dates",
        ),
        (
            Json::Array(vec![Json::Bool(true), text("2026-01-01")]),
            "$between expects two dates",
        ),
    ] {
        let node = leaf(FieldType::Date, "createdAt", "$between", value);
        assert_eq!(
            parse(&node, &schema()),
            Err(Error::InvalidValue(detail.to_string()))
        );
    }
}

#[test]
fn types_and_their_operators() {
    let all = [
        "$eq", "$neq", "$gt", "$gte", "$lt", "$lte", "$contains", "$not_contains",
        "$starts_with", "$ends_with", "$regex", "$is_empty", "$is_not_empty", "$between",
        "$is_today", "$is_tomorrow", "$is_yesterday", "$is_not_today", "$EQ", "", "eq",
    ];
    for (field_type, supported) in [
        (
            FieldType::String,
            vec![
                "$eq", "$neq", "$contains", "$not_contains", "$starts_with", "$ends_with",
                "$regex", "$is_empty", "$is_not_empty",
            ],
        ),
        (
            FieldType::Number,
            vec![
                "$eq", "$neq", "$gt", "$gte", "$lt", "$lte", "$is_empty", "$is_not_empty",
            ],
        ),
        (
            FieldType::Date,
            vec![
                "$eq", "$neq", "$gt", "$gte", "$lt", "$lte", "$between", "$is_today",
                "$is_tomorrow", "$is_yesterday", "$is_not_today",
            ],
        ),
        (FieldType::Boolean, vec!["$eq", "$neq"]),
    ] {
        for operator in all {
            assert_eq!(
                supports(field_type, operator),
                supported.contains(&operator),
                "{operator} on {field_type:?}"
            );
        }
    }
    for operator in all {
        let positive = match operator {
            "$neq" => Some("$eq"),
            "$not_contains" => Some("$contains"),
            "$is_not_empty" => Some("$is_empty"),
            "$is_not_today" => Some("$is_today"),
            _ => None,
        };
        assert_eq!(positive_of(operator), positive);
        assert_eq!(is_valueless(operator), operator.starts_with("$is_"));
    }
}

#[test]
fn json_values_come_back_as_they_were() {
    let mut map = serde_json::Map::new();
    map.insert("k".to_string(), Value::from(vec![1, 2]));
    let value = Value::from(vec![
        Value::Null,
        Value::from(true),
        Value::from(0.1),
        Value::from("s"),
        Value::from(vec![Value::Null]),
        Value::Object(map),
    ]);
    let json = Json::from_value(value.clone());
    assert_eq!(json.to_value(), value);
    assert_eq!(json.clone(), json);
    assert_eq!(json.to_text(), "[null,true,0.1,\"s\",[null],{\"k\":[1,2]}]");
    match json {
        Json::Array(items) => {
            assert_eq!(items.len(), 6);
            assert_eq!(items[3], text("s"));
            assert_eq!(items[4], Json::Array(vec![Json::Null]));
        }
        other => panic!("not an array: {other:?}"),
    }
}

#[test]
fn schemas_replace_and_look_up() {
    let mut schema = schema();
    assert!(schema.get("nope").is_none());
    assert_eq!(schema.get("name").unwrap().column, "name_column");
    schema.insert(
        "name".to_string(),
        Column {
            column: "full_name".to_string(),
            field_type: FieldType::String,
            relation: Some("person".to_string()),
        },
    );
    let column = schema.get("name").unwrap().clone();
    assert_eq!(column.column, "full_name");
    assert_eq!(column.relation.as_deref(), Some("person"));
}

#[test]
fn a_not_operator_negates_the_positive_leaf() {
    for (field_type, field, negative, positive, value) in [
        (FieldType::String, "name", "$neq", "$eq", text("a")),
        (FieldType::String, "name", "$neq", "$eq", Json::Bool(true)),
        (FieldType::String, "missing", "$neq", "$eq", text("a")),
        (FieldType::String, "active", "$neq", "$eq", text("a")),
        (FieldType::Date, "createdAt", "$is_not_today", "$is_today", Json::Null),
    ] {
        let negated = parse(&leaf(field_type, field, negative, value.clone()), &schema());
        let plain = parse(&leaf(field_type, field, positive, value), &schema());
        assert_eq!(negated, plain.map(|spec| Spec::Not(Box::new(spec))));
    }
}

#[test]
fn the_relation_of_a_leaf_has_no_influence() {
    let related = Node::Leaf {
        field_type: FieldType::String,
        field: "name".to_string(),
        relation: Some("elsewhere".to_string()),
        operator: "$eq".to_string(),
        value: text("a"),
    };
    assert_eq!(parse(&related, &schema()), Ok(Spec::Pred(name_pred("a"))));
}

#[test]
fn a_parsed_predicate_carries_what_its_operator_takes() {
    let pair = Json::Array(vec![text("2024-01-01"), text("2024-02-01")]);
    let tree = parse(
        &group(
            Conjunction::Not,
            vec![
                leaf(FieldType::Date, "createdAt", "$between", pair),
                leaf(FieldType::Date, "createdAt", "$is_today", text("ignored")),
                name_is("a"),
            ],
        ),
        &schema(),
    )
    .unwrap();
    let carried: Vec<(bool, bool)> = leaves(&tree)
        .iter()
        .map(|pred| (pred.value.is_some(), pred.range.is_some()))
        .collect();
    assert_eq!(carried, vec![(false, true), (false, false), (true, false)]);
}

#[test]
fn the_same_types_support_both_operators_of_a_negation() {
    for field_type in [
        FieldType::String,
        FieldType::Number,
        FieldType::Date,
        FieldType::Boolean,
    ] {
        for negative in ["$neq", "$not_contains", "$is_not_empty", "$is_not_today"] {
            let positive = positive_of(negative).unwrap();
            assert_eq!(supports(field_type, negative), supports(field_type, positive));
            assert_eq!(positive_of(positive), None);
        }
    }
}
